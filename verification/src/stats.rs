use vstd::prelude::*;
use vstd::string::StringExecFns;
use crate::text::{append_dec, dec_digits, usize_dec_string};

verus! {

/// Counters accumulated during tree traversal: directories entered, files
/// seen (symbolic links count as files), and the total byte size of
/// counted files.
///
/// The counters report what the traversal observed: an entry is counted
/// when it is first read, so a directory whose listing later fails stays
/// counted even though its node is dropped. The counters only ever grow,
/// and saturate at the top of their types instead of overflowing.
#[derive(Clone, Copy, PartialEq, Eq, Structural, Debug)]
pub struct Statistics {
    /// The total count of directories.
    pub dirs: usize,
    /// The total count of files.
    pub files: usize,
    /// The total byte count.
    pub bytes: u64,
}

/// Addition on `usize` that stops at `usize::MAX` instead of overflowing.
pub open spec fn sat_add_usize(a: usize, b: usize) -> usize {
    if a + b <= usize::MAX {
        (a + b) as usize
    } else {
        usize::MAX
    }
}

/// Addition on `u64` that stops at `u64::MAX` instead of overflowing.
pub open spec fn sat_add_u64(a: u64, b: u64) -> u64 {
    if a + b <= u64::MAX {
        (a + b) as u64
    } else {
        u64::MAX
    }
}

/// The one-line summary report of the counters: the directory count, the
/// file count, and the byte total, each in decimal.
pub open spec fn spec_summary(s: Statistics) -> Seq<char> {
    dec_digits(s.dirs as nat) + " directories, "@ + dec_digits(s.files as nat) + " files ("@
        + dec_digits(s.bytes as nat) + " bytes)"@
}

impl Default for Statistics {
    /// A statistics value with every counter at zero.
    fn default() -> (r: Self)
        ensures
            r.dirs == 0,
            r.files == 0,
            r.bytes == 0,
    {
        Statistics { dirs: 0, files: 0, bytes: 0 }
    }
}

impl Statistics {
    /// Adds a specified number of directories to the total count.
    pub fn add_dirs(&mut self, n: usize)
        ensures
            final(self).dirs == sat_add_usize(old(self).dirs, n),
            final(self).files == old(self).files,
            final(self).bytes == old(self).bytes,
    {
        if self.dirs <= usize::MAX - n {
            self.dirs = self.dirs + n;
        } else {
            self.dirs = usize::MAX;
        }
    }

    /// Adds a specified number of files to the total count.
    pub fn add_files(&mut self, n: usize)
        ensures
            final(self).files == sat_add_usize(old(self).files, n),
            final(self).dirs == old(self).dirs,
            final(self).bytes == old(self).bytes,
    {
        if self.files <= usize::MAX - n {
            self.files = self.files + n;
        } else {
            self.files = usize::MAX;
        }
    }

    /// Renders the one-line summary report of the counters.
    pub fn summary(&self) -> (r: String)
        ensures
            r@ == spec_summary(*self),
    {
        let mut s = usize_dec_string(self.dirs);
        s.append(" directories, ");
        append_dec(&mut s, self.files as u128);
        s.append(" files (");
        append_dec(&mut s, self.bytes as u128);
        s.append(" bytes)");
        proof {
            assert(s@ =~= spec_summary(*self));
        }
        s
    }

    /// Adds a specified number of bytes to the total size.
    pub fn add_byte_size(&mut self, n: u64)
        ensures
            final(self).bytes == sat_add_u64(old(self).bytes, n),
            final(self).dirs == old(self).dirs,
            final(self).files == old(self).files,
    {
        if self.bytes <= u64::MAX - n {
            self.bytes = self.bytes + n;
        } else {
            self.bytes = u64::MAX;
        }
    }
}

} // verus!
