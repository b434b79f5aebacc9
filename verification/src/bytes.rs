use vstd::prelude::*;
use vstd::string::StringExecFns;
use crate::text::{append_dec, dec_digits, eq_str, lower_of, to_lowercase};

verus! {

/// The unit in which a byte count is displayed. Each step is a factor of
/// 1024.
#[derive(Clone, Debug)]
pub enum Format {
    Bytes,
    KiloBytes,
    MegaBytes,
    GigaBytes,
    TeraBytes,
    PetaBytes,
    ExaBytes,
}

/// The suffix attached to a value displayed in the given unit.
pub open spec fn spec_unit(f: Format) -> Seq<char> {
    match f {
        Format::Bytes => seq!['B'],
        Format::KiloBytes => seq!['K', 'B'],
        Format::MegaBytes => seq!['M', 'B'],
        Format::GigaBytes => seq!['G', 'B'],
        Format::TeraBytes => seq!['T', 'B'],
        Format::PetaBytes => seq!['P', 'B'],
        Format::ExaBytes => seq!['E', 'B'],
    }
}

/// How many bytes one whole unit stands for.
pub open spec fn spec_unit_size(f: Format) -> int {
    match f {
        Format::Bytes => 1,
        Format::KiloBytes => 1024,
        Format::MegaBytes => 1048576,
        Format::GigaBytes => 1073741824,
        Format::TeraBytes => 1099511627776,
        Format::PetaBytes => 1125899906842624,
        Format::ExaBytes => 1152921504606846976,
    }
}

/// A byte count scaled to the given unit and rendered with exactly two
/// decimal places. The quotient is rounded to the nearest hundredth of a
/// unit, ties going to the even hundredth, and the unit suffix is appended.
pub open spec fn spec_format_bytes(bytes: u64, f: Format) -> Seq<char> {
    let num = (bytes as int) * 100;
    let den = spec_unit_size(f);
    let q = num / den;
    let rem = num % den;
    let rounded = if 2 * rem > den || (2 * rem == den && q % 2 == 1) {
        q + 1
    } else {
        q
    };
    dec_digits((rounded / 100) as nat) + seq!['.'] + dec_digits(((rounded / 10) % 10) as nat)
        + dec_digits((rounded % 10) as nat) + spec_unit(f)
}

fn unit_str(mode: &Format) -> (r: &'static str)
    ensures
        r@ == spec_unit(*mode),
{
    proof {
        reveal_strlit("B");
        reveal_strlit("KB");
        reveal_strlit("MB");
        reveal_strlit("GB");
        reveal_strlit("TB");
        reveal_strlit("PB");
        reveal_strlit("EB");
    }
    let r: &'static str = match mode {
        Format::Bytes => "B",
        Format::KiloBytes => "KB",
        Format::MegaBytes => "MB",
        Format::GigaBytes => "GB",
        Format::TeraBytes => "TB",
        Format::PetaBytes => "PB",
        Format::ExaBytes => "EB",
    };
    proof {
        assert(r@ =~= spec_unit(*mode));
    }
    r
}

/// Which unit a user-supplied keyword selects: its Unicode lowercase form
/// must spell one of the accepted aliases.
pub open spec fn spec_parse_format(s: Seq<char>) -> Option<Format> {
    let l = lower_of(s);
    if l == "bytes"@ || l == "b"@ {
        Some(Format::Bytes)
    } else if l == "kilo"@ || l == "kilobytes"@ || l == "kb"@ || l == "k"@ {
        Some(Format::KiloBytes)
    } else if l == "mega"@ || l == "megabytes"@ || l == "mb"@ || l == "m"@ {
        Some(Format::MegaBytes)
    } else if l == "giga"@ || l == "gigabytes"@ || l == "gb"@ || l == "g"@ {
        Some(Format::GigaBytes)
    } else if l == "tera"@ || l == "terabytes"@ || l == "tb"@ || l == "t"@ {
        Some(Format::TeraBytes)
    } else if l == "peta"@ || l == "petabytes"@ || l == "pb"@ || l == "p"@ {
        Some(Format::PetaBytes)
    } else if l == "exa"@ || l == "exabytes"@ || l == "eb"@ || l == "e"@ {
        Some(Format::ExaBytes)
    } else {
        None
    }
}

impl Format {
    /// The display suffix of this unit.
    pub fn unit(&self) -> (r: String)
        ensures
            r@ == spec_unit(*self),
    {
        unit_str(self).to_owned()
    }

    /// Parses a size-unit keyword, ignoring case: the input's Unicode
    /// lowercase form is matched against the accepted aliases.
    pub fn parse(s: &str) -> (r: Option<Format>)
        ensures
            r == spec_parse_format(s@),
    {
        let low = to_lowercase(s);
        let l = low.as_str();
        if eq_str(l, "bytes") || eq_str(l, "b") {
            Some(Format::Bytes)
        } else if eq_str(l, "kilo") || eq_str(l, "kilobytes") || eq_str(l, "kb") || eq_str(
            l,
            "k",
        ) {
            Some(Format::KiloBytes)
        } else if eq_str(l, "mega") || eq_str(l, "megabytes") || eq_str(l, "mb") || eq_str(
            l,
            "m",
        ) {
            Some(Format::MegaBytes)
        } else if eq_str(l, "giga") || eq_str(l, "gigabytes") || eq_str(l, "gb") || eq_str(
            l,
            "g",
        ) {
            Some(Format::GigaBytes)
        } else if eq_str(l, "tera") || eq_str(l, "terabytes") || eq_str(l, "tb") || eq_str(
            l,
            "t",
        ) {
            Some(Format::TeraBytes)
        } else if eq_str(l, "peta") || eq_str(l, "petabytes") || eq_str(l, "pb") || eq_str(
            l,
            "p",
        ) {
            Some(Format::PetaBytes)
        } else if eq_str(l, "exa") || eq_str(l, "exabytes") || eq_str(l, "eb") || eq_str(
            l,
            "e",
        ) {
            Some(Format::ExaBytes)
        } else {
            None
        }
    }
}

/// Renders a byte count in the given unit, as `spec_format_bytes` describes.
pub fn format(bytes: u64, mode: &Format) -> (r: String)
    ensures
        r@ == spec_format_bytes(bytes, *mode),
{
    let num: u128 = (bytes as u128) * 100;
    let den: u128 = match mode {
        Format::Bytes => 1,
        Format::KiloBytes => 1024,
        Format::MegaBytes => 1048576,
        Format::GigaBytes => 1073741824,
        Format::TeraBytes => 1099511627776,
        Format::PetaBytes => 1125899906842624,
        Format::ExaBytes => 1152921504606846976,
    };
    let q = num / den;
    let rem = num % den;
    let rounded = if 2 * rem > den || (2 * rem == den && q % 2 == 1) {
        q + 1
    } else {
        q
    };
    let mut s = String::new();
    append_dec(&mut s, rounded / 100);
    s.append(".");
    append_dec(&mut s, (rounded / 10) % 10);
    append_dec(&mut s, rounded % 10);
    s.append(unit_str(mode));
    proof {
        reveal_strlit(".");
        assert("."@ =~= seq!['.']);
        assert(s@ =~= spec_format_bytes(bytes, *mode));
    }
    s
}

/// One whole unit always displays as `1.00` followed by the unit's suffix:
/// scaling a byte count equal to the unit's own size yields exactly one.
pub proof fn lemma_format_one_unit(f: Format)
    ensures
        spec_format_bytes(spec_unit_size(f) as u64, f) == seq!['1', '.', '0', '0'] + spec_unit(f),
{
    let den = spec_unit_size(f);
    assert(den * 100 / den == 100 && den * 100 % den == 0) by (nonlinear_arith)
        requires
            den > 0,
    ;
    assert(dec_digits(1nat) =~= seq!['1']);
    assert(dec_digits(0nat) =~= seq!['0']);
    assert(spec_format_bytes(den as u64, f) =~= seq!['1', '.', '0', '0'] + spec_unit(f));
}

} // verus!
