use vstd::prelude::*;
use vstd::string::StrSliceExecFns;
use vstd::string::StringExecFns;

verus! {

/// The character for one decimal digit.
pub open spec fn digit_char(d: nat) -> char {
    if d == 0 {
        '0'
    } else if d == 1 {
        '1'
    } else if d == 2 {
        '2'
    } else if d == 3 {
        '3'
    } else if d == 4 {
        '4'
    } else if d == 5 {
        '5'
    } else if d == 6 {
        '6'
    } else if d == 7 {
        '7'
    } else if d == 8 {
        '8'
    } else {
        '9'
    }
}

/// The decimal rendering of a natural number, most significant digit first.
pub open spec fn dec_digits(n: nat) -> Seq<char>
    decreases n,
{
    if n < 10 {
        seq![digit_char(n)]
    } else {
        dec_digits(n / 10).push(digit_char(n % 10))
    }
}

/// A one-character string for a single decimal digit.
fn digit_str(d: u128) -> (r: &'static str)
    requires
        d < 10,
    ensures
        r@ == seq![digit_char(d as nat)],
{
    proof {
        reveal_strlit("0");
        reveal_strlit("1");
        reveal_strlit("2");
        reveal_strlit("3");
        reveal_strlit("4");
        reveal_strlit("5");
        reveal_strlit("6");
        reveal_strlit("7");
        reveal_strlit("8");
        reveal_strlit("9");
    }
    let r: &'static str = if d == 0 {
        "0"
    } else if d == 1 {
        "1"
    } else if d == 2 {
        "2"
    } else if d == 3 {
        "3"
    } else if d == 4 {
        "4"
    } else if d == 5 {
        "5"
    } else if d == 6 {
        "6"
    } else if d == 7 {
        "7"
    } else if d == 8 {
        "8"
    } else {
        "9"
    };
    proof {
        assert(r@ =~= seq![digit_char(d as nat)]);
    }
    r
}

/// Appends the decimal rendering of `n` to `s`.
pub fn append_dec(s: &mut String, n: u128)
    ensures
        final(s)@ == old(s)@ + dec_digits(n as nat),
    decreases n,
{
    if n >= 10 {
        proof {
            assert(n / 10 < n) by (nonlinear_arith)
                requires
                    n >= 10,
            ;
        }
        append_dec(s, n / 10);
        s.append(digit_str(n % 10));
        proof {
            assert(old(s)@ + dec_digits((n / 10) as nat) + seq![digit_char((n % 10) as nat)]
                =~= old(s)@ + dec_digits(n as nat));
        }
    } else {
        s.append(digit_str(n));
        proof {
            assert(old(s)@ + seq![digit_char(n as nat)] =~= old(s)@ + dec_digits(n as nat));
        }
    }
}

/// The decimal rendering of `n` as a fresh string.
pub fn usize_dec_string(n: usize) -> (r: String)
    ensures
        r@ == dec_digits(n as nat),
{
    let mut s = String::new();
    append_dec(&mut s, n as u128);
    proof {
        assert(Seq::<char>::empty() + dec_digits(n as nat) =~= dec_digits(n as nat));
    }
    s
}

/// A directory path extended by one entry name. A separator is inserted
/// unless the directory already ends in one.
pub open spec fn spec_join_path(dir: Seq<char>, name: Seq<char>) -> Seq<char> {
    if dir.len() > 0 && dir.last() == '/' {
        dir + name
    } else {
        dir + seq!['/'] + name
    }
}

/// Joins a directory path and an entry name with a single separator.
pub fn join_path(dir: &str, name: &str) -> (r: String)
    ensures
        r@ == spec_join_path(dir@, name@),
{
    let n = dir.unicode_len();
    let mut s = dir.to_owned();
    if n == 0 || dir.get_char(n - 1) != '/' {
        s.append("/");
    }
    s.append(name);
    proof {
        reveal_strlit("/");
        assert("/"@ =~= seq!['/']);
        assert(s@ =~= spec_join_path(dir@, name@));
    }
    s
}

/// A path relative to the traversal root, extended by one more segment.
pub open spec fn spec_join_rel(rel: Seq<char>, name: Seq<char>) -> Seq<char> {
    if rel.len() == 0 {
        name
    } else {
        spec_join_path(rel, name)
    }
}

/// Joins a root-relative path and an entry name; the root itself is the
/// empty relative path and contributes no separator.
pub fn join_rel(rel: &str, name: &str) -> (r: String)
    ensures
        r@ == spec_join_rel(rel@, name@),
{
    if rel.is_empty() {
        name.to_owned()
    } else {
        join_path(rel, name)
    }
}

/// `s` with every trailing `/` removed.
pub open spec fn trim_slashes(s: Seq<char>) -> Seq<char>
    decreases s.len(),
{
    if s.len() > 0 && s.last() == '/' {
        trim_slashes(s.drop_last())
    } else {
        s
    }
}

/// The characters of `s` after its last `/`.
pub open spec fn last_segment(s: Seq<char>) -> Seq<char>
    decreases s.len(),
{
    if s.len() == 0 {
        s
    } else if s.last() == '/' {
        Seq::empty()
    } else {
        last_segment(s.drop_last()).push(s.last())
    }
}

/// Trimming trailing separators never lengthens a path.
pub proof fn lemma_trim_le(s: Seq<char>)
    ensures
        trim_slashes(s).len() <= s.len(),
    decreases s.len(),
{
    if s.len() > 0 && s.last() == '/' {
        lemma_trim_le(s.drop_last());
    }
}

/// The file-name component of a path, as `std::path::Path::file_name`
/// reports it for plain paths: trailing separators and trailing `.`
/// segments are skipped; `None` where nothing is left or the final
/// remaining segment is `..`.
pub open spec fn spec_file_name(s: Seq<char>) -> Option<Seq<char>>
    decreases s.len(),
{
    let t = trim_slashes(s);
    if t.len() == 0 {
        None
    } else {
        let seg = last_segment(t);
        if seg == seq!['.'] {
            proof {
                lemma_trim_le(s);
            }
            spec_file_name(t.drop_last())
        } else if seg == seq!['.', '.'] {
            None
        } else {
            Some(seg)
        }
    }
}

proof fn lemma_file_name_of_trimmed(u1: Seq<char>, u2: Seq<char>)
    requires
        trim_slashes(u1) == trim_slashes(u2),
    ensures
        spec_file_name(u1) == spec_file_name(u2),
{
}

/// The display name of a path: its file-name component, or — where the
/// path has none (empty, only separators and `.` segments, or ending in
/// `..`) — the path itself, spelled as given.
pub open spec fn spec_base_name(s: Seq<char>) -> Seq<char> {
    match spec_file_name(s) {
        Some(seg) => seg,
        None => s,
    }
}

proof fn lemma_last_segment(t: Seq<char>, start: int)
    requires
        0 <= start <= t.len(),
        forall|i: int| start <= i < t.len() ==> t[i] != '/',
        start > 0 ==> t[start - 1] == '/',
    ensures
        last_segment(t) == t.subrange(start, t.len() as int),
    decreases t.len(),
{
    if start == t.len() {
        if t.len() == 0 {
            assert(last_segment(t) =~= t.subrange(start, t.len() as int));
        } else {
            assert(t.last() == t[start - 1]);
            assert(last_segment(t) =~= t.subrange(start, t.len() as int));
        }
    } else {
        assert(t.last() == t[t.len() - 1]);
        assert(t[t.len() - 1] != '/');
        let u = t.drop_last();
        assert(forall|i: int| start <= i < u.len() ==> u[i] == t[i]);
        if start > 0 {
            assert(u[start - 1] == t[start - 1]);
        }
        lemma_last_segment(u, start);
        assert(last_segment(t) == last_segment(u).push(t.last()));
        assert(last_segment(u).push(t.last()) =~= t.subrange(start, t.len() as int));
    }
}

/// The display name of a path, as `spec_base_name` describes it.
pub fn base_name(path: &str) -> (r: String)
    ensures
        r@ == spec_base_name(path@),
{
    let n = path.unicode_len();
    proof {
        assert(path@.subrange(0, n as int) =~= path@);
    }
    let mut end = n;
    #[verifier::loop_isolation(false)]
    loop
        invariant
            end <= n,
            n == path@.len(),
            spec_file_name(path@) == spec_file_name(path@.subrange(0, end as int)),
        decreases end,
    {
        let ghost end0 = end as int;
        while end > 0 && path.get_char(end - 1) == '/'
            invariant
                end <= n,
                n == path@.len(),
                end as int <= end0 <= n as int,
                trim_slashes(path@.subrange(0, end0)) == trim_slashes(
                    path@.subrange(0, end as int),
                ),
            decreases end,
        {
            proof {
                let t = path@.subrange(0, end as int);
                assert(t.last() == path@[end - 1]);
                assert(t.drop_last() =~= path@.subrange(0, end - 1));
            }
            end = end - 1;
        }
        proof {
            lemma_file_name_of_trimmed(
                path@.subrange(0, end0),
                path@.subrange(0, end as int),
            );
        }
        if end == 0 {
            proof {
                assert(path@.subrange(0, 0) =~= Seq::<char>::empty());
                assert(spec_file_name(path@) is None);
            }
            return path.to_owned();
        }
        let ghost t = path@.subrange(0, end as int);
        proof {
            assert(t.last() == path@[end - 1]);
            assert(trim_slashes(t) == t);
        }
        let mut start = end;
        while start > 0 && path.get_char(start - 1) != '/'
            invariant
                start <= end,
                end <= n,
                n == path@.len(),
                forall|i: int| start <= i < end ==> path@[i] != '/',
            decreases start,
        {
            start = start - 1;
        }
        proof {
            assert(forall|i: int| start <= i < t.len() ==> t[i] == path@[i]);
            if start > 0 {
                assert(t[start - 1] == path@[start - 1]);
            }
            lemma_last_segment(t, start as int);
            assert(last_segment(t) =~= path@.subrange(start as int, end as int));
        }
        if end - start == 1 && path.get_char(start) == '.' {
            proof {
                assert(last_segment(t) =~= seq!['.']);
                assert(t.drop_last() =~= path@.subrange(0, end - 1));
                assert(spec_file_name(path@.subrange(0, end as int)) == spec_file_name(
                    path@.subrange(0, end - 1),
                ));
            }
            end = end - 1;
        } else if end - start == 2 && path.get_char(start) == '.' && path.get_char(start + 1)
            == '.' {
            proof {
                assert(last_segment(t) =~= seq!['.', '.']);
                assert(spec_file_name(path@) is None);
            }
            return path.to_owned();
        } else {
            let seg = path.substring_char(start, end);
            proof {
                let ls = last_segment(t);
                assert(ls.len() == end - start);
                if ls == seq!['.'] {
                    assert(ls[0] == path@[start as int]);
                    assert(false);
                }
                if ls == seq!['.', '.'] {
                    assert(ls[0] == path@[start as int]);
                    assert(ls[1] == path@[start + 1]);
                    assert(false);
                }
                assert(spec_file_name(path@) == Some(ls));
            }
            return seg.to_owned();
        }
    }
}

/// What `str::to_lowercase` returns: the Unicode lowercase form of a
/// character sequence, a function of the characters alone.
pub uninterp spec fn lower_of(s: Seq<char>) -> Seq<char>;

/// Relies on `str::to_lowercase`: the Unicode lowercase mapping of the
/// string, which depends on its characters alone.
#[verifier::external_body]
pub(crate) fn to_lowercase(s: &str) -> (r: String)
    ensures
        r@ == lower_of(s@),
{
    s.to_lowercase()
}

/// Whether two strings spell exactly the same characters.
pub fn eq_str(a: &str, b: &str) -> (r: bool)
    ensures
        r == (a@ == b@),
{
    let n = a.unicode_len();
    let m = b.unicode_len();
    if n != m {
        return false;
    }
    let mut i: usize = 0;
    while i < n
        invariant
            i <= n,
            n == a@.len(),
            n == b@.len(),
            forall|j: int| 0 <= j < i ==> a@[j] == b@[j],
        decreases n - i,
    {
        if a.get_char(i) != b.get_char(i) {
            return false;
        }
        i = i + 1;
    }
    proof {
        assert(a@ =~= b@);
    }
    true
}

} // verus!