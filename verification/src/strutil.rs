//! Character-level helpers shared by the classifier, the validator and the
//! parsers: ASCII-case-insensitive comparison and file-extension lookup on
//! '/'-separated path strings.

use vstd::prelude::*;

verus! {

/// ASCII decimal digit.
pub open spec fn is_digit_char(c: char) -> bool {
    48 <= c as u32 <= 57
}

/// Numeric value of an ASCII decimal digit.
pub open spec fn digit_val(c: char) -> int {
    c as u32 - 48
}

/// ASCII whitespace, as trimmed from the edges of metadata strings.
pub open spec fn ws_char(c: char) -> bool {
    c == ' ' || c == '\t' || c == '\n' || c == '\r'
}

/// The character's code with ASCII upper-case letters folded to lower case.
pub open spec fn lower_code(c: char) -> int {
    if 65 <= c as u32 <= 90 {
        c as u32 + 32
    } else {
        c as u32 as int
    }
}

/// Character-wise equality up to ASCII case.
pub open spec fn nocase_eq(a: Seq<char>, b: Seq<char>) -> bool {
    a.len() == b.len() && (forall|i: int| 0 <= i < a.len() ==> lower_code(a[i]) == lower_code(b[i]))
}

/// The part of a path after its last '/' (the whole path if it has none).
pub open spec fn file_name_of(path: Seq<char>) -> Seq<char>
    decreases path.len(),
{
    if path.len() == 0 {
        Seq::empty()
    } else if path.last() == '/' {
        Seq::empty()
    } else {
        file_name_of(path.drop_last()).push(path.last())
    }
}

/// The extension of a bare file name: what follows the last '.', provided
/// that dot is not the file name's first character. A name such as ".config"
/// has no extension; "archive." has the empty extension.
pub open spec fn ext_of_file_name(name: Seq<char>) -> Option<Seq<char>>
    decreases name.len(),
{
    if name.len() <= 1 {
        None
    } else if name.last() == '.' {
        Some(Seq::empty())
    } else {
        match ext_of_file_name(name.drop_last()) {
            Some(e) => Some(e.push(name.last())),
            None => None,
        }
    }
}

/// The extension of the file named by a '/'-separated path.
pub open spec fn ext_of(path: Seq<char>) -> Option<Seq<char>> {
    ext_of_file_name(file_name_of(path))
}

/// Compares two strings for equality up to ASCII case.
pub fn eq_ignore_ascii_case(a: &str, b: &str) -> (r: bool)
    ensures
        r == nocase_eq(a@, b@),
{
    let an = a.unicode_len();
    let bn = b.unicode_len();
    if an != bn {
        return false;
    }
    let mut i: usize = 0;
    while i < an
        invariant
            i <= an,
            an == a@.len(),
            an == b@.len(),
            forall|j: int| 0 <= j < i ==> lower_code(a@[j]) == lower_code(b@[j]),
        decreases an - i,
    {
        let ca = a.get_char(i) as u32;
        let cb = b.get_char(i) as u32;
        let la = if 65 <= ca && ca <= 90 {
            ca + 32
        } else {
            ca
        };
        let lb = if 65 <= cb && cb <= 90 {
            cb + 32
        } else {
            cb
        };
        if la != lb {
            return false;
        }
        i = i + 1;
    }
    true
}

/// Finds the extension of the file named by a '/'-separated path.
pub fn extension_of(path: &str) -> (r: Option<&str>)
    ensures
        match r {
            Some(e) => ext_of(path@) == Some(e@),
            None => ext_of(path@) is None,
        },
{
    let n = path.unicode_len();
    let mut i: usize = 0;
    let mut fname_len: usize = 0;
    let mut ext_start: Option<usize> = None;
    while i < n
        invariant
            i <= n,
            n == path@.len(),
            fname_len <= i,
            fname_len == file_name_of(path@.take(i as int)).len(),
            match ext_start {
                Some(st) => 0 < st <= i && ext_of_file_name(file_name_of(path@.take(i as int)))
                    == Some(path@.subrange(st as int, i as int)),
                None => ext_of_file_name(file_name_of(path@.take(i as int))) is None,
            },
        decreases n - i,
    {
        let c = path.get_char(i);
        proof {
            assert(path@.take(i + 1).drop_last() =~= path@.take(i as int));
            assert(path@.take(i + 1).last() == path@[i as int]);
            let fname = file_name_of(path@.take(i as int));
            assert(fname.push(path@[i as int]).drop_last() =~= fname);
            assert(fname.push(path@[i as int]).last() == path@[i as int]);
        }
        if c == '/' {
            fname_len = 0;
            ext_start = None;
        } else if c == '.' {
            if fname_len >= 1 {
                ext_start = Some(i + 1);
                proof {
                    assert(path@.subrange(i + 1, i + 1) =~= Seq::<char>::empty());
                }
            } else {
                ext_start = None;
            }
            fname_len = fname_len + 1;
        } else {
            proof {
                if ext_start is Some {
                    let st = ext_start->0 as int;
                    assert(path@.subrange(st, i + 1) =~= path@.subrange(st, i as int).push(
                        path@[i as int],
                    ));
                }
            }
            fname_len = fname_len + 1;
        }
        i = i + 1;
    }
    proof {
        assert(path@.take(n as int) =~= path@);
    }
    match ext_start {
        Some(st) => Some(path.substring_char(st, n)),
        None => None,
    }
}

} // verus!
