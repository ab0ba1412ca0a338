//! Deterministic destination names derived from capture timestamps, and the
//! validation of batch labels.

use vstd::prelude::*;
use crate::time::Timestamp;

verus! {

/// The ASCII character for a single decimal digit.
pub open spec fn digit_char(d: int) -> char
    recommends
        0 <= d <= 9,
{
    if d == 0 {
        '0'
    } else if d == 1 {
        '1'
    } else if d == 2 {
        '2'
    } else if d == 3 {
        '3'
    } else if d == 4 {
        '4'
    } else if d == 5 {
        '5'
    } else if d == 6 {
        '6'
    } else if d == 7 {
        '7'
    } else if d == 8 {
        '8'
    } else {
        '9'
    }
}

/// A number printed as exactly two decimal digits, zero-padded.
pub open spec fn dec2(n: int) -> Seq<char>
    recommends
        0 <= n < 100,
{
    seq![digit_char(n / 10), digit_char(n % 10)]
}

/// A number printed as exactly four decimal digits, zero-padded.
pub open spec fn dec4(n: int) -> Seq<char>
    recommends
        0 <= n < 10000,
{
    seq![
        digit_char(n / 1000),
        digit_char((n / 100) % 10),
        digit_char((n / 10) % 10),
        digit_char(n % 10),
    ]
}

/// The date-bucket folder for a timestamp: "YYYY/MM/DD", zero-padded, from
/// the UTC calendar date.
pub open spec fn folder_chars(t: Timestamp) -> Seq<char> {
    dec4(t.year as int) + seq!['/'] + dec2(t.month as int) + seq!['/'] + dec2(t.day as int)
}

/// The destination file name for a timestamp, batch label and extension:
/// "YYYYMMDD-HHMMSS-{label}.{extension}", all numeric fields zero-padded,
/// UTC wall-clock fields.
pub open spec fn filename_chars(t: Timestamp, label: Seq<char>, ext: Seq<char>) -> Seq<char> {
    dec4(t.year as int) + dec2(t.month as int) + dec2(t.day as int) + seq!['-'] + dec2(
        t.hour as int,
    ) + dec2(t.minute as int) + dec2(t.second as int) + seq!['-'] + label + seq!['.'] + ext
}

fn append_digit(out: &mut String, d: u32)
    requires
        d <= 9,
    ensures
        final(out)@ == old(out)@ + seq![digit_char(d as int)],
{
    match d {
        0 => {
            proof {
                reveal_strlit("0");
            }
            out.append("0");
        },
        1 => {
            proof {
                reveal_strlit("1");
            }
            out.append("1");
        },
        2 => {
            proof {
                reveal_strlit("2");
            }
            out.append("2");
        },
        3 => {
            proof {
                reveal_strlit("3");
            }
            out.append("3");
        },
        4 => {
            proof {
                reveal_strlit("4");
            }
            out.append("4");
        },
        5 => {
            proof {
                reveal_strlit("5");
            }
            out.append("5");
        },
        6 => {
            proof {
                reveal_strlit("6");
            }
            out.append("6");
        },
        7 => {
            proof {
                reveal_strlit("7");
            }
            out.append("7");
        },
        8 => {
            proof {
                reveal_strlit("8");
            }
            out.append("8");
        },
        _ => {
            proof {
                reveal_strlit("9");
            }
            out.append("9");
        },
    }
    proof {
        assert(out@ =~= old(out)@ + seq![digit_char(d as int)]);
    }
}

fn append_2digit(out: &mut String, v: u32)
    requires
        v < 100,
    ensures
        final(out)@ == old(out)@ + dec2(v as int),
{
    append_digit(out, v / 10);
    append_digit(out, v % 10);
    proof {
        assert(out@ =~= old(out)@ + dec2(v as int));
    }
}

fn append_4digit(out: &mut String, v: u32)
    requires
        v < 10000,
    ensures
        final(out)@ == old(out)@ + dec4(v as int),
{
    append_digit(out, v / 1000);
    append_digit(out, (v / 100) % 10);
    append_digit(out, (v / 10) % 10);
    append_digit(out, v % 10);
    proof {
        assert(out@ =~= old(out)@ + dec4(v as int));
    }
}

/// Prints the date-bucket folder "YYYY/MM/DD" for a timestamp.
pub fn generate_folder_path(t: &Timestamp) -> (r: String)
    requires
        t.wf(),
    ensures
        r@ == folder_chars(*t),
{
    let mut out = String::new();
    append_4digit(&mut out, t.year as u32);
    proof {
        reveal_strlit("/");
    }
    out.append("/");
    append_2digit(&mut out, t.month as u32);
    out.append("/");
    append_2digit(&mut out, t.day as u32);
    proof {
        assert(out@ =~= folder_chars(*t));
    }
    out
}

/// Prints the destination file name "YYYYMMDD-HHMMSS-{label}.{extension}".
pub fn generate_filename(t: &Timestamp, batch_name: &str, original_extension: &str) -> (r: String)
    requires
        t.wf(),
    ensures
        r@ == filename_chars(*t, batch_name@, original_extension@),
{
    let mut out = String::new();
    append_4digit(&mut out, t.year as u32);
    append_2digit(&mut out, t.month as u32);
    append_2digit(&mut out, t.day as u32);
    proof {
        reveal_strlit("-");
        reveal_strlit(".");
    }
    out.append("-");
    append_2digit(&mut out, t.hour as u32);
    append_2digit(&mut out, t.minute as u32);
    append_2digit(&mut out, t.second as u32);
    out.append("-");
    out.append(batch_name);
    out.append(".");
    out.append(original_extension);
    proof {
        assert(out@ =~= filename_chars(*t, batch_name@, original_extension@));
    }
    out
}

/// The date bucket cached on a record at scan time: the date folder of its
/// capture instant, or the sentinel "unknown-date" when it has none.
pub fn derive_folder_path(timestamp: &Option<Timestamp>) -> (r: String)
    requires
        *timestamp is Some ==> timestamp->0.wf(),
    ensures
        match *timestamp {
            Some(t) => r@ == folder_chars(t),
            None => r@ == "unknown-date"@,
        },
{
    match timestamp {
        Some(t) => generate_folder_path(t),
        None => String::from_str("unknown-date"),
    }
}

/// Why a batch label was rejected.
#[derive(Clone, Copy, Debug, PartialEq, Eq, Structural)]
pub enum BatchNameError {
    /// The label is the empty string.
    Empty,
    /// Some character is neither alphanumeric nor '-' nor '_'.
    InvalidCharacter,
    /// No character is alphanumeric (a label such as "---").
    NoAlphanumeric,
}

impl BatchNameError {
    /// A human-readable reason for the rejection.
    pub fn message(&self) -> (r: String)
        ensures
            *self is Empty ==> r@ == "Batch name cannot be empty"@,
            *self is InvalidCharacter ==> r@
                == "Batch name must contain only alphanumeric characters, hyphens, and underscores"@,
            *self is NoAlphanumeric ==> r@
                == "Batch name must contain at least one alphanumeric character"@,
    {
        match self {
            BatchNameError::Empty => String::from_str("Batch name cannot be empty"),
            BatchNameError::InvalidCharacter => String::from_str(
                "Batch name must contain only alphanumeric characters, hyphens, and underscores",
            ),
            BatchNameError::NoAlphanumeric => String::from_str(
                "Batch name must contain at least one alphanumeric character",
            ),
        }
    }
}

/// Whether the character counts as alphanumeric for batch labels.
pub uninterp spec fn is_alphanumeric_char(c: char) -> bool;

/// Relies on char::is_alphanumeric: whether the character is in one of the
/// Unicode letter or number categories, a property of the character alone.
/// ASCII digits and letters are alphanumeric.
#[verifier::external_body]
fn char_is_alphanumeric(c: char) -> (r: bool)
    ensures
        r == is_alphanumeric_char(c),
        (48 <= c as u32 <= 57) || (65 <= c as u32 <= 90) || (97 <= c as u32 <= 122) ==> r,
{
    c.is_alphanumeric()
}

/// A character allowed in a batch label.
pub open spec fn valid_name_char(c: char) -> bool {
    is_alphanumeric_char(c) || c == '-' || c == '_'
}

/// The verdict of the batch-label rules, checked in order: the label must
/// be non-empty, every character must be alphanumeric, '-' or '_', and at
/// least one character must be alphanumeric.
pub open spec fn batch_name_verdict(s: Seq<char>) -> Result<(), BatchNameError> {
    if s.len() == 0 {
        Err(BatchNameError::Empty)
    } else if !(forall|i: int| 0 <= i < s.len() ==> valid_name_char(s[i])) {
        Err(BatchNameError::InvalidCharacter)
    } else if !(exists|i: int| 0 <= i < s.len() && is_alphanumeric_char(s[i])) {
        Err(BatchNameError::NoAlphanumeric)
    } else {
        Ok(())
    }
}

/// Checks a batch label against the naming rules.
pub fn validate_batch_name(name: &str) -> (r: Result<(), BatchNameError>)
    ensures
        r == batch_name_verdict(name@),
{
    let n = name.unicode_len();
    if n == 0 {
        return Err(BatchNameError::Empty);
    }
    let mut has_alnum = false;
    let mut i: usize = 0;
    while i < n
        invariant
            i <= n,
            n == name@.len(),
            forall|j: int| 0 <= j < i ==> valid_name_char(name@[j]),
            has_alnum == exists|j: int| 0 <= j < i && is_alphanumeric_char(name@[j]),
        decreases n - i,
    {
        let c = name.get_char(i);
        let al = char_is_alphanumeric(c);
        if !al && c != '-' && c != '_' {
            return Err(BatchNameError::InvalidCharacter);
        }
        if al && !has_alnum {
            has_alnum = true;
            proof {
                assert(is_alphanumeric_char(name@[i as int]));
            }
        }
        i = i + 1;
    }
    if has_alnum {
        Ok(())
    } else {
        Err(BatchNameError::NoAlphanumeric)
    }
}

} // verus!
