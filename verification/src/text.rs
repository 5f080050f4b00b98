//! Text helpers around the slot interface and the default hooks: the
//! NUL-terminated view the engine takes of a string slot, decimal rendering
//! of line numbers, the formatted diagnostic lines of the default error hook,
//! and the file-name candidates of the default module loader.

use crate::types::ErrorType;
use vstd::prelude::*;
use vstd::string::StringExecFns;
use vstd::string::StringSliceAdditionalSpecFns;
use vstd::utf8::encode_utf8;
use vstd::utf8::valid_utf8;

verus! {

broadcast use vstd::seq::group_seq_axioms;

/// The position of the first NUL byte, or the length if there is none: where
/// the engine's C view of a string ends.
pub open spec fn first_nul(b: Seq<u8>) -> int
    decreases b.len(),
{
    if b.len() == 0 {
        0
    } else if b[0] == 0 {
        0
    } else {
        1 + first_nul(b.skip(1))
    }
}

/// The bytes before the first NUL byte: what the engine hands out when a
/// string slot is read through the C-string interface.
pub open spec fn nul_prefix(b: Seq<u8>) -> Seq<u8> {
    b.take(first_nul(b))
}

/// `first_nul` is pinned down by its two defining facts: no NUL before it,
/// and a NUL (or the end) at it.
pub proof fn lemma_first_nul_is(b: Seq<u8>, i: int)
    requires
        0 <= i <= b.len(),
        forall|j: int| 0 <= j < i ==> b[j] != 0,
        i == b.len() || b[i] == 0,
    ensures
        first_nul(b) == i,
    decreases b.len(),
{
    if b.len() == 0 {
    } else if b[0] == 0 {
        assert(i == 0);
    } else {
        assert(i >= 1);
        let t = b.skip(1);
        assert forall|j: int| 0 <= j < i - 1 implies t[j] != 0 by {
            assert(b[j + 1] != 0);
        }
        lemma_first_nul_is(t, i - 1);
    }
}

/// A byte sequence without NUL bytes is its own NUL prefix.
pub proof fn lemma_nul_prefix_whole(b: Seq<u8>)
    requires
        forall|j: int| 0 <= j < b.len() ==> b[j] != 0,
    ensures
        nul_prefix(b) == b,
{
    lemma_first_nul_is(b, b.len() as int);
    assert(b.take(b.len() as int) =~= b);
}

/// The bytes of `bytes` before the first NUL byte, as a fresh vector.
pub fn nul_prefix_of(bytes: &[u8]) -> (r: Vec<u8>)
    ensures
        r@ == nul_prefix(bytes@),
{
    let mut out: Vec<u8> = Vec::new();
    let mut i: usize = 0;
    while i < bytes.len() && bytes[i] != 0
        invariant
            0 <= i <= bytes@.len(),
            out@ == bytes@.take(i as int),
            forall|j: int| 0 <= j < i ==> bytes@[j] != 0,
        decreases bytes@.len() - i,
    {
        out.push(bytes[i]);
        proof {
            assert(out@ =~= bytes@.take(i + 1 as int));
        }
        i = i + 1;
    }
    proof {
        lemma_first_nul_is(bytes@, i as int);
    }
    out
}

/// Whether the text's encoding contains a NUL byte.  The engine takes script
/// source, signatures and names as C strings, so text with an interior NUL
/// cannot be handed to it; the raw layer fails fast on such text, and callers
/// can test for it first with this function.
pub fn has_interior_nul(s: &str) -> (r: bool)
    ensures
        r == exists|i: int| 0 <= i < s.spec_bytes().len() && s.spec_bytes()[i] == 0,
{
    let bytes = s.as_bytes();
    let mut i: usize = 0;
    while i < bytes.len()
        invariant
            0 <= i <= bytes@.len(),
            bytes@ == s.spec_bytes(),
            forall|j: int| 0 <= j < i ==> bytes@[j] != 0,
        decreases bytes@.len() - i,
    {
        if bytes[i] == 0 {
            return true;
        }
        i = i + 1;
    }
    false
}

/// Relies on std's `String::from_utf8`: it succeeds exactly on valid UTF-8
/// and returns the string whose encoding is the given bytes, as vstd's own
/// specification of `str::from_utf8_unchecked` states the same
/// correspondence.
#[verifier::external_body]
fn utf8_to_string(bytes: &[u8]) -> (r: Option<String>)
    ensures
        r is Some <==> valid_utf8(bytes@),
        r matches Some(s) ==> encode_utf8(s@) == bytes@,
{
    String::from_utf8(bytes.to_vec()).ok()
}

/// The bytes before the first NUL, decoded as text: what reading a string
/// slot through the C-string interface yields.  Absent when those bytes are
/// not valid UTF-8 — the raw layer fails fast in that case.
pub fn c_string_text(bytes: &[u8]) -> (r: Option<String>)
    ensures
        r is Some <==> valid_utf8(nul_prefix(bytes@)),
        r matches Some(s) ==> encode_utf8(s@) == nul_prefix(bytes@),
{
    let prefix = nul_prefix_of(bytes);
    utf8_to_string(prefix.as_slice())
}

/// The decimal digits of a non-negative integer, most significant first.
pub open spec fn dec_chars(n: int) -> Seq<char>
    recommends
        n >= 0,
    decreases n,
{
    if n < 10 {
        seq![digit_char(n)]
    } else {
        dec_chars(n / 10).push(digit_char(n % 10))
    }
}

/// The decimal rendering of an integer: a minus sign before the digits of the
/// magnitude when negative.
pub open spec fn int_chars(n: int) -> Seq<char> {
    if n < 0 {
        seq!['-'] + dec_chars(-n)
    } else {
        dec_chars(n)
    }
}

/// The character for one decimal digit.
pub open spec fn digit_char(d: int) -> char
    recommends
        0 <= d <= 9,
{
    if d == 0 {
        '0'
    } else if d == 1 {
        '1'
    } else if d == 2 {
        '2'
    } else if d == 3 {
        '3'
    } else if d == 4 {
        '4'
    } else if d == 5 {
        '5'
    } else if d == 6 {
        '6'
    } else if d == 7 {
        '7'
    } else if d == 8 {
        '8'
    } else {
        '9'
    }
}

/// One decimal digit as text.
fn digit_str(d: u32) -> (r: &'static str)
    requires
        d <= 9,
    ensures
        r@ == seq![digit_char(d as int)],
{
    let r = match d {
        0 => "0",
        1 => "1",
        2 => "2",
        3 => "3",
        4 => "4",
        5 => "5",
        6 => "6",
        7 => "7",
        8 => "8",
        _ => "9",
    };
    proof {
        reveal_strlit("0");
        reveal_strlit("1");
        reveal_strlit("2");
        reveal_strlit("3");
        reveal_strlit("4");
        reveal_strlit("5");
        reveal_strlit("6");
        reveal_strlit("7");
        reveal_strlit("8");
        reveal_strlit("9");
        assert(r@ =~= seq![digit_char(d as int)]);
    }
    r
}

/// The decimal rendering of a non-negative number.
pub fn u32_dec(n: u32) -> (r: String)
    ensures
        r@ == dec_chars(n as int),
    decreases n,
{
    if n < 10 {
        digit_str(n).to_owned()
    } else {
        let mut s = u32_dec(n / 10);
        s.append(digit_str(n % 10));
        proof {
            assert(s@ =~= dec_chars((n / 10) as int).push(digit_char((n % 10) as int)));
        }
        s
    }
}

/// The decimal rendering of a possibly negative number, as the default error
/// hook prints line numbers.
pub fn i32_dec(n: i32) -> (r: String)
    ensures
        r@ == int_chars(n as int),
{
    if n >= 0 {
        u32_dec(n as u32)
    } else {
        let mag: u32 = (-(n as i64)) as u32;
        let mut s = "-".to_owned();
        s.append(u32_dec(mag).as_str());
        proof {
            reveal_strlit("-");
            assert(s@ =~= seq!['-'] + dec_chars(mag as int));
        }
        s
    }
}

/// The line the default error hook prints for a diagnostic: compile
/// diagnostics and stack-trace frames carry the module name and the line
/// number; a runtime error is its message alone.
pub open spec fn error_line(
    kind: ErrorType,
    module: Seq<char>,
    line: int,
    message: Seq<char>,
) -> Seq<char> {
    match kind {
        ErrorType::Compile => "["@ + module + " line "@ + int_chars(line) + "] "@ + message,
        ErrorType::Runtime => message,
        ErrorType::StackTrace => "["@ + module + " line "@ + int_chars(line) + "] in "@ + message,
    }
}

/// The diagnostic line the default error hook prints, distinguishing the
/// three error categories.
pub fn default_error_message(kind: ErrorType, module: &str, line: i32, message: &str) -> (r:
    String)
    ensures
        r@ == error_line(kind, module@, line as int, message@),
{
    match kind {
        ErrorType::Runtime => message.to_owned(),
        ErrorType::Compile => {
            let mut out = "[".to_owned();
            out.append(module);
            out.append(" line ");
            let digits = i32_dec(line);
            out.append(digits.as_str());
            out.append("] ");
            out.append(message);
            proof {
                assert(out@ =~= error_line(kind, module@, line as int, message@));
            }
            out
        },
        ErrorType::StackTrace => {
            let mut out = "[".to_owned();
            out.append(module);
            out.append(" line ");
            let digits = i32_dec(line);
            out.append(digits.as_str());
            out.append("] in ");
            out.append(message);
            proof {
                assert(out@ =~= error_line(kind, module@, line as int, message@));
            }
            out
        },
    }
}

/// The two file names the default module loader probes for a module: the
/// module's own name with the script extension, and a module file inside a
/// directory of that name.
pub fn module_file_candidates(name: &str) -> (r: (String, String))
    ensures
        r.0@ == name@ + ".wren"@,
        r.1@ == name@ + "/module.wren"@,
{
    let direct = name.to_owned().concat(".wren");
    let nested = name.to_owned().concat("/module.wren");
    (direct, nested)
}

} // verus!
