//! Identifiers read from their text form.
use vstd::prelude::*;
use vstd::utf8::{is_ascii_chars, is_ascii_chars_encode_utf8};
use crate::fault::UlidFault;
use crate::ids::Ulid;
use crate::keys::id_span;
use crate::message::{base32_digit, base32_text, ulid_text};
use crate::text::utf8;

verus! {

/// The value of a digit in base 32, in either case.
pub open spec fn base32_place(letter: char) -> Option<int> {
    let code = if 'a' <= letter <= 'z' {
        letter as int - 32
    } else {
        letter as int
    };
    if '0' <= letter <= '9' {
        Some(code - 48)
    } else if 'A' as int <= code <= 'H' as int {
        Some(code - 55)
    } else if 'J' as int <= code <= 'K' as int {
        Some(code - 56)
    } else if 'M' as int <= code <= 'N' as int {
        Some(code - 57)
    } else if 'P' as int <= code <= 'T' as int {
        Some(code - 58)
    } else if 'V' as int <= code <= 'Z' as int {
        Some(code - 59)
    } else {
        None
    }
}

/// The number that digits in base 32 spell, the most significant first.
pub open spec fn base32_value(digits: Seq<char>) -> int
    decreases digits.len(),
{
    if digits.len() == 0 {
        0
    } else {
        base32_value(digits.drop_last()) * 32 + base32_place(digits.last())->Some_0
    }
}

/// The identifier that a text names: one of 26 digits in base 32. Of a number that is too
/// large, the leading bits fall off.
pub open spec fn ulid_read(text: Seq<char>) -> Result<u128, UlidFault> {
    if utf8(text).len() != 26 {
        Err(UlidFault::Length)
    } else if exists|i: int| 0 <= i < text.len() && base32_place(#[trigger] text[i]) is None {
        Err(UlidFault::Letter)
    } else {
        Ok((base32_value(text) % id_span()) as u128)
    }
}

/// Calls `from_string` of `ulid::Ulid`. A text whose UTF-8 form is not 26 bytes long is
/// refused for its length, and one that holds anything but digits in base 32, in either case,
/// for that. Any other is read as the number that its digits spell, the most significant
/// first, as far as it goes into 128 bits.
#[verifier::external_body]
fn parsed_ulid(text: &str) -> (r: Result<u128, UlidFault>)
    ensures
        r == ulid_read(text@),
{
    match ulid::Ulid::from_string(text) {
        Ok(id) => Ok(id.0),
        Err(ulid::DecodeError::InvalidLength) => Err(UlidFault::Length),
        Err(ulid::DecodeError::InvalidChar) => Err(UlidFault::Letter),
    }
}

impl Ulid {
    /// The identifier that a text names.
    pub fn read(text: &str) -> (r: Result<Ulid, UlidFault>)
        ensures
            r == (match ulid_read(text@) {
                Ok(id) => Ok::<Ulid, UlidFault>(Ulid(id)),
                Err(fault) => Err(fault),
            }),
    {
        match parsed_ulid(text) {
            Ok(id) => Ok(Ulid(id)),
            Err(fault) => Err(fault),
        }
    }
}

/// 32 to the power of `n`.
spec fn base32_span(n: nat) -> int
    decreases n,
{
    if n == 0 {
        1
    } else {
        32 * base32_span((n - 1) as nat)
    }
}

proof fn digits_have_places(value: int)
    requires
        0 <= value < 32,
    ensures
        base32_place(base32_digit(value)) == Some(value),
        '\0' <= base32_digit(value) <= '\u{7f}',
{
    assert(base32_digit(0) == '0');
    assert(base32_digit(1) == '1');
    assert(base32_digit(2) == '2');
    assert(base32_digit(3) == '3');
    assert(base32_digit(4) == '4');
    assert(base32_digit(5) == '5');
    assert(base32_digit(6) == '6');
    assert(base32_digit(7) == '7');
    assert(base32_digit(8) == '8');
    assert(base32_digit(9) == '9');
    assert(base32_digit(10) == 'A');
    assert(base32_digit(11) == 'B');
    assert(base32_digit(12) == 'C');
    assert(base32_digit(13) == 'D');
    assert(base32_digit(14) == 'E');
    assert(base32_digit(15) == 'F');
    assert(base32_digit(16) == 'G');
    assert(base32_digit(17) == 'H');
    assert(base32_digit(18) == 'J');
    assert(base32_digit(19) == 'K');
    assert(base32_digit(20) == 'M');
    assert(base32_digit(21) == 'N');
    assert(base32_digit(22) == 'P');
    assert(base32_digit(23) == 'Q');
    assert(base32_digit(24) == 'R');
    assert(base32_digit(25) == 'S');
    assert(base32_digit(26) == 'T');
    assert(base32_digit(27) == 'V');
    assert(base32_digit(28) == 'W');
    assert(base32_digit(29) == 'X');
    assert(base32_digit(30) == 'Y');
    assert(base32_digit(31) == 'Z');
}

proof fn digits_spell(value: int, n: nat)
    requires
        0 <= value < base32_span(n),
    ensures
        base32_text(value, n).len() == n,
        base32_value(base32_text(value, n)) == value,
        forall|i: int| 0 <= i < n ==> base32_place(#[trigger] base32_text(value, n)[i]) is Some,
        is_ascii_chars(base32_text(value, n)),
    decreases n,
{
    if n > 0 {
        let rest = base32_text(value / 32, (n - 1) as nat);
        let all = base32_text(value, n);
        assert(0 <= value / 32 < base32_span((n - 1) as nat));
        digits_spell(value / 32, (n - 1) as nat);
        digits_have_places(value % 32);
        assert(all.drop_last() =~= rest);
        assert forall|i: int| 0 <= i < n implies base32_place(#[trigger] all[i]) is Some && '\0' <= all[i] <= '\u{7f}' by {
            if i < n - 1 {
                assert(all[i] == rest[i]);
            }
        }
    }
}

/// An identifier is read back from its text form as itself.
pub proof fn texts_read_back(id: u128)
    ensures
        ulid_read(ulid_text(id)) == Result::<u128, UlidFault>::Ok(id),
{
    let text = ulid_text(id);
    assert(base32_span(26) == 4 * id_span()) by {
        reveal_with_fuel(base32_span, 27);
    }
    digits_spell(id as int, 26);
    reveal(utf8);
    is_ascii_chars_encode_utf8(text);
    assert(base32_value(text) % id_span() == id);
}

} // verus!
