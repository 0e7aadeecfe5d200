//! Text of 128-bit identifiers.

use ulid::Ulid;
use uuid::Uuid;
use vstd::prelude::*;

use crate::text::to_ascii_lower;

verus! {

/// The digit `d` of Crockford's base 32.
pub open spec fn base32_char(d: int) -> char {
    if d < 10 {
        (d + '0' as int) as char
    } else if d < 18 {
        (d - 10 + 'A' as int) as char
    } else if d < 20 {
        (d - 18 + 'J' as int) as char
    } else if d < 22 {
        (d - 20 + 'M' as int) as char
    } else if d < 27 {
        (d - 22 + 'P' as int) as char
    } else {
        (d - 27 + 'V' as int) as char
    }
}

/// The hexadecimal digit `d`, in lower case.
pub open spec fn hex_char(d: int) -> char {
    if d < 10 {
        (d + '0' as int) as char
    } else {
        (d - 10 + 'a' as int) as char
    }
}

/// The last `width` digits of `n` in base 32.
pub open spec fn base32_digits(n: nat, width: nat) -> Seq<char>
    decreases width,
{
    if width == 0 {
        seq![]
    } else {
        base32_digits(n / 32, (width - 1) as nat).push(base32_char((n % 32) as int))
    }
}

/// The last `width` digits of `n` in base 16.
pub open spec fn hex_digits(n: nat, width: nat) -> Seq<char>
    decreases width,
{
    if width == 0 {
        seq![]
    } else {
        hex_digits(n / 16, (width - 1) as nat).push(hex_char((n % 16) as int))
    }
}

/// A ULID as text: twenty-six digits in base 32.
pub open spec fn ulid_text(id: u128) -> Seq<char> {
    base32_digits(id as nat, 26)
}

/// A UUID as text: thirty-two hexadecimal digits, in groups of 8, 4, 4, 4 and 12.
pub open spec fn uuid_text(id: u128) -> Seq<char> {
    let digits = hex_digits(id as nat, 32);
    digits.subrange(0, 8) + "-"@ + digits.subrange(8, 12) + "-"@ + digits.subrange(12, 16) + "-"@
        + digits.subrange(16, 20) + "-"@ + digits.subrange(20, 32)
}

/// Calls `ulid::Ulid::to_string`, which writes a ULID in Crockford's base 32.
///
/// Claimed: the text is `ulid_text` of the identifier.
#[verifier::external_body]
pub(crate) fn ulid_to_string(id: u128) -> (text: String)
    ensures
        text@ == ulid_text(id),
{
    Ulid(id).to_string()
}

/// Calls `ulid::Ulid::new`, which makes an identifier of the time and of random bits.
///
/// Nothing is claimed of the identifier, which depends on the clock and on chance.
#[verifier::external_body]
fn new_ulid() -> (id: u128) {
    Ulid::new().0
}

/// Calls `uuid::Uuid::to_string`, which writes a UUID in hyphenated lower-case hexadecimal.
///
/// Claimed: the text is `uuid_text` of the identifier.
#[verifier::external_body]
pub(crate) fn uuid_to_string(id: u128) -> (text: String)
    ensures
        text@ == uuid_text(id),
{
    Uuid::from_u128(id).to_string()
}

/// The run identifier that stands for a ULID: its text in lower case.
pub open spec fn run_id_text(id: u128) -> Seq<char> {
    ulid_text(id).map_values(|c: char| crate::text::ascii_lower(c))
}

/// The run identifier that stands for the ULID `id`.
pub fn run_id_of(id: u128) -> (run_id: String)
    ensures
        run_id@ == run_id_text(id),
{
    to_ascii_lower(ulid_to_string(id).as_str())
}

/// A run identifier that was not used before, as far as the clock and chance allow.
pub fn new_run_id() -> (run_id: String)
    ensures
        exists|id: u128| run_id@ == #[trigger] run_id_text(id),
{
    let id: u128 = new_ulid();
    run_id_of(id)
}

// ---------------------------------------------------------------------------
// Different identifiers have different texts
// ---------------------------------------------------------------------------

/// Text in base 32 has the length asked for and holds digits of that base alone.
pub proof fn lemma_base32_digits(n: nat, width: nat)
    ensures
        base32_digits(n, width).len() == width,
        forall|i: int|
            0 <= i < width ==> exists|d: int|
                0 <= d < 32 && #[trigger] base32_digits(n, width)[i] == base32_char(d),
    decreases width,
{
    if width > 0 {
        let rest = base32_digits(n / 32, (width - 1) as nat);
        lemma_base32_digits(n / 32, (width - 1) as nat);
        assert forall|i: int| 0 <= i < width implies exists|d: int|
            0 <= d < 32 && #[trigger] base32_digits(n, width)[i] == base32_char(d) by {
            if i < width - 1 {
                assert(base32_digits(n, width)[i] == rest[i]);
            } else {
                assert(base32_digits(n, width)[i] == base32_char((n % 32) as int));
            }
        }
    }
}

/// How many numbers have their own row of `width` digits in base 32.
spec fn pow32(width: nat) -> nat
    decreases width,
{
    if width == 0 {
        1
    } else {
        32 * pow32((width - 1) as nat)
    }
}

proof fn lemma_base32_char_is_injective(a: int, b: int)
    requires
        0 <= a < 32,
        0 <= b < 32,
        crate::text::ascii_lower(base32_char(a)) == crate::text::ascii_lower(base32_char(b)),
    ensures
        a == b,
{
}

spec fn lower(s: Seq<char>) -> Seq<char> {
    s.map_values(|c: char| crate::text::ascii_lower(c))
}

proof fn lemma_lower_base32_is_injective(a: nat, b: nat, width: nat)
    requires
        a < pow32(width),
        b < pow32(width),
        lower(base32_digits(a, width)) == lower(base32_digits(b, width)),
    ensures
        a == b,
    decreases width,
{
    if width > 0 {
        let x = base32_digits(a / 32, (width - 1) as nat);
        let y = base32_digits(b / 32, (width - 1) as nat);
        let c = base32_char((a % 32) as int);
        let d = base32_char((b % 32) as int);
        assert(lower(x.push(c)) =~= lower(x).push(crate::text::ascii_lower(c)));
        assert(lower(y.push(d)) =~= lower(y).push(crate::text::ascii_lower(d)));
        assert(lower(x).push(crate::text::ascii_lower(c)).drop_last() =~= lower(x));
        assert(lower(y).push(crate::text::ascii_lower(d)).drop_last() =~= lower(y));
        assert(lower(x).push(crate::text::ascii_lower(c)).last() == crate::text::ascii_lower(c));
        assert(lower(y).push(crate::text::ascii_lower(d)).last() == crate::text::ascii_lower(d));
        lemma_base32_char_is_injective((a % 32) as int, (b % 32) as int);
        lemma_lower_base32_is_injective(a / 32, b / 32, (width - 1) as nat);
    }
}

/// Runs with different ULIDs have different run identifiers.
pub proof fn run_ids_are_distinct(a: u128, b: u128)
    requires
        run_id_text(a) == run_id_text(b),
    ensures
        a == b,
{
    reveal_with_fuel(pow32, 27);
    lemma_lower_base32_is_injective(a as nat, b as nat, 26);
}

} // verus!
