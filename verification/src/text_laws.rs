//! What holds of trimming, splitting and numbers, stated over the characters of a text.

use vstd::prelude::*;

verus! {

// ---------------------------------------------------------------------------
// White space
// ---------------------------------------------------------------------------

/// Whether a text is white space alone.
pub open spec fn blank(s: Seq<char>) -> bool {
    forall|i: int| 0 <= i < s.len() ==> crate::text::white_space(#[trigger] s[i])
}

/// Whether a text neither starts nor ends with white space.
pub open spec fn tight(s: Seq<char>) -> bool {
    s.len() > 0 ==> !crate::text::white_space(s[0]) && !crate::text::white_space(s.last())
}

proof fn lemma_trim_start_of(left: Seq<char>, rest: Seq<char>)
    requires
        blank(left),
        rest.len() > 0 ==> !crate::text::white_space(rest[0]),
    ensures
        crate::text::trim_start(left + rest) == rest,
    decreases left.len(),
{
    if left.len() == 0 {
        assert(left + rest == rest);
    } else {
        let less = left.drop_first();
        assert forall|i: int| 0 <= i < less.len() implies crate::text::white_space(
            #[trigger] less[i],
        ) by {
            assert(less[i] == left[i + 1]);
        }
        lemma_trim_start_of(less, rest);
        assert((left + rest)[0] == left[0]);
        assert((left + rest).drop_first() == less + rest);
    }
}

proof fn lemma_trim_end_of(rest: Seq<char>, right: Seq<char>)
    requires
        blank(right),
        rest.len() > 0 ==> !crate::text::white_space(rest.last()),
    ensures
        crate::text::trim_end(rest + right) == rest,
    decreases right.len(),
{
    if right.len() == 0 {
        assert(rest + right == rest);
    } else {
        let less = right.drop_last();
        assert forall|i: int| 0 <= i < less.len() implies crate::text::white_space(
            #[trigger] less[i],
        ) by {
            assert(less[i] == right[i]);
        }
        lemma_trim_end_of(rest, less);
        assert((rest + right).last() == right.last());
        assert(right.last() == right[right.len() - 1]);
        assert((rest + right).drop_last() == rest + less);
    }
}

proof fn lemma_trim_of_blank(s: Seq<char>)
    requires
        blank(s),
    ensures
        crate::text::trim_start(s).len() == 0,
    decreases s.len(),
{
    lemma_trim_start_of(s, seq![]);
    assert(s + seq![] == s);
}

/// Trimming takes away the white space around a text and nothing else: what stands between white
/// space, and neither starts nor ends with any, is what is left.
pub proof fn trim_takes_white_space_alone(left: Seq<char>, text: Seq<char>, right: Seq<char>)
    requires
        blank(left),
        tight(text),
        blank(right),
    ensures
        crate::text::trim(left + text + right) == text,
{
    if text.len() > 0 {
        assert(left + text + right == left + (text + right));
        assert((text + right)[0] == text[0]);
        lemma_trim_start_of(left, text + right);
        lemma_trim_end_of(text, right);
    } else {
        let whole = left + text + right;
        assert forall|i: int| 0 <= i < whole.len() implies crate::text::white_space(
            #[trigger] whole[i],
        ) by {
            if i < left.len() {
                assert(whole[i] == left[i]);
            } else {
                assert(whole[i] == right[i - left.len()]);
            }
        }
        lemma_trim_of_blank(whole);
        assert(crate::text::trim_start(whole) == text);
    }
}

/// A text is white space alone exactly when trimming leaves nothing of it.
pub proof fn blank_texts_are_trimmed_away(s: Seq<char>)
    ensures
        crate::text::trim(s).len() == 0 <==> blank(s),
{
    if blank(s) {
        lemma_trim_of_blank(s);
        assert(crate::text::trim_start(s) =~= seq![]);
    } else {
        lemma_something_is_left(s);
    }
}

proof fn lemma_something_is_left(s: Seq<char>)
    requires
        !blank(s),
    ensures
        crate::text::trim(s).len() > 0,
    decreases s.len(),
{
    let k = choose|k: int| 0 <= k < s.len() && !crate::text::white_space(#[trigger] s[k]);
    if crate::text::white_space(s[0]) {
        let rest = s.drop_first();
        assert(rest[k - 1] == s[k]);
        lemma_something_is_left(rest);
    } else {
        lemma_end_is_left(s);
    }
}

proof fn lemma_end_is_left(s: Seq<char>)
    requires
        s.len() > 0,
        !crate::text::white_space(s[0]),
    ensures
        crate::text::trim_end(s).len() > 0,
    decreases s.len(),
{
    if crate::text::white_space(s.last()) {
        lemma_end_is_left(s.drop_last());
    }
}

// ---------------------------------------------------------------------------
// Splitting
// ---------------------------------------------------------------------------

/// Pieces with `c` between each two of them.
pub open spec fn put_together(pieces: Seq<Seq<char>>, c: char) -> Seq<char>
    decreases pieces.len(),
{
    if pieces.len() == 0 {
        seq![]
    } else if pieces.len() == 1 {
        pieces[0]
    } else {
        pieces[0].push(c) + put_together(pieces.drop_first(), c)
    }
}

/// The pieces of a text hold no delimiter, and put together with delimiters they are the text again.
pub proof fn pieces_make_up_the_text(s: Seq<char>, c: char)
    ensures
        crate::text::pieces(s, c).len() > 0,
        forall|i: int|
            0 <= i < crate::text::pieces(s, c).len() ==> !(#[trigger] crate::text::pieces(
                s,
                c,
            )[i]).contains(c),
        put_together(crate::text::pieces(s, c), c) == s,
    decreases s.len(),
{
    crate::text::lemma_position(s, c);
    let at = crate::text::position(s, c) as int;
    let pieces = crate::text::pieces(s, c);
    let first = s.take(at);
    assert(!first.contains(c)) by {
        if first.contains(c) {
            let k = first.index_of(c);
            assert(s[k] == c);
        }
    }
    if at < s.len() {
        let rest = s.skip(at + 1);
        let others = crate::text::pieces(rest, c);
        pieces_make_up_the_text(rest, c);
        assert(pieces.drop_first() == others);
        assert(s == first.push(c) + rest);
        assert forall|i: int| 0 <= i < pieces.len() implies !(#[trigger] pieces[i]).contains(c) by {
            if i > 0 {
                assert(pieces[i] == others[i - 1]);
            }
        }
    } else {
        assert(first == s);
        assert(pieces[0] == s);
    }
}

// ---------------------------------------------------------------------------
// Numbers
// ---------------------------------------------------------------------------

/// Digits follow one another as their characters do.
pub proof fn digits_are_their_characters(d: int)
    requires
        0 <= d < 10,
    ensures
        crate::text::digit_char(d) as int == 48 + d,
        crate::text::is_digit(crate::text::digit_char(d)),
        crate::text::digit_value(crate::text::digit_char(d)) == d,
{
}

/// A digit is one of the characters from `0` to `9`.
pub proof fn digits_are_ten(c: char)
    ensures
        crate::text::is_digit(c) <==> 48 <= c as int <= 57,
        crate::text::is_digit(c) ==> crate::text::digit_value(c) == c as int - 48,
{
}

/// One more digit makes ten times the number and the digit.
pub proof fn one_more_digit_is_ten_times_as_much(s: Seq<char>, c: char)
    requires
        48 <= c as int <= 57,
    ensures
        crate::text::digits_value(s.push(c)) == 10 * crate::text::digits_value(s) + (c as int - 48),
        crate::text::digits_value(seq![]) == 0,
{
    assert(s.push(c).drop_last() == s);
}

/// Decimal text is digits alone, without a leading zero but for zero itself, and its value is the
/// number.
pub proof fn decimal_text_is_the_number(n: nat)
    ensures
        crate::text::decimal(n).len() > 0,
        forall|i: int|
            0 <= i < crate::text::decimal(n).len() ==> 48 <= #[trigger] crate::text::decimal(
                n,
            )[i] as int <= 57,
        crate::text::decimal(n)[0] == '0' <==> n == 0,
        crate::text::digits_value(crate::text::decimal(n)) == n,
    decreases n,
{
    if n < 10 {
        assert(crate::text::decimal(n).drop_last() =~= seq![]);
        assert(crate::text::decimal(n).last() == crate::text::digit_char(n as int));
        assert(crate::text::digits_value(seq![]) == 0);
    } else {
        decimal_text_is_the_number(n / 10);
        let head = crate::text::decimal(n / 10);
        assert(crate::text::decimal(n).drop_last() == head);
        assert(crate::text::decimal(n)[0] == head[0]);
    }
}

/// Zero-padded text has the width that is asked for, is digits alone, and its value is the number,
/// where the number fits.
pub proof fn padded_text_is_the_number(n: nat, width: nat)
    ensures
        crate::text::padded(n, width).len() == width,
        forall|i: int|
            0 <= i < width ==> 48 <= #[trigger] crate::text::padded(n, width)[i] as int <= 57,
        n < crate::text::pow10(width) ==> crate::text::digits_value(crate::text::padded(n, width))
            == n,
    decreases width,
{
    if width > 0 {
        let less = (width - 1) as nat;
        padded_text_is_the_number(n / 10, less);
        assert(crate::text::padded(n, width).drop_last() == crate::text::padded(n / 10, less));
    } else {
        assert(crate::text::padded(n, width) =~= seq![]);
    }
}

/// Twenty digits are enough for every number of 64 bits.
pub proof fn twenty_digits_are_enough(n: u64)
    ensures
        crate::text::digits_value(crate::text::padded(n as nat, 20)) == n,
        crate::text::padded(n as nat, 20).len() == 20,
{
    reveal_with_fuel(crate::text::pow10, 21);
    padded_text_is_the_number(n as nat, 20);
}

/// Zeros in front of a number.
pub open spec fn zeros(count: nat) -> Seq<char> {
    Seq::new(count, |i: int| '0')
}

/// Whether a text spells out a number: its decimal text, after any number of zeros and after a plus
/// sign or none.
pub open spec fn spells(s: Seq<char>, n: nat) -> bool {
    exists|count: nat|
        s == #[trigger] zeros(count) + crate::text::decimal(n) || s == seq!['+'] + (zeros(count)
            + crate::text::decimal(n))
}

proof fn lemma_value_after_zeros(count: nat, s: Seq<char>)
    ensures
        crate::text::digits_value(zeros(count) + s) == crate::text::digits_value(s),
    decreases s.len(), count,
{
    let whole = zeros(count) + s;
    if s.len() > 0 {
        lemma_value_after_zeros(count, s.drop_last());
        assert(whole.drop_last() == zeros(count) + s.drop_last());
        assert(whole.last() == s.last());
    } else if count > 0 {
        let less = (count - 1) as nat;
        lemma_value_after_zeros(less, s);
        assert(whole.drop_last() == zeros(less) + s);
        assert(whole.last() == '0');
    } else {
        assert(whole == s);
    }
}

proof fn lemma_digits_spell_their_value(s: Seq<char>) -> (count: nat)
    requires
        s.len() > 0,
        forall|i: int| 0 <= i < s.len() ==> crate::text::is_digit(#[trigger] s[i]),
    ensures
        s == zeros(count) + crate::text::decimal(crate::text::digits_value(s)),
    decreases s.len(),
{
    let head = s.drop_last();
    let d = s.last();
    assert(crate::text::is_digit(s[s.len() - 1]));
    let v = crate::text::digits_value(s);
    if head.len() == 0 {
        assert(crate::text::digits_value(head) == 0);
        assert(s =~= zeros(0) + crate::text::decimal(v));
        0
    } else {
        assert forall|i: int| 0 <= i < head.len() implies crate::text::is_digit(#[trigger] head[i]) by {
            assert(head[i] == s[i]);
        }
        let count = lemma_digits_spell_their_value(head);
        let w = crate::text::digits_value(head);
        assert(s == head.push(d));
        if w == 0 {
            assert(head == zeros(count).push('0'));
            assert(head =~= zeros(count + 1));
            assert(crate::text::decimal(v) =~= seq![d]);
            assert(s =~= zeros(count + 1) + crate::text::decimal(v));
            count + 1
        } else {
            assert(v / 10 == w);
            assert(crate::text::decimal(v) == crate::text::decimal(w).push(d));
            assert(s =~= zeros(count) + crate::text::decimal(v));
            count
        }
    }
}

/// A text is read as a number exactly when it spells it out.
pub proof fn numbers_are_read_as_they_are_spelt(s: Seq<char>, n: u64)
    ensures
        crate::text::parsed_u64(s) == Some(n) <==> spells(s, n as nat),
{
    let digits = if s.len() > 0 && s[0] == '+' {
        s.drop_first()
    } else {
        s
    };
    if crate::text::parsed_u64(s) == Some(n) {
        let count = lemma_digits_spell_their_value(digits);
        let text = zeros(count) + crate::text::decimal(n as nat);
        assert(digits == text);
        if s.len() > 0 && s[0] == '+' {
            assert(s == seq!['+'] + text);
        } else {
            assert(s == text);
        }
    }
    if spells(s, n as nat) {
        let count = choose|count: nat|
            s == #[trigger] zeros(count) + crate::text::decimal(n as nat) || s == seq!['+'] + (zeros(
                count,
            ) + crate::text::decimal(n as nat));
        let text = zeros(count) + crate::text::decimal(n as nat);
        decimal_text_is_the_number(n as nat);
        assert forall|i: int| 0 <= i < text.len() implies crate::text::is_digit(#[trigger] text[i]) by {
            if i < count {
                assert(text[i] == '0');
            } else {
                assert(text[i] == crate::text::decimal(n as nat)[i - count]);
            }
        }
        lemma_value_after_zeros(count, crate::text::decimal(n as nat));
        if s == text {
            assert(crate::text::is_digit(text[0]));
            assert(digits == text);
        } else {
            assert(s[0] == '+');
            assert(digits == text);
        }
    }
}

/// A text that is not read as a number spells none of 64 bits.
pub proof fn other_texts_spell_no_number(s: Seq<char>)
    ensures
        crate::text::parsed_u64(s) is None <==> forall|n: u64| !#[trigger] spells(s, n as nat),
{
    match crate::text::parsed_u64(s) {
        Some(n) => {
            numbers_are_read_as_they_are_spelt(s, n);
        },
        None => {
            assert forall|n: u64| !#[trigger] spells(s, n as nat) by {
                numbers_are_read_as_they_are_spelt(s, n);
            }
        },
    }
}

// ---------------------------------------------------------------------------
// Letters
// ---------------------------------------------------------------------------

/// Lower case moves the letters from `A` to `Z` by thirty-two places and leaves all else.
pub proof fn lower_case_moves_capital_letters_alone(c: char)
    ensures
        65 <= c as int <= 90 ==> crate::text::ascii_lower(c) as int == c as int + 32,
        !(65 <= c as int <= 90) ==> crate::text::ascii_lower(c) == c,
{
}

/// The characters of a run identifier, in the order of the digits that they stand for.
pub open spec fn run_id_digit(c: char, d: int) -> bool {
    ||| 0 <= d < 10 && c as int == 48 + d
    ||| 10 <= d < 18 && c as int == 97 + (d - 10)
    ||| 18 <= d < 20 && c as int == 106 + (d - 18)
    ||| 20 <= d < 22 && c as int == 109 + (d - 20)
    ||| 22 <= d < 27 && c as int == 112 + (d - 22)
    ||| 27 <= d < 32 && c as int == 118 + (d - 27)
}

/// Whether a text spells a number in the digits of run identifiers.
pub open spec fn spells_base32(s: Seq<char>, n: nat) -> bool
    decreases s.len(),
{
    if s.len() == 0 {
        n == 0
    } else {
        run_id_digit(s.last(), (n % 32) as int) && spells_base32(s.drop_last(), n / 32)
    }
}

proof fn lemma_run_id_digits(n: nat, width: nat)
    requires
        n < pow32(width),
    ensures
        spells_base32(
            crate::ids::base32_digits(n, width).map_values(
                |c: char| crate::text::ascii_lower(c),
            ),
            n,
        ),
        crate::ids::base32_digits(n, width).len() == width,
    decreases width,
{
    let text = crate::ids::base32_digits(n, width).map_values(|c: char| crate::text::ascii_lower(c));
    if width > 0 {
        let less = (width - 1) as nat;
        lemma_run_id_digits(n / 32, less);
        let head = crate::ids::base32_digits(n / 32, less);
        assert(text.drop_last() =~= head.map_values(|c: char| crate::text::ascii_lower(c)));
        assert(text.last() == crate::text::ascii_lower(
            crate::ids::base32_char((n % 32) as int),
        ));
    }
}

spec fn pow32(width: nat) -> nat
    decreases width,
{
    if width == 0 {
        1
    } else {
        32 * pow32((width - 1) as nat)
    }
}

/// A run identifier is twenty-six lower-case characters that spell the ULID of the run.
pub proof fn run_id_spells_its_ulid(id: u128)
    ensures
        crate::ids::run_id_text(id).len() == 26,
        spells_base32(crate::ids::run_id_text(id), id as nat),
{
    reveal_with_fuel(pow32, 27);
    lemma_run_id_digits(id as nat, 26);
}

} // verus!
