//! The notation of the numeric fields of a sample record.
//!
//! A numeric field is a decimal floating-point literal: an optional sign,
//! then either a decimal number with an optional exponent, or one of the
//! words `inf`, `infinity` and `nan` in any mix of upper and lower case. The
//! decimal number has digits, a point, or both: `5`, `5.`, `.5` and `5.5` are
//! numbers, a point alone is none. Nothing may stand before or after the
//! field, not even a blank.

use crate::decimal::{is_decimal_digit, is_digit};
use crate::text::{characters, texts};
use vstd::prelude::*;

verus! {

/// How many digits `text` begins with.
pub open spec fn digit_run(text: Seq<char>) -> nat
    decreases text.len(),
{
    if text.len() > 0 && is_digit(text[0]) {
        1 + digit_run(text.skip(1))
    } else {
        0
    }
}

pub open spec fn is_sign(c: char) -> bool {
    c == '+' || c == '-'
}

/// Whether `text` is an exponent: the letter `e` in either case, an optional
/// sign, and at least one digit up to the end.
pub open spec fn is_exponent(text: Seq<char>) -> bool {
    &&& text.len() >= 2
    &&& text[0] == 'e' || text[0] == 'E'
    &&& {
        let digits = if is_sign(text[1]) {
            text.skip(2)
        } else {
            text.skip(1)
        };
        digits.len() > 0 && digit_run(digits) == digits.len()
    }
}

/// Whether `text` is an unsigned decimal number: digits, then optionally a
/// point and more digits, then optionally an exponent. Either run of digits
/// may be empty, but not both.
pub open spec fn is_decimal_number(text: Seq<char>) -> bool {
    let whole = digit_run(text);
    let after = text.skip(whole as int);
    let pointed = after.len() > 0 && after[0] == '.';
    let fraction = if pointed {
        digit_run(after.skip(1))
    } else {
        0
    };
    let rest = if pointed {
        after.skip(1 + fraction as int)
    } else {
        after
    };
    whole + fraction > 0 && (rest.len() == 0 || is_exponent(rest))
}

/// Whether `text` is `word`, letter by letter, each in either case. `lower`
/// and `upper` are the same word in the two cases.
pub open spec fn is_word(text: Seq<char>, lower: Seq<char>, upper: Seq<char>) -> bool {
    &&& text.len() == lower.len()
    &&& forall|i: int| 0 <= i < text.len() ==> text[i] == lower[i] || text[i] == upper[i]
}

/// Whether `text` names infinity or not-a-number.
pub open spec fn is_special_number(text: Seq<char>) -> bool {
    ||| is_word(text, "inf"@, "INF"@)
    ||| is_word(text, "infinity"@, "INFINITY"@)
    ||| is_word(text, "nan"@, "NAN"@)
}

/// Whether `text` is a numeric field.
pub open spec fn is_number(text: Seq<char>) -> bool {
    let unsigned = if text.len() > 0 && is_sign(text[0]) {
        text.skip(1)
    } else {
        text
    };
    is_decimal_number(unsigned) || is_special_number(unsigned)
}

/// Whether `c` stands in a field of a comma-separated table as it is:
/// whether it is neither a comma, nor a quote, nor a line break.
pub open spec fn is_plain(c: char) -> bool {
    c != ',' && c != '"' && c != '\n' && c != '\r'
}

/// Whether `cells` are numeric fields, one and all.
pub open spec fn all_numbers(cells: Seq<Seq<char>>) -> bool {
    forall|i: int| 0 <= i < cells.len() ==> is_number(#[trigger] cells[i])
}

proof fn lemma_digit_run_step(text: Seq<char>, from: int)
    requires
        0 <= from <= text.len(),
    ensures
        from < text.len() && is_digit(text[from]) ==> digit_run(text.skip(from)) == 1 + digit_run(
            text.skip(from + 1),
        ),
        from == text.len() || !is_digit(text[from]) ==> digit_run(text.skip(from)) == 0,
{
    if from < text.len() {
        assert(text.skip(from)[0] == text[from]);
        assert(text.skip(from).skip(1) =~= text.skip(from + 1));
    }
}

/// Where the digits that begin at `from` end.
fn digit_run_end(chars: &Vec<char>, from: usize) -> (end: usize)
    requires
        from <= chars.len(),
    ensures
        from <= end <= chars.len(),
        end - from == digit_run(chars@.skip(from as int)),
{
    let mut end = from;
    while end < chars.len() && is_decimal_digit(chars[end])
        invariant
            from <= end <= chars.len(),
            digit_run(chars@.skip(from as int)) == (end - from) + digit_run(
                chars@.skip(end as int),
            ),
        decreases chars.len() - end,
    {
        proof {
            lemma_digit_run_step(chars@, end as int);
        }
        end += 1;
    }
    proof {
        lemma_digit_run_step(chars@, end as int);
    }
    end
}

fn is_exponent_from(chars: &Vec<char>, from: usize) -> (ok: bool)
    requires
        from <= chars.len(),
    ensures
        ok == is_exponent(chars@.skip(from as int)),
{
    let ghost text = chars@.skip(from as int);
    if chars.len() - from < 2 {
        return false;
    }
    assert(text[0] == chars@[from as int]);
    assert(text[1] == chars@[from + 1]);
    if chars[from] != 'e' && chars[from] != 'E' {
        return false;
    }
    let start = if chars[from + 1] == '+' || chars[from + 1] == '-' {
        from + 2
    } else {
        from + 1
    };
    assert(text.skip(start - from) =~= chars@.skip(start as int));
    let end = digit_run_end(chars, start);
    start < chars.len() && end == chars.len()
}

fn is_decimal_from(chars: &Vec<char>, from: usize) -> (ok: bool)
    requires
        from <= chars.len(),
    ensures
        ok == is_decimal_number(chars@.skip(from as int)),
{
    let ghost text = chars@.skip(from as int);
    let whole_end = digit_run_end(chars, from);
    let ghost after = text.skip(whole_end - from);
    assert(after =~= chars@.skip(whole_end as int));
    let pointed = whole_end < chars.len() && chars[whole_end] == '.';
    assert(pointed == (after.len() > 0 && after[0] == '.'));
    let rest_start = if pointed {
        assert(after.skip(1) =~= chars@.skip(whole_end + 1));
        let fraction_end = digit_run_end(chars, whole_end + 1);
        assert(after.skip(1 + (fraction_end - whole_end - 1)) =~= chars@.skip(fraction_end as int));
        fraction_end
    } else {
        whole_end
    };
    let digits = if pointed {
        rest_start - from - 1
    } else {
        rest_start - from
    };
    if digits == 0 {
        return false;
    }
    if rest_start == chars.len() {
        return true;
    }
    is_exponent_from(chars, rest_start)
}

fn is_word_from(chars: &Vec<char>, from: usize, lower: &str, upper: &str) -> (ok: bool)
    requires
        from <= chars.len(),
        lower@.len() == upper@.len(),
    ensures
        ok == is_word(chars@.skip(from as int), lower@, upper@),
{
    let ghost text = chars@.skip(from as int);
    let lower_chars = characters(lower);
    let upper_chars = characters(upper);
    if chars.len() - from != lower_chars.len() {
        return false;
    }
    let mut i: usize = 0;
    while i < lower_chars.len()
        invariant
            i <= lower_chars.len(),
            lower_chars@ == lower@,
            upper_chars@ == upper@,
            lower@.len() == upper@.len(),
            from <= chars.len(),
            chars.len() - from == lower_chars.len(),
            text == chars@.skip(from as int),
            forall|j: int| 0 <= j < i ==> text[j] == lower@[j] || text[j] == upper@[j],
        decreases lower_chars.len() - i,
    {
        assert(text[i as int] == chars@[from + i]);
        if chars[from + i] != lower_chars[i] && chars[from + i] != upper_chars[i] {
            return false;
        }
        i += 1;
    }
    true
}

/// Tells whether `text` is a numeric field.
pub fn is_numeric(text: &str) -> (ok: bool)
    ensures
        ok == is_number(text@),
{
    let chars = characters(text);
    let from: usize = if chars.len() > 0 && (chars[0] == '+' || chars[0] == '-') {
        1
    } else {
        0
    };
    assert(chars@.skip(0) =~= chars@);
    proof {
        reveal_strlit("inf");
        reveal_strlit("INF");
        reveal_strlit("infinity");
        reveal_strlit("INFINITY");
        reveal_strlit("nan");
        reveal_strlit("NAN");
    }
    is_decimal_from(&chars, from) || is_word_from(&chars, from, "inf", "INF") || is_word_from(
        &chars,
        from,
        "infinity",
        "INFINITY",
    ) || is_word_from(&chars, from, "nan", "NAN")
}

proof fn lemma_digit_run_digits(text: Seq<char>)
    ensures
        digit_run(text) <= text.len(),
        forall|i: int| 0 <= i < digit_run(text) ==> is_digit(#[trigger] text[i]),
    decreases text.len(),
{
    if text.len() > 0 && is_digit(text[0]) {
        lemma_digit_run_digits(text.skip(1));
        assert forall|i: int| 0 <= i < digit_run(text) implies is_digit(#[trigger] text[i]) by {
            if i > 0 {
                assert(text[i] == text.skip(1)[i - 1]);
            }
        }
    }
}

proof fn lemma_exponent_is_plain(text: Seq<char>)
    requires
        is_exponent(text),
    ensures
        forall|i: int| 0 <= i < text.len() ==> is_plain(#[trigger] text[i]),
{
    let start: int = if is_sign(text[1]) {
        2
    } else {
        1
    };
    let digits = text.skip(start);
    lemma_digit_run_digits(digits);
    assert forall|i: int| 0 <= i < text.len() implies is_plain(#[trigger] text[i]) by {
        if i >= start {
            assert(text[i] == digits[i - start]);
            assert(is_digit(digits[i - start]));
        }
    }
}

proof fn lemma_decimal_is_plain(text: Seq<char>)
    requires
        is_decimal_number(text),
    ensures
        forall|i: int| 0 <= i < text.len() ==> is_plain(#[trigger] text[i]),
{
    let whole = digit_run(text) as int;
    lemma_digit_run_digits(text);
    let after = text.skip(whole);
    let pointed = after.len() > 0 && after[0] == '.';
    if pointed {
        let behind = after.skip(1);
        let fraction = digit_run(behind) as int;
        lemma_digit_run_digits(behind);
        let rest = after.skip(1 + fraction);
        if rest.len() > 0 {
            lemma_exponent_is_plain(rest);
        }
        assert forall|i: int| 0 <= i < text.len() implies is_plain(#[trigger] text[i]) by {
            if i < whole {
                assert(is_digit(text[i]));
            } else if i == whole {
                assert(text[i] == after[0]);
            } else if i < whole + 1 + fraction {
                assert(text[i] == behind[i - whole - 1]);
                assert(is_digit(behind[i - whole - 1]));
            } else {
                assert(text[i] == rest[i - whole - 1 - fraction]);
            }
        }
    } else {
        if after.len() > 0 {
            lemma_exponent_is_plain(after);
        }
        assert forall|i: int| 0 <= i < text.len() implies is_plain(#[trigger] text[i]) by {
            if i < whole {
                assert(is_digit(text[i]));
            } else {
                assert(text[i] == after[i - whole]);
            }
        }
    }
}

/// A numeric field holds no comma, no quote and no line break: it stands in
/// a comma-separated table as it is, and takes up one field of one line.
pub proof fn lemma_number_is_plain(text: Seq<char>)
    requires
        is_number(text),
    ensures
        forall|i: int| 0 <= i < text.len() ==> is_plain(#[trigger] text[i]),
{
    let signed = text.len() > 0 && is_sign(text[0]);
    let unsigned = if signed {
        text.skip(1)
    } else {
        text
    };
    if is_decimal_number(unsigned) {
        lemma_decimal_is_plain(unsigned);
    } else {
        reveal_strlit("inf");
        reveal_strlit("INF");
        reveal_strlit("infinity");
        reveal_strlit("INFINITY");
        reveal_strlit("nan");
        reveal_strlit("NAN");
        assert forall|i: int| 0 <= i < unsigned.len() implies is_plain(#[trigger] unsigned[i]) by {
            if is_word(unsigned, "inf"@, "INF"@) {
                assert(unsigned[i] == "inf"@[i] || unsigned[i] == "INF"@[i]);
            } else if is_word(unsigned, "infinity"@, "INFINITY"@) {
                assert(unsigned[i] == "infinity"@[i] || unsigned[i] == "INFINITY"@[i]);
            } else {
                assert(unsigned[i] == "nan"@[i] || unsigned[i] == "NAN"@[i]);
            }
        }
    }
    assert forall|i: int| 0 <= i < text.len() implies is_plain(#[trigger] text[i]) by {
        if signed && i > 0 {
            assert(text[i] == unsigned[i - 1]);
        }
    }
}

/// Tells whether `cells` are numeric fields, one and all.
pub fn all_numeric(cells: &Vec<String>) -> (ok: bool)
    ensures
        ok == all_numbers(texts(cells@)),
{
    let mut i: usize = 0;
    while i < cells.len()
        invariant
            i <= cells.len(),
            forall|j: int| 0 <= j < i ==> is_number(#[trigger] texts(cells@)[j]),
        decreases cells.len() - i,
    {
        if !is_numeric(cells[i].as_str()) {
            assert(!is_number(texts(cells@)[i as int]));
            return false;
        }
        i += 1;
    }
    true
}

} // verus!
