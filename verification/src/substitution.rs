//! Putting substitutions into the text of a line: each placeholder `{k}`
//! gives way to the substitution with the number `k`.

use crate::event::texts_view;
use vstd::prelude::*;
use vstd::string::StrSliceExecFns;
use vstd::string::StringExecFns;

verus! {

/// Whether `c` is one of the ten decimal digits.
pub open spec fn is_digit(c: char) -> bool {
    48 <= c as int <= 57
}

/// The decimal digit for `d`.
pub open spec fn digit_char(d: nat) -> char
    recommends
        d < 10,
{
    (48 + d) as char
}

/// The decimal numeral of `n`: its digits without a sign and without
/// leading zeros.
pub open spec fn decimal(n: nat) -> Seq<char>
    decreases n,
{
    if n < 10 {
        seq![digit_char(n)]
    } else {
        decimal(n / 10).push(digit_char(n % 10))
    }
}

/// The placeholder for the substitution with the number `index`: its
/// decimal numeral in braces.
pub open spec fn placeholder(index: nat) -> Seq<char> {
    seq!['{'] + decimal(index) + seq!['}']
}

/// The placeholder for `index` stands in `text` at the position `at`.
pub open spec fn placeholder_at(text: Seq<char>, at: int, index: nat) -> bool {
    &&& 0 <= at
    &&& at + placeholder(index).len() <= text.len()
    &&& text.subrange(at, at + placeholder(index).len()) == placeholder(index)
}

/// The placeholder of one of the first `count` substitutions stands in
/// `text` at the position `at`.
pub open spec fn placeholder_within(text: Seq<char>, at: int, count: nat) -> bool {
    exists|index: nat| index < count && placeholder_at(text, at, index)
}

/// The number of the substitution whose placeholder stands in `text` at the
/// position `at`.
pub open spec fn placeholder_index(text: Seq<char>, at: int, count: nat) -> nat {
    choose|index: nat| index < count && placeholder_at(text, at, index)
}

/// The text from the position `at` on, with the substitutions put in. The
/// text is read from left to right. Where the placeholder of a
/// substitution stands, the substitution takes its place and reading goes
/// on behind the placeholder. Every other character stays, and so does a
/// placeholder whose number no substitution has.
pub open spec fn expand_from(text: Seq<char>, substitutions: Seq<Seq<char>>, at: int) -> Seq<char>
    decreases text.len() - at,
{
    if at < 0 || at >= text.len() {
        Seq::empty()
    } else if placeholder_within(text, at, substitutions.len()) {
        let index = placeholder_index(text, at, substitutions.len());
        substitutions[index as int] + expand_from(
            text,
            substitutions,
            at + placeholder(index).len(),
        )
    } else {
        seq![text[at]] + expand_from(text, substitutions, at + 1)
    }
}

/// The text with the substitutions put in.
pub open spec fn expand(text: Seq<char>, substitutions: Seq<Seq<char>>) -> Seq<char> {
    expand_from(text, substitutions, 0)
}

/// The number that a sequence of digits stands for.
pub open spec fn digits_value(digits: Seq<char>) -> nat
    decreases digits.len(),
{
    if digits.len() == 0 {
        0
    } else {
        (digits_value(digits.drop_last()) * 10 + (digits.last() as int - 48)) as nat
    }
}

/// All of `digits` are decimal digits.
pub open spec fn all_digits(digits: Seq<char>) -> bool {
    forall|i: int| 0 <= i < digits.len() ==> is_digit(#[trigger] digits[i])
}

/// A decimal numeral is made of digits, has at least one, begins with zero
/// only for zero, and stands for its number.
pub proof fn lemma_decimal(n: nat)
    ensures
        decimal(n).len() >= 1,
        all_digits(decimal(n)),
        (decimal(n)[0] == '0') == (n == 0),
        digits_value(decimal(n)) == n,
    decreases n,
{
    if n < 10 {
        assert(decimal(n).drop_last() =~= Seq::<char>::empty());
        assert(digits_value(decimal(n).drop_last()) == 0);
    } else {
        lemma_decimal(n / 10);
        assert(decimal(n).drop_last() =~= decimal(n / 10));
        assert(decimal(n)[0] == decimal(n / 10)[0]);
    }
}

/// Digits without a leading zero are the decimal numeral of the number they
/// stand for.
pub proof fn lemma_digits_are_decimal(digits: Seq<char>)
    requires
        digits.len() >= 1,
        all_digits(digits),
        digits[0] != '0',
    ensures
        digits_value(digits) >= 1,
        decimal(digits_value(digits)) == digits,
    decreases digits.len(),
{
    assert(is_digit(digits[digits.len() - 1]));
    let last = (digits.last() as int - 48) as nat;
    assert(last < 10);
    assert(digit_char(last) == digits.last());
    if digits.len() == 1 {
        assert(digits.drop_last() =~= Seq::<char>::empty());
        assert(digits_value(digits.drop_last()) == 0);
        assert(digits_value(digits) == last);
        assert(decimal(last).len() == 1);
        assert(decimal(last)[0] == digits[0]);
        assert(decimal(last) =~= digits);
    } else {
        let front = digits.drop_last();
        assert(all_digits(front)) by {
            assert forall|i: int| 0 <= i < front.len() implies is_digit(#[trigger] front[i]) by {
                assert(is_digit(digits[i]));
            }
        }
        assert(front[0] == digits[0]);
        lemma_digits_are_decimal(front);
        let value = digits_value(digits);
        assert(value == digits_value(front) * 10 + last);
        assert(value / 10 == digits_value(front) && value % 10 == last) by (nonlinear_arith)
            requires
                value == digits_value(front) * 10 + last,
                last < 10,
        ;
        assert(decimal(value) =~= digits);
    }
}

/// A sequence of digits stands for at least as much as any of its
/// beginnings.
pub proof fn lemma_digits_value_grows(digits: Seq<char>, n: int)
    requires
        all_digits(digits),
        0 <= n <= digits.len(),
    ensures
        digits_value(digits.take(n)) <= digits_value(digits),
    decreases digits.len(),
{
    if n == digits.len() {
        assert(digits.take(n) =~= digits);
    } else {
        let front = digits.drop_last();
        assert(all_digits(front)) by {
            assert forall|i: int| 0 <= i < front.len() implies is_digit(#[trigger] front[i]) by {
                assert(is_digit(digits[i]));
            }
        }
        lemma_digits_value_grows(front, n);
        assert(front.take(n) =~= digits.take(n));
        assert(is_digit(digits[digits.len() - 1]));
    }
}

/// Where a placeholder stands, there is an opening brace, then the digits
/// of its number, then a closing brace.
pub proof fn lemma_placeholder_shape(text: Seq<char>, at: int, index: nat)
    requires
        placeholder_at(text, at, index),
    ensures
        text[at] == '{',
        at + decimal(index).len() + 2 <= text.len(),
        text.subrange(at + 1, at + 1 + decimal(index).len()) == decimal(index),
        text[at + 1 + decimal(index).len()] == '}',
{
    let p = placeholder(index);
    let m = decimal(index).len() as int;
    let part = text.subrange(at, at + p.len());
    assert(p.len() == m + 2);
    assert(part[0] == p[0]);
    assert(part[m + 1] == p[m + 1]);
    assert forall|t: int| 0 <= t < m implies text.subrange(at + 1, at + 1 + m)[t] == decimal(
        index,
    )[t] by {
        assert(part[t + 1] == p[t + 1]);
    }
    assert(text.subrange(at + 1, at + 1 + m) =~= decimal(index));
}

/// Where digits without a leading zero stand between braces, the
/// placeholder of the number they stand for stands.
pub proof fn lemma_placeholder_found(text: Seq<char>, at: int, end: int)
    requires
        0 <= at,
        at + 1 < end < text.len(),
        text[at] == '{',
        text[end] == '}',
        all_digits(text.subrange(at + 1, end)),
        text[at + 1] != '0' || end == at + 2,
    ensures
        placeholder_at(text, at, digits_value(text.subrange(at + 1, end))),
        placeholder(digits_value(text.subrange(at + 1, end))).len() == end + 1 - at,
{
    let digits = text.subrange(at + 1, end);
    let index = digits_value(digits);
    assert(digits[0] == text[at + 1]);
    if text[at + 1] == '0' {
        assert(digits.drop_last() =~= Seq::<char>::empty());
        assert(digits_value(digits.drop_last()) == 0);
        assert(index == 0);
        assert(decimal(0) =~= digits);
    } else {
        lemma_digits_are_decimal(digits);
    }
    assert(text.subrange(at, at + placeholder(index).len()) =~= placeholder(index));
}

/// Where the digits behind an opening brace run up to `end`, a placeholder
/// that stands there has at least these digits, and exactly these where no
/// digit follows.
pub proof fn lemma_placeholder_digits(text: Seq<char>, at: int, end: int, index: nat)
    requires
        placeholder_at(text, at, index),
        at + 1 <= end <= text.len(),
        all_digits(text.subrange(at + 1, end)),
    ensures
        at + 1 + decimal(index).len() >= end,
        digits_value(text.subrange(at + 1, end)) <= index,
        end == text.len() || !is_digit(text[end]) ==> at + 1 + decimal(index).len() == end
            && text[end] == '}' && index == digits_value(text.subrange(at + 1, end)),
{
    lemma_placeholder_shape(text, at, index);
    lemma_decimal(index);
    let m = decimal(index).len() as int;
    let digits = text.subrange(at + 1, end);
    if at + 1 + m < end {
        assert(is_digit(digits[m]));
        assert(false);
    }
    assert(decimal(index).take(end - at - 1) =~= digits);
    lemma_digits_value_grows(decimal(index), end - at - 1);
    if end == text.len() || !is_digit(text[end]) {
        if at + 1 + m > end {
            assert(is_digit(decimal(index)[end - at - 1]));
            assert(text.subrange(at + 1, at + 1 + m)[end - at - 1] == text[end]);
            assert(false);
        }
        assert(decimal(index) =~= digits);
    }
}

/// At most one placeholder stands at a position.
pub proof fn lemma_placeholder_unique(text: Seq<char>, at: int, first: nat, second: nat)
    requires
        placeholder_at(text, at, first),
        placeholder_at(text, at, second),
    ensures
        first == second,
{
    lemma_placeholder_shape(text, at, first);
    lemma_decimal(first);
    let end = at + 1 + decimal(first).len();
    assert(all_digits(text.subrange(at + 1, end)));
    assert(text[end] == '}');
    lemma_placeholder_digits(text, at, end, second);
}

/// Without substitutions the text from a position on stays as it is.
pub proof fn lemma_expand_from_nothing(text: Seq<char>, at: int)
    requires
        0 <= at <= text.len(),
    ensures
        expand_from(text, Seq::empty(), at) == text.skip(at),
    decreases text.len() - at,
{
    let nothing = Seq::<Seq<char>>::empty();
    if at < text.len() {
        assert(!placeholder_within(text, at, 0));
        lemma_expand_from_nothing(text, at + 1);
    }
    assert(expand_from(text, nothing, at) =~= text.skip(at));
}

/// Without substitutions the text stays as it is.
pub proof fn lemma_expand_nothing(text: Seq<char>)
    ensures
        expand(text, Seq::empty()) == text,
{
    lemma_expand_from_nothing(text, 0);
    assert(text.skip(0) =~= text);
}

/// A text that is nothing but the placeholder of a substitution expands to
/// that substitution.
pub proof fn lemma_expand_placeholder(substitutions: Seq<Seq<char>>, index: nat)
    requires
        index < substitutions.len(),
    ensures
        expand(placeholder(index), substitutions) == substitutions[index as int],
{
    let text = placeholder(index);
    assert(text.subrange(0, text.len() as int) =~= text);
    assert(placeholder_at(text, 0, index));
    assert(placeholder_within(text, 0, substitutions.len()));
    lemma_placeholder_unique(text, 0, index, placeholder_index(text, 0, substitutions.len()));
    assert(expand_from(text, substitutions, text.len() as int) =~= Seq::<char>::empty());
    assert(expand(text, substitutions) =~= substitutions[index as int]);
}

/// Whether `c` is a decimal digit.
fn is_decimal_digit(c: char) -> (digit: bool)
    ensures
        digit == is_digit(c),
{
    let code: u32 = c as u32;
    48 <= code && code <= 57
}

/// The characters of `text`.
fn chars_of(text: &str) -> (chars: Vec<char>)
    ensures
        chars@ == text@,
{
    let mut chars: Vec<char> = Vec::new();
    for c in iter: text.chars()
        invariant
            iter.seq() == text@,
            chars@ == text@.take(iter.index() as int),
    {
        chars.push(c);
        assert(text@.take(iter.index() + 1) =~= text@.take(iter.index() as int).push(c));
    }
    assert(text@.take(text@.len() as int) =~= text@);
    chars
}

/// Looks for the placeholder of one of the first `count` substitutions at
/// the position `at`, and returns its number and its length.
fn find_placeholder(chars: &Vec<char>, at: usize, count: usize) -> (found: Option<(usize, usize)>)
    requires
        at < chars@.len(),
    ensures
        match found {
            Some((index, width)) => index < count && placeholder_at(
                chars@,
                at as int,
                index as nat,
            ) && width == placeholder(index as nat).len(),
            None => !placeholder_within(chars@, at as int, count as nat),
        },
{
    let ghost text = chars@;
    let len = chars.len();
    if chars[at] != '{' || at + 1 >= len || !is_decimal_digit(chars[at + 1]) {
        proof {
            assert forall|index: nat| index < count implies !placeholder_at(
                text,
                at as int,
                index,
            ) by {
                if placeholder_at(text, at as int, index) {
                    lemma_placeholder_shape(text, at as int, index);
                    lemma_decimal(index);
                    assert(text.subrange(at + 1, at + 1 + decimal(index).len())[0] == text[at
                        + 1]);
                    assert(is_digit(decimal(index)[0]));
                }
            }
        }
        return None;
    }
    let first = chars[at + 1];
    let mut end: usize = at + 2;
    let mut value: usize = (first as u32 - 48) as usize;
    proof {
        let digits = text.subrange(at + 1, end as int);
        assert(digits.drop_last() =~= Seq::<char>::empty());
        assert(digits_value(digits.drop_last()) == 0);
        assert(digits.last() == first);
        assert(value == digits_value(digits));
        assert(all_digits(digits));
    }
    if value >= count || (first == '0' && end < len && is_decimal_digit(chars[end])) {
        proof {
            assert forall|index: nat| index < count implies !placeholder_at(
                text,
                at as int,
                index,
            ) by {
                if placeholder_at(text, at as int, index) {
                    lemma_placeholder_digits(text, at as int, end as int, index);
                    lemma_placeholder_shape(text, at as int, index);
                    lemma_decimal(index);
                    if value < count {
                        assert(text.subrange(at + 1, at + 1 + decimal(index).len())[0] == text[at
                            + 1]);
                        assert(index == 0);
                        assert(decimal(0).len() == 1);
                    }
                }
            }
        }
        return None;
    }
    while end < len && is_decimal_digit(chars[end])
        invariant
            text == chars@,
            len == text.len(),
            at + 2 <= end <= len,
            text[at as int] == '{',
            all_digits(text.subrange(at + 1, end as int)),
            value == digits_value(text.subrange(at + 1, end as int)),
            value < count,
            text[at + 1] == '0' ==> end == at + 2 && !(end < len && is_digit(text[end as int])),
        decreases len - end,
    {
        let digit: u32 = chars[end] as u32 - 48;
        let next: u128 = value as u128 * 10 + digit as u128;
        proof {
            let before = text.subrange(at + 1, end as int);
            let digits = text.subrange(at + 1, end + 1);
            assert(digits.drop_last() =~= before);
            assert(digits.last() == text[end as int]);
            assert(next == digits_value(digits));
            assert(all_digits(digits)) by {
                assert forall|i: int| 0 <= i < digits.len() implies is_digit(
                    #[trigger] digits[i],
                ) by {
                    if i < before.len() {
                        assert(is_digit(before[i]));
                    }
                }
            }
        }
        end += 1;
        if next >= count as u128 {
            proof {
                assert forall|index: nat| index < count implies !placeholder_at(
                    text,
                    at as int,
                    index,
                ) by {
                    if placeholder_at(text, at as int, index) {
                        lemma_placeholder_digits(text, at as int, end as int, index);
                    }
                }
            }
            return None;
        }
        value = next as usize;
    }
    if end < len && chars[end] == '}' {
        proof {
            lemma_placeholder_found(text, at as int, end as int);
        }
        Some((value, end + 1 - at))
    } else {
        proof {
            assert forall|index: nat| index < count implies !placeholder_at(
                text,
                at as int,
                index,
            ) by {
                if placeholder_at(text, at as int, index) {
                    lemma_placeholder_digits(text, at as int, end as int, index);
                    lemma_placeholder_shape(text, at as int, index);
                }
            }
        }
        None
    }
}

/// Puts the substitutions into `text`: each placeholder `{k}` whose number
/// `k` is below the number of substitutions gives way to the substitution
/// with that number. Everything else stays as it is.
pub fn expand_substitutions(text: &str, substitutions: &[String]) -> (expanded: String)
    ensures
        expanded@ == expand(text@, texts_view(substitutions@)),
{
    let chars = chars_of(text);
    let len = chars.len();
    let count = substitutions.len();
    let ghost given = texts_view(substitutions@);
    let mut expanded = String::new();
    let mut copied: usize = 0;
    let mut at: usize = 0;
    proof {
        assert(expanded@ + text@.subrange(0, 0) + expand_from(text@, given, 0) =~= expand(
            text@,
            given,
        ));
    }
    while at < len
        invariant
            chars@ == text@,
            len == text@.len(),
            count == substitutions@.len(),
            given == texts_view(substitutions@),
            copied <= at <= len,
            expanded@ + text@.subrange(copied as int, at as int) + expand_from(
                text@,
                given,
                at as int,
            ) == expand(text@, given),
        decreases len - at,
    {
        let ghost rest = expand_from(text@, given, at as int);
        match find_placeholder(&chars, at, count) {
            Some((index, width)) => {
                proof {
                    assert(placeholder_within(text@, at as int, count as nat));
                    lemma_placeholder_unique(
                        text@,
                        at as int,
                        index as nat,
                        placeholder_index(text@, at as int, count as nat),
                    );
                    assert(rest == given[index as int] + expand_from(
                        text@,
                        given,
                        at + width,
                    ));
                }
                let ghost before = expanded@;
                expanded.append(text.substring_char(copied, at));
                expanded.append(substitutions[index].as_str());
                proof {
                    assert(expanded@ + text@.subrange(at + width, at + width) + expand_from(
                        text@,
                        given,
                        at + width,
                    ) =~= before + text@.subrange(copied as int, at as int) + rest);
                }
                at = at + width;
                copied = at;
            },
            None => {
                proof {
                    assert(rest == seq![text@[at as int]] + expand_from(text@, given, at + 1));
                    assert(expanded@ + text@.subrange(copied as int, at + 1) + expand_from(
                        text@,
                        given,
                        at + 1,
                    ) =~= expanded@ + text@.subrange(copied as int, at as int) + rest);
                }
                at += 1;
            },
        }
    }
    let ghost before = expanded@;
    expanded.append(text.substring_char(copied, len));
    proof {
        assert(expanded@ =~= before + text@.subrange(copied as int, at as int) + expand_from(
            text@,
            given,
            at as int,
        ));
    }
    expanded
}

} // verus!
