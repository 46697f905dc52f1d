//! Texts as lists of characters: searching, replacing, trimming, numbers.

use vstd::prelude::*;

verus! {

/// `String::push`: the character follows what the text held.
pub assume_specification[ std::string::String::push ](string: &mut std::string::String, ch: char)
    ensures
        final(string)@ == old(string)@.push(ch),
;

/// The characters of a text.
pub fn chars_of(text: &str) -> (chars: Vec<char>)
    ensures
        chars@ == text@,
{
    broadcast use vstd::string::axiom_spec_iter;

    let mut chars: Vec<char> = Vec::new();
    for c in it: text.chars()
        invariant
            it.seq() == text@,
            chars@ == text@.take(it.index() as int),
    {
        chars.push(c);
        assert(text@.take(it.index() as int + 1) =~= text@.take(it.index() as int).push(c));
    }
    assert(text@.take(text@.len() as int) =~= text@);
    chars
}

/// Appends characters `from..to`.
pub fn push_chars(text: &mut String, chars: &[char], from: usize, to: usize)
    requires
        from <= to <= chars@.len(),
    ensures
        final(text)@ == old(text)@ + chars@.subrange(from as int, to as int),
{
    let mut i = from;
    assert(text@ =~= old(text)@ + chars@.subrange(from as int, from as int));
    while i < to
        invariant
            from <= i <= to <= chars@.len(),
            text@ == old(text)@ + chars@.subrange(from as int, i as int),
        decreases to - i,
    {
        text.push(chars[i]);
        assert(text@ =~= old(text)@ + chars@.subrange(from as int, i + 1));
        i = i + 1;
    }
}

/// The text of characters `from..to`.
pub fn text_of(chars: &[char], from: usize, to: usize) -> (text: String)
    requires
        from <= to <= chars@.len(),
    ensures
        text@ == chars@.subrange(from as int, to as int),
{
    let mut text = String::new();
    push_chars(&mut text, chars, from, to);
    assert(text@ =~= chars@.subrange(from as int, to as int));
    text
}

/// `pattern` stands at position `at`.
pub open spec fn found_at(text: Seq<char>, pattern: Seq<char>, at: int) -> bool {
    0 <= at && at + pattern.len() <= text.len() && text.subrange(at, at + pattern.len()) == pattern
}

/// Whether `pattern` stands at position `at`.
pub fn is_found_at(text: &[char], pattern: &[char], at: usize) -> (result: bool)
    requires
        at <= text@.len(),
    ensures
        result == found_at(text@, pattern@, at as int),
{
    if pattern.len() > text.len() - at {
        return false;
    }
    let mut i: usize = 0;
    while i < pattern.len()
        invariant
            i <= pattern@.len(),
            at + pattern@.len() <= text@.len() <= usize::MAX,
            forall|j: int|
                0 <= j < i ==> #[trigger] text@.subrange(at as int, at + pattern@.len())[j]
                    == pattern@[j],
        decreases pattern@.len() - i,
    {
        if text[at + i] != pattern[i] {
            assert(text@.subrange(at as int, at + pattern@.len())[i as int] == text@[at + i]);
            return false;
        }
        i = i + 1;
    }
    assert(text@.subrange(at as int, at + pattern@.len()) =~= pattern@);
    true
}

/// `pattern` stands somewhere in the text.
pub open spec fn occurs(text: Seq<char>, pattern: Seq<char>) -> bool {
    exists|at: int| found_at(text, pattern, at)
}

/// Whether `pattern` stands somewhere in the text.
pub fn contains(text: &[char], pattern: &[char]) -> (result: bool)
    ensures
        result == occurs(text@, pattern@),
{
    let mut at: usize = 0;
    while at < text.len()
        invariant
            at <= text@.len(),
            forall|j: int| 0 <= j < at ==> !#[trigger] found_at(text@, pattern@, j),
        decreases text@.len() - at,
    {
        if is_found_at(text, pattern, at) {
            return true;
        }
        at = at + 1;
    }
    is_found_at(text, pattern, at)
}

/// The text ends with `suffix`.
pub open spec fn has_suffix(text: Seq<char>, suffix: Seq<char>) -> bool {
    found_at(text, suffix, text.len() - suffix.len())
}

/// Whether the text ends with `suffix`.
pub fn ends_with(text: &[char], suffix: &[char]) -> (result: bool)
    ensures
        result == has_suffix(text@, suffix@),
{
    if suffix.len() > text.len() {
        return false;
    }
    is_found_at(text, suffix, text.len() - suffix.len())
}

/// The text with every occurrence of `pattern` replaced, from left to right and
/// without overlap.
pub open spec fn replaced(text: Seq<char>, pattern: Seq<char>, with: Seq<char>) -> Seq<char>
    decreases text.len(),
{
    if text.len() == 0 || pattern.len() == 0 {
        text
    } else if found_at(text, pattern, 0) {
        with + replaced(text.skip(pattern.len() as int), pattern, with)
    } else {
        seq![text[0]] + replaced(text.skip(1), pattern, with)
    }
}

/// Replaces every occurrence of `pattern`.
pub fn replace(text: &[char], pattern: &[char], with: &[char]) -> (result: Vec<char>)
    ensures
        result@ == replaced(text@, pattern@, with@),
{
    let mut result: Vec<char> = Vec::new();
    let mut at: usize = 0;
    if pattern.len() == 0 {
        while at < text.len()
            invariant
                at <= text@.len(),
                result@ == text@.take(at as int),
            decreases text@.len() - at,
        {
            result.push(text[at]);
            assert(text@.take(at + 1) =~= text@.take(at as int).push(text@[at as int]));
            at = at + 1;
        }
        assert(text@.take(at as int) =~= text@);
        return result;
    }
    assert(text@.skip(0) =~= text@);
    while at < text.len()
        invariant
            at <= text@.len(),
            pattern@.len() > 0,
            result@ + replaced(text@.skip(at as int), pattern@, with@) == replaced(
                text@,
                pattern@,
                with@,
            ),
        decreases text@.len() - at,
    {
        let ghost rest = text@.skip(at as int);
        let ghost before = result@;
        if is_found_at(text, pattern, at) {
            let mut i: usize = 0;
            while i < with.len()
                invariant
                    i <= with@.len(),
                    result@ == before + with@.take(i as int),
                decreases with@.len() - i,
            {
                result.push(with[i]);
                assert(with@.take(i + 1) =~= with@.take(i as int).push(with@[i as int]));
                i = i + 1;
            }
            proof {
                assert(with@.take(i as int) =~= with@);
                assert(rest.subrange(0, pattern@.len() as int) =~= text@.subrange(
                    at as int,
                    at + pattern@.len(),
                ));
                assert(found_at(rest, pattern@, 0));
                assert(rest.skip(pattern@.len() as int) =~= text@.skip(at + pattern@.len()));
                assert(before + (with@ + replaced(
                    rest.skip(pattern@.len() as int),
                    pattern@,
                    with@,
                )) =~= (before + with@) + replaced(
                    rest.skip(pattern@.len() as int),
                    pattern@,
                    with@,
                ));
            }
            at = at + pattern.len();
        } else {
            result.push(text[at]);
            proof {
                if found_at(rest, pattern@, 0) {
                    assert(rest.subrange(0, pattern@.len() as int) =~= text@.subrange(
                        at as int,
                        at + pattern@.len(),
                    ));
                }
                assert(rest.skip(1) =~= text@.skip(at + 1));
                assert(before + (seq![rest[0]] + replaced(rest.skip(1), pattern@, with@))
                    =~= before.push(rest[0]) + replaced(rest.skip(1), pattern@, with@));
            }
            at = at + 1;
        }
    }
    assert(result@ + replaced(text@.skip(at as int), pattern@, with@) =~= result@);
    result
}

/// A text without the pattern stays as it is.
pub proof fn lemma_replaced_absent(text: Seq<char>, pattern: Seq<char>, with: Seq<char>)
    requires
        !occurs(text, pattern),
    ensures
        replaced(text, pattern, with) == text,
    decreases text.len(),
{
    if text.len() > 0 && pattern.len() > 0 {
        assert(!found_at(text, pattern, 0));
        let rest = text.skip(1);
        assert(!occurs(rest, pattern)) by {
            if occurs(rest, pattern) {
                let at = choose|at: int| found_at(rest, pattern, at);
                assert(rest.subrange(at, at + pattern.len()) =~= text.subrange(
                    at + 1,
                    at + 1 + pattern.len(),
                ));
                assert(found_at(text, pattern, at + 1));
            }
        }
        lemma_replaced_absent(rest, pattern, with);
        assert(seq![text[0]] + rest =~= text);
    }
}

/// Characters of the Unicode property `White_Space`.
pub open spec fn white_space(c: char) -> bool {
    let code = c as int;
    ||| 0x9 <= code <= 0xD
    ||| code == 0x20
    ||| code == 0x85
    ||| code == 0xA0
    ||| code == 0x1680
    ||| 0x2000 <= code <= 0x200A
    ||| code == 0x2028
    ||| code == 0x2029
    ||| code == 0x202F
    ||| code == 0x205F
    ||| code == 0x3000
}

fn is_white_space(c: char) -> (result: bool)
    ensures
        result == white_space(c),
{
    let code = c as u32;
    (0x9 <= code && code <= 0xD) || code == 0x20 || code == 0x85 || code == 0xA0 || code == 0x1680
        || (0x2000 <= code && code <= 0x200A) || code == 0x2028 || code == 0x2029 || code == 0x202F
        || code == 0x205F || code == 0x3000
}

/// The text without white space at its ends.
pub open spec fn trimmed(text: Seq<char>) -> Seq<char>
    decreases text.len(),
{
    if text.len() == 0 {
        text
    } else if white_space(text[0]) {
        trimmed(text.skip(1))
    } else if white_space(text.last()) {
        trimmed(text.drop_last())
    } else {
        text
    }
}

/// A decimal digit.
pub open spec fn is_digit(c: char) -> bool {
    '0' as int <= c as int <= '9' as int
}

/// The number that digits denote.
pub open spec fn digits_value(digits: Seq<char>) -> int
    decreases digits.len(),
{
    if digits.len() == 0 {
        0
    } else {
        digits_value(digits.drop_last()) * 10 + (digits.last() as int - '0' as int)
    }
}

/// The number that digits denote, if there are any, they are digits, and the
/// number fits a `usize`.
pub open spec fn digits_number(digits: Seq<char>) -> Option<usize> {
    if digits.len() > 0 && (forall|i: int| 0 <= i < digits.len() ==> is_digit(#[trigger] digits[i]))
        && digits_value(digits) <= usize::MAX {
        Some(digits_value(digits) as usize)
    } else {
        None
    }
}

/// The number that a text denotes: digits, with or without a plus sign before
/// them.
pub open spec fn parsed_number(text: Seq<char>) -> Option<usize> {
    if text.len() > 1 && text[0] == '+' {
        digits_number(text.skip(1))
    } else {
        digits_number(text)
    }
}

proof fn lemma_digits_value_prefix(digits: Seq<char>, n: int)
    requires
        0 <= n <= digits.len(),
        forall|i: int| 0 <= i < digits.len() ==> is_digit(#[trigger] digits[i]),
    ensures
        0 <= digits_value(digits.take(n)) <= digits_value(digits),
    decreases digits.len(),
{
    if digits.len() == 0 {
        assert(digits.take(n) =~= digits);
    } else if n < digits.len() {
        let shorter = digits.drop_last();
        assert forall|i: int| 0 <= i < shorter.len() implies is_digit(#[trigger] shorter[i]) by {
            assert(is_digit(digits[i]));
        }
        lemma_digits_value_prefix(shorter, n);
        assert(shorter.take(n) =~= digits.take(n));
        assert(is_digit(digits[digits.len() - 1]));
    } else {
        let shorter = digits.drop_last();
        assert forall|i: int| 0 <= i < shorter.len() implies is_digit(#[trigger] shorter[i]) by {
            assert(is_digit(digits[i]));
        }
        lemma_digits_value_prefix(shorter, shorter.len() as int);
        assert(shorter.take(shorter.len() as int) =~= shorter);
        assert(is_digit(digits[digits.len() - 1]));
        assert(digits.take(n) =~= digits);
    }
}

/// The number that characters `from..to` denote once white space at their ends
/// is dropped.
pub fn parse_trimmed_number(chars: &[char], from: usize, to: usize) -> (result: Option<usize>)
    requires
        from <= to <= chars@.len(),
    ensures
        result == parsed_number(trimmed(chars@.subrange(from as int, to as int))),
{
    let mut start = from;
    let mut end = to;
    let ghost whole = chars@.subrange(from as int, to as int);
    while start < end && is_white_space(chars[start])
        invariant
            from <= start <= end == to <= chars@.len(),
            trimmed(chars@.subrange(start as int, end as int)) == trimmed(whole),
        decreases end - start,
    {
        assert(chars@.subrange(start as int, end as int).skip(1) =~= chars@.subrange(
            start + 1,
            end as int,
        ));
        start = start + 1;
    }
    while start < end && is_white_space(chars[end - 1])
        invariant
            from <= start <= end <= to <= chars@.len(),
            start < end ==> !white_space(chars@[start as int]),
            trimmed(chars@.subrange(start as int, end as int)) == trimmed(whole),
        decreases end - start,
    {
        assert(chars@.subrange(start as int, end as int).drop_last() =~= chars@.subrange(
            start as int,
            end - 1,
        ));
        end = end - 1;
    }
    let ghost text = chars@.subrange(start as int, end as int);
    assert(text == trimmed(whole));
    if end - start > 1 && chars[start] == '+' {
        assert(text.skip(1) =~= chars@.subrange(start + 1, end as int));
        start = start + 1;
    }
    let ghost digits = chars@.subrange(start as int, end as int);
    assert(parsed_number(trimmed(whole)) == digits_number(digits));
    if start == end {
        return None;
    }
    let mut value: usize = 0;
    let mut i = start;
    while i < end
        invariant
            start <= i <= end <= chars@.len(),
            digits == chars@.subrange(start as int, end as int),
            whole == chars@.subrange(from as int, to as int),
            parsed_number(trimmed(whole)) == digits_number(digits),
            forall|j: int| 0 <= j < i - start ==> is_digit(#[trigger] digits[j]),
            value == digits_value(digits.take(i - start)),
        decreases end - i,
    {
        let c = chars[i];
        let ghost k = i - start;
        assert(digits[k] == c);
        if !('0' <= c && c <= '9') {
            assert(!is_digit(digits[k]));
            return None;
        }
        let digit = (c as u32 - '0' as u32) as usize;
        proof {
            assert(digits.take(k + 1).drop_last() =~= digits.take(k));
            assert(digits_value(digits.take(k + 1)) == value * 10 + digit);
            if (forall|j: int| 0 <= j < digits.len() ==> is_digit(#[trigger] digits[j])) {
                lemma_digits_value_prefix(digits, k + 1);
            }
        }
        value = match value.checked_mul(10) {
            Some(tens) => match tens.checked_add(digit) {
                Some(next) => next,
                None => return None,
            },
            None => return None,
        };
        i = i + 1;
    }
    assert(digits.take(i - start) =~= digits);
    Some(value)
}

} // verus!
