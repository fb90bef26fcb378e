//! Operations on text, stated over sequences of characters.

use vstd::prelude::*;

verus! {

/// `String::push` appends one character.
pub assume_specification[ String::push ](text: &mut String, c: char)
    ensures
        final(text)@ == old(text)@.push(c),
;

/// The characters of `text`, in order.
pub fn chars_of(text: &str) -> (chars: Vec<char>)
    ensures
        chars@ == text@,
{
    let mut chars: Vec<char> = Vec::new();
    for c in it: text.chars()
        invariant
            it.seq() == text@,
            chars@ == text@.take(it.index()),
    {
        chars.push(c);
    }
    assert(text@.take(text@.len() as int) == text@);
    chars
}

/// The text made of `chars[from..to]`.
pub fn text_of(chars: &Vec<char>, from: usize, to: usize) -> (text: String)
    requires
        from <= to <= chars.len(),
    ensures
        text@ == chars@.subrange(from as int, to as int),
{
    let mut text = String::new();
    let mut i: usize = from;
    while i < to
        invariant
            from <= i <= to <= chars.len(),
            text@ == chars@.subrange(from as int, i as int),
        decreases to - i,
    {
        text.push(chars[i]);
        i = i + 1;
        assert(chars@.subrange(from as int, i as int) == chars@.subrange(
            from as int,
            i - 1,
        ).push(chars@[i - 1]));
    }
    text
}

/// Two texts in one.
pub fn text2(a: &str, b: &str) -> (text: String)
    ensures
        text@ == a@ + b@,
{
    let mut text = a.to_owned();
    text.append(b);
    text
}

/// Three texts in one.
pub fn text3(a: &str, b: &str, c: &str) -> (text: String)
    ensures
        text@ == a@ + b@ + c@,
{
    let mut text = text2(a, b);
    text.append(c);
    text
}

/// Whether two texts are the same.
pub fn same_text(a: &str, b: &str) -> (same: bool)
    ensures
        same == (a@ == b@),
{
    let left = chars_of(a);
    let right = chars_of(b);
    assert(left@.subrange(0, left@.len() as int) == left@);
    left.len() == right.len() && occurs(&left, &right, 0)
}

/// Whether `pattern` stands in `text` at index `at`.
pub open spec fn occurs_at<T>(text: Seq<T>, pattern: Seq<T>, at: int) -> bool {
    &&& 0 <= at
    &&& at + pattern.len() <= text.len()
    &&& text.subrange(at, at + pattern.len()) == pattern
}

/// The first index from `from` on at which `pattern` stands in `text`.
pub open spec fn position<T>(text: Seq<T>, pattern: Seq<T>, from: int) -> Option<int>
    decreases text.len() + 1 - from,
{
    if from < 0 || from + pattern.len() > text.len() {
        None
    } else if occurs_at(text, pattern, from) {
        Some(from)
    } else {
        position(text, pattern, from + 1)
    }
}

/// Whether `text` ends with `suffix`.
pub open spec fn has_suffix<T>(text: Seq<T>, suffix: Seq<T>) -> bool {
    occurs_at(text, suffix, text.len() - suffix.len())
}

/// `position` is an occurrence, none stands between `from` and it, and where
/// there is no position there is no occurrence from `from` on.
pub proof fn position_is_first<T>(text: Seq<T>, pattern: Seq<T>, from: int)
    requires
        0 <= from,
    ensures
        match position(text, pattern, from) {
            Some(at) => {
                &&& from <= at
                &&& occurs_at(text, pattern, at)
                &&& forall|i: int| from <= i < at ==> !occurs_at(text, pattern, i)
            },
            None => forall|i: int| from <= i ==> !occurs_at(text, pattern, i),
        },
    decreases text.len() + 1 - from,
{
    if from + pattern.len() <= text.len() && !occurs_at(text, pattern, from) {
        position_is_first(text, pattern, from + 1);
    }
}

/// Whether `pattern` stands in `text` at index `at`.
pub fn occurs(text: &Vec<char>, pattern: &Vec<char>, at: usize) -> (found: bool)
    ensures
        found == occurs_at(text@, pattern@, at as int),
{
    if at > text.len() || pattern.len() > text.len() - at {
        return false;
    }
    let mut i: usize = 0;
    while i < pattern.len()
        invariant
            i <= pattern.len(),
            at + pattern.len() <= text.len(),
            forall|j: int| 0 <= j < i ==> text@[at + j] == pattern@[j],
        decreases pattern.len() - i,
    {
        if text[at + i] != pattern[i] {
            assert(text@.subrange(at as int, at + pattern@.len())[i as int] != pattern@[i as int]);
            return false;
        }
        i = i + 1;
    }
    assert(text@.subrange(at as int, at + pattern@.len()) == pattern@);
    true
}

/// The first index from `from` on at which `pattern` stands in `text`.
pub fn find(text: &Vec<char>, pattern: &Vec<char>, from: usize) -> (found: Option<usize>)
    ensures
        match found {
            Some(at) => position(text@, pattern@, from as int) == Some(at as int),
            None => position(text@, pattern@, from as int) is None,
        },
{
    let mut at: usize = from;
    while at <= text.len() && pattern.len() <= text.len() - at
        invariant
            from <= at,
            position(text@, pattern@, from as int) == position(text@, pattern@, at as int),
        decreases text.len() + 1 - at,
    {
        if occurs(text, pattern, at) {
            return Some(at);
        }
        proof {
            if at == text.len() {
                assert(text@.subrange(at as int, at as int) == pattern@);
            }
        }
        at = at + 1;
    }
    None
}

/// Whether `text` starts with `prefix`.
pub fn starts_with(text: &Vec<char>, prefix: &Vec<char>) -> (found: bool)
    ensures
        found == occurs_at(text@, prefix@, 0),
{
    occurs(text, prefix, 0)
}

/// Whether `text` ends with `suffix`.
pub fn ends_with(text: &Vec<char>, suffix: &Vec<char>) -> (found: bool)
    ensures
        found == has_suffix(text@, suffix@),
{
    if suffix.len() > text.len() {
        return false;
    }
    occurs(text, suffix, text.len() - suffix.len())
}

/// `text` with every `c` replaced by `by`.
pub open spec fn replaced(text: Seq<char>, c: char, by: Seq<char>) -> Seq<char>
    decreases text.len(),
{
    if text.len() == 0 {
        seq![]
    } else {
        replaced(text.drop_last(), c, by) + if text.last() == c {
            by
        } else {
            seq![text.last()]
        }
    }
}

/// `text` with every `c` replaced by `by`.
pub fn replace_char(text: &str, c: char, by: &str) -> (result: String)
    ensures
        result@ == replaced(text@, c, by@),
{
    let chars = chars_of(text);
    let mut result = String::new();
    let mut i: usize = 0;
    while i < chars.len()
        invariant
            i <= chars.len(),
            result@ == replaced(chars@.take(i as int), c, by@),
        decreases chars.len() - i,
    {
        let next: char = chars[i];
        assert(chars@.take(i + 1).drop_last() == chars@.take(i as int));
        if next == c {
            result.append(by);
        } else {
            result.push(next);
        }
        i = i + 1;
    }
    assert(chars@.take(chars@.len() as int) == chars@);
    result
}

/// A text without `c` is left as it is.
pub proof fn replaced_without(text: Seq<char>, c: char, by: Seq<char>)
    requires
        !text.contains(c),
    ensures
        replaced(text, c, by) == text,
    decreases text.len(),
{
    if text.len() > 0 {
        assert(text[text.len() - 1] != c);
        assert forall|i: int| 0 <= i < text.drop_last().len() implies text.drop_last()[i] != c by {
            assert(text[i] != c);
        }
        replaced_without(text.drop_last(), c, by);
        assert(text.drop_last() + seq![text.last()] == text);
    } else {
        assert(text == Seq::<char>::empty());
    }
}

/// Replacing in a concatenation replaces in both parts.
pub proof fn replaced_concat(a: Seq<char>, b: Seq<char>, c: char, by: Seq<char>)
    ensures
        replaced(a + b, c, by) == replaced(a, c, by) + replaced(b, c, by),
    decreases b.len(),
{
    if b.len() == 0 {
        assert(a + b == a);
        assert(replaced(a, c, by) + replaced(b, c, by) == replaced(a, c, by));
    } else {
        assert((a + b).drop_last() == a + b.drop_last());
        replaced_concat(a, b.drop_last(), c, by);
    }
}

/// `text` with the occurrences of `pattern`, from left to right and none
/// overlapping the one before, replaced by `by`.
pub open spec fn replaced_text(text: Seq<char>, pattern: Seq<char>, by: Seq<char>) -> Seq<char>
    decreases text.len(),
{
    match position(text, pattern, 0) {
        Some(at) => if pattern.len() > 0 && 0 <= at && at + pattern.len() <= text.len() {
            text.take(at) + by + replaced_text(text.skip(at + pattern.len()), pattern, by)
        } else {
            text
        },
        None => text,
    }
}

/// The position in what is left of a text after `from` characters.
proof fn position_in_rest<T>(text: Seq<T>, pattern: Seq<T>, from: int, start: int)
    requires
        0 <= start <= from <= text.len(),
    ensures
        position(text.skip(start), pattern, from - start) == (match position(text, pattern, from) {
            Some(at) => Some(at - start),
            None => None,
        }),
    decreases text.len() - from,
{
    let rest = text.skip(start);
    if from + pattern.len() <= text.len() {
        assert(rest.subrange(from - start, from - start + pattern.len()) == text.subrange(
            from,
            from + pattern.len(),
        ));
        if !occurs_at(text, pattern, from) {
            if from < text.len() {
                position_in_rest(text, pattern, from + 1, start);
            }
        }
    }
}

/// `text` with the occurrences of `pattern`, from left to right and none
/// overlapping the one before, replaced by `by`.
pub fn replace_text(text: &str, pattern: &str, by: &str) -> (result: String)
    requires
        pattern@.len() > 0,
    ensures
        result@ == replaced_text(text@, pattern@, by@),
{
    let chars = chars_of(text);
    let wanted = chars_of(pattern);
    let mut result = String::new();
    let mut from: usize = 0;
    assert(chars@.skip(0) == chars@);
    loop
        invariant
            chars@ == text@,
            wanted@ == pattern@,
            pattern@.len() > 0,
            from <= chars.len(),
            result@ + replaced_text(chars@.skip(from as int), pattern@, by@) == replaced_text(
                text@,
                pattern@,
                by@,
            ),
        decreases chars.len() - from,
    {
        let ghost rest = chars@.skip(from as int);
        proof {
            position_in_rest(chars@, pattern@, from as int, from as int);
            position_is_first(chars@, pattern@, from as int);
        }
        match find(&chars, &wanted, from) {
            Some(at) => {
                let before = text_of(&chars, from, at);
                proof {
                    assert(rest.take(at - from) == chars@.subrange(from as int, at as int));
                    assert(rest.skip(at - from + wanted@.len()) == chars@.skip(at + wanted@.len()));
                }
                result.append(before.as_str());
                result.append(by);
                from = at + wanted.len();
            },
            None => {
                let tail = text_of(&chars, from, chars.len());
                assert(tail@ == rest);
                result.append(tail.as_str());
                return result;
            },
        }
    }
}

/// `parts` with `separator` between each two.
pub open spec fn joined(parts: Seq<Seq<char>>, separator: Seq<char>) -> Seq<char>
    decreases parts.len(),
{
    if parts.len() == 0 {
        seq![]
    } else if parts.len() == 1 {
        parts[0]
    } else {
        joined(parts.drop_last(), separator) + separator + parts.last()
    }
}

/// The views of a list of texts.
pub open spec fn views(texts: Seq<String>) -> Seq<Seq<char>> {
    texts.map_values(|text: String| text@)
}

/// `parts` with `separator` between each two.
pub fn join(parts: &Vec<String>, separator: &str) -> (result: String)
    ensures
        result@ == joined(views(parts@), separator@),
{
    let mut result = String::new();
    let mut i: usize = 0;
    while i < parts.len()
        invariant
            i <= parts.len(),
            result@ == joined(views(parts@).take(i as int), separator@),
        decreases parts.len() - i,
    {
        proof {
            let next = views(parts@).take(i + 1);
            assert(next.drop_last() == views(parts@).take(i as int));
        }
        if i > 0 {
            result.append(separator);
        }
        result.append(parts[i].as_str());
        i = i + 1;
    }
    assert(views(parts@).take(parts@.len() as int) == views(parts@));
    result
}

/// The decimal digit of a number below ten.
pub open spec fn digit(n: nat) -> char {
    (('0' as int) + n) as char
}

/// A number in decimal, without leading zeros.
pub open spec fn decimal_of(n: nat) -> Seq<char>
    decreases n,
{
    if n < 10 {
        seq![digit(n)]
    } else {
        decimal_of(n / 10).push(digit(n % 10))
    }
}

/// A number in decimal, without leading zeros.
pub fn decimal(n: u64) -> (result: String)
    ensures
        result@ == decimal_of(n as nat),
    decreases n,
{
    let mut result = if n < 10 {
        String::new()
    } else {
        decimal(n / 10)
    };
    let last: u8 = (n % 10) as u8;
    let c: char = (48u8 + last) as char;
    result.push(c);
    result
}

/// The UTF-8 encoding of a concatenation is that of its parts.
pub proof fn encoding_of_concat(a: Seq<char>, b: Seq<char>)
    ensures
        vstd::utf8::encode_utf8(a + b) == vstd::utf8::encode_utf8(a) + vstd::utf8::encode_utf8(b),
    decreases a.len(),
{
    if a.len() == 0 {
        assert(a + b == b);
        assert(vstd::utf8::encode_utf8(a) + vstd::utf8::encode_utf8(b) == vstd::utf8::encode_utf8(
            b,
        ));
    } else {
        encoding_of_concat(a.drop_first(), b);
        assert((a + b).drop_first() == a.drop_first() + b);
    }
}

/// A pattern stands in a text exactly where the text is made of what is before,
/// the pattern and what is behind it.
pub proof fn occurrence_parts_the_text<T>(text: Seq<T>, pattern: Seq<T>, at: int)
    ensures
        occurs_at(text, pattern, at) <==> exists|before: Seq<T>, after: Seq<T>|
            before.len() == at && #[trigger] (before + pattern + after) == text,
{
    if occurs_at(text, pattern, at) {
        let before = text.take(at);
        let after = text.skip(at + pattern.len());
        assert(text.subrange(at, at + pattern.len()) == pattern);
        assert(before + pattern + after == text);
    }
    assert forall|before: Seq<T>, after: Seq<T>|
        before.len() == at && #[trigger] (before + pattern + after) == text implies occurs_at(
        text,
        pattern,
        at,
    ) by {
        assert(text.subrange(at, at + pattern.len()) == pattern);
    }
}

/// A text ends with a suffix exactly where it is something followed by the
/// suffix.
pub proof fn suffix_is_at_the_end<T>(text: Seq<T>, suffix: Seq<T>)
    ensures
        has_suffix(text, suffix) <==> exists|before: Seq<T>| #[trigger] (before + suffix) == text,
{
    if has_suffix(text, suffix) {
        let before = text.take(text.len() - suffix.len());
        assert(text.subrange(text.len() - suffix.len(), text.len() as int) == suffix);
        assert(before + suffix == text);
    }
    assert forall|before: Seq<T>| #[trigger] (before + suffix) == text implies has_suffix(
        text,
        suffix,
    ) by {
        assert(text.subrange(before.len() as int, text.len() as int) == suffix);
    }
}

/// Each `c` is replaced where it stands, and what is before and behind it is
/// replaced by itself.
pub proof fn replaced_where_it_stands(before: Seq<char>, c: char, after: Seq<char>, by: Seq<char>)
    ensures
        replaced(before + seq![c] + after, c, by) == replaced(before, c, by) + by + replaced(
            after,
            c,
            by,
        ),
{
    replaced_concat(before + seq![c], after, c, by);
    assert((before + seq![c]).drop_last() == before);
}

/// A text in which a pattern does not stand is left as it is, and one in which it
/// stands first behind `before` is `before`, the replacement and the rest with the
/// pattern replaced in it.
pub proof fn replaced_text_from_the_left(
    before: Seq<char>,
    pattern: Seq<char>,
    after: Seq<char>,
    by: Seq<char>,
)
    requires
        pattern.len() > 0,
    ensures
        (forall|i: int| !#[trigger] occurs_at(before, pattern, i)) ==> replaced_text(
            before,
            pattern,
            by,
        ) == before,
        (forall|i: int|
            0 <= i < before.len() ==> !#[trigger] occurs_at(before + pattern + after, pattern, i))
            ==> replaced_text(before + pattern + after, pattern, by) == before + by + replaced_text(
            after,
            pattern,
            by,
        ),
{
    position_is_first(before, pattern, 0);
    let whole = before + pattern + after;
    position_is_first(whole, pattern, 0);
    let at = before.len() as int;
    assert(whole.subrange(at, at + pattern.len()) == pattern);
    assert(occurs_at(whole, pattern, at));
    assert(whole.take(at) == before);
    assert(whole.skip(at + pattern.len()) == after);
}

/// The number that decimal digits stand for.
pub open spec fn number_of(digits: Seq<char>) -> int
    decreases digits.len(),
{
    if digits.len() == 0 {
        0
    } else {
        number_of(digits.drop_last()) * 10 + (digits.last() as int - '0' as int)
    }
}

/// A number in decimal is made of digits, stands for the number, and starts with
/// a zero only where it is zero.
pub proof fn decimal_stands_for_the_number(n: nat)
    ensures
        number_of(decimal_of(n)) == n,
        decimal_of(n).len() > 0,
        forall|i: int| 0 <= i < decimal_of(n).len() ==> '0' <= #[trigger] decimal_of(n)[i] <= '9',
        decimal_of(n)[0] == '0' ==> n == 0,
    decreases n,
{
    if n < 10 {
        assert(decimal_of(n).drop_last() == Seq::<char>::empty());
        assert(number_of(decimal_of(n).drop_last()) == 0);
    } else {
        decimal_stands_for_the_number(n / 10);
        assert(decimal_of(n).drop_last() == decimal_of(n / 10));
        assert(decimal_of(n)[0] == decimal_of(n / 10)[0]);
    }
}

/// Two lists of parts, one behind the other, are joined by joining each of them,
/// with the separator between.
pub proof fn joined_is_the_parts_in_order(
    first: Seq<Seq<char>>,
    second: Seq<Seq<char>>,
    separator: Seq<char>,
)
    requires
        first.len() > 0,
        second.len() > 0,
    ensures
        joined(seq![first[0]], separator) == first[0],
        joined(first + second, separator) == joined(first, separator) + separator + joined(
            second,
            separator,
        ),
    decreases second.len(),
{
    let whole = first + second;
    if second.len() == 1 {
        assert(whole.drop_last() == first);
        assert(whole.last() == second[0]);
    } else {
        joined_is_the_parts_in_order(first, second.drop_last(), separator);
        assert(whole.drop_last() == first + second.drop_last());
        assert(joined(whole, separator) == joined(first, separator) + separator + joined(
            second.drop_last(),
            separator,
        ) + separator + second.last());
        assert(joined(first, separator) + separator + joined(second.drop_last(), separator)
            + separator + second.last() == joined(first, separator) + separator + (joined(
            second.drop_last(),
            separator,
        ) + separator + second.last()));
    }
}

} // verus!
