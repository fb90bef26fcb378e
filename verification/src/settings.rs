//! The user's theme setting, found in the settings text without a parser.

use crate::text::{chars_of, find, same_text, text_of};
use vstd::prelude::*;

verus! {

/// How many bytes of the settings are looked at from the section on.
pub const SECTION_BYTES: usize = 120;

/// How many bytes a character takes in UTF-8.
pub open spec fn char_width(c: char) -> nat {
    vstd::utf8::encode_scalar(c as u32).len()
}

/// The characters of `text` that fit whole into its first `limit` bytes.
pub open spec fn first_bytes(text: Seq<char>, limit: int) -> Seq<char>
    decreases text.len(),
{
    if text.len() == 0 || char_width(text[0]) > limit {
        seq![]
    } else {
        seq![text[0]] + first_bytes(text.skip(1), limit - char_width(text[0]))
    }
}

/// The white space characters of Unicode.
pub open spec fn is_white(c: char) -> bool {
    ||| '\u{9}' <= c <= '\u{d}'
    ||| c == ' '
    ||| c == '\u{85}'
    ||| c == '\u{a0}'
    ||| c == '\u{1680}'
    ||| '\u{2000}' <= c <= '\u{200a}'
    ||| c == '\u{2028}'
    ||| c == '\u{2029}'
    ||| c == '\u{202f}'
    ||| c == '\u{205f}'
    ||| c == '\u{3000}'
}

/// `text` from its first character on that is not white space.
pub open spec fn without_leading_white(text: Seq<char>) -> Seq<char>
    decreases text.len(),
{
    if text.len() > 0 && is_white(text[0]) {
        without_leading_white(text.skip(1))
    } else {
        text
    }
}

/// `text` up to its first white space.
pub open spec fn up_to_white(text: Seq<char>) -> Seq<char>
    decreases text.len(),
{
    if text.len() == 0 || is_white(text[0]) {
        seq![]
    } else {
        seq![text[0]] + up_to_white(text.skip(1))
    }
}

/// The first word of a text, where words are parted by white space.
pub open spec fn first_word(text: Seq<char>) -> Option<Seq<char>> {
    let rest = without_leading_white(text);
    if rest.len() == 0 {
        None
    } else {
        Some(up_to_white(rest))
    }
}

/// Whether a character is a quotation mark.
pub open spec fn is_quote(c: char) -> bool {
    c == '"' || c == '\''
}

/// `text` without the quotation marks at its start.
pub open spec fn without_leading_quotes(text: Seq<char>) -> Seq<char>
    decreases text.len(),
{
    if text.len() > 0 && is_quote(text[0]) {
        without_leading_quotes(text.skip(1))
    } else {
        text
    }
}

/// `text` without the quotation marks at its end.
pub open spec fn without_trailing_quotes(text: Seq<char>) -> Seq<char>
    decreases text.len(),
{
    if text.len() > 0 && is_quote(text.last()) {
        without_trailing_quotes(text.drop_last())
    } else {
        text
    }
}

/// What stands in the settings from the theme section on, as far as it is
/// looked at.
pub open spec fn theme_section(settings: Seq<char>) -> Option<Seq<char>> {
    match crate::text::position(settings, "ui-theme:"@, 0) {
        Some(at) => Some(first_bytes(settings.skip(at), SECTION_BYTES as int)),
        None => None,
    }
}

/// The value of the preference in a theme section: the word after
/// `preference:`, without quotation marks.
pub open spec fn preference_in(section: Seq<char>) -> Option<Seq<char>> {
    match crate::text::position(section, "preference:"@, 0) {
        Some(at) => match first_word(section.skip(at + "preference:"@.len())) {
            Some(word) => Some(without_trailing_quotes(without_leading_quotes(word))),
            None => None,
        },
        None => None,
    }
}

/// The preference that the settings hold.
pub open spec fn settings_preference(settings: Seq<char>) -> Option<Seq<char>> {
    match theme_section(settings) {
        Some(section) => preference_in(section),
        None => None,
    }
}

fn white(c: char) -> (white: bool)
    ensures
        white == is_white(c),
{
    ('\u{9}' <= c && c <= '\u{d}') || c == ' ' || c == '\u{85}' || c == '\u{a0}' || c == '\u{1680}'
        || ('\u{2000}' <= c && c <= '\u{200a}') || c == '\u{2028}' || c == '\u{2029}' || c
        == '\u{202f}' || c == '\u{205f}' || c == '\u{3000}'
}

fn width(c: char) -> (bytes: usize)
    ensures
        bytes == char_width(c),
        1 <= bytes <= 4,
{
    let code: u32 = c as u32;
    if code < 0x80 {
        1
    } else if code < 0x800 {
        2
    } else if code < 0x1_0000 {
        3
    } else {
        4
    }
}

/// The end of the section that starts at `at`.
fn section_end(chars: &Vec<char>, at: usize) -> (end: usize)
    requires
        at <= chars.len(),
    ensures
        at <= end <= chars.len(),
        chars@.subrange(at as int, end as int) == first_bytes(
            chars@.skip(at as int),
            SECTION_BYTES as int,
        ),
{
    let mut end: usize = at;
    let mut used: usize = 0;
    let ghost whole = first_bytes(chars@.skip(at as int), SECTION_BYTES as int);
    while end < chars.len() && width(chars[end]) <= SECTION_BYTES - used
        invariant
            at <= end <= chars.len(),
            used <= SECTION_BYTES,
            whole == chars@.subrange(at as int, end as int) + first_bytes(
                chars@.skip(end as int),
                SECTION_BYTES - used,
            ),
        decreases chars.len() - end,
    {
        let bytes: usize = width(chars[end]);
        proof {
            let rest = chars@.skip(end as int);
            let done = chars@.subrange(at as int, end as int);
            let next = chars@.subrange(at as int, end + 1);
            assert(rest.skip(1) == chars@.skip(end + 1));
            assert(done + (seq![rest[0]] + first_bytes(
                rest.skip(1),
                SECTION_BYTES - used - bytes,
            )) == next + first_bytes(rest.skip(1), SECTION_BYTES - used - bytes));
        }
        used = used + bytes;
        end = end + 1;
    }
    assert(first_bytes(chars@.skip(end as int), SECTION_BYTES - used) == Seq::<char>::empty());
    end
}

/// The value of the preference that stands in `chars[from..to]`.
fn read_preference(chars: &Vec<char>, from: usize, to: usize) -> (result: Option<String>)
    requires
        from <= to <= chars.len(),
    ensures
        crate::json::text_view(result) == (match first_word(
            chars@.subrange(from as int, to as int),
        ) {
            Some(word) => Some(without_trailing_quotes(without_leading_quotes(word))),
            None => None,
        }),
{
    let ghost text = chars@.subrange(from as int, to as int);
    let mut start: usize = from;
    while start < to && white(chars[start])
        invariant
            from <= start <= to <= chars.len(),
            text == chars@.subrange(from as int, to as int),
            without_leading_white(text) == without_leading_white(
                chars@.subrange(start as int, to as int),
            ),
        decreases to - start,
    {
        assert(chars@.subrange(start as int, to as int).skip(1) == chars@.subrange(
            start + 1,
            to as int,
        ));
        start = start + 1;
    }
    let ghost rest = chars@.subrange(start as int, to as int);
    assert(without_leading_white(text) == rest);
    if start == to {
        return None;
    }
    let mut end: usize = start;
    assert(chars@.subrange(start as int, start as int) + up_to_white(rest) == up_to_white(rest));
    while end < to && !white(chars[end])
        invariant
            start <= end <= to <= chars.len(),
            chars@.subrange(start as int, end as int) + up_to_white(
                chars@.subrange(end as int, to as int),
            ) == up_to_white(rest),
        decreases to - end,
    {
        proof {
            let left = chars@.subrange(end as int, to as int);
            assert(left.skip(1) == chars@.subrange(end + 1, to as int));
            assert(chars@.subrange(start as int, end as int) + (seq![left[0]] + up_to_white(
                left.skip(1),
            )) == chars@.subrange(start as int, end + 1) + up_to_white(left.skip(1)));
        }
        end = end + 1;
    }
    assert(up_to_white(chars@.subrange(end as int, to as int)) == Seq::<char>::empty());
    let ghost word = chars@.subrange(start as int, end as int);
    assert(up_to_white(rest) == word);
    let mut first: usize = start;
    while first < end && (chars[first] == '"' || chars[first] == '\'')
        invariant
            start <= first <= end <= chars.len(),
            without_leading_quotes(word) == without_leading_quotes(
                chars@.subrange(first as int, end as int),
            ),
        decreases end - first,
    {
        assert(chars@.subrange(first as int, end as int).skip(1) == chars@.subrange(
            first + 1,
            end as int,
        ));
        first = first + 1;
    }
    let ghost opened = chars@.subrange(first as int, end as int);
    assert(without_leading_quotes(word) == opened);
    let mut last: usize = end;
    while first < last && (chars[last - 1] == '"' || chars[last - 1] == '\'')
        invariant
            first <= last <= chars.len(),
            without_trailing_quotes(opened) == without_trailing_quotes(
                chars@.subrange(first as int, last as int),
            ),
        decreases last - first,
    {
        assert(chars@.subrange(first as int, last as int).drop_last() == chars@.subrange(
            first as int,
            last - 1,
        ));
        last = last - 1;
    }
    Some(text_of(chars, first, last))
}

/// The theme that the user has set: `dark` or `light`. Where the home directory
/// is not known there are no settings. Settings that could not be read, or that
/// name neither, give `None`. The settings are looked at from `ui-theme:` on, as
/// far as whole characters fit into 120 bytes.
pub fn settings_theme(home: Option<&str>, settings: Option<&str>) -> (theme: Option<&'static str>)
    ensures
        match (home, settings) {
            (Some(home), Some(text)) => match theme {
                Some(name) => {
                    &&& home@.len() > 0
                    &&& settings_preference(text@) == Some(name@)
                    &&& name@ == "dark"@ || name@ == "light"@
                },
                None => home@.len() > 0 ==> {
                    &&& settings_preference(text@) != Some("dark"@)
                    &&& settings_preference(text@) != Some("light"@)
                },
            },
            _ => theme is None,
        },
{
    match home {
        Some(home) => if home.is_empty() {
            return None;
        },
        None => return None,
    }
    let text = match settings {
        Some(text) => text,
        None => return None,
    };
    let chars = chars_of(text);
    let section = chars_of("ui-theme:");
    proof {
        crate::text::position_is_first(chars@, section@, 0);
    }
    let at: usize = match find(&chars, &section, 0) {
        Some(at) => at,
        None => return None,
    };
    let end: usize = section_end(&chars, at);
    let tail_text = text_of(&chars, at, end);
    let tail = chars_of(tail_text.as_str());
    let key = chars_of("preference:");
    proof {
        crate::text::position_is_first(tail@, key@, 0);
    }
    let found: usize = match find(&tail, &key, 0) {
        Some(found) => found,
        None => return None,
    };
    assert(tail@.subrange(found + key@.len(), tail@.len() as int) == tail@.skip(
        found + key@.len(),
    ));
    match read_preference(&tail, found + key.len(), tail.len()) {
        Some(value) => if same_text(value.as_str(), "dark") {
            Some("dark")
        } else if same_text(value.as_str(), "light") {
            Some("light")
        } else {
            None
        },
        None => None,
    }
}

proof fn word_ends_at_white(word: Seq<char>, rest: Seq<char>)
    requires
        forall|i: int| 0 <= i < word.len() ==> !is_white(#[trigger] word[i]),
        rest.len() > 0 && is_white(rest[0]),
    ensures
        up_to_white(word + rest) == word,
    decreases word.len(),
{
    if word.len() == 0 {
        assert(word + rest == rest);
        assert(word == Seq::<char>::empty());
    } else {
        let tail = word.skip(1);
        assert forall|i: int| 0 <= i < tail.len() implies !is_white(#[trigger] tail[i]) by {
            assert(tail[i] == word[i + 1]);
        }
        word_ends_at_white(tail, rest);
        assert((word + rest).skip(1) == tail + rest);
        assert((word + rest)[0] == word[0]);
        assert(seq![word[0]] + tail == word);
    }
}

/// A preference that is written after `preference: `, with or without quotation
/// marks, and ends its line is read back as it was written, wherever the section
/// stands in the settings and whatever follows the line.
pub proof fn written_preference_is_read(
    settings: Seq<char>,
    lead: Seq<char>,
    quote: Seq<char>,
    value: Seq<char>,
    rest: Seq<char>,
)
    requires
        theme_section(settings) == Some(
            lead + "preference: "@ + (quote + value + quote) + "\n"@ + rest,
        ),
        crate::text::position(theme_section(settings)->0, "preference:"@, 0) == Some(
            lead.len() as int,
        ),
        quote == ""@ || quote == "\""@ || quote == "'"@,
        value.len() > 0,
        forall|i: int|
            0 <= i < value.len() ==> !is_white(#[trigger] value[i]) && !is_quote(value[i]),
    ensures
        settings_preference(settings) == Some(value),
{
    reveal_strlit("preference: ");
    reveal_strlit("preference:");
    reveal_strlit("\n");
    reveal_strlit("");
    reveal_strlit("\"");
    reveal_strlit("'");
    let section = theme_section(settings)->0;
    let word = quote + value + quote;
    let end = "\n"@ + rest;
    let after = section.skip((lead.len() + "preference:"@.len()) as int);
    assert(after == seq![' '] + (word + end));
    assert(after.skip(1) == word + end);
    assert forall|i: int| 0 <= i < word.len() implies !is_white(#[trigger] word[i]) by {
        if quote.len() <= i < quote.len() + value.len() {
            assert(word[i] == value[i - quote.len()]);
        }
    }
    assert(!is_white((word + end)[0])) by {
        assert((word + end)[0] == word[0]);
    }
    assert(without_leading_white(after.skip(1)) == after.skip(1));
    assert(without_leading_white(after) == word + end);
    word_ends_at_white(word, end);
    assert(first_word(after) == Some(word));
    let opened = value + quote;
    assert(!is_quote(opened[0])) by {
        assert(opened[0] == value[0]);
    }
    assert(without_leading_quotes(opened) == opened);
    if quote.len() == 0 {
        assert(word == value);
        assert(opened == value);
        assert(without_trailing_quotes(value) == value);
    } else {
        assert(word.skip(1) == opened);
        assert(without_leading_quotes(word) == opened);
        assert(opened.drop_last() == value);
        assert(without_trailing_quotes(value) == value);
        assert(without_trailing_quotes(opened) == value);
    }
}

/// Characters that fit are all taken, and what is left of the limit goes to what
/// follows them.
proof fn fitting_characters_are_taken(fitting: Seq<char>, rest: Seq<char>, limit: int)
    requires
        vstd::utf8::encode_utf8(fitting).len() <= limit,
    ensures
        first_bytes(fitting + rest, limit) == fitting + first_bytes(
            rest,
            limit - vstd::utf8::encode_utf8(fitting).len(),
        ),
    decreases fitting.len(),
{
    if fitting.len() == 0 {
        assert(fitting + rest == rest);
        assert(fitting + first_bytes(rest, limit) == first_bytes(rest, limit));
    } else {
        let tail = fitting.drop_first();
        let width = char_width(fitting[0]);
        assert(vstd::utf8::encode_utf8(fitting).len() == width + vstd::utf8::encode_utf8(
            tail,
        ).len());
        fitting_characters_are_taken(tail, rest, limit - width);
        assert((fitting + rest).skip(1) == tail + rest);
        assert((fitting + rest)[0] == fitting[0]);
        let left = first_bytes(rest, limit - vstd::utf8::encode_utf8(fitting).len());
        assert(seq![fitting[0]] + (tail + left) == fitting + left);
    }
}

/// What is taken is a beginning of the text and fits.
proof fn taken_characters_fit(text: Seq<char>, limit: int)
    requires
        0 <= limit,
    ensures
        first_bytes(text, limit).len() <= text.len(),
        first_bytes(text, limit) == text.take(first_bytes(text, limit).len() as int),
        vstd::utf8::encode_utf8(first_bytes(text, limit)).len() <= limit,
    decreases text.len(),
{
    if text.len() > 0 && char_width(text[0]) <= limit {
        let width = char_width(text[0]);
        let rest = first_bytes(text.skip(1), limit - width);
        taken_characters_fit(text.skip(1), limit - width);
        assert((seq![text[0]] + rest).drop_first() == rest);
        assert(text.take(rest.len() as int + 1) == seq![text[0]] + text.skip(1).take(
            rest.len() as int,
        ));
    } else {
        assert(text.take(0) == Seq::<char>::empty());
    }
}

/// Whether a text holds another one anywhere.
pub open spec fn holds(text: Seq<char>, part: Seq<char>) -> bool {
    exists|before: Seq<char>, after: Seq<char>| #[trigger] (before + part + after) == text
}

/// A pattern whose first character is not repeated in it stands first where it was
/// put behind a text that does not hold it.
proof fn stands_where_it_was_put(before: Seq<char>, pattern: Seq<char>, after: Seq<char>)
    requires
        pattern.len() > 0,
        forall|k: int| 0 < k < pattern.len() ==> #[trigger] pattern[k] != pattern[0],
        !holds(before, pattern),
    ensures
        crate::text::position(before + pattern + after, pattern, 0) == Some(before.len() as int),
{
    let whole = before + pattern + after;
    let at = before.len() as int;
    crate::text::position_is_first(whole, pattern, 0);
    assert(whole.subrange(at, at + pattern.len()) == pattern);
    assert(crate::text::occurs_at(whole, pattern, at));
    assert forall|i: int| 0 <= i < at implies !crate::text::occurs_at(whole, pattern, i) by {
        if crate::text::occurs_at(whole, pattern, i) {
            let here = whole.subrange(i, i + pattern.len());
            if i + pattern.len() <= at {
                assert(before.take(i) + pattern + before.skip(i + pattern.len()) == before) by {
                    assert(before.subrange(i, i + pattern.len()) == here);
                }
            } else {
                assert(here[at - i] == pattern[0]);
                assert(pattern[at - i] == pattern[0]);
            }
        }
    }
}

/// A text that does not hold a pattern has no place for it.
proof fn held_nowhere(text: Seq<char>, pattern: Seq<char>)
    requires
        !holds(text, pattern),
    ensures
        crate::text::position(text, pattern, 0) is None,
{
    crate::text::position_is_first(text, pattern, 0);
    if let Some(at) = crate::text::position(text, pattern, 0) {
        assert(text.subrange(at, at + pattern.len()) == pattern);
        assert(text.take(at) + pattern + text.skip(at + pattern.len()) == text);
    }
}

/// Whether a text is made of white space.
pub open spec fn is_all_white(text: Seq<char>) -> bool {
    forall|i: int| 0 <= i < text.len() ==> is_white(#[trigger] text[i])
}

/// Whether a text is a word that may stand between quotation marks: it is not
/// empty, has no white space, and neither starts nor ends with a quotation mark.
pub open spec fn is_plain_word(word: Seq<char>) -> bool {
    &&& word.len() > 0
    &&& forall|i: int| 0 <= i < word.len() ==> !is_white(#[trigger] word[i])
    &&& word[0] != '"' && word[0] != '\''
    &&& word.last() != '"' && word.last() != '\''
}

proof fn leading_blanks_are_skipped(gap: Seq<char>, rest: Seq<char>)
    requires
        is_all_white(gap),
        rest.len() > 0 ==> !is_white(rest[0]),
    ensures
        without_leading_white(gap + rest) == rest,
    decreases gap.len(),
{
    if gap.len() == 0 {
        assert(gap + rest == rest);
    } else {
        let tail = gap.skip(1);
        assert forall|i: int| 0 <= i < tail.len() implies is_white(#[trigger] tail[i]) by {
            assert(tail[i] == gap[i + 1]);
        }
        assert(is_white(gap[0]));
        leading_blanks_are_skipped(tail, rest);
        assert((gap + rest).skip(1) == tail + rest);
        assert((gap + rest)[0] == gap[0]);
    }
}

proof fn word_is_its_own_end(word: Seq<char>)
    requires
        forall|i: int| 0 <= i < word.len() ==> !is_white(#[trigger] word[i]),
    ensures
        up_to_white(word) == word,
    decreases word.len(),
{
    if word.len() > 0 {
        let tail = word.skip(1);
        assert forall|i: int| 0 <= i < tail.len() implies !is_white(#[trigger] tail[i]) by {
            assert(tail[i] == word[i + 1]);
        }
        word_is_its_own_end(tail);
        assert(seq![word[0]] + tail == word);
    } else {
        assert(word == Seq::<char>::empty());
    }
}

/// Whether a text is made of quotation marks.
pub open spec fn is_quotes(text: Seq<char>) -> bool {
    forall|i: int| 0 <= i < text.len() ==> #[trigger] text[i] == '"' || text[i] == '\''
}

proof fn leading_quotes_come_off(open: Seq<char>, rest: Seq<char>)
    requires
        is_quotes(open),
        rest.len() > 0 && rest[0] != '"' && rest[0] != '\'',
    ensures
        without_leading_quotes(open + rest) == rest,
    decreases open.len(),
{
    if open.len() == 0 {
        assert(open + rest == rest);
    } else {
        let tail = open.skip(1);
        assert forall|i: int| 0 <= i < tail.len() implies #[trigger] tail[i] == '"' || tail[i]
            == '\'' by {
            assert(tail[i] == open[i + 1]);
        }
        leading_quotes_come_off(tail, rest);
        assert((open + rest).skip(1) == tail + rest);
        assert((open + rest)[0] == open[0]);
    }
}

proof fn trailing_quotes_come_off(rest: Seq<char>, close: Seq<char>)
    requires
        is_quotes(close),
        rest.len() > 0 && rest.last() != '"' && rest.last() != '\'',
    ensures
        without_trailing_quotes(rest + close) == rest,
    decreases close.len(),
{
    if close.len() == 0 {
        assert(rest + close == rest);
    } else {
        let tail = close.drop_last();
        assert forall|i: int| 0 <= i < tail.len() implies #[trigger] tail[i] == '"' || tail[i]
            == '\'' by {
            assert(tail[i] == close[i]);
        }
        trailing_quotes_come_off(rest, tail);
        assert((rest + close).drop_last() == rest + tail);
        assert((rest + close).last() == close[close.len() - 1]);
    }
}

proof fn quotes_come_off(open: Seq<char>, value: Seq<char>, close: Seq<char>)
    requires
        is_quotes(open),
        is_quotes(close),
        is_plain_word(value),
    ensures
        without_trailing_quotes(without_leading_quotes(open + value + close)) == value,
{
    assert(open + value + close == open + (value + close));
    assert((value + close)[0] == value[0]);
    leading_quotes_come_off(open, value + close);
    trailing_quotes_come_off(value, close);
}

/// Where the next character goes beyond the limit, nothing more is taken.
proof fn next_does_not_fit(fitting: Seq<char>, rest: Seq<char>)
    requires
        rest.len() > 0,
    ensures
        vstd::utf8::encode_utf8(fitting + seq![rest[0]]).len() > 120 ==> first_bytes(
            rest,
            120 - vstd::utf8::encode_utf8(fitting).len(),
        ).len() == 0,
{
    let next = seq![rest[0]];
    crate::text::encoding_of_concat(fitting, next);
    assert(next.drop_first() == Seq::<char>::empty());
    assert(vstd::utf8::encode_utf8(next.drop_first()) == Seq::<u8>::empty());
    assert(vstd::utf8::encode_utf8(next).len() == char_width(rest[0]));
}

/// The section that starts with `ui-theme:` behind `before` is looked at from
/// there on, and what fits of it is seen whole.
proof fn section_is_seen(before: Seq<char>, fitting: Seq<char>, rest: Seq<char>)
    requires
        !holds(before, "ui-theme:"@),
        vstd::utf8::encode_utf8("ui-theme:"@ + fitting).len() <= 120,
    ensures
        theme_section(before + "ui-theme:"@ + fitting + rest) == Some(
            "ui-theme:"@ + fitting + first_bytes(
                rest,
                120 - vstd::utf8::encode_utf8("ui-theme:"@ + fitting).len(),
            ),
        ),
{
    reveal_strlit("ui-theme:");
    let section = "ui-theme:"@;
    let settings = before + section + fitting + rest;
    stands_where_it_was_put(before, section, fitting + rest);
    assert(before + section + (fitting + rest) == settings);
    assert(settings.skip(before.len() as int) == section + fitting + rest);
    fitting_characters_are_taken(section + fitting, rest, 120);
}

/// `preference:` is not found in `ui-theme:` and what follows it without it.
proof fn no_preference_before(lead: Seq<char>)
    requires
        !holds(lead, "preference:"@),
    ensures
        !holds("ui-theme:"@ + lead, "preference:"@),
{
    reveal_strlit("ui-theme:");
    reveal_strlit("preference:");
    let head = "ui-theme:"@ + lead;
    let key = "preference:"@;
    if holds(head, key) {
        let (a, b) = choose|a: Seq<char>, b: Seq<char>| #[trigger] (a + key + b) == head;
        assert(head[a.len() as int] == 'p');
        assert(a.len() >= 9);
        assert(a.skip(9) + key + b == head.skip(9));
        assert(head.skip(9) == lead);
    }
}

/// The theme that is written in the settings is the one that is read: behind
/// `ui-theme:` the word after `preference:`, without the quotation marks around it,
/// however much stands before the section and whatever follows. The word ends
/// before white space, with the settings, or where the first 120 bytes from
/// `ui-theme:` on are used up. A word other than `dark` and `light` gives none.
pub proof fn written_theme_is_read(
    home: &str,
    settings: &str,
    theme: Option<&'static str>,
    before: Seq<char>,
    lead: Seq<char>,
    gap: Seq<char>,
    open: Seq<char>,
    value: Seq<char>,
    close: Seq<char>,
    rest: Seq<char>,
)
    requires
        call_ensures(settings_theme, (Some(home), Some(settings)), theme),
        home@.len() > 0,
        settings@ == before + "ui-theme:"@ + (lead + "preference:"@ + gap + open + value + close)
            + rest,
        !holds(before, "ui-theme:"@),
        !holds(lead, "preference:"@),
        is_all_white(gap),
        is_quotes(open),
        is_quotes(close),
        is_plain_word(value),
        vstd::utf8::encode_utf8(
            "ui-theme:"@ + (lead + "preference:"@ + gap + open + value + close),
        ).len() <= 120,
        rest.len() > 0 ==> is_white(rest[0]) || vstd::utf8::encode_utf8(
            "ui-theme:"@ + (lead + "preference:"@ + gap + open + value + close) + seq![rest[0]],
        ).len() > 120,
    ensures
        theme is Some <==> value == "dark"@ || value == "light"@,
        theme is Some ==> theme->0@ == value,
{
    written_preference_is_found(before, lead, gap, open, value, close, rest);
    reveal_strlit("dark");
    reveal_strlit("light");
    assert("dark"@.len() != "light"@.len());
}

proof fn written_preference_is_found(
    before: Seq<char>,
    lead: Seq<char>,
    gap: Seq<char>,
    open: Seq<char>,
    value: Seq<char>,
    close: Seq<char>,
    rest: Seq<char>,
)
    requires
        !holds(before, "ui-theme:"@),
        !holds(lead, "preference:"@),
        is_all_white(gap),
        is_quotes(open),
        is_quotes(close),
        is_plain_word(value),
        vstd::utf8::encode_utf8(
            "ui-theme:"@ + (lead + "preference:"@ + gap + open + value + close),
        ).len() <= 120,
        rest.len() > 0 ==> is_white(rest[0]) || vstd::utf8::encode_utf8(
            "ui-theme:"@ + (lead + "preference:"@ + gap + open + value + close) + seq![rest[0]],
        ).len() > 120,
    ensures
        settings_preference(
            before + "ui-theme:"@ + (lead + "preference:"@ + gap + open + value + close) + rest,
        ) == Some(value),
{
    let key = "preference:"@;
    let fitting = lead + key + gap + open + value + close;
    let word = open + value + close;
    let left = 120 - vstd::utf8::encode_utf8("ui-theme:"@ + fitting).len();
    let tail = first_bytes(rest, left);
    reveal_strlit("preference:");
    section_is_seen(before, fitting, rest);
    taken_characters_fit(rest, left);
    let section = "ui-theme:"@ + fitting + tail;
    if rest.len() > 0 {
        next_does_not_fit("ui-theme:"@ + fitting, rest);
    }
    no_preference_before(lead);
    stands_where_it_was_put("ui-theme:"@ + lead, key, gap + word + tail);
    assert("ui-theme:"@ + lead + key + (gap + word + tail) == section);
    let after = section.skip((("ui-theme:"@ + lead).len() + key.len()) as int);
    assert(after == gap + (word + tail));
    assert forall|i: int| 0 <= i < word.len() implies !is_white(#[trigger] word[i]) by {
        if i < open.len() {
            assert(word[i] == open[i]);
        } else if i < open.len() + value.len() {
            assert(word[i] == value[i - open.len()]);
        } else {
            assert(word[i] == close[i - open.len() - value.len()]);
        }
    }
    assert((word + tail)[0] == word[0]);
    leading_blanks_are_skipped(gap, word + tail);
    if tail.len() > 0 {
        assert(tail[0] == rest[0]);
        word_ends_at_white(word, tail);
    } else {
        assert(word + tail == word);
        word_is_its_own_end(word);
    }
    assert(first_word(after) == Some(word));
    quotes_come_off(open, value, close);
}

/// The section that the shell writes is read back, however much stands before it
/// and whatever follows: `preference: light` behind `ui-theme:` is light, and
/// `preference: dark` is dark.
pub proof fn theme_section_is_read_wherever_it_stands(
    home: &str,
    settings: &str,
    theme: Option<&'static str>,
    before: Seq<char>,
    value: Seq<char>,
    rest: Seq<char>,
)
    requires
        call_ensures(settings_theme, (Some(home), Some(settings)), theme),
        home@.len() > 0,
        !holds(before, "ui-theme:"@),
        value == "dark"@ || value == "light"@,
        settings@ == before + "ui-theme:\n  preference: "@ + value + "\n"@ + rest,
    ensures
        theme is Some && theme->0@ == value,
{
    reveal_strlit("ui-theme:\n  preference: ");
    reveal_strlit("ui-theme:");
    reveal_strlit("\n  ");
    reveal_strlit("preference:");
    reveal_strlit(" ");
    reveal_strlit("");
    reveal_strlit("\n");
    reveal_strlit("dark");
    reveal_strlit("light");
    let lead = "\n  "@;
    let none = ""@;
    let fitting = lead + "preference:"@ + " "@ + none + value + none;
    if holds(lead, "preference:"@) {
        let (a, b) = choose|a: Seq<char>, b: Seq<char>| #[trigger]
            (a + "preference:"@ + b) == lead;
        assert((a + "preference:"@ + b).len() >= 11);
    }
    assert(vstd::utf8::is_ascii_chars("ui-theme:"@ + fitting));
    vstd::utf8::is_ascii_chars_encode_utf8("ui-theme:"@ + fitting);
    assert("ui-theme:\n  preference: "@ + value == "ui-theme:"@ + fitting);
    assert(settings@ == before + "ui-theme:"@ + fitting + ("\n"@ + rest));
    written_theme_is_read(
        home,
        settings,
        theme,
        before,
        lead,
        " "@,
        none,
        value,
        none,
        "\n"@ + rest,
    );
}

/// There is no theme where the home directory is not known or empty, where there
/// are no settings, and where `ui-theme:` stands nowhere in them.
pub proof fn no_theme_without_a_section(
    home: Option<&str>,
    settings: Option<&str>,
    theme: Option<&'static str>,
)
    requires
        call_ensures(settings_theme, (home, settings), theme),
    ensures
        home is None || home->0@.len() == 0 || settings is None || !holds(
            settings->0@,
            "ui-theme:"@,
        ) ==> theme is None,
        theme is Some ==> theme->0@ == "dark"@ || theme->0@ == "light"@,
{
    if let Some(text) = settings {
        if !holds(text@, "ui-theme:"@) {
            held_nowhere(text@, "ui-theme:"@);
        }
    }
}

/// The white space between words is that of Unicode, by its code points.
pub proof fn white_space_is_that_of_unicode(c: char)
    ensures
        is_white(c) <==> {
            ||| 9 <= c as int <= 13
            ||| 8192 <= c as int <= 8202
            ||| seq![32int, 133, 160, 5760, 8232, 8233, 8239, 8287, 12288].contains(c as int)
        },
{
    let single = seq![32int, 133, 160, 5760, 8232, 8233, 8239, 8287, 12288];
    assert(single[0] == 32 && single[1] == 133 && single[2] == 160 && single[3] == 5760);
    assert(single[4] == 8232 && single[5] == 8233 && single[6] == 8239 && single[7] == 8287);
    assert(single[8] == 12288);
}

/// Where only white space follows `preference:`, up to the end of the settings or
/// of the first 120 bytes, there is no theme.
pub proof fn blank_preference_gives_none(
    home: &str,
    settings: &str,
    theme: Option<&'static str>,
    before: Seq<char>,
    lead: Seq<char>,
    gap: Seq<char>,
    rest: Seq<char>,
)
    requires
        call_ensures(settings_theme, (Some(home), Some(settings)), theme),
        settings@ == before + "ui-theme:"@ + (lead + "preference:"@ + gap) + rest,
        !holds(before, "ui-theme:"@),
        !holds(lead, "preference:"@),
        is_all_white(gap),
        vstd::utf8::encode_utf8("ui-theme:"@ + (lead + "preference:"@ + gap)).len() <= 120,
        rest.len() > 0 ==> vstd::utf8::encode_utf8(
            "ui-theme:"@ + (lead + "preference:"@ + gap) + seq![rest[0]],
        ).len() > 120,
    ensures
        theme is None,
{
    reveal_strlit("preference:");
    let key = "preference:"@;
    let fitting = lead + key + gap;
    section_is_seen(before, fitting, rest);
    let tail = first_bytes(
        rest,
        120 - vstd::utf8::encode_utf8("ui-theme:"@ + fitting).len(),
    );
    if rest.len() > 0 {
        next_does_not_fit("ui-theme:"@ + fitting, rest);
    }
    assert(tail.len() == 0);
    no_preference_before(lead);
    stands_where_it_was_put("ui-theme:"@ + lead, key, gap);
    let section = "ui-theme:"@ + lead + key + gap;
    assert("ui-theme:"@ + fitting + tail == section);
    assert(section.skip((("ui-theme:"@ + lead).len() + key.len()) as int) == gap);
    leading_blanks_are_skipped(gap, Seq::empty());
    assert(gap + Seq::<char>::empty() == gap);
}

/// Only what is near counts: a preference that does not stand whole in the first
/// 120 bytes from the first `ui-theme:` on is not seen, and neither is one that
/// stands before it.
pub proof fn distant_preference_is_not_seen(
    home: &str,
    settings: &str,
    theme: Option<&'static str>,
    before: Seq<char>,
    lead: Seq<char>,
    rest: Seq<char>,
)
    requires
        call_ensures(settings_theme, (Some(home), Some(settings)), theme),
        !holds(before, "ui-theme:"@),
        !holds(lead, "preference:"@),
        settings@ == before + "ui-theme:"@ + lead || {
            &&& settings@ == before + "ui-theme:"@ + lead + "preference:"@ + rest
            &&& vstd::utf8::encode_utf8("ui-theme:"@ + lead + "preference:"@).len() > 120
        },
    ensures
        theme is None,
{
    reveal_strlit("ui-theme:");
    reveal_strlit("preference:");
    let text = settings@;
    let key = "preference:"@;
    let head = "ui-theme:"@ + lead;
    let tail = text.skip(before.len() as int);
    let section = first_bytes(tail, 120);
    if text == before + "ui-theme:"@ + lead {
        stands_where_it_was_put(before, "ui-theme:"@, lead);
        assert(tail == head);
    } else {
        stands_where_it_was_put(before, "ui-theme:"@, lead + key + rest);
        assert(before + "ui-theme:"@ + (lead + key + rest) == text);
        assert(tail == head + key + rest);
    }
    assert(theme_section(text) == Some(section));
    taken_characters_fit(tail, 120);
    no_preference_before(lead);
    if holds(section, key) {
        let (a, b) = choose|a: Seq<char>, b: Seq<char>| #[trigger] (a + key + b) == section;
        let unseen = tail.skip(section.len() as int);
        assert(tail == section + unseen);
        assert(a + key + b + unseen == a + key + (b + unseen));
        if tail == head {
            assert(holds(head, key)) by {
                assert(a + key + (b + unseen) == head);
            }
        } else {
            stands_where_it_was_put(head, key, rest);
            crate::text::position_is_first(tail, key, 0);
            assert(tail.subrange(a.len() as int, (a.len() + key.len()) as int) == key);
            assert(crate::text::occurs_at(tail, key, a.len() as int));
            assert(a.len() >= head.len());
            let start = head + key;
            assert(section.take(start.len() as int) == start);
            assert(section == start + section.skip(start.len() as int));
            crate::text::encoding_of_concat(start, section.skip(start.len() as int));
        }
    } else {
        held_nowhere(section, key);
    }
}

} // verus!
