//! Operations on text, stated over sequences of characters.

use vstd::prelude::*;

verus! {

/// The views of a list of strings, in order.
pub open spec fn string_views(strings: Seq<String>) -> Seq<Seq<char>> {
    strings.map_values(|s: String| s@)
}

/// Whether `text` begins with `prefix`.
pub fn starts_with(text: &str, prefix: &str) -> (found: bool)
    ensures
        found == prefix@.is_prefix_of(text@),
{
    let text_len: usize = text.unicode_len();
    let prefix_len: usize = prefix.unicode_len();
    if prefix_len > text_len {
        return false;
    }
    let head = String::from_str(text.substring_char(0, prefix_len));
    let wanted = String::from_str(prefix);
    head == wanted
}

/// Whether `text` ends with `suffix`.
pub fn ends_with(text: &str, suffix: &str) -> (found: bool)
    ensures
        found == suffix@.is_suffix_of(text@),
{
    let text_len: usize = text.unicode_len();
    let suffix_len: usize = suffix.unicode_len();
    if suffix_len > text_len {
        return false;
    }
    let tail = String::from_str(text.substring_char(text_len - suffix_len, text_len));
    let wanted = String::from_str(suffix);
    tail == wanted
}

/// `first` followed by `second`.
pub fn join_text(first: &str, second: &str) -> (joined: String)
    ensures
        joined@ == first@ + second@,
{
    String::from_str(first).concat(second)
}

/// The index just behind the last `/` of `text`, or `0` where it has none.
pub open spec fn last_slash_end(text: Seq<char>) -> int
    decreases text.len(),
{
    if text.len() == 0 {
        0
    } else if text.last() == '/' {
        text.len() as int
    } else {
        last_slash_end(text.drop_last())
    }
}

/// What follows the last `/` of `text`; all of `text` where it has none.
pub open spec fn after_last_slash(text: Seq<char>) -> Seq<char> {
    text.subrange(last_slash_end(text), text.len() as int)
}

/// [`last_slash_end`] marks a `/` and nothing behind it is one.
pub proof fn lemma_last_slash_end(text: Seq<char>)
    ensures
        0 <= last_slash_end(text) <= text.len(),
        last_slash_end(text) > 0 ==> text[last_slash_end(text) - 1] == '/',
        forall|i: int| last_slash_end(text) <= i < text.len() ==> text[i] != '/',
    decreases text.len(),
{
    if text.len() > 0 && text.last() != '/' {
        let shorter = text.drop_last();
        lemma_last_slash_end(shorter);
        assert forall|i: int| last_slash_end(text) <= i < text.len() implies text[i] != '/' by {
            if i < shorter.len() {
                assert(shorter[i] == text[i]);
            }
        }
    }
}

/// What follows the last `/` holds no `/` itself, and is all of the text
/// or stands directly behind a `/`.
pub proof fn lemma_after_last_slash(text: Seq<char>)
    ensures
        !after_last_slash(text).contains('/'),
        after_last_slash(text).is_suffix_of(text),
        after_last_slash(text).len() < text.len() ==> text[text.len() - after_last_slash(text).len() - 1]
            == '/',
{
    lemma_last_slash_end(text);
    let tail = after_last_slash(text);
    if tail.contains('/') {
        let i = choose|i: int| 0 <= i < tail.len() && tail[i] == '/';
        assert(text[last_slash_end(text) + i] == '/');
    }
}

/// The part of `text` behind its last `/`.
pub fn tail_after_last_slash(text: &str) -> (tail: String)
    ensures
        tail@ == after_last_slash(text@),
        !tail@.contains('/'),
{
    let len: usize = text.unicode_len();
    let mut start: usize = 0;
    let mut i: usize = 0;
    while i < len
        invariant
            len == text@.len(),
            0 <= i <= len,
            start as int == last_slash_end(text@.subrange(0, i as int)),
        decreases len - i,
    {
        let c = text.get_char(i);
        proof {
            let before = text@.subrange(0, i as int);
            let now = text@.subrange(0, i + 1);
            assert(now.drop_last() =~= before);
            assert(now.last() == c);
        }
        if c == '/' {
            start = i + 1;
        }
        i = i + 1;
    }
    proof {
        assert(text@.subrange(0, len as int) =~= text@);
        lemma_last_slash_end(text@);
        lemma_after_last_slash(text@);
    }
    String::from_str(text.substring_char(start, len))
}

/// `text` without the run of `c` that it ends with.
pub open spec fn without_trailing(text: Seq<char>, c: char) -> Seq<char>
    decreases text.len(),
{
    if text.len() > 0 && text.last() == c {
        without_trailing(text.drop_last(), c)
    } else {
        text
    }
}

/// `text` without the run of `c` that it begins with.
pub open spec fn without_leading(text: Seq<char>, c: char) -> Seq<char>
    decreases text.len(),
{
    if text.len() > 0 && text.first() == c {
        without_leading(text.drop_first(), c)
    } else {
        text
    }
}

/// `text` without the run of `c` that it ends with.
pub fn trim_end_char(text: &str, c: char) -> (inner: String)
    ensures
        inner@ == without_trailing(text@, c),
{
    let len: usize = text.unicode_len();
    let mut end: usize = len;
    proof {
        assert(text@.subrange(0, len as int) =~= text@);
    }
    while end > 0 && text.get_char(end - 1) == c
        invariant
            len == text@.len(),
            0 <= end <= len,
            without_trailing(text@, c) == without_trailing(text@.subrange(0, end as int), c),
        decreases end,
    {
        proof {
            let here = text@.subrange(0, end as int);
            assert(here.last() == text@[end - 1]);
            assert(here.drop_last() =~= text@.subrange(0, end - 1));
        }
        end = end - 1;
    }
    proof {
        let here = text@.subrange(0, end as int);
        if end > 0 {
            assert(here.last() == text@[end - 1]);
        }
        assert(without_trailing(text@, c) == here);
    }
    String::from_str(text.substring_char(0, end))
}

/// `text` without the run of `c` that it begins with.
pub fn trim_start_char(text: &str, c: char) -> (inner: String)
    ensures
        inner@ == without_leading(text@, c),
{
    let len: usize = text.unicode_len();
    let mut start: usize = 0;
    proof {
        assert(text@.subrange(0, len as int) =~= text@);
    }
    while start < len && text.get_char(start) == c
        invariant
            len == text@.len(),
            0 <= start <= len,
            without_leading(text@, c) == without_leading(text@.subrange(start as int, len as int), c),
        decreases len - start,
    {
        proof {
            let here = text@.subrange(start as int, len as int);
            assert(here.first() == text@[start as int]);
            assert(here.drop_first() =~= text@.subrange(start + 1, len as int));
        }
        start = start + 1;
    }
    proof {
        let here = text@.subrange(start as int, len as int);
        if start < len {
            assert(here.first() == text@[start as int]);
        }
        assert(without_leading(text@, c) == here);
    }
    String::from_str(text.substring_char(start, len))
}

/// Whether `c` is white space, as `char::is_whitespace` of the standard
/// library tells it: a character with the Unicode property `White_Space`.
pub uninterp spec fn is_white_space(c: char) -> bool;

/// `text` without the white space it begins with.
pub open spec fn skip_leading_space(text: Seq<char>) -> Seq<char>
    decreases text.len(),
{
    if text.len() > 0 && is_white_space(text.first()) {
        skip_leading_space(text.drop_first())
    } else {
        text
    }
}

/// `text` without the white space it ends with.
pub open spec fn skip_trailing_space(text: Seq<char>) -> Seq<char>
    decreases text.len(),
{
    if text.len() > 0 && is_white_space(text.last()) {
        skip_trailing_space(text.drop_last())
    } else {
        text
    }
}

/// `text` without the white space at either end.
pub open spec fn trimmed(text: Seq<char>) -> Seq<char> {
    skip_trailing_space(skip_leading_space(text))
}

/// Trusted: calls `char::is_whitespace` of the standard library. Claimed:
/// the result is what [`is_white_space`] names.
#[verifier::external_body]
fn char_is_whitespace(c: char) -> (white: bool)
    ensures
        white == is_white_space(c),
{
    c.is_whitespace()
}

/// `text` without the white space at either end.
pub fn trim(text: &str) -> (inner: String)
    ensures
        inner@ == trimmed(text@),
{
    let len: usize = text.unicode_len();
    let mut start: usize = 0;
    proof {
        assert(text@.subrange(0, len as int) =~= text@);
    }
    while start < len && char_is_whitespace(text.get_char(start))
        invariant
            len == text@.len(),
            0 <= start <= len,
            skip_leading_space(text@) == skip_leading_space(text@.subrange(start as int, len as int)),
        decreases len - start,
    {
        proof {
            let here = text@.subrange(start as int, len as int);
            assert(here.first() == text@[start as int]);
            assert(here.drop_first() =~= text@.subrange(start + 1, len as int));
        }
        start = start + 1;
    }
    proof {
        let here = text@.subrange(start as int, len as int);
        if start < len {
            assert(here.first() == text@[start as int]);
        }
        assert(skip_leading_space(text@) == here);
    }
    let mut end: usize = len;
    while end > start && char_is_whitespace(text.get_char(end - 1))
        invariant
            len == text@.len(),
            0 <= start <= end <= len,
            trimmed(text@) == skip_trailing_space(text@.subrange(start as int, end as int)),
        decreases end,
    {
        proof {
            let here = text@.subrange(start as int, end as int);
            assert(here.last() == text@[end - 1]);
            assert(here.drop_last() =~= text@.subrange(start as int, end - 1));
        }
        end = end - 1;
    }
    proof {
        let here = text@.subrange(start as int, end as int);
        if end > start {
            assert(here.last() == text@[end - 1]);
        }
        assert(trimmed(text@) == here);
    }
    String::from_str(text.substring_char(start, end))
}

/// The pieces of `text` between the occurrences of `separator`: one more
/// piece than there are separators, some of them empty.
pub open spec fn split_on(text: Seq<char>, separator: char) -> Seq<Seq<char>>
    decreases text.len(),
{
    if text.len() == 0 {
        seq![Seq::empty()]
    } else {
        let before = split_on(text.drop_last(), separator);
        if text.last() == separator {
            before.push(Seq::empty())
        } else {
            before.drop_last().push(before.last().push(text.last()))
        }
    }
}

/// The pieces of `text` between the occurrences of `separator`.
pub fn split(text: &str, separator: char) -> (pieces: Vec<String>)
    ensures
        string_views(pieces@) == split_on(text@, separator),
        pieces@.len() >= 1,
{
    let len: usize = text.unicode_len();
    let mut pieces: Vec<String> = Vec::new();
    let mut start: usize = 0;
    let mut i: usize = 0;
    proof {
        assert(text@.subrange(0, 0) =~= Seq::<char>::empty());
        assert(string_views(pieces@).push(text@.subrange(0, 0)) =~= seq![Seq::<char>::empty()]);
    }
    while i < len
        invariant
            len == text@.len(),
            0 <= start <= i <= len,
            split_on(text@.subrange(0, i as int), separator) == string_views(pieces@).push(
                text@.subrange(start as int, i as int),
            ),
        decreases len - i,
    {
        let c = text.get_char(i);
        let ghost done = string_views(pieces@);
        let ghost current = text@.subrange(start as int, i as int);
        proof {
            let longer = text@.subrange(0, i + 1);
            assert(longer.drop_last() =~= text@.subrange(0, i as int));
            assert(longer.last() == c);
            assert(done.push(current).drop_last() =~= done);
            assert(done.push(current).last() == current);
        }
        if c == separator {
            pieces.push(String::from_str(text.substring_char(start, i)));
            start = i + 1;
            proof {
                assert(string_views(pieces@) =~= done.push(current));
                assert(text@.subrange(start as int, i + 1) =~= Seq::<char>::empty());
            }
        } else {
            proof {
                assert(text@.subrange(start as int, i + 1) =~= current.push(c));
            }
        }
        i = i + 1;
    }
    let ghost done = string_views(pieces@);
    pieces.push(String::from_str(text.substring_char(start, len)));
    proof {
        assert(text@.subrange(0, len as int) =~= text@);
        assert(string_views(pieces@) =~= done.push(text@.subrange(start as int, len as int)));
    }
    pieces
}

/// `text` with each occurrence of `from` replaced by `to`, the occurrences
/// taken from the left and not overlapping. An empty `from` occurs nowhere.
pub open spec fn replaced(text: Seq<char>, from: Seq<char>, to: Seq<char>) -> Seq<char>
    decreases text.len(),
{
    if from.len() == 0 || text.len() == 0 {
        text
    } else if from.is_prefix_of(text) {
        to + replaced(text.skip(from.len() as int), from, to)
    } else {
        seq![text.first()] + replaced(text.drop_first(), from, to)
    }
}

/// `text` with each occurrence of `from` replaced by `to`.
pub fn replace_all(text: &str, from: &str, to: &str) -> (changed: String)
    ensures
        changed@ == replaced(text@, from@, to@),
{
    let len: usize = text.unicode_len();
    let from_len: usize = from.unicode_len();
    if from_len == 0 {
        return String::from_str(text);
    }
    let wanted = String::from_str(from);
    let mut changed = String::new();
    let mut i: usize = 0;
    proof {
        assert(text@.subrange(0, len as int) =~= text@);
        assert(changed@ + replaced(text@, from@, to@) =~= replaced(text@, from@, to@));
    }
    while i < len
        invariant
            len == text@.len(),
            from_len == from@.len(),
            from_len > 0,
            wanted@ == from@,
            0 <= i <= len,
            changed@ + replaced(text@.subrange(i as int, len as int), from@, to@) == replaced(text@, from@, to@),
        decreases len - i,
    {
        let ghost rest = text@.subrange(i as int, len as int);
        let ghost before = changed@;
        let found = from_len <= len - i && String::from_str(text.substring_char(i, i + from_len)) == wanted;
        proof {
            if from_len <= len - i {
                assert(rest.subrange(0, from_len as int) =~= text@.subrange(i as int, i + from_len));
            }
            assert(found == from@.is_prefix_of(rest));
        }
        if found {
            changed.append(to);
            proof {
                assert(rest.skip(from_len as int) =~= text@.subrange(i + from_len, len as int));
                assert(before + (to@ + replaced(rest.skip(from_len as int), from@, to@)) =~= (before + to@)
                    + replaced(rest.skip(from_len as int), from@, to@));
            }
            i = i + from_len;
        } else {
            changed.append(text.substring_char(i, i + 1));
            proof {
                assert(text@.subrange(i as int, i + 1) =~= seq![rest.first()]);
                assert(rest.drop_first() =~= text@.subrange(i + 1, len as int));
                assert(before + (seq![rest.first()] + replaced(rest.drop_first(), from@, to@)) =~= (before
                    + seq![rest.first()]) + replaced(rest.drop_first(), from@, to@));
            }
            i = i + 1;
        }
    }
    proof {
        assert(text@.subrange(len as int, len as int).len() == 0);
        assert(changed@ + Seq::<char>::empty() =~= changed@);
    }
    changed
}

/// The ten decimal digits.
pub open spec fn decimal_digits() -> Seq<char> {
    seq!['0', '1', '2', '3', '4', '5', '6', '7', '8', '9']
}

/// `n` written in decimal, without leading zeros.
pub open spec fn decimal(n: nat) -> Seq<char>
    decreases n,
{
    if n < 10 {
        seq![decimal_digits()[n as int]]
    } else {
        decimal(n / 10).push(decimal_digits()[(n % 10) as int])
    }
}

/// The decimal digit of a value below ten.
fn decimal_digit(value: usize) -> (digit: &'static str)
    requires
        value < 10,
    ensures
        digit@ == seq![decimal_digits()[value as int]],
{
    proof {
        reveal_strlit("0");
        reveal_strlit("1");
        reveal_strlit("2");
        reveal_strlit("3");
        reveal_strlit("4");
        reveal_strlit("5");
        reveal_strlit("6");
        reveal_strlit("7");
        reveal_strlit("8");
        reveal_strlit("9");
    }
    let digit = match value {
        0 => "0",
        1 => "1",
        2 => "2",
        3 => "3",
        4 => "4",
        5 => "5",
        6 => "6",
        7 => "7",
        8 => "8",
        _ => "9",
    };
    assert(digit@ =~= seq![decimal_digits()[value as int]]);
    digit
}

/// `n` written in decimal.
pub fn decimal_text(n: usize) -> (text: String)
    ensures
        text@ == decimal(n as nat),
    decreases n,
{
    if n < 10 {
        String::from_str(decimal_digit(n))
    } else {
        let mut text = decimal_text(n / 10);
        text.append(decimal_digit(n % 10));
        assert(text@ =~= decimal((n / 10) as nat).push(decimal_digits()[(n % 10) as int]));
        text
    }
}

} // verus!
