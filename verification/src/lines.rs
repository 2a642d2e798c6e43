//! Cutting text into pieces: at a separator, into lines, into words.
use vstd::prelude::*;
use vstd::slice::slice_subrange;

use crate::text::{begins_with, chars_of, is_white, is_whitespace, starts_with, trim_chars, trim_start, trimmed, trimmed_start};
use crate::views::views;

verus! {

// ── Separators ────────────────────────────────────────────────────────────

/// Where `separator` first occurs in `text`.
pub open spec fn first_match(text: Seq<char>, separator: Seq<char>) -> Option<nat>
    decreases text.len(),
{
    if begins_with(text, separator) {
        Some(0)
    } else if text.len() == 0 {
        None
    } else {
        match first_match(text.drop_first(), separator) {
            Some(at) => Some(at + 1),
            None => None,
        }
    }
}

/// A match lies inside the text.
pub proof fn first_match_fits(text: Seq<char>, separator: Seq<char>)
    ensures
        first_match(text, separator) matches Some(at) ==> at + separator.len() <= text.len(),
    decreases text.len(),
{
    if !begins_with(text, separator) && text.len() > 0 {
        first_match_fits(text.drop_first(), separator);
    }
}

/// The pieces of `text` between the occurrences of `separator`, which are taken
/// from the left and do not overlap.
pub open spec fn split(text: Seq<char>, separator: Seq<char>) -> Seq<Seq<char>>
    decreases text.len(),
    when separator.len() > 0
    via split_shrinks
{
    match first_match(text, separator) {
        Some(at) => seq![text.take(at as int)] + split(
            text.skip((at + separator.len()) as int),
            separator,
        ),
        None => seq![text],
    }
}

#[via_fn]
proof fn split_shrinks(text: Seq<char>, separator: Seq<char>) {
    first_match_fits(text, separator);
}

/// Where `separator` first occurs in `text`.
pub fn find(text: &[char], separator: &[char]) -> (at: Option<usize>)
    ensures
        match at {
            Some(i) => first_match(text@, separator@) == Some(i as nat) && i + separator@.len()
                <= text@.len(),
            None => first_match(text@, separator@) is None,
        },
{
    let mut i: usize = 0;
    assert(text@.skip(0) == text@);
    loop
        invariant
            i <= text@.len(),
            first_match(text@, separator@) == match first_match(
                text@.skip(i as int),
                separator@,
            ) {
                Some(at) => Some(at + i as nat),
                None => None,
            },
        decreases text@.len() - i,
    {
        let rest = slice_subrange(text, i, text.len());
        assert(rest@ == text@.skip(i as int));
        if starts_with(rest, separator) {
            return Some(i);
        }
        if i == text.len() {
            return None;
        }
        assert(text@.skip(i as int).drop_first() == text@.skip(i + 1));
        i = i + 1;
    }
}

/// The pieces of `text` between the occurrences of `separator`.
pub fn split_at<'a>(text: &'a [char], separator: &str) -> (pieces: Vec<&'a [char]>)
    requires
        separator@.len() > 0,
    ensures
        views(pieces@) == split(text@, separator@),
{
    let sep = chars_of(separator);
    let mut pieces: Vec<&'a [char]> = Vec::new();
    let mut rest = text;
    loop
        invariant
            sep@ == separator@,
            sep@.len() > 0,
            views(pieces@) + split(rest@, sep@) == split(text@, sep@),
        decreases rest@.len(),
    {
        let end: usize = rest.len();
        match find(rest, sep.as_slice()) {
            Some(at) => {
                let piece = slice_subrange(rest, 0, at);
                let next = slice_subrange(rest, at + sep.len(), end);
                assert(piece@ == rest@.take(at as int));
                assert(next@ == rest@.skip(at + sep@.len()));
                let ghost before = pieces@;
                pieces.push(piece);
                assert(views(pieces@) == views(before).push(piece@));
                assert(views(before) + (seq![piece@] + split(next@, sep@)) == views(before).push(
                    piece@,
                ) + split(next@, sep@));
                rest = next;
            },
            None => {
                let ghost before = pieces@;
                pieces.push(rest);
                assert(views(pieces@) == views(before) + seq![rest@]);
                return pieces;
            },
        }
    }
}

// ── Lines ─────────────────────────────────────────────────────────────────

/// A line without the carriage return that ends it.
pub open spec fn without_return(line: Seq<char>) -> Seq<char> {
    if line.len() > 0 && line.last() == '\r' {
        line.drop_last()
    } else {
        line
    }
}

/// The lines of `text`. A line ends in a newline, or in a carriage return and a
/// newline; the last one may end with the text.
pub open spec fn lines(text: Seq<char>) -> Seq<Seq<char>>
    decreases text.len(),
    via lines_shrink
{
    if text.len() == 0 {
        Seq::empty()
    } else {
        match first_match(text, seq!['\n']) {
            Some(at) => seq![without_return(text.take(at as int))] + lines(text.skip(at as int + 1)),
            None => seq![text],
        }
    }
}

#[via_fn]
proof fn lines_shrink(text: Seq<char>) {
    first_match_fits(text, seq!['\n']);
}

/// The lines of `text`.
pub fn lines_of<'a>(text: &'a [char]) -> (all: Vec<&'a [char]>)
    ensures
        views(all@) == lines(text@),
{
    let newline: Vec<char> = vec!['\n'];
    assert(newline@ == seq!['\n']);
    let mut all: Vec<&'a [char]> = Vec::new();
    let mut rest = text;
    while rest.len() > 0
        invariant
            newline@ == seq!['\n'],
            views(all@) + lines(rest@) == lines(text@),
        decreases rest@.len(),
    {
        let ghost before = all@;
        match find(rest, newline.as_slice()) {
            Some(at) => {
                let end: usize = if at > 0 && rest[at - 1] == '\r' { at - 1 } else { at };
                let line = slice_subrange(rest, 0, end);
                let next = slice_subrange(rest, at + 1, rest.len());
                assert(line@ == without_return(rest@.take(at as int)));
                assert(next@ == rest@.skip(at + 1));
                all.push(line);
                assert(views(all@) == views(before).push(line@));
                assert(views(before) + (seq![line@] + lines(next@)) == views(before).push(line@)
                    + lines(next@));
                rest = next;
            },
            None => {
                all.push(rest);
                assert(views(all@) == views(before) + seq![rest@]);
                return all;
            },
        }
    }
    assert(views(all@) + lines(rest@) == views(all@));
    all
}

// ── Words ─────────────────────────────────────────────────────────────────

/// `text` up to its first whitespace.
pub open spec fn first_word(text: Seq<char>) -> Seq<char>
    decreases text.len(),
{
    if text.len() == 0 || is_white(text.first()) {
        Seq::empty()
    } else {
        seq![text.first()] + first_word(text.drop_first())
    }
}

/// The first word of a text is a prefix of it.
pub proof fn first_word_fits(text: Seq<char>)
    ensures
        first_word(text).len() <= text.len(),
        first_word(text) == text.take(first_word(text).len() as int),
        text.len() > 0 && !is_white(text.first()) ==> first_word(text).len() > 0,
    decreases text.len(),
{
    if text.len() > 0 && !is_white(text.first()) {
        first_word_fits(text.drop_first());
    }
}

/// The words of `text`: what stands between its stretches of whitespace.
pub open spec fn words(text: Seq<char>) -> Seq<Seq<char>>
    decreases text.len(),
    via words_shrink
{
    let rest = trimmed_start(text);
    if rest.len() == 0 {
        Seq::empty()
    } else {
        let word = first_word(rest);
        seq![word] + words(rest.skip(word.len() as int))
    }
}

#[via_fn]
proof fn words_shrink(text: Seq<char>) {
    let rest = trimmed_start(text);
    trimmed_start_fits(text);
    first_word_fits(rest);
}

/// Trimming never adds characters, and leaves no whitespace in front.
pub proof fn trimmed_start_fits(text: Seq<char>)
    ensures
        trimmed_start(text).len() <= text.len(),
        trimmed_start(text).len() > 0 ==> !is_white(trimmed_start(text).first()),
    decreases text.len(),
{
    if text.len() > 0 && is_white(text.first()) {
        trimmed_start_fits(text.drop_first());
    }
}

/// The words of `text`.
pub fn words_of<'a>(text: &'a [char]) -> (all: Vec<&'a [char]>)
    ensures
        views(all@) == words(text@),
{
    let mut all: Vec<&'a [char]> = Vec::new();
    let mut rest = text;
    loop
        invariant
            views(all@) + words(rest@) == words(text@),
        decreases rest@.len(),
    {
        let ghost before = all@;
        proof {
            trimmed_start_fits(rest@);
        }
        let inner = trim_start(rest);
        if inner.len() == 0 {
            assert(views(all@) + words(rest@) == views(all@));
            return all;
        }
        let mut end: usize = 0;
        assert(inner@.take(0) + first_word(inner@.skip(0)) == first_word(inner@)) by {
            assert(inner@.skip(0) == inner@);
        }
        while end < inner.len() && !is_whitespace(inner[end])
            invariant
                end <= inner@.len(),
                inner@.take(end as int) + first_word(inner@.skip(end as int)) == first_word(inner@),
            decreases inner@.len() - end,
        {
            let ghost tail = inner@.skip(end as int);
            assert(tail.drop_first() == inner@.skip(end + 1));
            assert(inner@.take(end as int) + (seq![tail.first()] + first_word(tail.drop_first()))
                == inner@.take(end + 1) + first_word(inner@.skip(end + 1)));
            end = end + 1;
        }
        assert(first_word(inner@.skip(end as int)) == Seq::<char>::empty());
        let word = slice_subrange(inner, 0, end);
        let next = slice_subrange(inner, end, inner.len());
        assert(word@ == first_word(inner@));
        proof {
            first_word_fits(inner@);
        }
        assert(next@ == inner@.skip(word@.len() as int));
        all.push(word);
        assert(views(all@) == views(before).push(word@));
        assert(views(before) + (seq![word@] + words(next@)) == views(before).push(word@) + words(
            next@,
        ));
        rest = next;
    }
}

// ── The names that a listing holds ────────────────────────────────────────

/// The lines of `text`, trimmed, without those that hold nothing else.
pub open spec fn trimmed_lines(text: Seq<char>) -> Seq<Seq<char>> {
    lines(text).map_values(|line: Seq<char>| trimmed(line)).filter(
        |line: Seq<char>| line.len() > 0,
    )
}

/// The lines of `text`, trimmed, without those that hold nothing else.
pub fn trimmed_lines_of(text: &str) -> (names: Vec<String>)
    ensures
        views(names@) == trimmed_lines(text@),
{
    let chars = chars_of(text);
    let all = lines_of(chars.as_slice());
    let mut names: Vec<String> = Vec::new();
    let ghost trims = lines(text@).map_values(|line: Seq<char>| trimmed(line));
    let ghost keep = |line: Seq<char>| line.len() > 0;
    assert(trims.take(0).filter(keep) == Seq::<Seq<char>>::empty()) by {
        reveal(Seq::filter);
    }
    for i in 0..all.len()
        invariant
            views(all@) == lines(text@),
            trims == lines(text@).map_values(|line: Seq<char>| trimmed(line)),
            keep == (|line: Seq<char>| line.len() > 0),
            views(names@) == trims.take(i as int).filter(keep),
    {
        let name = trim_chars(all[i]);
        let ghost before = names@;
        assert(views(all@)[i as int] == all@[i as int]@);
        assert(name@ == trims[i as int]);
        assert(trims.take(i + 1).drop_last() == trims.take(i as int));
        proof {
            reveal(Seq::filter);
        }
        if name.len() > 0 {
            names.push(crate::text::text_of(name));
            assert(views(names@) == views(before).push(name@));
        }
    }
    assert(trims.take(trims.len() as int) == trims);
    names
}

} // verus!
