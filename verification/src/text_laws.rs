//! What holds of cutting text into pieces and of reading numbers.
use vstd::prelude::*;

use crate::lines::{first_match, first_match_fits, first_word, first_word_fits, lines, split, trimmed_lines, trimmed_start_fits, words};
use crate::number::{all_digits, decimal, digits_value, parsed_u32, without_plus};
use crate::text::{after_prefix, begins_with, is_white, separated, trimmed, trimmed_end, trimmed_start};

verus! {

// ── Where things are found ───────────────────────────────────────────────────────────────

/// A match that none comes before is the first.
pub proof fn first_match_is(text: Seq<char>, separator: Seq<char>, at: nat)
    requires
        at <= text.len(),
        begins_with(text.skip(at as int), separator),
        forall|i: int| 0 <= i < at ==> !begins_with(#[trigger] text.skip(i), separator),
    ensures
        first_match(text, separator) == Some(at),
    decreases at,
{
    assert(text.skip(0) =~= text);
    if at > 0 {
        let rest = text.drop_first();
        assert(!begins_with(text.skip(0), separator));
        assert(rest.skip(at - 1) =~= text.skip(at as int));
        assert forall|i: int| 0 <= i < at - 1 implies !begins_with(
            #[trigger] rest.skip(i),
            separator,
        ) by {
            assert(rest.skip(i) =~= text.skip(i + 1));
        }
        first_match_is(rest, separator, (at - 1) as nat);
    }
}

/// Where a separator of one character does not occur, there is no match.
pub proof fn no_match(text: Seq<char>, mark: char)
    requires
        !text.contains(mark),
    ensures
        first_match(text, seq![mark]) is None,
    decreases text.len(),
{
    if begins_with(text, seq![mark]) {
        assert(text.take(1)[0] == mark);
        assert(text[0] == mark);
    }
    if text.len() > 0 {
        assert forall|i: int| 0 <= i < text.len() - 1 implies #[trigger] text.drop_first()[i]
            != mark by {
            assert(text[i + 1] != mark);
        }
        no_match(text.drop_first(), mark);
    }
}

/// A piece without the character `mark` ends at the first one.
pub proof fn piece_ends_at_mark(piece: Seq<char>, mark: char, rest: Seq<char>)
    requires
        !piece.contains(mark),
    ensures
        first_match(piece + seq![mark] + rest, seq![mark]) == Some(piece.len()),
{
    let text = piece + seq![mark] + rest;
    assert(text.skip(piece.len() as int).take(1) =~= seq![mark]);
    assert forall|i: int| 0 <= i < piece.len() implies !begins_with(
        #[trigger] text.skip(i),
        seq![mark],
    ) by {
        if begins_with(text.skip(i), seq![mark]) {
            assert(text.skip(i).take(1)[0] == piece[i]);
        }
    }
    first_match_is(text, seq![mark], piece.len());
}

/// Where there is no match for one character, it does not occur.
pub proof fn no_match_no_mark(text: Seq<char>, mark: char)
    requires
        first_match(text, seq![mark]) is None,
    ensures
        !text.contains(mark),
    decreases text.len(),
{
    if text.len() > 0 {
        if text[0] == mark {
            assert(text.take(1) =~= seq![mark]);
        }
        no_match_no_mark(text.drop_first(), mark);
        assert forall|i: int| 0 <= i < text.len() implies #[trigger] text[i] != mark by {
            if i > 0 {
                assert(text.drop_first()[i - 1] == text[i]);
            }
        }
    }
}

/// A match is where it is found.
pub proof fn match_is_there(text: Seq<char>, separator: Seq<char>)
    ensures
        first_match(text, separator) matches Some(at) ==> begins_with(
            text.skip(at as int),
            separator,
        ),
    decreases text.len(),
{
    assert(text.skip(0) =~= text);
    if !begins_with(text, separator) && text.len() > 0 {
        match_is_there(text.drop_first(), separator);
        first_match_fits(text.drop_first(), separator);
        if let Some(at) = first_match(text.drop_first(), separator) {
            assert(text.drop_first().skip(at as int) =~= text.skip(at as int + 1));
        }
    }
}

/// A match in front of more text is still the first.
pub proof fn match_in_front(text: Seq<char>, more: Seq<char>, separator: Seq<char>)
    requires
        first_match(text, separator) is Some,
    ensures
        first_match(text + more, separator) == first_match(text, separator),
    decreases text.len(),
{
    first_match_fits(text, separator);
    let longer = text + more;
    if begins_with(text, separator) {
        assert(longer.take(separator.len() as int) =~= text.take(separator.len() as int));
    } else {
        if begins_with(longer, separator) {
            assert(longer.take(separator.len() as int) =~= text.take(separator.len() as int));
        }
        first_match_fits(text.drop_first(), separator);
        match_in_front(text.drop_first(), more, separator);
        assert(longer.drop_first() =~= text.drop_first() + more);
    }
}

/// What stands somewhere is found.
pub proof fn some_match(text: Seq<char>, separator: Seq<char>, at: int)
    requires
        0 <= at <= text.len(),
        begins_with(text.skip(at), separator),
    ensures
        first_match(text, separator) is Some,
    decreases at,
{
    assert(text.skip(0) =~= text);
    if at > 0 {
        assert(text.drop_first().skip(at - 1) =~= text.skip(at));
        some_match(text.drop_first(), separator, at - 1);
    }
}

/// A word up to the whitespace behind it.
pub proof fn word_ends(word: Seq<char>, rest: Seq<char>)
    requires
        forall|i: int| 0 <= i < word.len() ==> !is_white(#[trigger] word[i]),
        rest.len() > 0 ==> is_white(rest.first()),
    ensures
        first_word(word + rest) == word,
    decreases word.len(),
{
    let text = word + rest;
    if word.len() == 0 {
        assert(text =~= rest);
        assert(first_word(text) =~= word);
    } else {
        assert(!is_white(word[0]));
        assert(text.drop_first() =~= word.drop_first() + rest);
        assert forall|i: int| 0 <= i < word.len() - 1 implies !is_white(
            #[trigger] word.drop_first()[i],
        ) by {
            assert(!is_white(word[i + 1]));
        }
        word_ends(word.drop_first(), rest);
        assert(seq![word.first()] + word.drop_first() =~= word);
    }
}

// ── Whitespace at the ends ────────────────────────────────────────────────

/// Whether each character of `text` is whitespace.
pub open spec fn all_white(text: Seq<char>) -> bool {
    forall|i: int| 0 <= i < text.len() ==> is_white(#[trigger] text[i])
}

/// What is trimmed from the front of a text is the whitespace there, and all of it.
pub proof fn front_is_trimmed(text: Seq<char>)
    ensures
        exists|front: Seq<char>|
            #![trigger all_white(front)]
            text == front + trimmed_start(text) && all_white(front),
        trimmed_start(text).len() > 0 ==> !is_white(trimmed_start(text).first()),
    decreases text.len(),
{
    if text.len() > 0 && is_white(text.first()) {
        front_is_trimmed(text.drop_first());
        let front = choose|front: Seq<char>|
            #![trigger all_white(front)]
            text.drop_first() == front + trimmed_start(text.drop_first()) && all_white(front);
        let longer = seq![text.first()] + front;
        let rest = text.drop_first();
        assert(all_white(longer));
        assert(text =~= seq![text.first()] + rest);
        assert(seq![text.first()] + (front + trimmed_start(rest)) =~= longer + trimmed_start(rest));
    } else {
        let none = Seq::<char>::empty();
        assert(all_white(none));
        assert(text =~= none + text);
    }
}

/// What is trimmed from the back of a text is the whitespace there, and all of it.
proof fn back_is_trimmed(text: Seq<char>)
    ensures
        exists|back: Seq<char>|
            #![trigger all_white(back)]
            text == trimmed_end(text) + back && all_white(back),
        trimmed_end(text).len() > 0 ==> !is_white(trimmed_end(text).last()) && trimmed_end(
            text,
        ).first() == text.first(),
    decreases text.len(),
{
    if text.len() > 0 && is_white(text.last()) {
        back_is_trimmed(text.drop_last());
        let back = choose|back: Seq<char>|
            #![trigger all_white(back)]
            text.drop_last() == trimmed_end(text.drop_last()) + back && all_white(back);
        let longer = back.push(text.last());
        let rest = text.drop_last();
        assert(all_white(longer));
        assert(text =~= rest.push(text.last()));
        assert((trimmed_end(rest) + back).push(text.last()) =~= trimmed_end(rest) + longer);
    } else {
        let none = Seq::<char>::empty();
        assert(all_white(none));
        assert(text =~= text + none);
    }
}

/// Trimming a text takes off the whitespace at its ends, all of it and nothing else.
pub proof fn ends_are_trimmed(text: Seq<char>)
    ensures
        exists|front: Seq<char>, back: Seq<char>|
            #![trigger all_white(front), all_white(back)]
            text == front + trimmed(text) + back && all_white(front) && all_white(back),
        trimmed(text).len() > 0 ==> !is_white(trimmed(text).first()) && !is_white(
            trimmed(text).last(),
        ),
{
    let rest = trimmed_start(text);
    front_is_trimmed(text);
    back_is_trimmed(rest);
    let front = choose|front: Seq<char>|
        #![trigger all_white(front)]
        text == front + rest && all_white(front);
    let back = choose|back: Seq<char>|
        #![trigger all_white(back)]
        rest == trimmed(text) + back && all_white(back);
    assert(text =~= front + trimmed(text) + back);
}

// ── Prefixes and joining ──────────────────────────────────────────────────

/// A text begins with a prefix just where it is that prefix and something behind
/// it, and that is what follows.
pub proof fn prefix_and_rest(text: Seq<char>, prefix: Seq<char>, rest: Seq<char>)
    ensures
        after_prefix(text, prefix) == Some(rest) <==> text == prefix + rest,
        begins_with(text, prefix) <==> after_prefix(text, prefix) is Some,
{
    if after_prefix(text, prefix) == Some(rest) {
        assert(text =~= prefix + rest);
    }
    if text == prefix + rest {
        assert(text.take(prefix.len() as int) =~= prefix);
        assert(text.skip(prefix.len() as int) =~= rest);
    }
}

/// Texts that are joined stand one after the other, with the separator between each
/// two and nowhere else.
pub proof fn joined_texts(first: Seq<Seq<char>>, second: Seq<Seq<char>>, separator: Seq<char>)
    ensures
        first.len() == 0 ==> separated(first, separator) == Seq::<char>::empty(),
        first.len() == 1 ==> separated(first, separator) == first[0],
        first.len() > 0 && second.len() > 0 ==> separated(first + second, separator) == separated(
            first,
            separator,
        ) + separator + separated(second, separator),
    decreases second.len(),
{
    if first.len() > 0 && second.len() > 0 {
        let all = first + second;
        assert(all.last() == second.last());
        assert(all.drop_last() =~= first + second.drop_last());
        if second.len() == 1 {
            assert(all.drop_last() =~= first);
        } else {
            joined_texts(first, second.drop_last(), separator);
            assert(separated(all, separator) =~= separated(first, separator) + separator
                + separated(second, separator));
        }
    }
}

// ── Pieces ────────────────────────────────────────────────────────────────

/// The first match is where the separator stands, and it stands nowhere before.
/// Where there is no match, it stands nowhere.
pub proof fn first_match_tells(text: Seq<char>, separator: Seq<char>)
    ensures
        match first_match(text, separator) {
            Some(at) => {
                &&& at + separator.len() <= text.len()
                &&& text.subrange(at as int, (at + separator.len()) as int) == separator
                &&& forall|i: int|
                    0 <= i < at ==> #[trigger] text.subrange(i, i + separator.len()) != separator
            },
            None => forall|i: int|
                0 <= i <= text.len() - separator.len() ==> #[trigger] text.subrange(
                    i,
                    i + separator.len(),
                ) != separator,
        },
{
    first_match_fits(text, separator);
    match_is_there(text, separator);
    match first_match(text, separator) {
        Some(at) => {
            assert(text.subrange(at as int, (at + separator.len()) as int) =~= text.skip(
                at as int,
            ).take(separator.len() as int));
            assert forall|i: int| 0 <= i < at implies #[trigger] text.subrange(
                i,
                i + separator.len(),
            ) != separator by {
                if text.subrange(i, i + separator.len()) == separator {
                    assert(text.skip(i).take(separator.len() as int) =~= separator);
                    match_not_after(text, separator, i);
                }
            }
        },
        None => {
            assert forall|i: int| 0 <= i <= text.len() - separator.len() implies #[trigger] text.subrange(
                i,
                i + separator.len(),
            ) != separator by {
                if text.subrange(i, i + separator.len()) == separator {
                    assert(text.skip(i).take(separator.len() as int) =~= separator);
                    some_match(text, separator, i);
                }
            }
        },
    }
}

/// The first match is not behind another.
proof fn match_not_after(text: Seq<char>, separator: Seq<char>, at: int)
    requires
        0 <= at <= text.len(),
        begins_with(text.skip(at), separator),
    ensures
        first_match(text, separator) matches Some(first) && first <= at,
    decreases at,
{
    assert(text.skip(0) =~= text);
    if at > 0 {
        assert(text.drop_first().skip(at - 1) =~= text.skip(at));
        match_not_after(text.drop_first(), separator, at - 1);
    }
}

/// Splitting takes out the separators and nothing else, from the left: the pieces
/// joined are the text, no piece holds a separator, and each but the last ends at
/// the first one behind it.
pub proof fn split_pieces_join(text: Seq<char>, separator: Seq<char>)
    requires
        separator.len() > 0,
    ensures
        split(text, separator).len() > 0,
        separated(split(text, separator), separator) == text,
        forall|i: int|
            0 <= i < split(text, separator).len() ==> first_match(
                #[trigger] split(text, separator)[i],
                separator,
            ) is None,
        forall|i: int|
            0 <= i < split(text, separator).len() - 1 ==> first_match(
                #[trigger] split(text, separator)[i] + separator,
                separator,
            ) == Some(split(text, separator)[i].len()),
    decreases text.len(),
{
    first_match_fits(text, separator);
    first_match_tells(text, separator);
    if let Some(at) = first_match(text, separator) {
        let piece = text.take(at as int);
        let rest = text.skip((at + separator.len()) as int);
        split_pieces_join(rest, separator);
        let pieces = split(rest, separator);
        joined_texts(seq![piece], pieces, separator);
        assert(text =~= piece + separator + rest);
        let both = piece + separator;
        assert(both.skip(at as int).take(separator.len() as int) =~= separator);
        assert forall|i: int| 0 <= i < at implies !begins_with(#[trigger] both.skip(i), separator) by {
            if begins_with(both.skip(i), separator) {
                assert(text.subrange(i, i + separator.len()) =~= both.skip(i).take(
                    separator.len() as int,
                ));
            }
        }
        first_match_is(both, separator, at);
        if first_match(piece, separator) is Some {
            match_in_front(piece, separator, separator);
            first_match_fits(piece, separator);
        }
        let all = split(text, separator);
        assert(all =~= seq![piece] + pieces);
        assert forall|i: int| 0 <= i < all.len() implies first_match(
            #[trigger] all[i],
            separator,
        ) is None by {
            if i > 0 {
                assert(all[i] == pieces[i - 1]);
            }
        }
        assert forall|i: int| 0 <= i < all.len() - 1 implies first_match(
            #[trigger] all[i] + separator,
            separator,
        ) == Some(all[i].len()) by {
            if i > 0 {
                assert(all[i] == pieces[i - 1]);
            }
        }
    }
}

/// A line ends at its newline, and loses a carriage return before that; the last one
/// may end with the text. An empty text has no lines.
pub proof fn lines_end_at_newlines(line: Seq<char>, rest: Seq<char>)
    requires
        !line.contains('\n'),
    ensures
        lines(Seq::<char>::empty()) == Seq::<Seq<char>>::empty(),
        line.len() > 0 ==> lines(line) == seq![line],
        line.len() == 0 || line.last() != '\r' ==> lines(line + seq!['\n'] + rest) == seq![line]
            + lines(rest),
        line.len() > 0 && line.last() == '\r' ==> lines(line + seq!['\n'] + rest) == seq![
            line.drop_last(),
        ] + lines(rest),
{
    let text = line + seq!['\n'] + rest;
    no_match(line, '\n');
    piece_ends_at_mark(line, '\n', rest);
    assert(text.take(line.len() as int) =~= line);
    assert(text.skip(line.len() as int + 1) =~= rest);
    assert(lines(Seq::<char>::empty()) =~= Seq::<Seq<char>>::empty());
}

/// Each line counts by what is left of it when it is trimmed, unless that is nothing.
pub proof fn trimmed_lines_in_turn(line: Seq<char>, rest: Seq<char>)
    requires
        !line.contains('\n'),
    ensures
        trimmed_lines(line) == if trimmed(line).len() > 0 {
            seq![trimmed(line)]
        } else {
            Seq::empty()
        },
        trimmed_lines(line + seq!['\n'] + rest) == trimmed_lines(line) + trimmed_lines(rest),
{
    let none = Seq::<Seq<char>>::empty();
    let trim = |one: Seq<char>| trimmed(one);
    let keep = |one: Seq<char>| one.len() > 0;
    lines_end_at_newlines(line, rest);
    none.lemma_filter_len(keep);
    none.lemma_filter_prepend(trimmed(line), keep);
    assert(none.map_values(trim) =~= none);
    assert(seq![trimmed(line)] + none =~= seq![trimmed(line)]);
    if line.len() > 0 {
        assert(lines(line).map_values(trim) =~= seq![trimmed(line)]);
    } else {
        assert(lines(line) =~= none);
    }
    let shown = if line.len() > 0 && line.last() == '\r' {
        line.drop_last()
    } else {
        line
    };
    return_is_trimmed(line);
    lines(rest).map_values(trim).lemma_filter_prepend(trimmed(shown), keep);
    assert((seq![shown] + lines(rest)).map_values(trim) =~= seq![trimmed(shown)] + lines(
        rest,
    ).map_values(trim));
}

/// A carriage return at the end is whitespace.
proof fn return_is_trimmed(line: Seq<char>)
    ensures
        line.len() > 0 && line.last() == '\r' ==> trimmed(line.drop_last()) == trimmed(line),
    decreases line.len(),
{
    if line.len() > 0 && line.last() == '\r' {
        let shorter = line.drop_last();
        if line.len() == 1 {
            assert(line.drop_first() =~= shorter);
        } else if is_white(line.first()) {
            assert(line.drop_first().drop_last() =~= shorter.drop_first());
            return_is_trimmed(line.drop_first());
        }
    }
}

/// Whitespace and more behind a text, with the whitespace in front taken off.
proof fn front_of_both(text: Seq<char>, more: Seq<char>)
    ensures
        trimmed_start(text + more) == if trimmed_start(text).len() > 0 {
            trimmed_start(text) + more
        } else {
            trimmed_start(more)
        },
    decreases text.len(),
{
    if text.len() == 0 {
        assert(text + more =~= more);
    } else if is_white(text.first()) {
        assert((text + more).drop_first() =~= text.drop_first() + more);
        front_of_both(text.drop_first(), more);
    }
}

/// A first word does not reach beyond whitespace.
proof fn first_word_of_both(text: Seq<char>, more: Seq<char>)
    requires
        more.len() > 0 ==> is_white(more.first()),
    ensures
        first_word(text + more) == first_word(text),
    decreases text.len(),
{
    if text.len() == 0 {
        assert(text + more =~= more);
    } else if !is_white(text.first()) {
        assert((text + more).drop_first() =~= text.drop_first() + more);
        first_word_of_both(text.drop_first(), more);
    }
}

/// Words are what stands between whitespace: a text without any is one word, and
/// whitespace parts the words before it from those behind it.
pub proof fn whitespace_parts_words(first: Seq<char>, white: char, second: Seq<char>)
    requires
        is_white(white),
    ensures
        words(Seq::<char>::empty()) == Seq::<Seq<char>>::empty(),
        first.len() > 0 && (forall|i: int| 0 <= i < first.len() ==> !is_white(#[trigger] first[i]))
            ==> words(first) == seq![first],
        words(first + seq![white] + second) == words(first) + words(second),
    decreases first.len(),
{
    let none = Seq::<char>::empty();
    let more = seq![white] + second;
    let text = first + seq![white] + second;
    assert(words(none) =~= Seq::<Seq<char>>::empty());
    assert(text =~= first + more);
    assert(more.drop_first() =~= second);
    front_of_both(first, more);
    trimmed_start_fits(first);
    let rest = trimmed_start(first);
    if rest.len() > 0 {
        first_word_of_both(rest, more);
        first_word_fits(rest);
        let word = first_word(rest);
        let tail = rest.skip(word.len() as int);
        assert((rest + more).skip(word.len() as int) =~= tail + seq![white] + second);
        whitespace_parts_words(tail, white, second);
        assert(words(text) =~= words(first) + words(second));
    } else {
        assert(words(first) =~= Seq::<Seq<char>>::empty());
        assert(words(text) =~= words(second));
    }
    if first.len() > 0 && (forall|i: int|
        0 <= i < first.len() ==> !is_white(#[trigger] first[i])) {
        assert(!is_white(first[0]));
        assert(first =~= first + none);
        word_ends(first, none);
        assert(first.skip(first.len() as int) =~= none);
        assert(words(first) =~= seq![first]);
    }
}

// ── Numbers ───────────────────────────────────────────────────────────────

/// A number in decimal has one digit for each power of ten in it, the last one for
/// the ones.
pub proof fn decimal_digits(value: nat)
    ensures
        value < 10 ==> decimal(value) == seq![(48 + value) as char],
        value >= 10 ==> decimal(value) == decimal(value / 10).push((48 + value % 10) as char),
{
}

/// A row of digits is read from the left: one more digit makes ten times the number,
/// and the digit more. What does not fit in 32 bits is no number.
pub proof fn digits_are_read(text: Seq<char>, c: char)
    ensures
        '0' <= c <= '9' ==> parsed_u32(seq![c]) == Some((c as u32 - 48) as u32),
        text.len() > 0 && text != seq!['+'] && '0' <= c <= '9' ==> parsed_u32(text.push(c))
            == match parsed_u32(text) {
            Some(value) => if value as int * 10 + (c as int - 48) <= 0xffff_ffff {
                Some((value * 10 + (c as u32 - 48)) as u32)
            } else {
                None
            },
            None => None,
        },
        !('0' <= c <= '9') ==> parsed_u32(text.push(c)) is None,
        parsed_u32(Seq::<char>::empty()) is None,
        text.len() > 0 && text.first() != '+' ==> parsed_u32(seq!['+'] + text) == parsed_u32(text),
{
    let more = text.push(c);
    let one = seq![c];
    let none = Seq::<char>::empty();
    assert(one.drop_last() =~= none);
    assert(one.drop_first() =~= none);
    assert(digits_value(none) == 0);
    assert(without_plus(none) == none);
    if text.len() > 0 {
        let digits = without_plus(text);
        let longer = without_plus(more);
        if text.first() == '+' {
            assert(longer =~= digits.push(c));
        } else {
            assert(longer =~= digits.push(c));
        }
        assert(digits.len() == 0 ==> text =~= seq!['+']);
        assert(longer.drop_last() =~= digits);
        if '0' <= c <= '9' {
            if all_digits(digits) {
                assert(all_digits(longer));
            } else if digits.len() > 0 {
                let i = choose|i: int|
                    0 <= i < digits.len() && !crate::number::is_digit(#[trigger] digits[i]);
                assert(longer[i] == digits[i]);
            }
        } else {
            assert(!crate::number::is_digit(longer[longer.len() - 1]));
        }
        assert((seq!['+'] + text).drop_first() =~= text);
    } else {
        assert(more =~= one);
    }
}

} // verus!
