//! Names for directories, made of the names of branches.
use vstd::prelude::*;

use crate::text::chars_of;

verus! {

/// Whether `c` is an ASCII letter or digit.
pub open spec fn is_alnum(c: char) -> bool {
    'a' <= c <= 'z' || 'A' <= c <= 'Z' || '0' <= c <= '9'
}

/// `c`, or the small letter of an ASCII capital.
pub open spec fn small(c: char) -> char {
    if 'A' <= c <= 'Z' {
        (c as u32 + 32) as char
    } else {
        c
    }
}

/// The longest stretches of ASCII letters and digits in `text`, in small letters.
pub open spec fn stretches(text: Seq<char>) -> Seq<Seq<char>>
    decreases text.len(),
{
    if text.len() == 0 {
        Seq::empty()
    } else {
        let before = text.drop_last();
        let found = stretches(before);
        if !is_alnum(text.last()) {
            found
        } else if before.len() > 0 && is_alnum(before.last()) {
            found.drop_last().push(found.last().push(small(text.last())))
        } else {
            found.push(seq![small(text.last())])
        }
    }
}

/// The `words`, with one dash between each two.
pub open spec fn dashed(words: Seq<Seq<char>>) -> Seq<char>
    decreases words.len(),
{
    if words.len() == 0 {
        Seq::empty()
    } else if words.len() == 1 {
        words[0]
    } else {
        dashed(words.drop_last()).push('-') + words.last()
    }
}

/// The name made of `text`: its stretches of letters and digits with dashes
/// between them, or `worktree` where it has none.
pub open spec fn slug(text: Seq<char>) -> Seq<char> {
    if stretches(text).len() == 0 {
        "worktree"@
    } else {
        dashed(stretches(text))
    }
}

/// Whether a word holds something, and nothing but small letters and digits.
pub open spec fn is_small_word(word: Seq<char>) -> bool {
    word.len() > 0 && forall|i: int|
        0 <= i < word.len() ==> is_alnum(#[trigger] word[i]) && small(word[i]) == word[i]
}

/// Each stretch is a word, and a text that ends in a letter or digit has one.
proof fn stretches_hold(text: Seq<char>)
    ensures
        forall|i: int| 0 <= i < stretches(text).len() ==> is_small_word(#[trigger] stretches(text)[i]),
        text.len() > 0 && is_alnum(text.last()) ==> stretches(text).len() > 0,
    decreases text.len(),
{
    if text.len() > 0 {
        let found = stretches(text.drop_last());
        stretches_hold(text.drop_last());
        assert forall|i: int| 0 <= i < stretches(text).len() implies is_small_word(
            #[trigger] stretches(text)[i],
        ) by {
            if i < found.len() {
                assert(is_small_word(found[i]));
            }
        }
    }
}

/// Words that hold something make a text that does.
proof fn dashed_holds(words: Seq<Seq<char>>)
    requires
        words.len() > 0,
        words.last().len() > 0,
    ensures
        dashed(words).len() > 0,
{
}

/// A word that grows by one character.
proof fn dashed_grows(words: Seq<Seq<char>>, c: char)
    requires
        words.len() > 0,
    ensures
        dashed(words.drop_last().push(words.last().push(c))) == dashed(words).push(c),
{
    let grown = words.drop_last().push(words.last().push(c));
    assert(grown.drop_last() == words.drop_last());
    assert(dashed(grown) =~= dashed(words).push(c));
}

/// One more word of one character.
proof fn dashed_starts(words: Seq<Seq<char>>, c: char)
    ensures
        dashed(words.push(seq![c])) == if words.len() == 0 {
            seq![c]
        } else {
            dashed(words).push('-').push(c)
        },
{
    assert(words.push(seq![c]).drop_last() == words);
    assert(dashed(words).push('-') + seq![c] =~= dashed(words).push('-').push(c));
}

/// `c`, or the small letter of an ASCII capital.
fn to_small(c: char) -> (lower: char)
    ensures
        lower == small(c),
{
    if 'A' <= c && c <= 'Z' {
        ((c as u8) + 32) as char
    } else {
        c
    }
}

/// The name of a directory for the branch `value`.
pub fn slugify(value: &str) -> (name: String)
    ensures
        name@ == slug(value@),
{
    let chars = chars_of(value);
    let mut name = String::new();
    // Whether a dash is due before the next letter or digit.
    let mut pending = false;
    for i in 0..chars.len()
        invariant
            chars@ == value@,
            name@ == dashed(stretches(value@.take(i as int))),
            pending == (stretches(value@.take(i as int)).len() > 0 && !is_alnum(
                value@.take(i as int).last(),
            )),
            stretches(value@.take(i as int)).len() == 0 ==> !pending,
    {
        let c = chars[i];
        let ghost before = value@.take(i as int);
        assert(value@.take(i + 1).drop_last() == before);
        assert(value@.take(i + 1).last() == c);
        proof {
            stretches_hold(before);
            stretches_hold(value@.take(i + 1));
            if stretches(before).len() > 0 {
                dashed_grows(stretches(before), small(c));
                dashed_holds(stretches(before));
            }
            dashed_starts(stretches(before), small(c));
        }
        if ('a' <= c && c <= 'z') || ('A' <= c && c <= 'Z') || ('0' <= c && c <= '9') {
            if pending {
                name.push('-');
            }
            name.push(to_small(c));
            pending = false;
        } else {
            pending = !name.as_str().is_empty();
        }
    }
    assert(value@.take(value@.len() as int) == value@);
    proof {
        stretches_hold(value@);
        if stretches(value@).len() > 0 {
            dashed_holds(stretches(value@));
        }
    }
    if name.as_str().is_empty() {
        "worktree".to_owned()
    } else {
        name
    }
}

// ── Laws ──────────────────────────────────────────────────────────────────

/// Whether `name` holds small letters, digits and single dashes between them.
pub open spec fn is_tidy(name: Seq<char>) -> bool {
    &&& name.len() > 0
    &&& name.first() != '-'
    &&& name.last() != '-'
    &&& forall|i: int|
        0 <= i < name.len() ==> #[trigger] name[i] == '-' || (is_alnum(name[i]) && small(name[i])
            == name[i])
    &&& forall|i: int, j: int|
        0 <= i < name.len() && j == i + 1 && j < name.len() && #[trigger] name[i] == '-'
            ==> #[trigger] name[j] != '-'
}

/// Words with dashes between them are tidy.
proof fn dashed_is_tidy(words: Seq<Seq<char>>)
    requires
        words.len() > 0,
        forall|i: int| 0 <= i < words.len() ==> is_small_word(#[trigger] words[i]),
    ensures
        is_tidy(dashed(words)),
    decreases words.len(),
{
    assert(is_small_word(words.last()));
    if words.len() > 1 {
        let before = words.drop_last();
        assert forall|i: int| 0 <= i < before.len() implies is_small_word(#[trigger] before[i]) by {
            assert(is_small_word(words[i]));
        }
        dashed_is_tidy(before);
    }
}

/// A slug is never empty, holds nothing but small ASCII letters, digits and
/// dashes, and has no dash at its ends nor two in a row.
pub proof fn slug_is_tidy(text: Seq<char>)
    ensures
        is_tidy(slug(text)),
{
    stretches_hold(text);
    if stretches(text).len() > 0 {
        dashed_is_tidy(stretches(text));
    } else {
        reveal_strlit("worktree");
    }
}

/// Words with dashes between them have the words as their stretches.
proof fn stretches_of_dashed(words: Seq<Seq<char>>)
    requires
        words.len() > 0,
        forall|i: int| 0 <= i < words.len() ==> is_small_word(#[trigger] words[i]),
    ensures
        stretches(dashed(words)) == words,
    decreases words.len(), words.last().len(),
{
    let word = words.last();
    let c = word.last();
    assert(is_small_word(words[words.len() - 1]));
    assert(is_alnum(word[word.len() - 1]));
    if word.len() > 1 {
        let shorter = words.drop_last().push(word.drop_last());
        assert(word.drop_last().push(c) == word);
        assert(shorter.drop_last().push(shorter.last().push(c)) == words);
        assert forall|i: int| 0 <= i < shorter.len() implies is_small_word(#[trigger] shorter[i]) by {
            if i < words.len() - 1 {
                assert(is_small_word(words[i]));
            }
        }
        stretches_of_dashed(shorter);
        dashed_grows(shorter, c);
        assert(dashed(words).drop_last() == dashed(shorter));
        assert(dashed(shorter).last() == word[word.len() - 2]);
    } else {
        let before = words.drop_last();
        assert(word == seq![c]);
        assert(before.push(seq![c]) == words);
        dashed_starts(before, c);
        if before.len() > 0 {
            assert forall|i: int| 0 <= i < before.len() implies is_small_word(
                #[trigger] before[i],
            ) by {
                assert(is_small_word(words[i]));
            }
            stretches_of_dashed(before);
            let dash = dashed(before).push('-');
            assert(dash.drop_last() == dashed(before));
            assert(dashed(words).drop_last() == dash);
            assert(stretches(dash) == before);
        } else {
            assert(dashed(words).drop_last() == Seq::<char>::empty());
            assert(stretches(Seq::<char>::empty()) == before);
        }
    }
}

/// Whether `c` is one of the ASCII letters and digits.
pub open spec fn is_kept(c: char) -> bool {
    ('a' <= c && c <= 'z') || ('A' <= c && c <= 'Z') || ('0' <= c && c <= '9')
}

/// Whether `text` holds one of the ASCII letters and digits.
pub open spec fn keeps_some(text: Seq<char>) -> bool {
    exists|i: int| 0 <= i < text.len() && is_kept(#[trigger] text[i])
}

/// A text has stretches just where it holds letters or digits.
proof fn stretches_are_kept(text: Seq<char>)
    ensures
        stretches(text).len() > 0 <==> keeps_some(text),
    decreases text.len(),
{
    if text.len() > 0 {
        let before = text.drop_last();
        stretches_are_kept(before);
        stretches_hold(before);
        if keeps_some(before) {
            let i = choose|i: int| 0 <= i < before.len() && is_kept(#[trigger] before[i]);
            assert(is_kept(text[i]));
        }
        if is_kept(text.last()) {
            assert(is_kept(text[text.len() - 1]));
        } else if keeps_some(text) {
            let i = choose|i: int| 0 <= i < text.len() && is_kept(#[trigger] text[i]);
            assert(is_kept(before[i]));
        }
    }
}

/// A slug follows its text: each ASCII letter and digit stands in it, in small
/// letters and in order, with one dash where others stood between two of them. All
/// other characters leave no trace at the ends. A text with no letter or digit is
/// called `worktree`.
pub proof fn slug_follows_text(text: Seq<char>, c: char)
    ensures
        !keeps_some(text) ==> slug(text) == "worktree"@,
        !is_kept(c) ==> slug(text.push(c)) == slug(text),
        is_kept(c) ==> slug(text.push(c)) == {
            let lower = if 'A' <= c && c <= 'Z' {
                (c as u32 + 32) as char
            } else {
                c
            };
            if !keeps_some(text) {
                seq![lower]
            } else if is_kept(text.last()) {
                slug(text).push(lower)
            } else {
                slug(text).push('-').push(lower)
            }
        },
{
    let found = stretches(text);
    assert(text.push(c).drop_last() =~= text);
    stretches_are_kept(text);
    stretches_hold(text);
    if found.len() > 0 {
        dashed_grows(found, small(c));
    }
    dashed_starts(found, small(c));
}

/// A slug is its own slug.
pub proof fn slug_is_stable(text: Seq<char>)
    ensures
        slug(slug(text)) == slug(text),
{
    stretches_hold(text);
    if stretches(text).len() > 0 {
        stretches_of_dashed(stretches(text));
    } else {
        reveal_strlit("worktree");
        let word = "worktree"@;
        assert(is_small_word(word));
        assert(seq![word][0] == word);
        stretches_of_dashed(seq![word]);
    }
}

} // verus!
