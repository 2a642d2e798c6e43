//! Keeping a diff short enough to show.
use vstd::prelude::*;
use vstd::string::*;
use vstd::utf8::{encode_scalar, encode_utf8, encode_utf8_decode_utf8, encode_utf8_first_scalar, encode_utf8_valid_utf8, is_char_boundary, length_of_first_scalar, pop_first_scalar};

verus! {

/// How many bytes of a diff are shown.
pub const MAX_DIFF_BYTES: usize = 250_000;

/// How many characters at the start of `text` fit into `budget` bytes.
pub open spec fn fitting(text: Seq<char>, budget: int) -> nat
    decreases text.len(),
{
    if text.len() == 0 || encode_scalar(text.first() as u32).len() > budget {
        0
    } else {
        1 + fitting(text.drop_first(), budget - encode_scalar(text.first() as u32).len())
    }
}

/// A diff as it is shown: whole where it is short enough, and else cut behind the
/// last character that fits, with a note.
pub open spec fn shown_diff(diff: Seq<char>) -> Seq<char> {
    if encode_utf8(diff).len() <= MAX_DIFF_BYTES {
        diff
    } else {
        diff.take(fitting(diff, MAX_DIFF_BYTES as int) as int)
            + "\n\n… diff truncated by wtui …\n"@
    }
}

/// What fits ends at a boundary between characters, and no later boundary lies
/// within the budget.
proof fn fitting_is_last_boundary(text: Seq<char>, budget: int)
    requires
        0 <= budget < encode_utf8(text).len(),
    ensures
        fitting(text, budget) < text.len(),
        encode_utf8(text.take(fitting(text, budget) as int)).len() <= budget,
        encode_utf8(text.take(fitting(text, budget) as int)) == encode_utf8(text).take(
            encode_utf8(text.take(fitting(text, budget) as int)).len() as int,
        ),
        is_char_boundary(
            encode_utf8(text),
            encode_utf8(text.take(fitting(text, budget) as int)).len() as int,
        ),
        forall|i: int|
            encode_utf8(text.take(fitting(text, budget) as int)).len() < i <= budget
                ==> !is_char_boundary(encode_utf8(text), i),
    decreases text.len(),
{
    let bytes = encode_utf8(text);
    let width = encode_scalar(text.first() as u32).len();
    let rest = text.drop_first();
    let count = fitting(text, budget);
    encode_utf8_valid_utf8(text);
    encode_utf8_valid_utf8(rest);
    encode_utf8_first_scalar(text);
    assert(pop_first_scalar(bytes) == encode_utf8(rest));
    if width > budget {
        assert(text.take(0) == Seq::<char>::empty());
        assert(encode_utf8(Seq::<char>::empty()) == Seq::<u8>::empty());
        assert(bytes.take(0) == Seq::<u8>::empty());
        assert forall|i: int| 0 < i <= budget implies !is_char_boundary(bytes, i) by {
            assert(is_char_boundary(bytes, i) == is_char_boundary(
                pop_first_scalar(bytes),
                i - length_of_first_scalar(bytes),
            ));
            assert(i - length_of_first_scalar(bytes) < 0);
        }
    } else {
        fitting_is_last_boundary(rest, budget - width);
        let inner = fitting(rest, budget - width);
        let head = text.take(count as int);
        assert(head.first() == text.first());
        assert(head.drop_first() == rest.take(inner as int));
        assert(encode_utf8(head) == encode_scalar(text.first() as u32) + encode_utf8(
            rest.take(inner as int),
        ));
        let end = encode_utf8(head).len() as int;
        assert(encode_utf8(head) =~= bytes.take(end));
        assert forall|i: int| end < i <= budget implies !is_char_boundary(bytes, i) by {
            assert(is_char_boundary(bytes, i) == is_char_boundary(
                pop_first_scalar(bytes),
                i - length_of_first_scalar(bytes),
            ));
        }
    }
}

/// A diff as it is shown.
pub fn truncate_diff(diff: String) -> (shown: String)
    ensures
        shown@ == shown_diff(diff@),
{
    let ghost bytes = encode_utf8(diff@);
    let text = diff.as_str();
    if text.as_bytes().len() <= MAX_DIFF_BYTES {
        return diff;
    }
    let ghost head = diff@.take(fitting(diff@, MAX_DIFF_BYTES as int) as int);
    let ghost last = encode_utf8(head).len() as int;
    proof {
        fitting_is_last_boundary(diff@, MAX_DIFF_BYTES as int);
    }
    let mut end: usize = MAX_DIFF_BYTES;
    while !text.is_char_boundary(end)
        invariant
            text@ == diff@,
            bytes == encode_utf8(diff@),
            0 <= last <= end <= MAX_DIFF_BYTES,
            is_char_boundary(bytes, last),
        decreases end,
    {
        end = end - 1;
    }
    let (kept, _) = text.split_at(end);
    assert(end == last);
    assert(kept@ == head) by {
        assert(encode_utf8(kept@) == bytes.subrange(0, end as int));
        assert(bytes.subrange(0, end as int) == bytes.take(last));
        encode_utf8_decode_utf8(kept@);
        encode_utf8_decode_utf8(head);
    }
    let mut shown = kept.to_owned();
    shown.append("\n\n… diff truncated by wtui …\n");
    shown
}

// ── Laws ──────────────────────────────────────────────────────────────────

/// A diff of at most 250,000 bytes is shown as it is.
pub proof fn short_diff_is_shown_whole(diff: Seq<char>)
    requires
        encode_utf8(diff).len() <= 250_000,
    ensures
        shown_diff(diff) == diff,
{
}

/// A longer diff keeps as many whole characters as fit: they take at most 250,000
/// bytes, and with the next one they would take more. A note follows.
pub proof fn cut_keeps_what_fits(diff: Seq<char>)
    requires
        encode_utf8(diff).len() > 250_000,
    ensures
        exists|count: int|
            #![trigger diff.take(count)]
            {
                &&& 0 <= count < diff.len()
                &&& encode_utf8(diff.take(count)).len() <= 250_000
                &&& encode_utf8(diff.take(count + 1)).len() > 250_000
                &&& shown_diff(diff) == diff.take(count) + "\n\n… diff truncated by wtui …\n"@
            },
{
    let count = fitting(diff, MAX_DIFF_BYTES as int) as int;
    fitting_is_last_boundary(diff, MAX_DIFF_BYTES as int);
    next_does_not_fit(diff, MAX_DIFF_BYTES as int);
    assert(shown_diff(diff) == diff.take(count) + "\n\n… diff truncated by wtui …\n"@);
}

/// One character more than what fits takes more than the budget.
proof fn next_does_not_fit(text: Seq<char>, budget: int)
    requires
        0 <= budget < encode_utf8(text).len(),
    ensures
        fitting(text, budget) < text.len(),
        encode_utf8(text.take(fitting(text, budget) as int + 1)).len() > budget,
    decreases text.len(),
{
    let width = encode_scalar(text.first() as u32).len();
    let rest = text.drop_first();
    let longer = text.take(fitting(text, budget) as int + 1);
    if width > budget {
        assert(longer.first() == text.first());
        assert(encode_utf8(longer) == encode_scalar(text.first() as u32) + encode_utf8(
            longer.drop_first(),
        ));
    } else {
        next_does_not_fit(rest, budget - width);
        assert(longer.first() == text.first());
        assert(longer.drop_first() == rest.take(fitting(rest, budget - width) as int + 1));
    }
}

} // verus!
