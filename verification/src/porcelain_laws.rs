//! What holds of reading Git's porcelain formats.
use vstd::prelude::*;
use vstd::utf8::encode_utf8;

use crate::lines::{first_match, first_match_fits, lines, split, words};
use crate::number::{decimal, decimal_reads_back, is_digit, parsed_u32};
use crate::porcelain::{block_path, block_worktree, blocks, is_dirty, is_ignored, is_lock, is_rename, last_value, listed_worktrees, pieces, records, status_of, summary, tracking_count, RawWorktreeModel, StatusModel};
use crate::text::{after_prefix, begins_with, is_white, trimmed, trimmed_end, trimmed_start};
use crate::text_laws::{first_match_is, match_in_front, match_is_there, no_match, no_match_no_mark, piece_ends_at_mark, some_match, word_ends};

verus! {

// ── The status ────────────────────────────────────────────────────────────

/// Pieces of a status, one before the rest.
proof fn pieces_prepend(piece: Seq<char>, rest: Seq<char>)
    requires
        piece.len() > 0,
        !piece.contains('\0'),
    ensures
        pieces(piece + "\0"@ + rest) == seq![piece] + pieces(rest),
{
    reveal_strlit("\0");
    let text = piece + "\0"@ + rest;
    assert("\0"@ =~= seq!['\0']);
    piece_ends_at_mark(piece, '\0', rest);
    assert(text.take(piece.len() as int) =~= piece);
    assert(text.skip(piece.len() as int + 1) =~= rest);
    let keep = |piece: Seq<char>| piece.len() > 0;
    split(rest, "\0"@).lemma_filter_prepend(piece, keep);
}

/// What follows a prefix in the last record that has it, with one record in front.
proof fn last_value_prepend(record: Seq<char>, rest: Seq<Seq<char>>, prefix: Seq<char>)
    ensures
        last_value(seq![record] + rest, prefix) == match last_value(rest, prefix) {
            Some(value) => Some(value),
            None => after_prefix(record, prefix),
        },
    decreases rest.len(),
{
    let all = seq![record] + rest;
    if rest.len() == 0 {
        assert(all.drop_last() =~= Seq::<Seq<char>>::empty());
        assert(last_value(all.drop_last(), prefix) is None);
        assert(all.last() == record);
    } else {
        assert(all.last() == rest.last());
        assert(all.drop_last() =~= seq![record] + rest.drop_last());
        last_value_prepend(record, rest.drop_last(), prefix);
    }
}

/// A summary with one record in front.
proof fn summary_prepend(record: Seq<char>, rest: Seq<Seq<char>>)
    ensures
        ({
            let all = summary(seq![record] + rest);
            &&& all.dirty_files == summary(rest).dirty_files + if is_dirty(record) {
                1nat
            } else {
                0
            }
            &&& all.ignored_files == summary(rest).ignored_files + if is_ignored(record) {
                1nat
            } else {
                0
            }
        }),
        last_value(seq![record] + rest, "# branch.upstream "@) == match last_value(
            rest,
            "# branch.upstream "@,
        ) {
            Some(name) => Some(name),
            None => after_prefix(record, "# branch.upstream "@),
        },
        last_value(seq![record] + rest, "# branch.ab "@) == match last_value(
            rest,
            "# branch.ab "@,
        ) {
            Some(line) => Some(line),
            None => after_prefix(record, "# branch.ab "@),
        },
{
    last_value_prepend(record, rest, "# branch.upstream "@);
    last_value_prepend(record, rest, "# branch.ab "@);
    rest.lemma_filter_prepend(record, |record: Seq<char>| is_dirty(record));
    rest.lemma_filter_prepend(record, |record: Seq<char>| is_ignored(record));
}

/// A record that is no header tells nothing of the upstream branch.
proof fn plain_record(record: Seq<char>)
    requires
        !begins_with(record, "# "@),
    ensures
        after_prefix(record, "# branch.upstream "@) is None,
        after_prefix(record, "# branch.ab "@) is None,
{
    reveal_strlit("# ");
    reveal_strlit("# branch.upstream ");
    reveal_strlit("# branch.ab ");
    if begins_with(record, "# branch.upstream "@) {
        assert(record.take("# branch.upstream "@.len() as int).take(2) =~= record.take(2));
        assert(record.take(2) =~= "# "@);
    }
    if begins_with(record, "# branch.ab "@) {
        assert(record.take("# branch.ab "@.len() as int).take(2) =~= record.take(2));
        assert(record.take(2) =~= "# "@);
    }
}

/// A header counts as no file.
proof fn header_counts_nothing(record: Seq<char>)
    requires
        record.len() > 0,
        record.first() == '#',
    ensures
        !is_rename(record),
        !is_dirty(record),
        !is_ignored(record),
{
    reveal_strlit("2 ");
    reveal_strlit("! ");
    other_prefix(record, "2 "@);
    other_prefix(record, "! "@);
}

/// A rename counts once, whatever its source path looks like.
pub proof fn rename_counts_once(rename: Seq<char>, source: Seq<char>, rest: Seq<char>)
    requires
        rename.len() >= 2,
        rename[0] == '2' && rename[1] == ' ',
        !rename.contains('\0'),
        source.len() > 0,
        !source.contains('\0'),
    ensures
        status_of(rename + "\0"@ + (source + "\0"@ + rest)) == (StatusModel {
            dirty_files: status_of(rest).dirty_files + 1,
            ..status_of(rest)
        }),
{
    reveal_strlit("2 ");
    reveal_strlit("# ");
    reveal_strlit("! ");
    assert(rename.take(2) =~= "2 "@);
    if begins_with(rename, "# "@) {
        assert(rename.take(2)[0] == '#');
    }
    if begins_with(rename, "! "@) {
        assert(rename.take(2)[0] == '!');
    }
    pieces_prepend(source, rest);
    pieces_prepend(rename, source + "\0"@ + rest);
    let all = seq![rename] + (seq![source] + pieces(rest));
    assert(all.skip(2) =~= pieces(rest));
    assert(all.first() == rename);
    summary_prepend(rename, records(pieces(rest)));
    plain_record(rename);
}

/// Any other record, but for the headers that name the upstream branch and tell how
/// far it is away, counts for itself: as a change if it begins with `1`, `u` or `?`,
/// as an ignored file if it begins with `!` and a space, or as neither.
pub proof fn record_counts_once(record: Seq<char>, rest: Seq<char>)
    requires
        record.len() > 0,
        !record.contains('\0'),
        !(record.len() >= 2 && record[0] == '2' && record[1] == ' '),
        !begins_with(record, "# branch.upstream "@),
        !begins_with(record, "# branch.ab "@),
    ensures
        status_of(record + "\0"@ + rest) == (StatusModel {
            dirty_files: status_of(rest).dirty_files + if record[0] == '1' || record[0] == 'u'
                || record[0] == '?' {
                1nat
            } else {
                0
            },
            ignored_files: status_of(rest).ignored_files + if record.len() >= 2 && record[0] == '!'
                && record[1] == ' ' {
                1nat
            } else {
                0
            },
            ..status_of(rest)
        }),
{
    reveal_strlit("2 ");
    reveal_strlit("! ");
    if record.len() >= 2 {
        assert(record.take(2)[0] == record[0] && record.take(2)[1] == record[1]);
        if record[0] == '!' && record[1] == ' ' {
            assert(record.take(2) =~= "! "@);
        }
    }
    assert(!is_rename(record));
    pieces_prepend(record, rest);
    let all = seq![record] + pieces(rest);
    assert(all.skip(1) =~= pieces(rest));
    assert(all.first() == record);
    summary_prepend(record, records(pieces(rest)));
}

/// A rename that comes last, without a source path, counts too. Nothing is clean.
pub proof fn last_rename_counts(rename: Seq<char>)
    requires
        rename.len() >= 2,
        rename[0] == '2' && rename[1] == ' ',
        !rename.contains('\0'),
    ensures
        status_of(rename) == (StatusModel { dirty_files: 1, ..status_of(Seq::empty()) }),
        status_of(Seq::empty()) == (StatusModel {
            dirty_files: 0,
            ignored_files: 0,
            upstream: None,
            ahead: None,
            behind: None,
        }),
{
    reveal_strlit("2 ");
    reveal_strlit("# ");
    reveal_strlit("! ");
    let none = Seq::<Seq<char>>::empty();
    let nothing = Seq::<char>::empty();
    assert(rename.take(2) =~= "2 "@);
    if begins_with(rename, "# "@) {
        assert(rename.take(2)[0] == '#');
    }
    if begins_with(rename, "! "@) {
        assert(rename.take(2)[0] == '!');
    }
    pieces_of_nothing();
    nuls_only_separate(rename, nothing);
    pieces_prepend(rename, nothing);
    assert(rename + "\0"@ + nothing =~= rename + "\0"@);
    let all = seq![rename] + none;
    assert(pieces(rename + "\0"@) =~= all);
    assert(all.skip(1) =~= none);
    assert(records(none) =~= none);
    none.lemma_filter_len(|record: Seq<char>| is_dirty(record));
    none.lemma_filter_len(|record: Seq<char>| is_ignored(record));
    summary_prepend(rename, none);
    plain_record(rename);
}

/// An empty output has no pieces.
proof fn pieces_of_nothing()
    ensures
        pieces(Seq::<char>::empty()) == Seq::<Seq<char>>::empty(),
{
    reveal_strlit("\0");
    let none = Seq::<Seq<char>>::empty();
    let nothing = Seq::<char>::empty();
    let keep = |piece: Seq<char>| piece.len() > 0;
    assert("\0"@ =~= seq!['\0']);
    no_match(nothing, '\0');
    assert(split(nothing, "\0"@) =~= seq![nothing] + none);
    none.lemma_filter_prepend(nothing, keep);
    none.lemma_filter_len(keep);
    assert(pieces(nothing) =~= none);
}

/// A text that is split at one character falls into the pieces before it and those
/// behind it.
proof fn split_both(first: Seq<char>, mark: char, second: Seq<char>)
    ensures
        split(first + seq![mark] + second, seq![mark]) == split(first, seq![mark]) + split(
            second,
            seq![mark],
        ),
    decreases first.len(),
{
    let text = first + seq![mark] + second;
    match first_match(first, seq![mark]) {
        Some(at) => {
            first_match_fits(first, seq![mark]);
            match_in_front(first, seq![mark] + second, seq![mark]);
            assert(text =~= first + (seq![mark] + second));
            let rest = first.skip(at as int + 1);
            split_both(rest, mark, second);
            assert(text.take(at as int) =~= first.take(at as int));
            assert(text.skip(at as int + 1) =~= rest + seq![mark] + second);
            assert(split(text, seq![mark]) =~= split(first, seq![mark]) + split(
                second,
                seq![mark],
            ));
        },
        None => {
            no_match_no_mark(first, mark);
            piece_ends_at_mark(first, mark, second);
            assert(text.take(first.len() as int) =~= first);
            assert(text.skip(first.len() as int + 1) =~= second);
        },
    }
}

/// The pieces of two outputs with a NUL character between them.
proof fn pieces_of_both(first: Seq<char>, second: Seq<char>)
    ensures
        pieces(first + "\0"@ + second) == pieces(first) + pieces(second),
{
    reveal_strlit("\0");
    assert("\0"@ =~= seq!['\0']);
    split_both(first, '\0', second);
    Seq::filter_distributes_over_add(
        split(first, "\0"@),
        split(second, "\0"@),
        |piece: Seq<char>| piece.len() > 0,
    );
}

/// NUL characters only separate: one at the start or at the end, or a second one
/// beside another, changes nothing.
pub proof fn nuls_only_separate(first: Seq<char>, second: Seq<char>)
    ensures
        status_of(first + "\0"@) == status_of(first),
        status_of("\0"@ + first) == status_of(first),
        status_of(first + "\0"@ + ("\0"@ + second)) == status_of(first + "\0"@ + second),
{
    let nothing = Seq::<char>::empty();
    pieces_of_nothing();
    pieces_of_both(first, nothing);
    pieces_of_both(nothing, first);
    pieces_of_both(nothing, second);
    pieces_of_both(first, "\0"@ + second);
    pieces_of_both(first, second);
    assert(first + "\0"@ + nothing =~= first + "\0"@);
    assert(nothing + "\0"@ + first =~= "\0"@ + first);
    assert(nothing + "\0"@ + second =~= "\0"@ + second);
    assert(pieces(first) + Seq::<Seq<char>>::empty() =~= pieces(first));
    assert(Seq::<Seq<char>>::empty() + pieces(first) =~= pieces(first));
    assert(Seq::<Seq<char>>::empty() + pieces(second) =~= pieces(second));
}

/// The number in the word at `index` of a line, behind `sign`.
pub open spec fn signed_word(line: Seq<char>, index: int, sign: char) -> Option<u32> {
    if index < words(line).len() && words(line)[index].len() > 0 && words(line)[index][0] == sign {
        parsed_u32(words(line)[index].skip(1))
    } else {
        None
    }
}

/// How far a branch is ahead is what the first word of the header says behind a plus
/// sign, and how far it is behind what the second says behind a minus sign. A word
/// that says no number leaves its own open, and not the other. A later header takes
/// the place of an earlier one.
pub proof fn tracking_words_are_read(line: Seq<char>, rest: Seq<char>)
    requires
        !line.contains('\0'),
    ensures
        status_of("# branch.ab "@ + line + "\0"@ + rest) == match last_value(
            records(pieces(rest)),
            "# branch.ab "@,
        ) {
            Some(_) => status_of(rest),
            None => StatusModel {
                ahead: signed_word(line, 0, '+'),
                behind: signed_word(line, 1, '-'),
                ..status_of(rest)
            },
        },
{
    let record = "# branch.ab "@ + line;
    reveal_strlit("# branch.upstream ");
    reveal_strlit("# branch.ab ");
    reveal_strlit("+");
    reveal_strlit("-");
    assert forall|i: int| 0 <= i < record.len() implies #[trigger] record[i] != '\0' by {
        if i >= 12 {
            assert(line.contains(line[i - 12]));
        }
    }
    pieces_prepend(record, rest);
    let all = seq![record] + pieces(rest);
    assert(all.skip(1) =~= pieces(rest));
    header_counts_nothing(record);
    summary_prepend(record, records(pieces(rest)));
    value_behind("# branch.ab "@, line);
    if begins_with(record, "# branch.upstream "@) {
        assert(record.take(18)[9] == 'a');
        assert("# branch.upstream "@[9] == 'u');
    }
    assert("+"@ =~= seq!['+']);
    assert("-"@ =~= seq!['-']);
    sign_in_front(line, 0, '+', "+"@);
    sign_in_front(line, 1, '-', "-"@);
}

/// Of two headers that tell how far a branch is away, the later one counts.
pub proof fn later_tracking_counts(first: Seq<char>, second: Seq<char>, rest: Seq<char>)
    requires
        !first.contains('\0'),
        !second.contains('\0'),
    ensures
        ({
            let later = "# branch.ab "@ + second + "\0"@ + rest;
            status_of("# branch.ab "@ + first + "\0"@ + later) == status_of(later)
        }),
{
    let record = "# branch.ab "@ + second;
    let later = record + "\0"@ + rest;
    reveal_strlit("# branch.ab ");
    assert forall|i: int| 0 <= i < record.len() implies #[trigger] record[i] != '\0' by {
        if i >= 12 {
            assert(second.contains(second[i - 12]));
        }
    }
    pieces_prepend(record, rest);
    let all = seq![record] + pieces(rest);
    assert(all.skip(1) =~= pieces(rest));
    header_counts_nothing(record);
    summary_prepend(record, records(pieces(rest)));
    value_behind("# branch.ab "@, second);
    tracking_words_are_read(first, later);
}

/// A word with a sign in front.
proof fn sign_in_front(line: Seq<char>, index: int, sign: char, text: Seq<char>)
    requires
        text == seq![sign],
        index >= 0,
    ensures
        tracking_count(line, index, text) == signed_word(line, index, sign),
{
    if index < words(line).len() {
        let word = words(line)[index];
        if word.len() > 0 {
            assert(word.take(1)[0] == word[0]);
            if word[0] == sign {
                assert(word.take(1) =~= text);
            }
        }
    }
}

/// The upstream branch is the one that its header names, unless a later header
/// names another.
pub proof fn upstream_is_read(name: Seq<char>, rest: Seq<char>)
    requires
        !name.contains('\0'),
    ensures
        status_of("# branch.upstream "@ + name + "\0"@ + rest) == (StatusModel {
            upstream: match status_of(rest).upstream {
                Some(later) => Some(later),
                None => Some(name),
            },
            ..status_of(rest)
        }),
{
    let record = "# branch.upstream "@ + name;
    reveal_strlit("# branch.upstream ");
    reveal_strlit("# branch.ab ");
    assert forall|i: int| 0 <= i < record.len() implies #[trigger] record[i] != '\0' by {
        if i >= 18 {
            assert(name.contains(name[i - 18]));
        }
    }
    pieces_prepend(record, rest);
    let all = seq![record] + pieces(rest);
    assert(all.skip(1) =~= pieces(rest));
    header_counts_nothing(record);
    summary_prepend(record, records(pieces(rest)));
    value_behind("# branch.upstream "@, name);
    if begins_with(record, "# branch.ab "@) {
        assert(record.take(12)[9] == 'u');
        assert("# branch.ab "@[9] == 'a');
    }
}

/// How far a branch is ahead of its upstream branch and behind it is what the
/// header says, where no later header says otherwise.
pub proof fn tracking_is_read(ahead: u32, behind: u32, rest: Seq<char>)
    requires
        last_value(records(pieces(rest)), "# branch.ab "@) is None,
    ensures
        status_of(
            "# branch.ab "@ + ("+"@ + decimal(ahead as nat) + " "@ + ("-"@ + decimal(
                behind as nat,
            ))) + "\0"@ + rest,
        ) == (StatusModel { ahead: Some(ahead), behind: Some(behind), ..status_of(rest) }),
{
    let plus = "+"@ + decimal(ahead as nat);
    let minus = "-"@ + decimal(behind as nat);
    let line = plus + " "@ + minus;
    let record = "# branch.ab "@ + line;
    reveal_strlit("# branch.upstream ");
    reveal_strlit("# branch.ab ");
    reveal_strlit("+");
    reveal_strlit("-");
    reveal_strlit(" ");
    decimal_reads_back(ahead);
    decimal_reads_back(behind);
    assert forall|i: int| 0 <= i < plus.len() implies !is_white(#[trigger] plus[i]) && plus[i]
        != '\0' by {
        if i > 0 {
            assert(is_digit(decimal(ahead as nat)[i - 1]));
        }
    }
    assert forall|i: int| 0 <= i < minus.len() implies !is_white(#[trigger] minus[i]) && minus[i]
        != '\0' by {
        if i > 0 {
            assert(is_digit(decimal(behind as nat)[i - 1]));
        }
    }
    two_words(plus, minus);
    value_behind("+"@, decimal(ahead as nat));
    value_behind("-"@, decimal(behind as nat));
    assert forall|i: int| 0 <= i < record.len() implies #[trigger] record[i] != '\0' by {
        if i >= 12 && i - 12 < plus.len() {
            assert(record[i] == plus[i - 12]);
        } else if i - 12 > plus.len() {
            assert(record[i] == minus[i - 13 - plus.len()]);
        }
    }
    pieces_prepend(record, rest);
    let all = seq![record] + pieces(rest);
    assert(all.skip(1) =~= pieces(rest));
    header_counts_nothing(record);
    summary_prepend(record, records(pieces(rest)));
    value_behind("# branch.ab "@, line);
    if begins_with(record, "# branch.upstream "@) {
        assert(record.take(18)[9] == 'a');
        assert("# branch.upstream "@[9] == 'u');
    }
}

/// Two words with a space between them.
proof fn two_words(first: Seq<char>, second: Seq<char>)
    requires
        first.len() > 0,
        second.len() > 0,
        forall|i: int| 0 <= i < first.len() ==> !is_white(#[trigger] first[i]),
        forall|i: int| 0 <= i < second.len() ==> !is_white(#[trigger] second[i]),
    ensures
        words(first + " "@ + second) == seq![first, second],
{
    reveal_strlit(" ");
    let none = Seq::<char>::empty();
    let text = first + " "@ + second;
    let tail = " "@ + second;
    assert(!is_white(first[0]) && !is_white(second[0]));
    assert(text =~= first + tail);
    word_ends(first, tail);
    assert(text.skip(first.len() as int) =~= tail);
    assert(tail.drop_first() =~= second);
    assert(trimmed_start(tail) == trimmed_start(second));
    assert(second =~= second + none);
    word_ends(second, none);
    assert(second.skip(second.len() as int) =~= none);
    assert(words(none) =~= Seq::<Seq<char>>::empty());
    assert(words(tail) =~= seq![second]);
    assert(words(text) =~= seq![first, second]);
}

// ── The worktree list ─────────────────────────────────────────────────────

/// Whether `row` can be a row of a worktree list.
pub open spec fn is_row(row: Seq<char>) -> bool {
    &&& row.len() > 0
    &&& !is_white(row.first())
    &&& row.last() != '\r'
    &&& !row.contains('\n')
}

/// Whether each of the `rows` can be one.
pub open spec fn are_rows(rows: Seq<Seq<char>>) -> bool {
    rows.len() > 0 && forall|i: int| 0 <= i < rows.len() ==> is_row(#[trigger] rows[i])
}

/// The rows, with a newline between each two.
pub open spec fn rows_text(rows: Seq<Seq<char>>) -> Seq<char>
    decreases rows.len(),
{
    if rows.len() <= 1 {
        rows.first()
    } else {
        rows.first() + seq!['\n'] + rows_text(rows.drop_first())
    }
}

/// A worktree list: blocks of rows, each with an empty row behind it.
pub open spec fn list_text(list: Seq<Seq<Seq<char>>>) -> Seq<char>
    decreases list.len(),
{
    if list.len() == 0 {
        Seq::empty()
    } else {
        rows_text(list.first()) + "\n\n"@ + list_text(list.drop_first())
    }
}

/// Rows do not begin or end in a newline, nor hold two in a row.
proof fn newlines_stand_alone(rows: Seq<Seq<char>>)
    requires
        are_rows(rows),
    ensures
        rows_text(rows).len() > 0,
        !is_white(rows_text(rows).first()),
        rows_text(rows).first() != '\n',
        rows_text(rows).last() != '\n',
        forall|i: int|
            0 <= i < rows_text(rows).len() - 1 && #[trigger] rows_text(rows)[i] == '\n'
                ==> rows_text(rows)[i + 1] != '\n',
    decreases rows.len(),
{
    let row = rows.first();
    let text = rows_text(rows);
    assert(is_row(rows[0]));
    assert(row[0] != '\n' && row[row.len() - 1] != '\n');
    if rows.len() > 1 {
        let rest = rows_text(rows.drop_first());
        assert(are_rows(rows.drop_first())) by {
            assert forall|i: int| 0 <= i < rows.len() - 1 implies is_row(
                #[trigger] rows.drop_first()[i],
            ) by {
                assert(is_row(rows[i + 1]));
            }
        }
        newlines_stand_alone(rows.drop_first());
        assert forall|i: int| 0 <= i < text.len() - 1 && #[trigger] text[i] == '\n' implies text[i
            + 1] != '\n' by {
            if i < row.len() {
                assert(text[i] == row[i]);
            } else if i == row.len() {
                assert(text[i + 1] == rest[0]);
            } else {
                assert(text[i] == rest[i - row.len() - 1]);
                assert(text[i + 1] == rest[i - row.len()]);
            }
        }
    } else {
        assert forall|i: int| 0 <= i < text.len() - 1 && #[trigger] text[i] == '\n' implies text[i
            + 1] != '\n' by {
            assert(row.contains(row[i]));
        }
    }
}

/// The lines of rows are the rows.
proof fn rows_read_back(rows: Seq<Seq<char>>)
    requires
        are_rows(rows),
    ensures
        lines(rows_text(rows)) == rows,
    decreases rows.len(),
{
    let row = rows.first();
    let text = rows_text(rows);
    assert(is_row(rows[0]));
    newlines_stand_alone(rows);
    if rows.len() == 1 {
        no_match(row, '\n');
        assert(lines(text) =~= rows);
    } else {
        let rest = rows_text(rows.drop_first());
        assert(are_rows(rows.drop_first())) by {
            assert forall|i: int| 0 <= i < rows.len() - 1 implies is_row(
                #[trigger] rows.drop_first()[i],
            ) by {
                assert(is_row(rows[i + 1]));
            }
        }
        rows_read_back(rows.drop_first());
        piece_ends_at_mark(row, '\n', rest);
        assert(text.take(row.len() as int) =~= row);
        assert(text.skip(row.len() as int + 1) =~= rest);
        assert(seq![row] + rows.drop_first() =~= rows);
    }
}

/// A text that does not begin in whitespace is not blank.
proof fn not_blank(text: Seq<char>)
    requires
        text.len() > 0,
        !is_white(text.first()),
    ensures
        trimmed_end(text).len() > 0,
        trimmed(text).len() > 0,
    decreases text.len(),
{
    if text.len() > 1 {
        not_blank(text.drop_last());
    }
}

/// The blocks of a worktree list are its rows.
proof fn blocks_read_back(list: Seq<Seq<Seq<char>>>)
    requires
        forall|i: int| 0 <= i < list.len() ==> are_rows(#[trigger] list[i]),
    ensures
        blocks(list_text(list)) == list.map_values(|rows: Seq<Seq<char>>| rows_text(rows)),
    decreases list.len(),
{
    reveal_strlit("\n\n");
    let text = list_text(list);
    let keep = |block: Seq<char>| trimmed(block).len() > 0;
    let texts = list.map_values(|rows: Seq<Seq<char>>| rows_text(rows));
    if list.len() == 0 {
        let none = Seq::<Seq<char>>::empty();
        assert(first_match(text, "\n\n"@) is None);
        assert(split(text, "\n\n"@) =~= seq![text] + none);
        none.lemma_filter_prepend(text, keep);
        none.lemma_filter_len(keep);
        assert(!keep(text));
        assert(blocks(text) =~= texts);
    } else {
        let piece = rows_text(list.first());
        let rest = list_text(list.drop_first());
        assert(are_rows(list[0]));
        newlines_stand_alone(list.first());
        assert forall|i: int| 0 <= i < list.len() - 1 implies are_rows(
            #[trigger] list.drop_first()[i],
        ) by {
            assert(are_rows(list[i + 1]));
        }
        blocks_read_back(list.drop_first());
        assert(text.skip(piece.len() as int).take(2) =~= "\n\n"@);
        assert forall|i: int| 0 <= i < piece.len() implies !begins_with(
            #[trigger] text.skip(i),
            "\n\n"@,
        ) by {
            if begins_with(text.skip(i), "\n\n"@) {
                assert(text.skip(i).take(2)[0] == piece[i]);
                assert(i < piece.len() - 1);
                assert(text.skip(i).take(2)[1] == piece[i + 1]);
            }
        }
        first_match_is(text, "\n\n"@, piece.len());
        assert(text.take(piece.len() as int) =~= piece);
        assert(text.skip(piece.len() as int + 2) =~= rest);
        not_blank(piece);
        split(rest, "\n\n"@).lemma_filter_prepend(piece, keep);
        assert(texts =~= seq![piece] + list.drop_first().map_values(
            |rows: Seq<Seq<char>>| rows_text(rows),
        ));
    }
}

/// A worktree as Git lists it.
pub struct Entry {
    pub path: Seq<char>,
    pub head: Seq<char>,
    /// Its branch, unless its head is detached.
    pub branch: Option<Seq<char>>,
    /// Why it is locked, if it is; the reason may be empty.
    pub lock: Option<Seq<char>>,
}

/// The row for the branch of an entry.
pub open spec fn branch_row(entry: Entry) -> Seq<char> {
    match entry.branch {
        Some(branch) => "branch refs/heads/"@ + branch,
        None => "detached"@,
    }
}

/// The row for a lock.
pub open spec fn lock_row(reason: Seq<char>) -> Seq<char> {
    if reason.len() == 0 {
        "locked"@
    } else {
        "locked "@ + reason
    }
}

/// The rows of an entry.
pub open spec fn entry_rows(entry: Entry) -> Seq<Seq<char>> {
    let rows = seq!["worktree "@ + entry.path, "HEAD "@ + entry.head, branch_row(entry)];
    match entry.lock {
        Some(reason) => rows.push(lock_row(reason)),
        None => rows,
    }
}

/// What an entry tells of its worktree.
pub open spec fn entry_worktree(entry: Entry) -> RawWorktreeModel {
    RawWorktreeModel {
        path: encode_utf8(entry.path),
        branch: entry.branch,
        locked: entry.lock is Some,
    }
}

/// Whether a value fits in a row: it holds no newline and does not end in a
/// carriage return.
pub open spec fn fits_row(value: Seq<char>) -> bool {
    !value.contains('\n') && (value.len() > 0 ==> value.last() != '\r')
}

/// Whether each value of an entry fits in its row.
pub open spec fn fits_rows(entry: Entry) -> bool {
    &&& fits_row(entry.path)
    &&& fits_row(entry.head)
    &&& entry.branch matches Some(branch) ==> fits_row(branch)
    &&& entry.lock matches Some(reason) ==> fits_row(reason)
}

/// A row that a value is put in behind a word.
proof fn row_with_value(word: Seq<char>, value: Seq<char>)
    requires
        is_row(word),
        fits_row(value),
    ensures
        is_row(word + value),
{
    let row = word + value;
    assert forall|i: int| 0 <= i < row.len() implies #[trigger] row[i] != '\n' by {
        if i < word.len() {
            assert(word.contains(word[i]));
        } else {
            assert(value.contains(value[i - word.len()]));
        }
    }
}

/// The fixed words of an entry can stand in rows.
proof fn words_are_rows()
    ensures
        is_row("worktree "@),
        is_row("HEAD "@),
        is_row("branch refs/heads/"@),
        is_row("detached"@),
        is_row("locked"@),
        is_row("locked "@),
{
    reveal_strlit("worktree ");
    reveal_strlit("HEAD ");
    reveal_strlit("branch refs/heads/");
    reveal_strlit("detached");
    reveal_strlit("locked");
    reveal_strlit("locked ");
}

/// The rows of an entry can be rows.
proof fn entry_rows_are_rows(entry: Entry)
    requires
        fits_rows(entry),
    ensures
        are_rows(entry_rows(entry)),
{
    words_are_rows();
    row_with_value("worktree "@, entry.path);
    row_with_value("HEAD "@, entry.head);
    if let Some(branch) = entry.branch {
        row_with_value("branch refs/heads/"@, branch);
    }
    if let Some(reason) = entry.lock {
        row_with_value("locked "@, reason);
    }
}

/// A row with a word in front has the value behind it.
proof fn value_behind(word: Seq<char>, value: Seq<char>)
    ensures
        after_prefix(word + value, word) == Some(value),
{
    assert((word + value).take(word.len() as int) =~= word);
    assert((word + value).skip(word.len() as int) =~= value);
}

/// Rows that begin in different characters have no prefix in common.
proof fn other_prefix(row: Seq<char>, prefix: Seq<char>)
    requires
        row.len() > 0,
        prefix.len() > 0,
        row.first() != prefix.first(),
    ensures
        after_prefix(row, prefix) is None,
        !begins_with(row, prefix),
{
    if begins_with(row, prefix) {
        assert(row.take(prefix.len() as int)[0] == row[0]);
    }
}

/// What the rows of an entry tell.
proof fn entry_tells(entry: Entry)
    requires
        fits_rows(entry),
    ensures
        last_value(entry_rows(entry), "worktree "@) == Some(entry.path),
        last_value(entry_rows(entry), "branch refs/heads/"@) == entry.branch,
        (exists|i: int| 0 <= i < entry_rows(entry).len() && is_lock(#[trigger] entry_rows(entry)[i]))
            == (entry.lock is Some),
{
    let rows = entry_rows(entry);
    let place = "worktree "@ + entry.path;
    let head = "HEAD "@ + entry.head;
    let branch = branch_row(entry);
    reveal_strlit("worktree ");
    reveal_strlit("HEAD ");
    reveal_strlit("branch refs/heads/");
    reveal_strlit("detached");
    reveal_strlit("locked");
    reveal_strlit("locked ");
    assert(place.first() == 'w' && head.first() == 'H');
    assert(branch.first() == 'b' || branch.first() == 'd');
    value_behind("worktree "@, entry.path);
    other_prefix(head, "worktree "@);
    other_prefix(branch, "worktree "@);
    other_prefix(place, "branch refs/heads/"@);
    other_prefix(head, "branch refs/heads/"@);
    other_prefix(place, "locked "@);
    other_prefix(head, "locked "@);
    other_prefix(branch, "locked "@);
    match entry.branch {
        Some(name) => value_behind("branch refs/heads/"@, name),
        None => other_prefix(branch, "branch refs/heads/"@),
    }
    let first = Seq::<Seq<char>>::empty().push(place);
    let second = first.push(head);
    let third = second.push(branch);
    assert(seq![place, head, branch] =~= third);
    assert(third.drop_last() =~= second);
    assert(second.drop_last() =~= first);
    assert(first.drop_last() =~= Seq::<Seq<char>>::empty());
    reveal_with_fuel(last_value, 5);
    if let Some(reason) = entry.lock {
        let lock = lock_row(reason);
        assert(lock.first() == 'l');
        other_prefix(lock, "worktree "@);
        other_prefix(lock, "branch refs/heads/"@);
        assert(rows =~= third.push(lock));
        assert(rows.drop_last() =~= third);
        if reason.len() > 0 {
            value_behind("locked "@, reason);
        }
        assert(is_lock(rows[3]));
    } else {
        assert(rows =~= third);
        assert(!is_lock(rows[0]) && !is_lock(rows[1]) && !is_lock(rows[2]));
    }
}

/// A worktree list reads back: each entry, in its order, gives the worktree that
/// it was written for.
pub proof fn worktree_list_reads_back(entries: Seq<Entry>)
    requires
        forall|i: int| 0 <= i < entries.len() ==> fits_rows(#[trigger] entries[i]),
    ensures
        listed_worktrees(list_text(entries.map_values(|entry: Entry| entry_rows(entry)))) == Ok::<
            Seq<RawWorktreeModel>,
            Seq<char>,
        >(entries.map_values(|entry: Entry| entry_worktree(entry))),
{
    let list = entries.map_values(|entry: Entry| entry_rows(entry));
    assert forall|i: int| 0 <= i < list.len() implies are_rows(#[trigger] list[i]) by {
        entry_rows_are_rows(entries[i]);
    }
    blocks_read_back(list);
    let found = blocks(list_text(list));
    assert forall|i: int| 0 <= i < found.len() implies block_path(#[trigger] found[i]) is Some
        && block_worktree(found[i]) == entry_worktree(entries[i]) by {
        assert(are_rows(list[i]));
        rows_read_back(list[i]);
        entry_tells(entries[i]);
    }
    assert(found.map_values(|block: Seq<char>| block_worktree(block)) =~= entries.map_values(
        |entry: Entry| entry_worktree(entry),
    ));
}

// ── Rows ──────────────────────────────────────────────────────────────────

/// What one more row tells of a worktree.
pub open spec fn with_row(worktree: RawWorktreeModel, row: Seq<char>) -> RawWorktreeModel {
    RawWorktreeModel {
        path: match after_prefix(row, "worktree "@) {
            Some(path) => encode_utf8(path),
            None => worktree.path,
        },
        branch: match after_prefix(row, "branch refs/heads/"@) {
            Some(branch) => Some(branch),
            None => worktree.branch,
        },
        locked: worktree.locked || row == "locked"@ || begins_with(row, "locked "@),
    }
}

/// The rows of a block are read one by one. The first that gives a path makes a
/// worktree, on no branch and not locked; each further one changes only what it
/// tells.
pub proof fn rows_are_read_in_turn(rows: Seq<Seq<char>>, row: Seq<char>, path: Seq<char>)
    requires
        is_row(row),
    ensures
        fits_row(path) ==> listed_worktrees(list_text(seq![seq!["worktree "@ + path]])) == Ok::<
            Seq<RawWorktreeModel>,
            Seq<char>,
        >(seq![RawWorktreeModel { path: encode_utf8(path), branch: None, locked: false }]),
        are_rows(rows) ==> (listed_worktrees(list_text(seq![rows])) matches Ok(one) ==> {
            &&& one.len() == 1
            &&& listed_worktrees(list_text(seq![rows.push(row)])) == Ok::<
                Seq<RawWorktreeModel>,
                Seq<char>,
            >(seq![with_row(one[0], row)])
        }),
        are_rows(rows) && (forall|i: int|
            0 <= i < rows.len() ==> !begins_with(#[trigger] rows[i], "worktree "@))
            ==> listed_worktrees(list_text(seq![rows])) == Err::<
            Seq<RawWorktreeModel>,
            Seq<char>,
        >("Git returned a worktree entry without a path"@),
{
    if fits_row(path) {
        let first = "worktree "@ + path;
        let none = Seq::<Seq<char>>::empty();
        words_are_rows();
        row_with_value("worktree "@, path);
        assert(are_rows(seq![first]));
        one_block(seq![first]);
        reveal_strlit("worktree ");
        reveal_strlit("branch refs/heads/");
        reveal_strlit("locked");
        reveal_strlit("locked ");
        value_behind("worktree "@, path);
        assert(first.first() == 'w');
        other_prefix(first, "branch refs/heads/"@);
        other_prefix(first, "locked "@);
        assert("locked"@[0] == 'l');
        last_value_prepend(first, none, "worktree "@);
        last_value_prepend(first, none, "branch refs/heads/"@);
        assert(seq![first] + none =~= seq![first]);
        assert(!is_lock(first));
        assert(forall|i: int| 0 <= i < seq![first].len() ==> !is_lock(#[trigger] seq![first][i]));
    }
    if are_rows(rows) {
        let more = rows.push(row);
        one_block(rows);
        assert forall|i: int| 0 <= i < more.len() implies is_row(#[trigger] more[i]) by {
            if i < rows.len() {
                assert(is_row(rows[i]));
            }
        }
        one_block(more);
        assert(more.drop_last() =~= rows);
        assert(more.last() == row);
        if exists|i: int| 0 <= i < rows.len() && is_lock(#[trigger] rows[i]) {
            let i = choose|i: int| 0 <= i < rows.len() && is_lock(#[trigger] rows[i]);
            assert(is_lock(more[i]));
        }
        if is_lock(row) {
            assert(is_lock(more[rows.len() as int]));
        } else if exists|i: int| 0 <= i < more.len() && is_lock(#[trigger] more[i]) {
            let i = choose|i: int| 0 <= i < more.len() && is_lock(#[trigger] more[i]);
            assert(is_lock(rows[i]));
        }
        if forall|i: int|
            0 <= i < rows.len() ==> !begins_with(#[trigger] rows[i], "worktree "@) {
            no_last_value(rows, "worktree "@);
        }
    }
}

/// Where no record begins with a prefix, nothing follows it.
proof fn no_last_value(records: Seq<Seq<char>>, prefix: Seq<char>)
    requires
        forall|i: int| 0 <= i < records.len() ==> !begins_with(#[trigger] records[i], prefix),
    ensures
        last_value(records, prefix) is None,
    decreases records.len(),
{
    if records.len() > 0 {
        assert(!begins_with(records[records.len() - 1], prefix));
        assert forall|i: int| 0 <= i < records.len() - 1 implies !begins_with(
            #[trigger] records.drop_last()[i],
            prefix,
        ) by {
            assert(!begins_with(records[i], prefix));
        }
        no_last_value(records.drop_last(), prefix);
    }
}

/// A list of one block.
proof fn one_block(rows: Seq<Seq<char>>)
    requires
        are_rows(rows),
    ensures
        listed_worktrees(list_text(seq![rows])) == match last_value(rows, "worktree "@) {
            Some(path) => Ok(
                seq![
                    RawWorktreeModel {
                        path: encode_utf8(path),
                        branch: last_value(rows, "branch refs/heads/"@),
                        locked: exists|i: int|
                            0 <= i < rows.len() && is_lock(#[trigger] rows[i]),
                    },
                ],
            ),
            None => Err("Git returned a worktree entry without a path"@),
        },
{
    let list = seq![rows];
    blocks_read_back(list);
    rows_read_back(rows);
    let found = blocks(list_text(list));
    assert(found =~= seq![rows_text(rows)]);
    if last_value(rows, "worktree "@) is Some {
        assert(found.map_values(|block: Seq<char>| block_worktree(block)) =~= seq![
            block_worktree(rows_text(rows)),
        ]);
    } else {
        assert(block_path(found[0]) is None);
    }
}

// ── Lists one after the other ─────────────────────────────────────────────

/// The worktree that a block describes, unless it gives no path.
pub open spec fn told(block: Seq<char>) -> Option<RawWorktreeModel> {
    match block_path(block) {
        Some(_) => Some(block_worktree(block)),
        None => None,
    }
}

/// What the blocks of a list tell.
spec fn all_told(output: Seq<char>) -> Seq<Option<RawWorktreeModel>> {
    blocks(output).map_values(|block: Seq<char>| told(block))
}

/// What a block by itself tells, unless it is blank.
spec fn block_told(block: Seq<char>) -> Seq<Option<RawWorktreeModel>> {
    if trimmed(block).len() > 0 {
        seq![told(block)]
    } else {
        Seq::empty()
    }
}

/// What a list tells, first block first.
proof fn told_in_turn(output: Seq<char>)
    ensures
        all_told(output) == match first_match(output, "\n\n"@) {
            Some(at) => block_told(output.take(at as int)) + all_told(output.skip(at as int + 2)),
            None => block_told(output),
        },
{
    reveal_strlit("\n\n");
    let none = Seq::<Seq<char>>::empty();
    let keep = |block: Seq<char>| trimmed(block).len() > 0;
    match first_match(output, "\n\n"@) {
        Some(at) => {
            split(output.skip(at as int + 2), "\n\n"@).lemma_filter_prepend(
                output.take(at as int),
                keep,
            );
            assert(all_told(output) =~= block_told(output.take(at as int)) + all_told(
                output.skip(at as int + 2),
            ));
        },
        None => {
            assert(split(output, "\n\n"@) =~= seq![output] + none);
            none.lemma_filter_prepend(output, keep);
            none.lemma_filter_len(keep);
            assert(all_told(output) =~= block_told(output));
        },
    }
}

/// A newline before a block changes nothing.
proof fn newline_before_block(block: Seq<char>)
    ensures
        block_told(seq!['\n'] + block) == block_told(block),
{
    let longer = seq!['\n'] + block;
    let none = Seq::<char>::empty();
    assert(longer.drop_first() =~= block);
    assert(trimmed(longer) == trimmed(block));
    piece_ends_at_mark(none, '\n', block);
    assert(none + seq!['\n'] + block =~= longer);
    assert(longer.take(0) =~= none);
    assert(longer.skip(1) =~= block);
    assert(lines(longer) =~= seq![none] + lines(block));
    reveal_strlit("worktree ");
    reveal_strlit("branch refs/heads/");
    reveal_strlit("locked");
    reveal_strlit("locked ");
    last_value_prepend(none, lines(block), "worktree "@);
    last_value_prepend(none, lines(block), "branch refs/heads/"@);
    assert("locked"@.len() == 6);
    assert(!is_lock(none));
    locks_behind(none, lines(block));
}

/// A row that is no lock changes nothing about whether there is one.
proof fn locks_behind(row: Seq<char>, rows: Seq<Seq<char>>)
    requires
        !is_lock(row),
    ensures
        (exists|i: int| 0 <= i < (seq![row] + rows).len() && is_lock(#[trigger] (seq![row] + rows)[i]))
            == (exists|i: int| 0 <= i < rows.len() && is_lock(#[trigger] rows[i])),
{
    let all = seq![row] + rows;
    if exists|i: int| 0 <= i < all.len() && is_lock(#[trigger] all[i]) {
        let i = choose|i: int| 0 <= i < all.len() && is_lock(#[trigger] all[i]);
        assert(rows[i - 1] == all[i]);
    }
    if exists|i: int| 0 <= i < rows.len() && is_lock(#[trigger] rows[i]) {
        let i = choose|i: int| 0 <= i < rows.len() && is_lock(#[trigger] rows[i]);
        assert(all[i + 1] == rows[i]);
    }
}

/// A newline before a list changes nothing.
proof fn newline_before_list(list: Seq<char>)
    ensures
        all_told(seq!['\n'] + list) == all_told(list),
    decreases list.len(),
{
    reveal_strlit("\n\n");
    let longer = seq!['\n'] + list;
    told_in_turn(longer);
    told_in_turn(list);
    assert(longer.drop_first() =~= list);
    if list.len() > 0 && list.first() == '\n' {
        let rest = list.drop_first();
        assert(longer.take(2) =~= "\n\n"@);
        assert(first_match(longer, "\n\n"@) == Some(0nat));
        assert(longer.take(0) =~= Seq::<char>::empty());
        assert(longer.skip(2) =~= rest);
        assert(all_told(longer) =~= all_told(rest));
        assert(list =~= seq!['\n'] + rest);
        newline_before_list(rest);
    } else {
        if begins_with(longer, "\n\n"@) {
            assert(longer.take(2)[1] == list[0]);
        }
        match first_match(list, "\n\n"@) {
            Some(at) => {
                first_match_fits(list, "\n\n"@);
                newline_before_block(list.take(at as int));
                assert(longer.take(at as int + 1) =~= seq!['\n'] + list.take(at as int));
                assert(longer.skip(at as int + 3) =~= list.skip(at as int + 2));
            },
            None => newline_before_block(list),
        }
    }
}

/// Whitespace behind a text makes no blank text of one that is not, nor the other
/// way round.
proof fn newline_behind_is_blank(text: Seq<char>)
    ensures
        trimmed(text + seq!['\n']).len() > 0 <==> trimmed(text).len() > 0,
    decreases text.len(),
{
    let longer = text + seq!['\n'];
    if text.len() == 0 {
        assert(longer.drop_first() =~= text);
    } else if is_white(text.first()) {
        assert(longer.drop_first() =~= text.drop_first() + seq!['\n']);
        newline_behind_is_blank(text.drop_first());
    } else {
        not_blank(text);
        not_blank(longer);
    }
}

/// A newline behind a block that does not end in one, nor in a carriage return,
/// changes nothing.
proof fn newline_behind_block(block: Seq<char>)
    requires
        block.len() > 0 ==> block.last() != '\n' && block.last() != '\r',
    ensures
        block_told(block + seq!['\n']) == block_told(block),
{
    newline_behind_is_blank(block);
    if block.len() > 0 {
        newline_behind_lines(block);
    }
}

/// A newline behind a last line that does not end in one, nor in a carriage return,
/// makes no other lines.
proof fn newline_behind_lines(text: Seq<char>)
    requires
        text.len() > 0,
        text.last() != '\n',
        text.last() != '\r',
    ensures
        lines(text + seq!['\n']) == lines(text),
    decreases text.len(),
{
    let longer = text + seq!['\n'];
    let none = Seq::<char>::empty();
    match first_match(text, seq!['\n']) {
        Some(at) => {
            first_match_fits(text, seq!['\n']);
            match_in_front(text, seq!['\n'], seq!['\n']);
            match_is_there(text, seq!['\n']);
            let rest = text.skip(at as int + 1);
            assert(text[at as int] == text.skip(at as int).take(1)[0]);
            assert(rest.last() == text.last());
            newline_behind_lines(rest);
            assert(longer.take(at as int) =~= text.take(at as int));
            assert(longer.skip(at as int + 1) =~= rest + seq!['\n']);
        },
        None => {
            no_match_no_mark(text, '\n');
            piece_ends_at_mark(text, '\n', none);
            assert(text + seq!['\n'] + none =~= longer);
            assert(longer.take(text.len() as int) =~= text);
            assert(longer.skip(text.len() as int + 1) =~= none);
            assert(lines(none) =~= Seq::<Seq<char>>::empty());
            assert(lines(longer) =~= seq![text]);
        },
    }
}

/// Where two newlines stand behind a text that holds no two, they are found there,
/// or one place before if the text ends in one.
proof fn match_behind(text: Seq<char>, more: Seq<char>)
    requires
        first_match(text, "\n\n"@) is None,
    ensures
        first_match(text + "\n\n"@ + more, "\n\n"@) == if text.len() > 0 && text.last() == '\n' {
            Some((text.len() - 1) as nat)
        } else {
            Some(text.len())
        },
    decreases text.len(),
{
    reveal_strlit("\n\n");
    let longer = text + "\n\n"@ + more;
    if text.len() == 0 {
        assert(longer.take(2) =~= "\n\n"@);
    } else if text.len() == 1 && text.last() == '\n' {
        assert(longer.take(2) =~= "\n\n"@);
    } else {
        let rest = text.drop_first();
        assert(longer.drop_first() =~= rest + "\n\n"@ + more);
        if begins_with(longer, "\n\n"@) {
            assert(longer.take(2)[0] == text[0] && longer.take(2)[1] == longer[1]);
            if text.len() > 1 {
                assert(text.take(2) =~= "\n\n"@);
            }
        }
        match_behind(rest, more);
        if rest.len() > 0 {
            assert(rest.last() == text.last());
        }
    }
}

/// What two lists with an empty row between them tell.
proof fn told_one_after_the_other(first: Seq<char>, second: Seq<char>)
    requires
        !ends_in_return(first),
    ensures
        all_told(first + "\n\n"@ + second) == all_told(first) + all_told(second),
    decreases first.len(),
{
    reveal_strlit("\n\n");
    let whole = first + "\n\n"@ + second;
    told_in_turn(whole);
    told_in_turn(first);
    match first_match(first, "\n\n"@) {
        Some(at) => {
            first_match_fits(first, "\n\n"@);
            match_in_front(first, "\n\n"@ + second, "\n\n"@);
            assert(whole =~= first + ("\n\n"@ + second));
            let rest = first.skip(at as int + 2);
            assert(whole.take(at as int) =~= first.take(at as int));
            assert(whole.skip(at as int + 2) =~= rest + "\n\n"@ + second);
            told_one_after_the_other(rest, second);
            assert(all_told(whole) =~= all_told(first) + all_told(second));
        },
        None => {
            match_behind(first, second);
            if first.len() > 0 && first.last() == '\n' {
                let front = first.drop_last();
                assert(front + seq!['\n'] =~= first);
                if front.len() > 0 && front.last() == '\n' {
                    assert(first.skip(first.len() - 2).take(2) =~= "\n\n"@);
                    some_match(first, "\n\n"@, first.len() - 2);
                }
                newline_behind_block(front);
                newline_before_list(second);
                assert(whole.take(first.len() - 1) =~= front);
                assert(whole.skip(first.len() as int + 1) =~= seq!['\n'] + second);
            } else {
                assert(whole.take(first.len() as int) =~= first);
                assert(whole.skip(first.len() as int + 2) =~= second);
            }
        },
    }
}

/// A list is read just where each of its blocks tells of a worktree.
proof fn listed_is_told(output: Seq<char>)
    ensures
        match listed_worktrees(output) {
            Ok(worktrees) => all_told(output).len() == worktrees.len() && forall|i: int|
                0 <= i < worktrees.len() ==> #[trigger] all_told(output)[i] == Some(worktrees[i]),
            Err(error) => error == "Git returned a worktree entry without a path"@ && exists|i: int|
                0 <= i < all_told(output).len() && #[trigger] all_told(output)[i] is None,
        },
{
    match listed_worktrees(output) {
        Ok(worktrees) => {
            assert forall|i: int| 0 <= i < blocks(output).len() implies #[trigger] all_told(
                output,
            )[i] == Some(worktrees[i]) by {
                assert(block_path(blocks(output)[i]) is Some);
            }
        },
        Err(_) => {
            let i = choose|i: int|
                0 <= i < blocks(output).len() && block_path(#[trigger] blocks(output)[i]) is None;
            assert(all_told(output)[i] is None);
        },
    }
}

/// Whether a text ends in a carriage return and a newline.
pub open spec fn ends_in_return(text: Seq<char>) -> bool {
    text.len() >= 2 && text[text.len() - 1] == '\n' && text[text.len() - 2] == '\r'
}

/// Two worktree lists with an empty row between them read as the one followed by the
/// other, and fail just where one of them does. Only a first list that ends in a
/// carriage return and a newline may read otherwise.
pub proof fn lists_read_one_after_the_other(first: Seq<char>, second: Seq<char>)
    requires
        !ends_in_return(first),
    ensures
        listed_worktrees(first + "\n\n"@ + second) == match (
            listed_worktrees(first),
            listed_worktrees(second),
        ) {
            (Ok(earlier), Ok(later)) => Ok(earlier + later),
            (Err(error), _) => Err(error),
            (_, Err(error)) => Err(error),
        },
{
    let whole = first + "\n\n"@ + second;
    told_one_after_the_other(first, second);
    listed_is_told(first);
    listed_is_told(second);
    listed_is_told(whole);
    let all = all_told(whole);
    match (listed_worktrees(first), listed_worktrees(second)) {
        (Ok(earlier), Ok(later)) => {
            assert forall|i: int| 0 <= i < all.len() implies #[trigger] all[i] == Some(
                (earlier + later)[i],
            ) by {
                if i >= earlier.len() {
                    assert(all[i] == all_told(second)[i - earlier.len()]);
                }
            }
            if let Ok(worktrees) = listed_worktrees(whole) {
                assert forall|i: int| 0 <= i < all.len() implies #[trigger] worktrees[i] == (earlier
                    + later)[i] by {
                    assert(all[i] == Some(worktrees[i]));
                }
                assert(worktrees =~= earlier + later);
            }
        },
        (Err(_), _) => {
            let i = choose|i: int|
                0 <= i < all_told(first).len() && #[trigger] all_told(first)[i] is None;
            assert(all[i] is None);
        },
        (_, Err(_)) => {
            let i = choose|i: int|
                0 <= i < all_told(second).len() && #[trigger] all_told(second)[i] is None;
            assert(all[all_told(first).len() + i] is None);
        },
    }
}

/// A blank text of nothing but whitespace.
proof fn blank_is_white(text: Seq<char>)
    ensures
        trimmed(text).len() == 0 <==> forall|i: int|
            0 <= i < text.len() ==> is_white(#[trigger] text[i]),
    decreases text.len(),
{
    if text.len() > 0 {
        if is_white(text.first()) {
            let rest = text.drop_first();
            blank_is_white(rest);
            assert(trimmed(text) == trimmed(rest));
            if forall|i: int| 0 <= i < rest.len() ==> is_white(#[trigger] rest[i]) {
                assert forall|i: int| 0 <= i < text.len() implies is_white(#[trigger] text[i]) by {
                    if i > 0 {
                        assert(is_white(rest[i - 1]));
                    }
                }
            } else {
                let i = choose|i: int| 0 <= i < rest.len() && !is_white(#[trigger] rest[i]);
                assert(!is_white(text[i + 1]));
            }
        } else {
            not_blank(text);
            assert(!is_white(text[0]));
        }
    }
}

/// A blank worktree list is empty.
pub proof fn blank_list_is_empty(text: Seq<char>)
    requires
        trimmed(text).len() == 0,
    ensures
        listed_worktrees(text) == Ok::<Seq<RawWorktreeModel>, Seq<char>>(Seq::empty()),
{
    blank_tells_nothing(text);
    listed_is_told(text);
    if let Ok(worktrees) = listed_worktrees(text) {
        assert(all_told(text).len() == worktrees.len());
        assert(worktrees =~= Seq::empty());
    }
}

/// A blank worktree list tells nothing.
proof fn blank_tells_nothing(text: Seq<char>)
    requires
        trimmed(text).len() == 0,
    ensures
        all_told(text).len() == 0,
    decreases text.len(),
{
    reveal_strlit("\n\n");
    told_in_turn(text);
    blank_is_white(text);
    if let Some(at) = first_match(text, "\n\n"@) {
        first_match_fits(text, "\n\n"@);
        let piece = text.take(at as int);
        let rest = text.skip(at as int + 2);
        assert forall|i: int| 0 <= i < piece.len() implies is_white(#[trigger] piece[i]) by {
            assert(is_white(text[i]));
        }
        assert forall|i: int| 0 <= i < rest.len() implies is_white(#[trigger] rest[i]) by {
            assert(is_white(text[i + at as int + 2]));
        }
        blank_is_white(piece);
        blank_is_white(rest);
        blank_tells_nothing(rest);
    }
}

} // verus!
