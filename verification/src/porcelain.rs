//! What Git's porcelain formats say about worktrees and their state.
use vstd::prelude::*;
use vstd::utf8::encode_utf8;

use crate::lines::{lines, lines_of, split, split_at, words, words_of};
use crate::number::{parse_u32, parsed_u32};
use crate::path::FilePath;
use crate::text::{after_prefix, begins_with, chars_of, starts_with, strip_prefix, text_of, trim_chars, trimmed};
use crate::views::{filter_keeps, filter_step, list_result_view, option_view, views, views_push};

verus! {

// ── The worktree list ─────────────────────────────────────────────────────

/// One entry of `git worktree list --porcelain`.
#[derive(Debug)]
pub struct RawWorktree {
    pub path: FilePath,
    pub branch: Option<String>,
    pub locked: bool,
}

/// What a `RawWorktree` holds.
pub struct RawWorktreeModel {
    pub path: Seq<u8>,
    pub branch: Option<Seq<char>>,
    pub locked: bool,
}

impl View for RawWorktree {
    type V = RawWorktreeModel;

    open spec fn view(&self) -> RawWorktreeModel {
        RawWorktreeModel {
            path: self.path@,
            branch: option_view(self.branch),
            locked: self.locked,
        }
    }
}

/// What follows `prefix` in the last of the `records` that begin with it.
pub open spec fn last_value(records: Seq<Seq<char>>, prefix: Seq<char>) -> Option<Seq<char>>
    decreases records.len(),
{
    if records.len() == 0 {
        None
    } else {
        match after_prefix(records.last(), prefix) {
            Some(value) => Some(value),
            None => last_value(records.drop_last(), prefix),
        }
    }
}

/// Whether a line marks its worktree as locked, with or without a reason.
pub open spec fn is_lock(line: Seq<char>) -> bool {
    line == "locked"@ || begins_with(line, "locked "@)
}

/// The blocks of a worktree list, one per worktree, without the blank ones.
pub open spec fn blocks(output: Seq<char>) -> Seq<Seq<char>> {
    split(output, "\n\n"@).filter(|block: Seq<char>| trimmed(block).len() > 0)
}

/// The path that a block gives its worktree.
pub open spec fn block_path(block: Seq<char>) -> Option<Seq<char>> {
    last_value(lines(block), "worktree "@)
}

/// The worktree that a block with a path describes.
pub open spec fn block_worktree(block: Seq<char>) -> RawWorktreeModel {
    RawWorktreeModel {
        path: encode_utf8(block_path(block)->0),
        branch: last_value(lines(block), "branch refs/heads/"@),
        locked: exists|i: int| 0 <= i < lines(block).len() && is_lock(#[trigger] lines(block)[i]),
    }
}

/// Whether each block gives its worktree a path.
pub open spec fn all_have_paths(blocks: Seq<Seq<char>>) -> bool {
    forall|i: int| 0 <= i < blocks.len() ==> block_path(#[trigger] blocks[i]) is Some
}

/// The worktrees that `output` lists, unless a block gives no path.
pub open spec fn listed_worktrees(output: Seq<char>) -> Result<
    Seq<RawWorktreeModel>,
    Seq<char>,
> {
    if all_have_paths(blocks(output)) {
        Ok(blocks(output).map_values(|block: Seq<char>| block_worktree(block)))
    } else {
        Err("Git returned a worktree entry without a path"@)
    }
}

/// The three beginnings of a line that matter exclude each other.
proof fn line_kinds(line: Seq<char>)
    ensures
        begins_with(line, "worktree "@) ==> !begins_with(line, "branch refs/heads/"@) && !is_lock(
            line,
        ),
        begins_with(line, "branch refs/heads/"@) ==> !is_lock(line),
{
    reveal_strlit("worktree ");
    reveal_strlit("branch refs/heads/");
    reveal_strlit("locked");
    reveal_strlit("locked ");
    if begins_with(line, "worktree "@) {
        assert(line.take("worktree "@.len() as int)[0] == 'w');
    }
    if begins_with(line, "branch refs/heads/"@) {
        assert(line.take("branch refs/heads/"@.len() as int)[0] == 'b');
    }
    if begins_with(line, "locked "@) {
        assert(line.take("locked "@.len() as int)[0] == 'l');
    }
}

/// The worktree that a block describes, unless it gives no path.
fn parse_block(block: &[char]) -> (worktree: Option<RawWorktree>)
    ensures
        option_view(worktree) == match block_path(block@) {
            Some(_) => Some(block_worktree(block@)),
            None => None,
        },
{
    let all = lines_of(block);
    let mut path: Option<FilePath> = None;
    let mut branch: Option<String> = None;
    let mut locked = false;
    let lock_word = chars_of("locked");
    let lock_start = chars_of("locked ");
    let ghost rows = lines(block@);
    for i in 0..all.len()
        invariant
            views(all@) == rows,
            lock_word@ == "locked"@,
            lock_start@ == "locked "@,
            option_view(path) == match last_value(rows.take(i as int), "worktree "@) {
                Some(value) => Some(encode_utf8(value)),
                None => None,
            },
            option_view(branch) == last_value(rows.take(i as int), "branch refs/heads/"@),
            locked <==> exists|j: int| 0 <= j < i && is_lock(#[trigger] rows[j]),
    {
        let line = all[i];
        assert(views(all@)[i as int] == line@);
        assert(rows.take(i + 1).drop_last() == rows.take(i as int));
        assert(rows.take(i + 1).last() == line@);
        proof {
            line_kinds(line@);
        }
        if let Some(value) = strip_prefix(line, "worktree ") {
            path = Some(FilePath::from_text(text_of(value).as_str()));
        } else if let Some(value) = strip_prefix(line, "branch refs/heads/") {
            branch = Some(text_of(value));
        } else if (line.len() == lock_word.len() && starts_with(line, lock_word.as_slice()))
            || starts_with(line, lock_start.as_slice()) {
            assert(is_lock(rows[i as int])) by {
                if line@.len() == "locked"@.len() {
                    assert(line@.take(line@.len() as int) == line@);
                }
            }
            locked = true;
        } else {
            assert(!is_lock(line@)) by {
                assert(line@.take(line@.len() as int) == line@);
            }
        }
    }
    assert(rows.take(rows.len() as int) == rows);
    match path {
        Some(path) => Some(RawWorktree { path, branch, locked }),
        None => None,
    }
}

/// The worktrees that `git worktree list --porcelain` printed.
pub fn parse_worktree_list(output: &str) -> (worktrees: Result<Vec<RawWorktree>, String>)
    ensures
        list_result_view(worktrees) == listed_worktrees(output@),
{
    proof {
        reveal_strlit("\n\n");
    }
    let chars = chars_of(output);
    let pieces = split_at(chars.as_slice(), "\n\n");
    let mut worktrees: Vec<RawWorktree> = Vec::new();
    let ghost keep = |block: Seq<char>| trimmed(block).len() > 0;
    let ghost make = |block: Seq<char>| block_worktree(block);
    let ghost all = split(output@, "\n\n"@);
    let ghost mut kept: Seq<Seq<char>> = Seq::empty();
    proof {
        reveal(Seq::filter);
    }
    for i in 0..pieces.len()
        invariant
            views(pieces@) == all,
            all == split(output@, "\n\n"@),
            keep == (|block: Seq<char>| trimmed(block).len() > 0),
            make == (|block: Seq<char>| block_worktree(block)),
            kept == all.take(i as int).filter(keep),
            all_have_paths(kept),
            views(worktrees@) == kept.map_values(make),
    {
        let block = pieces[i];
        assert(views(pieces@)[i as int] == block@);
        let ghost kept_before = kept;
        proof {
            filter_step(all, keep, i as int);
        }
        if trim_chars(block).len() > 0 {
            match parse_block(block) {
                Some(worktree) => {
                    proof {
                        views_push(worktrees@, worktree);
                        kept = kept.push(block@);
                    }
                    worktrees.push(worktree);
                    assert(kept.map_values(make) == kept_before.map_values(make).push(make(block@)));
                },
                None => {
                    proof {
                        filter_keeps(all, keep, i as int);
                        let at = choose|at: int|
                            0 <= at < blocks(output@).len() && blocks(output@)[at] == block@;
                        assert(block_path(blocks(output@)[at]) is None);
                    }
                    return Err("Git returned a worktree entry without a path".to_owned());
                },
            }
        }
    }
    assert(all.take(all.len() as int) == all);
    Ok(worktrees)
}

// ── The status of a worktree ──────────────────────────────────────────────

/// What `git status` says of a worktree.
#[derive(Debug)]
pub struct StatusSummary {
    pub dirty_files: usize,
    pub ignored_files: usize,
    pub upstream: Option<String>,
    pub ahead: Option<u32>,
    pub behind: Option<u32>,
}

/// What a `StatusSummary` holds.
pub struct StatusModel {
    pub dirty_files: nat,
    pub ignored_files: nat,
    pub upstream: Option<Seq<char>>,
    pub ahead: Option<u32>,
    pub behind: Option<u32>,
}

impl View for StatusSummary {
    type V = StatusModel;

    open spec fn view(&self) -> StatusModel {
        StatusModel {
            dirty_files: self.dirty_files as nat,
            ignored_files: self.ignored_files as nat,
            upstream: option_view(self.upstream),
            ahead: self.ahead,
            behind: self.behind,
        }
    }
}

/// Whether a record tells of a rename or a copy, and so is followed by the source path.
pub open spec fn is_rename(record: Seq<char>) -> bool {
    begins_with(record, "2 "@)
}

/// Whether a record tells of a change: a rename, a change in place, an unmerged
/// file or an untracked one.
pub open spec fn is_dirty(record: Seq<char>) -> bool {
    is_rename(record) || (record.len() > 0 && (record.first() == '1' || record.first() == 'u'
        || record.first() == '?'))
}

/// Whether a record tells of an ignored file.
pub open spec fn is_ignored(record: Seq<char>) -> bool {
    begins_with(record, "! "@)
}

/// The pieces of `output` between its NUL characters, without the empty ones.
pub open spec fn pieces(output: Seq<char>) -> Seq<Seq<char>> {
    split(output, "\0"@).filter(|piece: Seq<char>| piece.len() > 0)
}

/// The pieces that are records: those that no rename takes as its source path.
pub open spec fn records(pieces: Seq<Seq<char>>) -> Seq<Seq<char>>
    decreases pieces.len(),
{
    if pieces.len() == 0 {
        Seq::empty()
    } else {
        let taken: int = if is_rename(pieces.first()) && pieces.len() > 1 {
            2
        } else {
            1
        };
        seq![pieces.first()] + records(pieces.skip(taken))
    }
}

/// How many of the `records` satisfy `kind`.
pub open spec fn count(records: Seq<Seq<char>>, kind: spec_fn(Seq<char>) -> bool) -> nat {
    records.filter(kind).len()
}

/// The number that the word at `index` of a tracking line gives behind `sign`.
pub open spec fn tracking_count(line: Seq<char>, index: int, sign: Seq<char>) -> Option<u32> {
    if index < words(line).len() {
        match after_prefix(words(line)[index], sign) {
            Some(number) => parsed_u32(number),
            None => None,
        }
    } else {
        None
    }
}

/// The summary that the `records` of a status add up to.
pub open spec fn summary(records: Seq<Seq<char>>) -> StatusModel {
    let tracking = last_value(records, "# branch.ab "@);
    StatusModel {
        dirty_files: count(records, |record: Seq<char>| is_dirty(record)),
        ignored_files: count(records, |record: Seq<char>| is_ignored(record)),
        upstream: last_value(records, "# branch.upstream "@),
        ahead: match tracking {
            Some(line) => tracking_count(line, 0, "+"@),
            None => None,
        },
        behind: match tracking {
            Some(line) => tracking_count(line, 1, "-"@),
            None => None,
        },
    }
}

/// The summary of what `git status --porcelain=v2 --branch --ignored -z` printed.
pub open spec fn status_of(output: Seq<char>) -> StatusModel {
    summary(records(pieces(output)))
}

/// The kinds of record that matter exclude each other.
proof fn record_kinds(record: Seq<char>)
    ensures
        begins_with(record, "# branch.upstream "@) ==> !begins_with(record, "# branch.ab "@)
            && !is_dirty(record) && !is_ignored(record),
        begins_with(record, "# branch.ab "@) ==> !is_dirty(record) && !is_ignored(record),
        is_dirty(record) ==> !is_ignored(record),
{
    reveal_strlit("# branch.upstream ");
    reveal_strlit("# branch.ab ");
    reveal_strlit("2 ");
    reveal_strlit("! ");
    if begins_with(record, "# branch.upstream "@) {
        assert(record.take("# branch.upstream "@.len() as int)[9] == 'u');
        assert(record.take("# branch.upstream "@.len() as int)[0] == '#');
    }
    if begins_with(record, "# branch.ab "@) {
        assert(record.take("# branch.ab "@.len() as int)[9] == 'a');
        assert(record.take("# branch.ab "@.len() as int)[0] == '#');
    }
    if begins_with(record, "2 "@) {
        assert(record.take("2 "@.len() as int)[0] == '2');
    }
    if begins_with(record, "! "@) {
        assert(record.take("! "@.len() as int)[0] == '!');
    }
}

/// How one more record changes what the records add up to.
proof fn summary_push(records: Seq<Seq<char>>, record: Seq<char>)
    ensures
        summary(records.push(record)) == (StatusModel {
            dirty_files: summary(records).dirty_files + if is_dirty(record) {
                1nat
            } else {
                0
            },
            ignored_files: summary(records).ignored_files + if is_ignored(record) {
                1nat
            } else {
                0
            },
            upstream: match after_prefix(record, "# branch.upstream "@) {
                Some(name) => Some(name),
                None => summary(records).upstream,
            },
            ahead: match after_prefix(record, "# branch.ab "@) {
                Some(line) => tracking_count(line, 0, "+"@),
                None => summary(records).ahead,
            },
            behind: match after_prefix(record, "# branch.ab "@) {
                Some(line) => tracking_count(line, 1, "-"@),
                None => summary(records).behind,
            },
        }),
{
    reveal(Seq::filter);
    assert(records.push(record).drop_last() == records);
}

/// The number that the word at `index` gives behind `sign`.
fn parse_tracking(all: &Vec<&[char]>, index: usize, sign: &str) -> (number: Option<u32>)
    ensures
        number == if index < all@.len() {
            match after_prefix(views(all@)[index as int], sign@) {
                Some(digits) => parsed_u32(digits),
                None => None,
            }
        } else {
            None
        },
{
    if index < all.len() {
        match strip_prefix(all[index], sign) {
            Some(digits) => parse_u32(digits),
            None => None,
        }
    } else {
        None
    }
}

/// The pieces of `output` between its NUL characters, without the empty ones.
fn pieces_of<'a>(output: &'a [char]) -> (kept: Vec<&'a [char]>)
    ensures
        views(kept@) == pieces(output@),
{
    proof {
        reveal_strlit("\0");
    }
    let all = split_at(output, "\0");
    let mut kept: Vec<&'a [char]> = Vec::new();
    let ghost keep = |piece: Seq<char>| piece.len() > 0;
    proof {
        reveal(Seq::filter);
    }
    for i in 0..all.len()
        invariant
            views(all@) == split(output@, "\0"@),
            keep == (|piece: Seq<char>| piece.len() > 0),
            views(kept@) == views(all@).take(i as int).filter(keep),
    {
        let piece = all[i];
        proof {
            filter_step(views(all@), keep, i as int);
            views_push(kept@, piece);
        }
        if piece.len() > 0 {
            kept.push(piece);
        }
    }
    assert(views(all@).take(all@.len() as int) == views(all@));
    kept
}

/// The summary of what `git status --porcelain=v2 --branch --ignored -z` printed.
pub fn parse_status_summary(output: &str) -> (status: StatusSummary)
    ensures
        status@ == status_of(output@),
{
    let chars = chars_of(output);
    let all = pieces_of(chars.as_slice());
    let rename = chars_of("2 ");
    let ignored = chars_of("! ");
    let mut status = StatusSummary {
        dirty_files: 0,
        ignored_files: 0,
        upstream: None,
        ahead: None,
        behind: None,
    };
    let mut i: usize = 0;
    let ghost mut done: Seq<Seq<char>> = Seq::empty();
    proof {
        reveal(Seq::filter);
    }
    assert(views(all@).skip(0) == views(all@));
    while i < all.len()
        invariant
            rename@ == "2 "@,
            ignored@ == "! "@,
            views(all@) == pieces(output@),
            i <= all@.len(),
            status.dirty_files <= i,
            status.ignored_files <= i,
            done + records(views(all@).skip(i as int)) == records(views(all@)),
            status@ == summary(done),
        decreases all@.len() - i,
    {
        let record = all[i];
        let ghost rest = views(all@).skip(i as int);
        assert(rest.first() == record@);
        proof {
            record_kinds(record@);
            summary_push(done, record@);
        }
        let mut taken: usize = 1;
        if let Some(value) = strip_prefix(record, "# branch.upstream ") {
            status.upstream = Some(text_of(value));
        } else if let Some(value) = strip_prefix(record, "# branch.ab ") {
            let numbers = words_of(value);
            status.ahead = parse_tracking(&numbers, 0, "+");
            status.behind = parse_tracking(&numbers, 1, "-");
        } else if starts_with(record, rename.as_slice()) {
            status.dirty_files = status.dirty_files + 1;
            if i + 1 < all.len() {
                // The source path of the rename is a piece of its own.
                taken = 2;
            }
        } else if record.len() > 0 && (record[0] == '1' || record[0] == 'u' || record[0] == '?') {
            status.dirty_files = status.dirty_files + 1;
        } else if starts_with(record, ignored.as_slice()) {
            status.ignored_files = status.ignored_files + 1;
        }
        proof {
            let next = rest.skip(taken as int);
            assert(next == views(all@).skip(i + taken));
            assert(done + (seq![record@] + records(next)) == done.push(record@) + records(next));
            done = done.push(record@);
        }
        i = i + taken;
    }
    assert(done + records(views(all@).skip(i as int)) == done);
    status
}

} // verus!
