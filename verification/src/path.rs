//! File paths as Linux spells them: bytes, with `/` between the components.
use vstd::prelude::*;
use vstd::slice::{slice_subrange, slice_to_vec};
use vstd::string::*;
use vstd::utf8::{decode_utf8, encode_utf8, valid_utf8};

use crate::encoding::{from_utf8, from_utf8_lossy, lossy_text};
use crate::views::{option_view, views};

verus! {

// ── The spelling of a path ────────────────────────────────────────────────

/// The byte that separates components.
pub const SLASH: u8 = 47;

/// The byte of a full stop.
pub const DOT: u8 = 46;

/// Whether a path starts at the root directory.
pub open spec fn is_rooted(path: Seq<u8>) -> bool {
    path.len() > 0 && path.first() == SLASH
}

/// Whether a path starts with the component `.`.
pub open spec fn starts_at_dot(path: Seq<u8>) -> bool {
    path.len() > 0 && path[0] == DOT && (path.len() == 1 || path[1] == SLASH)
}

/// How many bytes stand for the root directory or for a leading `.`.
pub open spec fn head_len(path: Seq<u8>) -> nat {
    if is_rooted(path) || starts_at_dot(path) {
        1
    } else {
        0
    }
}

/// Where the last component begins, in a path whose first `head` bytes are its head.
pub open spec fn last_start(path: Seq<u8>, head: nat) -> nat
    decreases path.len(),
{
    if path.len() <= head {
        head
    } else if path.last() == SLASH {
        path.len()
    } else {
        last_start(path.drop_last(), head)
    }
}

/// The last component, which is empty behind a trailing separator.
pub open spec fn last_part(path: Seq<u8>, head: nat) -> Seq<u8> {
    path.skip(last_start(path, head) as int)
}

/// What stands before the last component and its separator.
pub open spec fn before_last(path: Seq<u8>, head: nat) -> Seq<u8> {
    let start = last_start(path, head);
    if start > head {
        path.take(start - 1)
    } else {
        path.take(head as int)
    }
}

/// Whether a component says nothing: between two separators, or `.`.
pub open spec fn is_void(part: Seq<u8>) -> bool {
    part.len() == 0 || part == seq![DOT]
}

/// The last component begins inside the path.
pub proof fn last_start_fits(path: Seq<u8>, head: nat)
    requires
        head <= path.len(),
    ensures
        head <= last_start(path, head) <= path.len(),
        before_last(path, head).len() >= head,
        path.len() > head ==> before_last(path, head).len() < path.len(),
    decreases path.len(),
{
    if path.len() > head && path.last() != SLASH {
        last_start_fits(path.drop_last(), head);
    }
}

/// The components behind the head, without those that say nothing.
pub open spec fn parts(path: Seq<u8>, head: nat) -> Seq<Seq<u8>>
    decreases path.len(),
    when head <= path.len()
    via parts_shrink
{
    if path.len() == head {
        Seq::empty()
    } else {
        let last = last_part(path, head);
        let before = parts(before_last(path, head), head);
        if is_void(last) {
            before
        } else {
            before.push(last)
        }
    }
}

#[via_fn]
proof fn parts_shrink(path: Seq<u8>, head: nat) {
    last_start_fits(path, head);
}

/// `path` without the trailing components that say nothing.
pub open spec fn tidied(path: Seq<u8>, head: nat) -> Seq<u8>
    decreases path.len(),
    when head <= path.len()
    via tidied_shrink
{
    if path.len() > head && is_void(last_part(path, head)) {
        tidied(before_last(path, head), head)
    } else {
        path
    }
}

#[via_fn]
proof fn tidied_shrink(path: Seq<u8>, head: nat) {
    last_start_fits(path, head);
}

// ── What a path means ─────────────────────────────────────────────────────

/// What a path names: where it starts, and its components in turn.
pub struct PathModel {
    pub rooted: bool,
    pub at_dot: bool,
    pub parts: Seq<Seq<u8>>,
}

/// What the path spelled `path` names.
pub open spec fn path_model(path: Seq<u8>) -> PathModel {
    PathModel {
        rooted: is_rooted(path),
        at_dot: starts_at_dot(path),
        parts: parts(path, head_len(path)),
    }
}

/// Whether two spellings name one path. Repeated separators, a trailing separator
/// and components `.` behind the head make no difference.
pub open spec fn same_path(a: Seq<u8>, b: Seq<u8>) -> bool {
    path_model(a) == path_model(b)
}

/// The last component, unless the path ends in `..` or has none.
pub open spec fn file_name(path: Seq<u8>) -> Option<Seq<u8>> {
    let head = head_len(path);
    let tidy = tidied(path, head);
    if tidy.len() == head || last_part(tidy, head) == seq![DOT, DOT] {
        None
    } else {
        Some(last_part(tidy, head))
    }
}

/// The path without its last component, unless it has none.
pub open spec fn parent(path: Seq<u8>) -> Option<Seq<u8>> {
    let head = head_len(path);
    let tidy = tidied(path, head);
    if tidy.len() > head {
        Some(tidied(before_last(tidy, head), head))
    } else if starts_at_dot(path) {
        Some(Seq::empty())
    } else {
        None
    }
}

/// The path `name`, seen from the directory `path`.
pub open spec fn joined(path: Seq<u8>, name: Seq<u8>) -> Seq<u8> {
    if is_rooted(name) {
        name
    } else if path.len() > 0 && path.last() != SLASH {
        path.push(SLASH) + name
    } else {
        path + name
    }
}

// ── The type ──────────────────────────────────────────────────────────────

/// The path of a file or a directory.
#[derive(Debug)]
pub struct FilePath {
    pub bytes: Vec<u8>,
}

impl View for FilePath {
    type V = Seq<u8>;

    open spec fn view(&self) -> Seq<u8> {
        self.bytes@
    }
}

impl Clone for FilePath {
    fn clone(&self) -> (copy: Self)
        ensures
            copy@ == self@,
    {
        FilePath { bytes: slice_to_vec(self.bytes.as_slice()) }
    }
}

impl PartialEq for FilePath {
    fn eq(&self, other: &Self) -> (same: bool) {
        self.same_path(other)
    }
}

impl vstd::std_specs::cmp::PartialEqSpecImpl for FilePath {
    open spec fn obeys_eq_spec() -> bool {
        true
    }

    open spec fn eq_spec(&self, other: &Self) -> bool {
        same_path(self@, other@)
    }
}

impl Eq for FilePath {

}

/// Whether two rows of bytes are equal.
fn same_bytes(a: &[u8], b: &[u8]) -> (same: bool)
    ensures
        same == (a@ == b@),
{
    if a.len() != b.len() {
        return false;
    }
    for i in 0..a.len()
        invariant
            a@.len() == b@.len(),
            forall|j: int| 0 <= j < i ==> a@[j] == b@[j],
    {
        if a[i] != b[i] {
            return false;
        }
    }
    assert(a@ == b@);
    true
}

/// Where the last component begins.
fn last_start_of(path: &[u8], head: usize) -> (start: usize)
    requires
        head <= path@.len(),
    ensures
        start == last_start(path@, head as nat),
        head <= start <= path@.len(),
{
    let mut end: usize = path.len();
    assert(path@.take(end as int) == path@);
    while end > head && path[end - 1] != SLASH
        invariant
            head <= end <= path@.len(),
            last_start(path@.take(end as int), head as nat) == last_start(path@, head as nat),
        decreases end,
    {
        assert(path@.take(end as int).drop_last() == path@.take(end - 1));
        end = end - 1;
    }
    end
}

/// The last component, and what stands before it and its separator.
fn split_last(path: &[u8], head: usize) -> (split: (&[u8], &[u8]))
    requires
        head <= path@.len(),
    ensures
        split.0@ == before_last(path@, head as nat),
        split.1@ == last_part(path@, head as nat),
        head <= split.0@.len(),
        path@.len() > head ==> split.0@.len() < path@.len(),
{
    let start = last_start_of(path, head);
    let end = if start > head { start - 1 } else { head };
    (slice_subrange(path, 0, end), slice_subrange(path, start, path.len()))
}

/// Whether a component says nothing.
fn says_nothing(part: &[u8]) -> (void: bool)
    ensures
        void == is_void(part@),
{
    let void = part.len() == 0 || (part.len() == 1 && part[0] == DOT);
    assert(part@.len() == 1 && part@[0] == DOT ==> part@ == seq![DOT]);
    void
}

/// The components behind the head, without those that say nothing.
fn parts_of(path: &[u8], head: usize) -> (all: Vec<&[u8]>)
    requires
        head <= path@.len(),
    ensures
        views(all@) == parts(path@, head as nat),
    decreases path@.len(),
{
    if path.len() == head {
        return Vec::new();
    }
    let (before, last) = split_last(path, head);
    let mut all = parts_of(before, head);
    let ghost earlier = all@;
    if !says_nothing(last) {
        all.push(last);
        assert(views(all@) == views(earlier).push(last@));
    }
    all
}

/// `path` without the trailing components that say nothing.
fn tidy(path: &[u8], head: usize) -> (rest: &[u8])
    requires
        head <= path@.len(),
    ensures
        rest@ == tidied(path@, head as nat),
        head <= rest@.len(),
    decreases path@.len(),
{
    if path.len() > head {
        let (before, last) = split_last(path, head);
        if says_nothing(last) {
            return tidy(before, head);
        }
    }
    path
}

impl FilePath {
    /// The path that `text` spells.
    pub fn from_text(text: &str) -> (path: FilePath)
        ensures
            path@ == encode_utf8(text@),
    {
        FilePath { bytes: text.as_bytes_vec() }
    }

    /// The path as text, with replacement characters for what is not Unicode.
    pub fn to_text(&self) -> (text: String)
        ensures
            text@ == lossy_text(self@),
            valid_utf8(self@) ==> text@ == decode_utf8(self@),
    {
        from_utf8_lossy(self.bytes.as_slice())
    }

    /// Whether the path starts with the component `.`.
    fn has_dot_head(&self) -> (dot: bool)
        ensures
            dot == starts_at_dot(self@),
    {
        self.bytes.len() > 0 && self.bytes[0] == DOT && (self.bytes.len() == 1 || self.bytes[1]
            == SLASH)
    }

    /// Whether the path starts at the root directory.
    pub fn is_absolute(&self) -> (rooted: bool)
        ensures
            rooted == is_rooted(self@),
    {
        self.bytes.len() > 0 && self.bytes[0] == SLASH
    }

    /// How many bytes stand for the root directory or for a leading `.`.
    fn head(&self) -> (head: usize)
        ensures
            head == head_len(self@),
            head <= self@.len(),
    {
        if self.is_absolute() || self.has_dot_head() {
            1
        } else {
            0
        }
    }

    /// Whether two spellings name one path.
    pub fn same_path(&self, other: &FilePath) -> (same: bool)
        ensures
            same == same_path(self@, other@),
    {
        if self.is_absolute() != other.is_absolute() || self.has_dot_head()
            != other.has_dot_head() {
            return false;
        }
        let mine = parts_of(self.bytes.as_slice(), self.head());
        let theirs = parts_of(other.bytes.as_slice(), other.head());
        if mine.len() != theirs.len() {
            assert(views(mine@).len() != views(theirs@).len());
            return false;
        }
        for i in 0..mine.len()
            invariant
                mine@.len() == theirs@.len(),
                forall|j: int| 0 <= j < i ==> #[trigger] views(mine@)[j] == views(theirs@)[j],
                views(mine@) == path_model(self@).parts,
                views(theirs@) == path_model(other@).parts,
        {
            if !same_bytes(mine[i], theirs[i]) {
                assert(views(mine@)[i as int] != views(theirs@)[i as int]);
                return false;
            }
        }
        assert(views(mine@) == views(theirs@));
        true
    }

    /// The last component, unless the path ends in `..` or has none.
    pub fn file_name(&self) -> (name: Option<Vec<u8>>)
        ensures
            option_view(name) == file_name(self@),
    {
        let head = self.head();
        let tidy = tidy(self.bytes.as_slice(), head);
        if tidy.len() == head {
            return None;
        }
        let (_, last) = split_last(tidy, head);
        if last.len() == 2 && last[0] == DOT && last[1] == DOT {
            assert(last@ == seq![DOT, DOT]);
            return None;
        }
        Some(slice_to_vec(last))
    }

    /// The last component as text, where it has one and that one is Unicode.
    pub fn file_name_text(&self) -> (name: Option<String>)
        ensures
            option_view(name) == match file_name(self@) {
                Some(bytes) => if valid_utf8(bytes) {
                    Some(decode_utf8(bytes))
                } else {
                    None
                },
                None => None,
            },
    {
        match self.file_name() {
            Some(bytes) => from_utf8(bytes),
            None => None,
        }
    }

    /// The path without its last component, unless it has none.
    pub fn parent(&self) -> (directory: Option<FilePath>)
        ensures
            option_view(directory) == parent(self@),
    {
        let head = self.head();
        let whole = tidy(self.bytes.as_slice(), head);
        if whole.len() > head {
            let (before, _) = split_last(whole, head);
            Some(FilePath { bytes: slice_to_vec(tidy(before, head)) })
        } else if self.has_dot_head() {
            let directory = FilePath { bytes: Vec::new() };
            assert(directory@ == Seq::<u8>::empty());
            Some(directory)
        } else {
            None
        }
    }

    /// The path that `name` spells, seen from this directory.
    pub fn join(&self, name: &str) -> (path: FilePath)
        ensures
            path@ == joined(self@, encode_utf8(name@)),
    {
        let mut tail = name.as_bytes_vec();
        if tail.len() > 0 && tail[0] == SLASH {
            return FilePath { bytes: tail };
        }
        let mut bytes = slice_to_vec(self.bytes.as_slice());
        if bytes.len() > 0 && bytes[bytes.len() - 1] != SLASH {
            bytes.push(SLASH);
        }
        bytes.append(&mut tail);
        FilePath { bytes }
    }
}

} // verus!
