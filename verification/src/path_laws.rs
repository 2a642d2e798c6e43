//! What holds of file paths.
use vstd::prelude::*;
use vstd::utf8::{decode_utf8, decode_utf8_encode_utf8, encode_utf8, is_ascii_chars_encode_utf8};

use crate::operations::worktree_target;
use crate::path::{before_last, file_name, head_len, is_rooted, is_void, joined, last_part, last_start, last_start_fits, parent, parts, path_model, same_path, starts_at_dot, tidied, PathModel, DOT, SLASH};
use crate::slug::{slug, slug_is_tidy};

verus! {

// ── Parents ───────────────────────────────────────────────────────────────

/// The last component holds no separator, and one stands before it unless it
/// follows the head.
proof fn last_part_is_plain(path: Seq<u8>, head: nat)
    requires
        head <= path.len(),
    ensures
        head <= last_start(path, head) <= path.len(),
        forall|i: int| last_start(path, head) <= i < path.len() ==> #[trigger] path[i] != SLASH,
        last_start(path, head) > head ==> path[last_start(path, head) - 1] == SLASH,
    decreases path.len(),
{
    last_start_fits(path, head);
    if path.len() > head && path.last() != SLASH {
        last_part_is_plain(path.drop_last(), head);
        assert forall|i: int| last_start(path, head) <= i < path.len() implies #[trigger] path[i]
            != SLASH by {
            if i < path.len() - 1 {
                assert(path.drop_last()[i] != SLASH);
            }
        }
    }
}

/// Whether `front` is what `path` has before one of its separators, or its head.
spec fn is_front(front: Seq<u8>, path: Seq<u8>, head: nat) -> bool {
    &&& head <= front.len() <= path.len()
    &&& front == path.take(front.len() as int)
    &&& front == path || front.len() == head || path[front.len() as int] == SLASH
}

/// What stands before the last component is such a front.
proof fn before_last_is_front(path: Seq<u8>, head: nat)
    requires
        head <= path.len(),
    ensures
        is_front(before_last(path, head), path, head),
{
    last_part_is_plain(path, head);
}

/// A path without trailing components that say nothing is such a front, has the
/// same components, and cannot be tidied any more.
proof fn tidied_is_front(path: Seq<u8>, head: nat)
    requires
        head <= path.len(),
    ensures
        is_front(tidied(path, head), path, head),
        parts(tidied(path, head), head) == parts(path, head),
        tidied(tidied(path, head), head) == tidied(path, head),
        tidied(path, head).len() > head ==> !is_void(last_part(tidied(path, head), head)),
    decreases path.len(),
{
    last_start_fits(path, head);
    before_last_is_front(path, head);
    if path.len() > head && is_void(last_part(path, head)) {
        tidied_is_front(before_last(path, head), head);
        let front = tidied(path, head);
        assert(front =~= path.take(front.len() as int));
    } else {
        assert(path =~= path.take(path.len() as int));
    }
}

/// A front has the head of its path.
proof fn front_has_head(front: Seq<u8>, path: Seq<u8>)
    requires
        is_front(front, path, head_len(path)),
    ensures
        head_len(front) == head_len(path),
        is_rooted(front) == is_rooted(path),
        starts_at_dot(front) == starts_at_dot(path),
{
    let head = head_len(path);
    if front.len() > 0 {
        assert(front[0] == path[0]);
        if front.len() > 1 {
            assert(front[1] == path[1]);
        }
    }
}

/// The parent of a path that has a last component has all components but that one.
pub proof fn parent_lacks_last_component(path: Seq<u8>)
    requires
        path_model(path).parts.len() > 0,
    ensures
        parent(path) is Some,
        ({
            let above = path_model(parent(path)->0);
            &&& above.rooted == path_model(path).rooted
            &&& above.at_dot == path_model(path).at_dot
            &&& above.parts == path_model(path).parts.drop_last()
        }),
{
    let head = head_len(path);
    let tidy = tidied(path, head);
    tidied_is_front(path, head);
    front_of_parent(path);
    last_start_fits(tidy, head);
    assert(tidy.len() > head);
    tidied_is_front(before_last(tidy, head), head);
    front_has_head(parent(path)->0, path);
    assert(parts(tidy, head) == parts(before_last(tidy, head), head).push(last_part(tidy, head)));
    assert(parts(path, head).drop_last() =~= parts(before_last(tidy, head), head));
}

/// The parent of a path that has a last component is a front of it, and tidy.
proof fn front_of_parent(path: Seq<u8>)
    requires
        tidied(path, head_len(path)).len() > head_len(path),
    ensures
        parent(path) is Some,
        is_front(parent(path)->0, path, head_len(path)),
        tidied(parent(path)->0, head_len(path)) == parent(path)->0,
{
    let head = head_len(path);
    let tidy = tidied(path, head);
    tidied_is_front(path, head);
    last_start_fits(tidy, head);
    before_last_is_front(tidy, head);
    let before = before_last(tidy, head);
    tidied_is_front(before, head);
    let above = tidied(before, head);
    assert(above =~= path.take(above.len() as int));
}

/// The parent of a path is spelled as the path is, up to some byte. A path without
/// components has none, but for one that starts at `.`.
pub proof fn parent_is_spelled_alike(path: Seq<u8>)
    ensures
        path_model(path).parts.len() > 0 ==> parent(path) is Some && exists|end: int|
            0 <= end < path.len() && parent(path)->0 == #[trigger] path.take(end),
        path_model(path).parts.len() == 0 ==> parent(path) == if path_model(path).at_dot {
            Some(Seq::<u8>::empty())
        } else {
            None
        },
{
    let head = head_len(path);
    let tidy = tidied(path, head);
    tidied_is_front(path, head);
    last_start_fits(tidy, head);
    if tidy.len() > head {
        front_of_parent(path);
        tidied_is_front(before_last(tidy, head), head);
        let above = parent(path)->0;
        assert(above == path.take(above.len() as int));
    }
}

// ── Spelling and meaning ──────────────────────────────────────────────────

/// What the shortest spellings mean, and that two spellings name one path just where
/// they start alike and have the same components.
pub proof fn shortest_spellings(a: Seq<u8>, b: Seq<u8>)
    ensures
        path_model(Seq::<u8>::empty()) == (PathModel {
            rooted: false,
            at_dot: false,
            parts: Seq::empty(),
        }),
        path_model(seq![47u8]) == (PathModel { rooted: true, at_dot: false, parts: Seq::empty() }),
        path_model(seq![46u8]) == (PathModel { rooted: false, at_dot: true, parts: Seq::empty() }),
        same_path(a, b) <==> {
            &&& path_model(a).rooted == path_model(b).rooted
            &&& path_model(a).at_dot == path_model(b).at_dot
            &&& path_model(a).parts == path_model(b).parts
        },
{
    assert(parts(Seq::<u8>::empty(), 0) =~= Seq::empty());
    assert(parts(seq![47u8], 1) =~= Seq::empty());
    assert(parts(seq![46u8], 1) =~= Seq::empty());
}

/// A name that is put behind a path, with a separator between them unless the path
/// is empty or ends in one, is one more component of it. So is `..`.
pub proof fn name_behind_path_is_component(path: Seq<u8>, name: Seq<u8>)
    requires
        name.len() > 0,
        name != seq![46u8],
        forall|i: int| 0 <= i < name.len() ==> #[trigger] name[i] != 47,
    ensures
        joined(path, name) == if path.len() == 0 || path.last() == 47 {
            path + name
        } else {
            path + seq![47u8] + name
        },
        path_model(joined(path, name)) == (PathModel {
            parts: path_model(path).parts.push(name),
            ..path_model(path)
        }),
{
    let head = head_len(path);
    let whole = joined(path, name);
    assert(name[0] != SLASH);
    let base = if path.len() > 0 && path.last() != SLASH {
        path.push(SLASH)
    } else {
        path
    };
    assert(path + seq![47u8] =~= path.push(SLASH));
    assert(whole =~= base + name);
    if path.len() > 0 {
        assert(whole[0] == path[0]);
        if path.len() > 1 {
            assert(whole[1] == path[1]);
        }
    } else {
        assert(whole =~= name);
        if name.len() > 1 {
            assert(name[1] != SLASH);
        } else {
            assert(name =~= seq![name[0]]);
        }
    }
    assert(head_len(whole) == head);
    plain_name_is_last(base, name, head);
    assert(last_part(whole, head) =~= name);
    if base == path && path.len() > head {
        assert(before_last(whole, head) =~= before_last(path, head));
        assert(last_part(path, head) =~= Seq::<u8>::empty());
    } else {
        assert(before_last(whole, head) =~= path);
    }
}

/// A name that starts at the root directory stands for itself.
pub proof fn rooted_name_stands_for_itself(path: Seq<u8>, name: Seq<u8>)
    requires
        name.len() > 0,
        name[0] == 47,
    ensures
        joined(path, name) == name,
{
}

/// A separator, or a separator and `.`, behind a path says nothing.
pub proof fn void_tail_says_nothing(path: Seq<u8>)
    requires
        path.len() > 0,
    ensures
        path_model(path.push(47)) == path_model(path),
        path_model(path.push(47).push(46)) == path_model(path),
{
    let head = head_len(path);
    let slash = path.push(47);
    let dot = slash.push(46);
    assert(head_len(slash) == head && head_len(dot) == head);
    assert(last_part(slash, head) =~= Seq::<u8>::empty());
    assert(before_last(slash, head) =~= path);
    assert(dot.drop_last() =~= slash);
    assert(last_part(dot, head) =~= seq![46u8]);
    assert(before_last(dot, head) =~= path);
}

/// The name of a file is the last component of its path, unless that is `..`.
pub proof fn file_name_is_last_component(path: Seq<u8>)
    ensures
        file_name(path) == {
            let components = path_model(path).parts;
            if components.len() > 0 && components.last() != seq![46u8, 46u8] {
                Some(components.last())
            } else {
                None
            }
        },
{
    let head = head_len(path);
    let tidy = tidied(path, head);
    tidied_is_front(path, head);
    last_start_fits(tidy, head);
    if tidy.len() > head {
        assert(parts(tidy, head) == parts(before_last(tidy, head), head).push(
            last_part(tidy, head),
        ));
    } else {
        assert(parts(tidy, head) =~= Seq::empty());
    }
}

// ── Siblings ──────────────────────────────────────────────────────────────

/// Where the last component of a path begins that ends in a plain name.
proof fn plain_name_is_last(base: Seq<u8>, name: Seq<u8>, head: nat)
    requires
        head <= base.len(),
        base.len() == head || base.last() == SLASH,
        forall|i: int| 0 <= i < name.len() ==> #[trigger] name[i] != SLASH,
    ensures
        last_start(base + name, head) == base.len(),
    decreases name.len(),
{
    let path = base + name;
    if name.len() == 0 {
        assert(path =~= base);
    } else {
        assert(path.last() == name[name.len() - 1]);
        assert(path.drop_last() =~= base + name.drop_last());
        plain_name_is_last(base, name.drop_last(), head);
    }
}

/// Whether `name` can be one component of a path that says something of its own.
pub open spec fn is_plain_name(name: Seq<u8>) -> bool {
    &&& !is_void(name)
    &&& name != seq![DOT, DOT]
    &&& forall|i: int| 0 <= i < name.len() ==> #[trigger] name[i] != SLASH
}

/// A plain name, joined to a path, is the last component of what comes out, and
/// the path, without trailing components that say nothing, is its parent.
pub proof fn joined_name_is_last(path: Seq<u8>, name: Seq<u8>)
    requires
        is_plain_name(name),
    ensures
        parent(joined(path, name)) == Some(tidied(path, head_len(path))),
        file_name(joined(path, name)) == Some(name),
{
    let head = head_len(path);
    let whole = joined(path, name);
    assert(name.len() > 0) by {
        if name.len() == 0 {
            assert(name =~= Seq::<u8>::empty());
        }
    }
    assert(name[0] != SLASH);
    let base = if path.len() > 0 && path.last() != SLASH {
        path.push(SLASH)
    } else {
        path
    };
    assert(whole =~= base + name);
    if path.len() > 0 {
        assert(whole[0] == path[0]);
        if path.len() > 1 {
            assert(whole[1] == path[1]);
        }
    } else {
        assert(whole =~= name);
        if name.len() > 1 {
            assert(name[1] != SLASH);
        } else {
            assert(name =~= seq![name[0]]);
        }
    }
    assert(head_len(whole) == head);
    plain_name_is_last(base, name, head);
    assert(last_part(whole, head) =~= name);
    if base == path && path.len() > head {
        assert(before_last(whole, head) =~= before_last(path, head));
        assert(last_part(path, head) =~= Seq::<u8>::empty());
    } else {
        assert(before_last(whole, head) =~= path);
    }
}

/// A plain name, joined to the parent of a path, stands beside that path: it has
/// the same parent, and the name as its last component.
pub proof fn joined_to_parent_is_sibling(path: Seq<u8>, name: Seq<u8>)
    requires
        file_name(path) is Some,
        is_plain_name(name),
    ensures
        parent(path) is Some,
        parent(joined(parent(path)->0, name)) == parent(path),
        file_name(joined(parent(path)->0, name)) == Some(name),
{
    tidied_is_front(path, head_len(path));
    front_of_parent(path);
    front_has_head(parent(path)->0, path);
    joined_name_is_last(parent(path)->0, name);
}

/// Encoding one text behind another.
proof fn encode_both(a: Seq<char>, b: Seq<char>)
    ensures
        encode_utf8(a + b) == encode_utf8(a) + encode_utf8(b),
    decreases a.len(),
{
    if a.len() == 0 {
        assert(a + b =~= b);
        assert(encode_utf8(a) + encode_utf8(b) =~= encode_utf8(b));
    } else {
        encode_both(a.drop_first(), b);
        assert((a + b).drop_first() =~= a.drop_first() + b);
        assert(encode_utf8(a + b) =~= encode_utf8(a) + encode_utf8(b));
    }
}

/// A new worktree stands beside the repository: in the same directory, under the
/// name of the repository, a dash and the slug of the branch.
pub proof fn new_worktree_is_sibling(root: Seq<u8>, branch: Seq<char>)
    ensures
        worktree_target(root, branch) matches Ok(target) ==> {
            &&& parent(target) == parent(root)
            &&& file_name(target) == Some(file_name(root)->0 + encode_utf8("-"@ + slug(branch)))
        },
{
    if let Ok(target) = worktree_target(root, branch) {
        let own = file_name(root)->0;
        let tail = "-"@ + slug(branch);
        let name = encode_utf8(decode_utf8(own) + "-"@ + slug(branch));
        let head = head_len(root);
        reveal_strlit("-");
        slug_is_tidy(branch);
        decode_utf8_encode_utf8(own);
        assert(decode_utf8(own) + "-"@ + slug(branch) =~= decode_utf8(own) + tail);
        encode_both(decode_utf8(own), tail);
        assert forall|i: int| 0 <= i < tail.len() implies (#[trigger] tail[i] as u32) < 128
            && tail[i] != '/' by {
            if i > 0 {
                assert(tail[i] == slug(branch)[i - 1]);
            }
        }
        is_ascii_chars_encode_utf8(tail);
        tidied_is_front(root, head);
        last_part_is_plain(tidied(root, head), head);
        assert forall|i: int| 0 <= i < name.len() implies #[trigger] name[i] != SLASH by {
            if i < own.len() {
                assert(name[i] == own[i]);
                assert(own[i] == tidied(root, head)[last_start(tidied(root, head), head) + i]);
            } else {
                assert(name[i] == tail[i - own.len()] as u8);
            }
        }
        assert(name[own.len() as int] == '-' as u8);
        joined_to_parent_is_sibling(root, name);
    }
}

} // verus!
