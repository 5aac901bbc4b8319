//! Paths of files: bytes with slashes between the names.

use crate::text::bytes_view;
use vstd::prelude::*;
use vstd::slice::{slice_subrange, slice_to_vec};
use vstd::string::*;

verus! {

/// The byte between the names of a path.
pub const SLASH: u8 = 47;

/// The byte of which the names of the directory itself and of its parent are made.
pub const DOT: u8 = 46;

/// `name` below `base`, where `name` does not start with a slash.
pub open spec fn joined_path(base: Seq<u8>, name: Seq<u8>) -> Seq<u8> {
    if base.len() == 0 || base.last() == SLASH {
        base + name
    } else {
        base.push(SLASH) + name
    }
}

pub fn join_path(base: &[u8], name: &str) -> (path: Vec<u8>)
    requires
        name.spec_bytes().len() > 0 ==> name.spec_bytes()[0] != SLASH,
    ensures
        path@ == joined_path(base@, name.spec_bytes()),
{
    let mut path: Vec<u8> = slice_to_vec(base);
    if base.len() > 0 && base[base.len() - 1] != SLASH {
        path.push(SLASH);
    }
    path.extend_from_slice(name.as_bytes());
    path
}

/// Where the last name of a path without a trailing slash starts.
pub open spec fn name_start(path: Seq<u8>) -> int
    decreases path.len(),
{
    if path.len() == 0 || path.last() == SLASH {
        path.len() as int
    } else {
        name_start(path.drop_last())
    }
}

pub proof fn name_start_bounds(path: Seq<u8>)
    ensures
        0 <= name_start(path) <= path.len(),
        path.len() > 0 && path.last() != SLASH ==> name_start(path) < path.len(),
        name_start(path) > 0 ==> path[name_start(path) - 1] == SLASH,
    decreases path.len(),
{
    if path.len() > 0 && path.last() != SLASH {
        name_start_bounds(path.drop_last());
    }
}

/// The last name of a path. Slashes at the end, and the directory itself after a slash, do not
/// count; there is no name where the path ends in the parent directory, or is the root, the
/// directory itself or nothing.
pub open spec fn last_name(path: Seq<u8>) -> Option<Seq<u8>>
    decreases path.len(),
{
    let start = name_start(path);
    let name = path.skip(start);
    if path.len() == 0 {
        None
    } else if path.last() == SLASH {
        last_name(path.drop_last())
    } else if name == seq![DOT] {
        if 0 < start < path.len() {
            last_name(path.take(start))
        } else {
            None
        }
    } else if name == seq![DOT, DOT] {
        None
    } else {
        Some(name)
    }
}

proof fn lemma_name_start(path: Seq<u8>, start: int)
    requires
        0 <= start <= path.len(),
        forall|j: int| start <= j < path.len() ==> path[j] != SLASH,
        start > 0 ==> path[start - 1] == SLASH,
    ensures
        name_start(path) == start,
    decreases path.len(),
{
    if start < path.len() {
        assert(path.last() == path[path.len() - 1]);
        lemma_name_start(path.drop_last(), start);
    } else if path.len() > 0 {
        assert(path.last() == path[start - 1]);
    }
}

pub fn file_name(path: &[u8]) -> (name: Option<Vec<u8>>)
    ensures
        bytes_view(name) == last_name(path@),
{
    let mut end: usize = path.len();
    proof {
        assert(path@.take(end as int) =~= path@);
    }
    while end > 0
        invariant
            end <= path@.len(),
            last_name(path@.take(end as int)) == last_name(path@),
        decreases end,
    {
        let ghost rest = path@.take(end as int);
        if path[end - 1] == SLASH {
            proof {
                assert(rest.drop_last() =~= path@.take(end - 1));
            }
            end = end - 1;
        } else {
            let mut start: usize = end;
            while start > 0 && path[start - 1] != SLASH
                invariant
                    start <= end <= path@.len(),
                    forall|j: int| start <= j < end ==> path@[j] != SLASH,
                decreases start,
            {
                start = start - 1;
            }
            let name: &[u8] = slice_subrange(path, start, end);
            proof {
                lemma_name_start(rest, start as int);
                name_start_bounds(rest);
                assert(rest.skip(start as int) =~= name@);
                assert(rest.take(start as int) =~= path@.take(start as int));
            }
            if name.len() == 1 && name[0] == DOT {
                proof {
                    assert(name@ =~= seq![DOT]);
                }
                if start == 0 {
                    return None;
                }
                end = start;
            } else if name.len() == 2 && name[0] == DOT && name[1] == DOT {
                proof {
                    assert(name@ =~= seq![DOT, DOT]);
                }
                return None;
            } else {
                return Some(slice_to_vec(name));
            }
        }
    }
    None
}

/// A name is put below a directory behind one slash, whether or not the directory ends in it.
pub proof fn name_is_put_behind_one_slash(directory: Seq<u8>, name: Seq<u8>)
    requires
        directory.len() > 0,
        directory.last() != 47,
    ensures
        joined_path(directory, name) == directory + seq![47u8] + name,
        joined_path(directory + seq![47u8], name) == directory + seq![47u8] + name,
        joined_path(Seq::empty(), name) == name,
{
    assert((directory + seq![47u8]).last() == 47);
    assert(directory.push(47) =~= directory + seq![47u8]);
    assert(Seq::<u8>::empty() + name =~= name);
}

/// The last name of a path is what is behind its last slash, also where nothing else is before it;
/// the parent directory is no name.
pub proof fn last_name_is_behind_the_last_slash(directory: Seq<u8>, name: Seq<u8>)
    requires
        name.len() > 0,
        !name.contains(47),
        name != seq![46u8],
    ensures
        last_name(directory + seq![47u8] + name) == (if name == seq![46u8, 46u8] {
            None::<Seq<u8>>
        } else {
            Some(name)
        }),
        last_name(name) == (if name == seq![46u8, 46u8] {
            None::<Seq<u8>>
        } else {
            Some(name)
        }),
{
    let path = directory + seq![47u8] + name;
    let start = directory.len() + 1;
    assert forall|j: int| start <= j < path.len() implies path[j] != SLASH by {
        assert(path[j] == name[j - start]);
        assert(name.contains(name[j - start]));
    }
    assert(path[start - 1] == 47);
    lemma_name_start(path, start as int);
    assert(path.skip(start as int) =~= name);
    assert(path.last() == path[path.len() - 1]);
    assert forall|j: int| 0 <= j < name.len() implies name[j] != SLASH by {
        assert(name.contains(name[j]));
    }
    lemma_name_start(name, 0);
    assert(name.skip(0) =~= name);
    assert(name.last() == name[name.len() - 1]);
}

/// A slash at the end of a path, and the directory itself behind it, change nothing about the last
/// name.
pub proof fn last_name_is_that_of_the_directory(path: Seq<u8>)
    ensures
        last_name(path + seq![47u8]) == last_name(path),
        last_name(path + seq![47u8, 46u8]) == last_name(path),
        last_name(Seq::empty()) is None,
        last_name(seq![46u8]) is None,
{
    let slashed = path + seq![47u8];
    assert(slashed.drop_last() =~= path);
    assert(slashed.last() == 47);
    let dotted = path + seq![47u8, 46u8];
    let start = path.len() + 1;
    assert(dotted[start - 1] == 47);
    assert(dotted[start as int] == 46);
    lemma_name_start(dotted, start as int);
    assert(dotted.skip(start as int) =~= seq![46u8]);
    assert(dotted.take(start as int) =~= slashed);
    assert(dotted.last() == 46);
    let dot = seq![46u8];
    lemma_name_start(dot, 0);
    assert(dot.skip(0) =~= dot);
}

} // verus!
