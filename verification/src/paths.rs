//! Slash-separated paths: "/" is the root, "/a/b" names `b` inside `/a`.
use vstd::prelude::*;
use vstd::string::*;

use crate::strings::{concat, concat3, copy_str};

verus! {

/// The index of the last '/' in `p`, or -1 when there is none.
pub open spec fn last_slash(p: Seq<char>) -> int
    decreases p.len(),
{
    if p.len() == 0 {
        -1
    } else if p.last() == '/' {
        p.len() - 1
    } else {
        last_slash(p.drop_last())
    }
}

pub open spec fn root_path() -> Seq<char> {
    seq!['/']
}

/// The parent of a path: none for the root or a path without '/',
/// the root for a top-level path, else the part before the last '/'.
pub open spec fn spec_parent_path(p: Seq<char>) -> Option<Seq<char>> {
    let i = last_slash(p);
    if i < 0 || p == root_path() {
        None
    } else if i == 0 {
        Some(root_path())
    } else {
        Some(p.subrange(0, i))
    }
}

/// The last component of a path: none for the root or a path without '/'.
pub open spec fn spec_path_to_name(p: Seq<char>) -> Option<Seq<char>> {
    let i = last_slash(p);
    if i < 0 || p == root_path() {
        None
    } else {
        Some(p.subrange(i + 1, p.len() as int))
    }
}

/// `name` inside the folder `parent`.
pub open spec fn spec_join_path_name(parent: Seq<char>, name: Seq<char>) -> Seq<char> {
    if parent.len() > 0 && parent.last() == '/' {
        parent + name
    } else {
        parent + seq!['/'] + name
    }
}

/// The path and all its ancestors, root first.
pub open spec fn spec_paths_chain(p: Seq<char>) -> Seq<Seq<char>>
    decreases p.len(),
{
    match spec_parent_path(p) {
        Some(parent) => if parent.len() < p.len() {
            spec_paths_chain(parent).push(p)
        } else {
            seq![p]
        },
        None => seq![p],
    }
}

/// The chain of a path ends with the path, and each path of the chain is the
/// parent of the next one, back to a path with no shorter parent.
pub proof fn law_paths_chain(p: Seq<char>)
    ensures
        spec_paths_chain(p).len() >= 1,
        spec_paths_chain(p).last() == p,
        forall|i: int|
            0 <= i < spec_paths_chain(p).len() - 1 ==> spec_parent_path(
                #[trigger] spec_paths_chain(p)[i + 1],
            ) == Some(spec_paths_chain(p)[i]),
        !(spec_parent_path(spec_paths_chain(p)[0]) matches Some(q) && q.len() < spec_paths_chain(
            p,
        )[0].len()),
    decreases p.len(),
{
    match spec_parent_path(p) {
        Some(parent) => if parent.len() < p.len() {
            law_paths_chain(parent);
            let c = spec_paths_chain(parent);
            assert(spec_paths_chain(p) == c.push(p));
            assert forall|i: int| 0 <= i < c.push(p).len() - 1 implies spec_parent_path(
                #[trigger] c.push(p)[i + 1],
            ) == Some(c.push(p)[i]) by {
                if i + 1 < c.len() {
                    assert(c.push(p)[i + 1] == c[i + 1]);
                    assert(c.push(p)[i] == c[i]);
                } else {
                    assert(c.push(p)[i] == c.last());
                }
            }
        },
        None => {},
    }
}

pub proof fn lemma_last_slash(p: Seq<char>)
    ensures
        -1 <= last_slash(p) < p.len(),
        last_slash(p) >= 0 ==> p[last_slash(p)] == '/',
        forall|j: int| last_slash(p) < j < p.len() ==> p[j] != '/',
    decreases p.len(),
{
    if p.len() > 0 && p.last() != '/' {
        let q = p.drop_last();
        lemma_last_slash(q);
        assert forall|j: int| last_slash(p) < j < p.len() implies p[j] != '/' by {
            if j < q.len() {
                assert(p[j] == q[j]);
            }
        }
    }
}

pub proof fn lemma_parent_shorter(p: Seq<char>)
    ensures
        spec_parent_path(p) matches Some(parent) ==> parent.len() < p.len(),
{
    lemma_last_slash(p);
    if last_slash(p) == 0 && p != root_path() {
        if p.len() == 1 {
            assert(p =~= root_path());
        }
    }
}

/// Finds the last '/' of `p`.
fn find_last_slash(p: &str) -> (r: Option<usize>)
    ensures
        match r {
            Some(i) => i as int == last_slash(p@),
            None => last_slash(p@) == -1,
        },
{
    proof {
        lemma_last_slash(p@);
    }
    let n = p.unicode_len();
    let mut i: usize = n;
    while i > 0
        invariant
            n == p@.len(),
            i <= n,
            forall|j: int| i <= j < n ==> p@[j] != '/',
        decreases i,
    {
        if p.get_char(i - 1) == '/' {
            proof {
                lemma_last_slash(p@);
                if last_slash(p@) != i - 1 {
                    assert(p@[i - 1] == '/');
                }
            }
            return Some(i - 1);
        }
        i = i - 1;
    }
    proof {
        if last_slash(p@) >= 0 {
            assert(p@[last_slash(p@)] == '/');
        }
    }
    None
}

/// Whether `p` is the root path "/".
pub fn is_root(p: &str) -> (r: bool)
    ensures
        r == (p@ == root_path()),
{
    if p.unicode_len() == 1 {
        let c = p.get_char(0);
        if c == '/' {
            assert(p@ =~= root_path());
        }
        c == '/'
    } else {
        false
    }
}

/// The root path "/".
pub fn root() -> (r: String)
    ensures
        r@ == root_path(),
{
    let r = String::from_str("/");
    proof {
        reveal_strlit("/");
    }
    r
}

/// The parent of a path (see `spec_parent_path`).
pub fn parent_path(p: &str) -> (r: Option<String>)
    ensures
        r matches Some(s) ==> spec_parent_path(p@) == Some(s@),
        r is None ==> spec_parent_path(p@) is None,
{
    if is_root(p) {
        return None;
    }
    proof {
        lemma_last_slash(p@);
    }
    match find_last_slash(p) {
        None => None,
        Some(i) => {
            if i == 0 {
                Some(root())
            } else {
                let n = p.unicode_len();
                Some(copy_str(p.substring_char(0, i)))
            }
        },
    }
}

/// The last component of a path (see `spec_path_to_name`).
pub fn path_to_name(p: &str) -> (r: Option<String>)
    ensures
        r matches Some(s) ==> spec_path_to_name(p@) == Some(s@),
        r is None ==> spec_path_to_name(p@) is None,
{
    if is_root(p) {
        return None;
    }
    proof {
        lemma_last_slash(p@);
    }
    match find_last_slash(p) {
        None => None,
        Some(i) => {
            let n = p.unicode_len();
            Some(copy_str(p.substring_char(i + 1, n)))
        },
    }
}

/// `name` inside the folder `parent` (see `spec_join_path_name`).
pub fn join_path_name(parent: &str, name: &str) -> (r: String)
    ensures
        r@ == spec_join_path_name(parent@, name@),
{
    let n = parent.unicode_len();
    if n > 0 && parent.get_char(n - 1) == '/' {
        concat(parent, name)
    } else {
        let r = concat3(parent, "/", name);
        proof {
            reveal_strlit("/");
        }
        r
    }
}

/// The path and all its ancestors, root first (see `spec_paths_chain`).
pub fn paths_chain(p: &str) -> (r: Vec<String>)
    ensures
        r@.map_values(|s: String| s@) == spec_paths_chain(p@),
    decreases p@.len(),
{
    proof {
        lemma_parent_shorter(p@);
    }
    match parent_path(p) {
        Some(parent) => {
            let mut chain = paths_chain(parent.as_str());
            let ghost before = chain@;
            chain.push(copy_str(p));
            proof {
                assert(chain@.map_values(|s: String| s@) =~= before.map_values(|s: String| s@).push(
                    p@,
                ));
            }
            chain
        },
        None => {
            let mut chain: Vec<String> = Vec::new();
            chain.push(copy_str(p));
            proof {
                assert(chain@.map_values(|s: String| s@) =~= seq![p@]);
            }
            chain
        },
    }
}

/// The path `path` (absolute, inside some folder) under the folder `base`.
pub open spec fn spec_join_paths(base: Seq<char>, path: Seq<char>) -> Seq<char> {
    if path == root_path() {
        base
    } else if base == root_path() {
        path
    } else {
        base + path
    }
}

pub fn join_paths(base: &str, path: &str) -> (r: String)
    ensures
        r@ == spec_join_paths(base@, path@),
{
    if is_root(path) {
        copy_str(base)
    } else if is_root(base) {
        copy_str(path)
    } else {
        concat(base, path)
    }
}

} // verus!
