//! Paths as text: components stand between slashes.

use crate::text::{chars_of, optional_text, string_of, subrange};
use vstd::prelude::*;

verus! {

/// `path` without the slashes and single dots that trail it. The slash of the
/// root stays.
pub open spec fn trimmed_path(path: Seq<char>) -> Seq<char>
    decreases path.len(),
{
    if path.len() > 1 && path.last() == '/' {
        trimmed_path(path.drop_last())
    } else if path.len() > 1 && path.last() == '.' && path[path.len() - 2] == '/' {
        trimmed_path(path.drop_last())
    } else {
        path
    }
}

/// How many characters of `path` stand before its last component.
pub open spec fn last_start(path: Seq<char>) -> int
    decreases path.len(),
{
    if path.len() == 0 || path.last() == '/' {
        path.len() as int
    } else {
        last_start(path.drop_last())
    }
}

/// The last component of a path; `None` for the root, the empty path, and
/// paths that end with a dot or two.
pub open spec fn file_name_of(path: Seq<char>) -> Option<Seq<char>> {
    let t = trimmed_path(path);
    let name = t.skip(last_start(t));
    if name.len() == 0 || name == seq!['.'] || name == seq!['.', '.'] {
        None
    } else {
        Some(name)
    }
}

/// The path without its last component; `None` for the root and the empty
/// path.
pub open spec fn parent_of(path: Seq<char>) -> Option<Seq<char>> {
    let t = trimmed_path(path);
    if t.len() == 0 || t == seq!['/'] {
        None
    } else {
        Some(trimmed_path(t.take(last_start(t))))
    }
}

/// `tail` below `base`; an absolute `tail` stands alone.
pub open spec fn path_join(base: Seq<char>, tail: Seq<char>) -> Seq<char> {
    if tail.len() > 0 && tail[0] == '/' {
        tail
    } else if base.len() == 0 || base.last() == '/' {
        base + tail
    } else {
        base + seq!['/'] + tail
    }
}

fn trim_path(path: &[char]) -> (n: usize)
    ensures
        n <= path@.len(),
        path@.take(n as int) == trimmed_path(path@),
{
    let mut n: usize = path.len();
    assert(path@.take(n as int) =~= path@);
    while n > 1 && (path[n - 1] == '/' || (path[n - 1] == '.' && path[n - 2] == '/'))
        invariant
            n <= path@.len(),
            trimmed_path(path@.take(n as int)) == trimmed_path(path@),
        decreases n,
    {
        assert(path@.take(n as int).drop_last() =~= path@.take(n as int - 1));
        n = n - 1;
    }
    n
}

fn find_last_start(path: &[char], n: usize) -> (start: usize)
    requires
        n <= path@.len(),
    ensures
        start == last_start(path@.take(n as int)),
        start <= n,
{
    let mut start: usize = n;
    while start > 0 && path[start - 1] != '/'
        invariant
            start <= n <= path@.len(),
            last_start(path@.take(start as int)) == last_start(path@.take(n as int)),
        decreases start,
    {
        assert(path@.take(start as int).drop_last() =~= path@.take(start as int - 1));
        start = start - 1;
    }
    start
}

/// The last component of a path.
pub fn file_name(path: &str) -> (name: Option<String>)
    ensures
        optional_text(name) == file_name_of(path@),
{
    let chars = chars_of(path);
    let n = trim_path(&chars);
    let start = find_last_start(&chars, n);
    let name = subrange(&chars, start, n);
    assert(name@ =~= trimmed_path(path@).skip(start as int));
    let dot = name.len() == 1 && name[0] == '.';
    let dots = name.len() == 2 && name[0] == '.' && name[1] == '.';
    assert(dot == (name@ =~= seq!['.']));
    assert(dots == (name@ =~= seq!['.', '.']));
    if name.len() == 0 || dot || dots {
        return None;
    }
    Some(string_of(&name))
}

/// The path without its last component.
pub fn parent(path: &str) -> (parent: Option<String>)
    ensures
        optional_text(parent) == parent_of(path@),
{
    let chars = chars_of(path);
    let n = trim_path(&chars);
    let root = n == 1 && chars[0] == '/';
    assert(n == 1 ==> trimmed_path(path@)[0] == chars@[0]);
    assert(root == (trimmed_path(path@) =~= seq!['/']));
    if n == 0 || root {
        return None;
    }
    let start = find_last_start(&chars, n);
    let head = subrange(&chars, 0, start);
    assert(head@ =~= trimmed_path(path@).take(start as int));
    let m = trim_path(&head);
    let trimmed = subrange(&head, 0, m);
    assert(trimmed@ =~= head@.take(m as int));
    Some(string_of(&trimmed))
}

/// `tail` below `base`.
pub fn join_path(base: &str, tail: &str) -> (path: String)
    ensures
        path@ == path_join(base@, tail@),
{
    let a = chars_of(base);
    let b = chars_of(tail);
    if b.len() > 0 && b[0] == '/' {
        return tail.to_string();
    }
    let mut path = base.to_string();
    if a.len() > 0 && a[a.len() - 1] != '/' {
        path.push('/');
    }
    path.append(tail);
    assert(path@ =~= path_join(base@, tail@));
    path
}

/// What is joined to a directory is its last component there, and the directory
/// is what is left without it. An absolute path stands alone.
pub proof fn law_joined_path(base: Seq<char>, name: Seq<char>, tail: Seq<char>)
    requires
        name.len() > 0,
        name != seq!['.'],
        name != seq!['.', '.'],
        forall|i: int| 0 <= i < name.len() ==> (#[trigger] name[i]) != '/',
    ensures
        file_name_of(path_join(base, name)) == Some(name),
        base.len() > 0 && trimmed_path(base) == base ==> parent_of(path_join(base, name)) == Some(
            base,
        ),
        path_join(base, seq!['/'] + tail) == seq!['/'] + tail,
{
    let path = path_join(base, name);
    let before = if base.len() == 0 || base.last() == '/' {
        base
    } else {
        base + seq!['/']
    };
    assert(name[0] != '/');
    assert(path =~= before + name);
    assert(path.last() == name[name.len() - 1]);
    if name.len() == 1 {
        if name[0] == '.' {
            assert(name =~= seq!['.']);
        }
    } else {
        assert(path[path.len() - 2] == name[name.len() - 2]);
    }
    assert(trimmed_path(path) == path);
    lemma_last_start(before, name);
    assert(path.skip(before.len() as int) =~= name);
    assert(path.take(before.len() as int) =~= before);
    if base.len() > 0 && trimmed_path(base) == base {
        if base.last() != '/' {
            assert(before.drop_last() =~= base);
        }
        assert(trimmed_path(before) == base);
        if path == seq!['/'] {
            assert(path.last() == '/');
        }
    }
    assert((seq!['/'] + tail)[0] == '/');
}

proof fn lemma_last_start(before: Seq<char>, name: Seq<char>)
    requires
        before.len() == 0 || before.last() == '/',
        forall|i: int| 0 <= i < name.len() ==> (#[trigger] name[i]) != '/',
    ensures
        last_start(before + name) == before.len(),
    decreases name.len(),
{
    if name.len() == 0 {
        assert(before + name =~= before);
    } else {
        let less = name.drop_last();
        assert forall|i: int| 0 <= i < less.len() implies (#[trigger] less[i]) != '/' by {
            assert(less[i] == name[i]);
        }
        lemma_last_start(before, less);
        assert((before + name).drop_last() =~= before + less);
        assert((before + name).last() == name[name.len() - 1]);
    }
}

} // verus!
