//! What `join` and `parent` make of every path.
//!
//! The laws on `parent_of` leave no path out. One without a slash is a name, a dot
//! or empty. Any other ends in a slash, in a slash and a dot, or in a slash and a
//! name, and what stands before that slash is empty, ends in a slash or in a slash
//! and a dot, or is the directory.

use crate::install_laws::{last_start_behind_slash, no_slash_no_start};
use crate::paths::{
    ends_in_name, joined, last_start, last_start_is_within, lead, leads_with_dot, parent_of,
    trimmed, without_last,
};
use vstd::prelude::*;

verus! {

/// Whether no character of the path is a slash.
pub open spec fn is_without_slash(path: Seq<char>) -> bool {
    forall|i: int| 0 <= i < path.len() ==> path[i] != '/'
}

/// Whether the path is one name: not empty, without a slash, and not a dot.
pub open spec fn is_name(path: Seq<char>) -> bool {
    path.len() > 0 && is_without_slash(path) && path != seq!['.']
}

/// An absolute path stays as it is. A relative one comes to stand behind the base,
/// with a single slash between the two where the base is not empty and does not end
/// in one; nothing of either is lost.
pub proof fn joined_is_base_and_relative(base: Seq<char>, relative: Seq<char>)
    ensures
        ({
            let path = joined(base, relative);
            &&& relative.len() > 0 && relative[0] == '/' ==> path == relative
            &&& relative.len() == 0 || relative[0] != '/' ==> {
                &&& base.is_prefix_of(path)
                &&& relative.is_suffix_of(path)
                &&& base.len() == 0 ==> path.len() == relative.len()
                &&& base.len() > 0 && base[base.len() - 1] == '/' ==> path.len() == base.len()
                    + relative.len()
                &&& base.len() > 0 && base[base.len() - 1] != '/' ==> path.len() == base.len() + 1
                    + relative.len() && path[base.len() as int] == '/'
            }
        }),
{
    let path = joined(base, relative);
    if relative.len() == 0 || relative[0] != '/' {
        assert(base =~= path.subrange(0, base.len() as int));
        assert(relative =~= path.subrange(path.len() - relative.len(), path.len() as int));
    }
}

/// Two relative paths are the same if they are the same as seen from one base.
pub proof fn joined_keeps_relative_paths_apart(base: Seq<char>, one: Seq<char>, other: Seq<char>)
    requires
        one.len() == 0 || one[0] != '/',
        other.len() == 0 || other[0] != '/',
        joined(base, one) == joined(base, other),
    ensures
        one == other,
{
    joined_is_base_and_relative(base, one);
    joined_is_base_and_relative(base, other);
    let path = joined(base, one);
    assert(one =~= path.subrange(path.len() - one.len(), path.len() as int));
    assert(other =~= path.subrange(path.len() - other.len(), path.len() as int));
}

proof fn slash_before_last_start(path: Seq<char>, lead: nat)
    ensures
        last_start(path, lead) > lead ==> path[last_start(path, lead) - 1] == '/',
    decreases path.len(),
{
    if path.len() > lead && path.last() != '/' {
        last_start_is_within(path.drop_last(), lead);
        slash_before_last_start(path.drop_last(), lead);
    }
}

/// What stands before the components proper does not change if a slash and more
/// is put behind a path.
proof fn lead_stays(dir: Seq<char>, rest: Seq<char>)
    requires
        dir.len() > 0,
    ensures
        lead(dir.push('/') + rest) == lead(dir),
        leads_with_dot(dir.push('/') + rest) == leads_with_dot(dir),
{
    let path = dir.push('/') + rest;
    assert(path[0] == dir[0]);
    if dir.len() > 1 {
        assert(path[1] == dir[1]);
    } else {
        assert(path[1] == '/');
    }
}

/// A slash at the end, or a slash and a dot, counts for nothing.
proof fn trimmed_drops_slash_and_dot(path: Seq<char>)
    requires
        path.len() > 0,
    ensures
        trimmed(path.push('/'), lead(path)) == trimmed(path, lead(path)),
        trimmed(path.push('/').push('.'), lead(path)) == trimmed(path, lead(path)),
{
    let lead = lead(path);
    let slashed = path.push('/');
    assert(slashed.last() == '/');
    assert(slashed.skip(slashed.len() as int).len() == 0);
    assert(without_last(slashed, lead) =~= path);
    let dotted = slashed.push('.');
    let dot = seq!['.'];
    assert(dotted =~= slashed + dot);
    no_slash_no_start(dot);
    last_start_behind_slash(slashed, dot, lead);
    assert(dotted.skip(slashed.len() as int) =~= dot);
    assert(without_last(dotted, lead) =~= path);
}

/// The directory of a name behind a slash is what stands before the slash, without
/// what counts for nothing there.
proof fn parent_behind_slash(dir: Seq<char>, name: Seq<char>)
    requires
        dir.len() > 0,
        is_name(name),
    ensures
        parent_of(dir.push('/') + name) == Some(trimmed(dir, lead(dir))),
{
    lead_stays(dir, name);
    let front = dir.push('/');
    let path = front + name;
    let lead = lead(dir);
    no_slash_no_start(name);
    last_start_behind_slash(front, name, lead);
    assert(path.skip(front.len() as int) =~= name);
    assert(ends_in_name(path, lead));
    assert(without_last(path, lead) =~= dir);
}

/// A single name, or a dot, is in the directory that the empty path stands for. The
/// empty path itself is in none.
pub proof fn parent_of_a_single_component(path: Seq<char>)
    requires
        is_without_slash(path),
    ensures
        path.len() == 0 ==> parent_of(path) is None,
        path.len() > 0 ==> parent_of(path) == Some(Seq::<char>::empty()),
{
    no_slash_no_start(path);
    assert(path.skip(0) =~= path);
    if path.len() > 0 {
        assert(path[0] != '/');
        if path == seq!['.'] {
            assert(leads_with_dot(path));
        } else {
            if path.len() > 1 {
                assert(path[1] != '/');
            } else if path[0] == '.' {
                assert(path =~= seq!['.']);
            }
            assert(ends_in_name(path, 0));
            assert(without_last(path, 0) =~= Seq::<char>::empty());
        }
    }
}

/// A name directly behind the slash of an absolute path is in the root directory,
/// which is in none.
pub proof fn parent_at_the_root(name: Seq<char>)
    requires
        is_name(name),
    ensures
        parent_of(seq!['/'] + name) == Some(seq!['/']),
        parent_of(seq!['/']) is None,
{
    let root = seq!['/'];
    let path = root + name;
    no_slash_no_start(name);
    last_start_behind_slash(root, name, 1);
    assert(path[0] == '/');
    assert(path.skip(1) =~= name);
    assert(ends_in_name(path, 1));
    assert(without_last(path, 1) =~= root);
}

/// A name behind a slash is in the directory before that slash, all of it, whatever
/// is in there, unless the directory is empty or ends in a slash, or in a slash and
/// a dot.
pub proof fn parent_of_a_name_in_a_directory(dir: Seq<char>, name: Seq<char>)
    requires
        is_name(name),
        dir.len() > 0,
        dir[dir.len() - 1] != '/',
        !(dir.len() > 1 && dir[dir.len() - 1] == '.' && dir[dir.len() - 2] == '/'),
    ensures
        parent_of(dir.push('/') + name) == Some(dir),
{
    parent_behind_slash(dir, name);
    let lead = lead(dir);
    let start = last_start(dir, lead);
    last_start_is_within(dir, lead);
    slash_before_last_start(dir, lead);
    if dir.len() > lead {
        let last = dir.skip(start as int);
        if start == dir.len() {
            last_start_is_within(dir.drop_last(), lead);
        }
        assert(last.len() > 0);
        if last == seq!['.'] {
            assert(last[0] == dir[start as int]);
            assert(start == dir.len() - 1);
        }
        assert(ends_in_name(dir, lead));
    }
}

/// Slashes, and slashes with a dot behind them, count for nothing at the end of a
/// path and before the slash of its last name.
pub proof fn parent_ignores_empty_components_and_dots(dir: Seq<char>, name: Seq<char>)
    requires
        is_name(name),
    ensures
        parent_of(dir.push('/')) == parent_of(dir),
        parent_of(dir.push('/').push('.')) == parent_of(dir),
        parent_of(dir.push('/').push('/') + name) == parent_of(dir.push('/') + name),
        parent_of(dir.push('/').push('.').push('/') + name) == parent_of(dir.push('/') + name),
{
    let slashed = dir.push('/');
    let dotted = slashed.push('.');
    parent_behind_slash(slashed, name);
    parent_behind_slash(dotted, name);
    if dir.len() > 0 {
        assert(slashed + Seq::<char>::empty() =~= slashed);
        assert(slashed + seq!['.'] =~= dotted);
        lead_stays(dir, Seq::empty());
        lead_stays(dir, seq!['.']);
        trimmed_drops_slash_and_dot(dir);
        parent_behind_slash(dir, name);
    } else {
        assert(slashed =~= seq!['/']);
        parent_at_the_root(name);
        let root = seq!['/'];
        let dot = seq!['.'];
        no_slash_no_start(dot);
        last_start_behind_slash(root, dot, 1);
        assert(dotted =~= root + dot);
        assert(dotted.skip(1) =~= dot);
        assert(without_last(dotted, 1) =~= root);
        assert(trimmed(dotted, 1) == root);
    }
}

} // verus!
