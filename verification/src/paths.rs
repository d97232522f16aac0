//! Slash-separated file paths as strings.
//!
//! `join` and `parent` treat a path as `std::path` does where `/` is the
//! separator: empty components and components that are a single dot count for
//! nothing, except for a dot that the path begins with.

use vstd::prelude::*;
use vstd::string::*;

verus! {

/// `relative` as seen from the directory `base`. An absolute path stays as it is.
pub open spec fn joined(base: Seq<char>, relative: Seq<char>) -> Seq<char> {
    if relative.len() > 0 && relative[0] == '/' {
        relative
    } else if base.len() == 0 || base.last() == '/' {
        base + relative
    } else {
        base.push('/') + relative
    }
}

/// Whether the path begins with a dot that is a component of its own.
pub open spec fn leads_with_dot(path: Seq<char>) -> bool {
    path.len() > 0 && path[0] == '.' && (path.len() == 1 || path[1] == '/')
}

/// How many characters stand before the components proper: one for the slash of
/// an absolute path or for a leading dot.
pub open spec fn lead(path: Seq<char>) -> nat {
    if leads_with_dot(path) || (path.len() > 0 && path[0] == '/') {
        1
    } else {
        0
    }
}

/// Where the last component of the path begins, after the first `lead`
/// characters.
pub open spec fn last_start(path: Seq<char>, lead: nat) -> nat
    decreases path.len(),
{
    if path.len() <= lead || path.last() == '/' {
        path.len()
    } else {
        last_start(path.drop_last(), lead)
    }
}

/// The path without its last component and the slash before it.
pub open spec fn without_last(path: Seq<char>, lead: nat) -> Seq<char> {
    let start = last_start(path, lead);
    path.take(
        if start > lead {
            start - 1
        } else {
            lead as int
        },
    )
}

/// Whether the last component is one that counts: neither empty nor a dot.
pub open spec fn ends_in_name(path: Seq<char>, lead: nat) -> bool {
    let last = path.skip(last_start(path, lead) as int);
    path.len() > lead && last.len() > 0 && last != seq!['.']
}

/// The path up to its last component that counts.
pub open spec fn trimmed(path: Seq<char>, lead: nat) -> Seq<char>
    decreases path.len(),
    via trimmed_shrinks
{
    if path.len() <= lead || ends_in_name(path, lead) {
        path
    } else {
        trimmed(without_last(path, lead), lead)
    }
}

#[via_fn]
proof fn trimmed_shrinks(path: Seq<char>, lead: nat) {
    last_start_is_within(path, lead);
}

/// The path without its last component; `None` if there is none to leave out.
pub open spec fn parent_of(path: Seq<char>) -> Option<Seq<char>> {
    let lead = lead(path);
    let whole = trimmed(path, lead);
    if whole.len() > lead {
        Some(trimmed(without_last(whole, lead), lead))
    } else if leads_with_dot(path) {
        Some(Seq::empty())
    } else {
        None
    }
}

pub(crate) proof fn last_start_is_within(path: Seq<char>, lead: nat)
    ensures
        last_start(path, lead) <= path.len(),
        path.len() >= lead ==> last_start(path, lead) >= lead,
    decreases path.len(),
{
    if path.len() > lead && path.last() != '/' {
        last_start_is_within(path.drop_last(), lead);
    }
}

/// `relative` as seen from the directory `base`. An absolute path stays as it is.
pub fn join(base: &str, relative: &str) -> (path: String)
    ensures
        path@ == joined(base@, relative@),
{
    let base_len: usize = base.unicode_len();
    if relative.unicode_len() > 0 && relative.get_char(0) == '/' {
        relative.to_owned()
    } else if base_len == 0 || base.get_char(base_len - 1) == '/' {
        base.to_owned().concat(relative)
    } else {
        proof {
            reveal_strlit("/");
            assert(base@ + "/"@ =~= base@.push('/'));
        }
        base.to_owned().concat("/").concat(relative)
    }
}

/// Where the last component of the first `end` characters begins.
fn last_component(path: &str, end: usize, lead: usize) -> (start: usize)
    requires
        lead <= end <= path@.len(),
    ensures
        start == last_start(path@.take(end as int), lead as nat),
        lead <= start <= end,
{
    let mut start: usize = end;
    while start > lead && path.get_char(start - 1) != '/'
        invariant
            lead <= start <= end <= path@.len(),
            last_start(path@.take(end as int), lead as nat) == last_start(
                path@.take(start as int),
                lead as nat,
            ),
        decreases start,
    {
        assert(path@.take(start as int).drop_last() =~= path@.take(start - 1));
        start = start - 1;
    }
    start
}

/// How many of the first `end` characters are left without the components at
/// their end that count for nothing.
fn trimmed_len(path: &str, end: usize, lead: usize) -> (len: usize)
    requires
        lead <= end <= path@.len(),
    ensures
        lead <= len <= end,
        path@.take(len as int) == trimmed(path@.take(end as int), lead as nat),
    decreases end,
{
    if end == lead {
        return end;
    }
    let ghost whole = path@.take(end as int);
    let start: usize = last_component(path, end, lead);
    let ghost last = whole.skip(start as int);
    if start < end && !(start + 1 == end && path.get_char(start) == '.') {
        assert(last != seq!['.']) by {
            if end - start == 1 {
                assert(last[0] == path@[start as int]);
            }
        }
        return end;
    }
    assert(last.len() == 0 || last =~= seq!['.']);
    let rest: usize = if start > lead {
        start - 1
    } else {
        lead
    };
    assert(whole.take(rest as int) =~= path@.take(rest as int));
    trimmed_len(path, rest, lead)
}

/// The path without its last component; `None` if there is none to leave out.
pub fn parent(path: &str) -> (dir: Option<&str>)
    ensures
        match dir {
            Some(dir) => parent_of(path@) == Some(dir@),
            None => parent_of(path@) is None,
        },
{
    let len: usize = path.unicode_len();
    assert(path@.take(len as int) =~= path@);
    let dotted = len > 0 && path.get_char(0) == '.' && (len == 1 || path.get_char(1) == '/');
    let rooted = len > 0 && path.get_char(0) == '/';
    let lead: usize = if dotted || rooted {
        1
    } else {
        0
    };
    let whole: usize = trimmed_len(path, len, lead);
    if whole > lead {
        let start: usize = last_component(path, whole, lead);
        let rest: usize = if start > lead {
            start - 1
        } else {
            lead
        };
        assert(path@.take(whole as int).take(rest as int) =~= path@.take(rest as int));
        let end: usize = trimmed_len(path, rest, lead);
        assert(path@.subrange(0, end as int) =~= path@.take(end as int));
        Some(path.substring_char(0, end))
    } else if dotted {
        assert(path@.subrange(0, 0) =~= Seq::<char>::empty());
        Some(path.substring_char(0, 0))
    } else {
        None
    }
}

} // verus!
