//! Paths, as strings: their parents, joining them, and `PATH`-style lists of them.

use vstd::prelude::*;
use crate::text::{join_with, views};

verus! {

/// What `Path::parent` gives for the path `p`: the path without its final
/// component, or nothing for a root, a prefix or the empty path.
pub uninterp spec fn path_parent_of(p: Seq<char>) -> Option<Seq<char>>;

/// What `Path::join` gives for `base` and `rel` on Unix: an absolute `rel`
/// (one that starts with `/`) replaces `base`; otherwise `rel` is appended to
/// `base`, with a `/` between them where `base` is non-empty and does not
/// already end in `/`.
pub open spec fn path_joined(base: Seq<char>, rel: Seq<char>) -> Seq<char> {
    if rel.len() > 0 && rel[0] == '/' {
        rel
    } else if base.len() > 0 && base.last() != '/' {
        base + seq!['/'] + rel
    } else {
        base + rel
    }
}

/// Calls `std::path::Path::parent` on `p`. The contract names the result
/// (`path_parent_of`) and states one fact of it, that the empty path has no
/// parent; it says nothing more, since when a path has a parent depends on the
/// platform's rules for roots, prefixes and `.` components.
#[verifier::external_body]
pub(crate) fn path_parent(p: &str) -> (r: Option<String>)
    ensures
        p@.len() == 0 ==> r is None,
        match r {
            Some(q) => path_parent_of(p@) == Some(q@),
            None => path_parent_of(p@) is None,
        },
{
    std::path::Path::new(p).parent().map(|q| q.to_string_lossy().into_owned())
}

/// Joins `rel` onto `base` as `Path::join` does on Unix (see `path_joined`).
pub fn path_join(base: &str, rel: &str) -> (r: String)
    ensures
        r@ == path_joined(base@, rel@),
{
    let rel_chars = crate::text::chars_of(rel);
    if rel_chars.len() > 0 && rel_chars[0] == '/' {
        return rel.to_owned();
    }
    let base_chars = crate::text::chars_of(base);
    let mut r = base.to_owned();
    if base_chars.len() > 0 && base_chars[base_chars.len() - 1] != '/' {
        proof { reveal_strlit("/"); }
        r.append("/");
    }
    r.append(rel);
    r
}

/// The separator between the entries of a `PATH` list.
pub open spec fn list_separator() -> char {
    ':'
}

/// The index of the first entry that holds the separator, if any does.
pub open spec fn first_with_separator(entries: Seq<Seq<char>>) -> Option<int> {
    if exists|i: int| 0 <= i < entries.len() && entries[i].contains(list_separator()) {
        Some(choose|i: int|
            0 <= i < entries.len() && entries[i].contains(list_separator())
            && forall|j: int| 0 <= j < i ==> !entries[j].contains(list_separator()))
    } else {
        None
    }
}

/// What `std::env::join_paths` gives on Unix: the entries joined by `:`, or,
/// where an entry holds `:` itself, that entry as the error.
pub open spec fn join_paths_spec(entries: Seq<Seq<char>>) -> Result<Seq<char>, Seq<char>> {
    match first_with_separator(entries) {
        Some(i) => Err(entries[i]),
        None => Ok(join_with(entries, seq![list_separator()])),
    }
}

proof fn lemma_first_with_separator(entries: Seq<Seq<char>>, k: int)
    requires
        0 <= k < entries.len(),
        entries[k].contains(list_separator()),
        forall|j: int| 0 <= j < k ==> !entries[j].contains(list_separator()),
    ensures
        first_with_separator(entries) == Some(k),
{
    let i = choose|i: int|
        0 <= i < entries.len() && entries[i].contains(list_separator())
        && forall|j: int| 0 <= j < i ==> !entries[j].contains(list_separator());
    assert(0 <= i < entries.len() && entries[i].contains(list_separator())
        && forall|j: int| 0 <= j < i ==> !entries[j].contains(list_separator()));
    if i < k {
    } else if i > k {
        assert(!entries[k].contains(list_separator()));
    }
}

fn contains_separator(s: &str) -> (b: bool)
    ensures
        b == s@.contains(list_separator()),
{
    let cs = crate::text::chars_of(s);
    let mut i: usize = 0;
    while i < cs.len()
        invariant
            cs@ == s@,
            i <= cs.len(),
            forall|j: int| 0 <= j < i ==> cs@[j] != list_separator(),
        decreases cs.len() - i,
    {
        if cs[i] == ':' {
            assert(s@[i as int] == list_separator());
            return true;
        }
        i += 1;
    }
    false
}

/// Joins `entries` into one `PATH` list, as `std::env::join_paths` does on Unix;
/// the error is the first entry that holds the separator `:`.
pub fn join_paths(entries: &[String]) -> (r: Result<String, String>)
    ensures
        match r {
            Ok(s) => join_paths_spec(views(entries@)) == Ok::<Seq<char>, Seq<char>>(s@),
            Err(e) => join_paths_spec(views(entries@)) == Err::<Seq<char>, Seq<char>>(e@),
        },
{
    let n = entries.len();
    let mut i: usize = 0;
    while i < n
        invariant
            n == entries@.len(),
            i <= n,
            forall|j: int| 0 <= j < i ==> !(#[trigger] entries@[j])@.contains(list_separator()),
        decreases n - i,
    {
        if contains_separator(entries[i].as_str()) {
            proof {
                let vs = views(entries@);
                assert forall|j: int| 0 <= j < i implies !vs[j].contains(list_separator()) by {
                    assert(vs[j] == entries@[j]@);
                }
                lemma_first_with_separator(vs, i as int);
            }
            return Err(entries[i].clone());
        }
        i += 1;
    }
    proof {
        let vs = views(entries@);
        assert forall|j: int| 0 <= j < vs.len() implies !vs[j].contains(list_separator()) by {
            assert(vs[j] == entries@[j]@);
        }
    }
    proof {
        reveal_strlit(":");
        assert(":"@ =~= seq![list_separator()]);
    }
    let joined = crate::text::join_strings(entries, ":");
    Ok(joined)
}

} // verus!

verus! {

/// `s` cut at each `sep`, as `s.split(sep)` gives: always at least one piece.
pub open spec fn split_on(s: Seq<char>, sep: char) -> Seq<Seq<char>>
    decreases s.len(),
{
    if s.len() == 0 {
        seq![Seq::empty()]
    } else {
        let r = split_on(s.drop_last(), sep);
        if s.last() == sep {
            r.push(Seq::empty())
        } else {
            r.update(r.len() - 1, r.last().push(s.last()))
        }
    }
}


proof fn lemma_split_without_sep(y: Seq<char>, sep: char)
    requires
        !y.contains(sep),
    ensures
        split_on(y, sep) == seq![y],
    decreases y.len(),
{
    if y.len() > 0 {
        let z = y.drop_last();
        assert(!z.contains(sep)) by {
            if z.contains(sep) {
                let k = choose|k: int| 0 <= k < z.len() && z[k] == sep;
                assert(y[k] == sep);
            }
        }
        lemma_split_without_sep(z, sep);
        assert(y.last() != sep);
        assert(z.push(y.last()) =~= y);
        assert(seq![z].update(0, z.push(y.last())) =~= seq![y]);
    } else {
        assert(y =~= Seq::<char>::empty());
    }
}

proof fn lemma_split_after_sep(x: Seq<char>, y: Seq<char>, sep: char)
    requires
        !y.contains(sep),
    ensures
        split_on(x + seq![sep] + y, sep) == split_on(x, sep).push(y),
    decreases y.len(),
{
    let s = x + seq![sep] + y;
    if y.len() == 0 {
        assert(s.drop_last() =~= x);
        assert(s.last() == sep);
        assert(y =~= Seq::<char>::empty());
    } else {
        let z = y.drop_last();
        assert(!z.contains(sep)) by {
            if z.contains(sep) {
                let k = choose|k: int| 0 <= k < z.len() && z[k] == sep;
                assert(y[k] == sep);
            }
        }
        lemma_split_after_sep(x, z, sep);
        assert(s.drop_last() =~= x + seq![sep] + z);
        assert(s.last() == y.last());
        assert(y.last() != sep);
        let r = split_on(x, sep).push(z);
        assert(r.update(r.len() - 1, z.push(y.last())) =~= split_on(x, sep).push(y)) by {
            assert(z.push(y.last()) =~= y);
        }
    }
}

proof fn lemma_split_join(entries: Seq<Seq<char>>, sep: char)
    requires
        entries.len() > 0,
        forall|i: int| 0 <= i < entries.len() ==> !(#[trigger] entries[i]).contains(sep),
    ensures
        split_on(join_with(entries, seq![sep]), sep) == entries,
    decreases entries.len(),
{
    if entries.len() == 1 {
        lemma_split_without_sep(entries[0], sep);
        assert(seq![entries[0]] =~= entries);
    } else {
        let init = entries.drop_last();
        assert forall|i: int| 0 <= i < init.len() implies !(#[trigger] init[i]).contains(sep) by {
            assert(init[i] == entries[i]);
        }
        lemma_split_join(init, sep);
        assert(!entries.last().contains(sep));
        lemma_split_after_sep(join_with(init, seq![sep]), entries.last(), sep);
        assert(init.push(entries.last()) =~= entries);
    }
}

/// A `PATH` list that `join_paths` built from one or more entries splits at `:`
/// back into those entries, in order.
pub proof fn law_split_joined_paths(entries: Seq<Seq<char>>, joined: Seq<char>)
    requires
        entries.len() > 0,
        join_paths_spec(entries) == Ok::<Seq<char>, Seq<char>>(joined),
    ensures
        split_on(joined, list_separator()) == entries,
{
    if exists|i: int| 0 <= i < entries.len() && entries[i].contains(list_separator()) {
        let k = choose|i: int| 0 <= i < entries.len() && entries[i].contains(list_separator());
        assert(first_with_separator(entries) is Some);
    }
    lemma_split_join(entries, list_separator());
}

} // verus!
