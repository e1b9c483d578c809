//! Process-tree bookkeeping: parsing `/proc/<pid>/stat` lines and `ps`
//! listings, and walking a parent-to-children map to collect every
//! descendant of a process.

use crate::text::{
    chars_of, last_index_of, lines, parse_i64, parse_i64_spec, parse_u32, parse_u32_spec, rfind_char,
    split_lines, split_whitespace, views, words,
};
use std::collections::HashMap;
use vstd::prelude::*;

verus! {

broadcast use vstd::std_specs::hash::group_hash_axioms;

/// The children that `m` lists for `p`; none when `p` is not a key.
pub open spec fn children_of(m: Map<u32, Vec<u32>>, p: u32) -> Seq<u32> {
    if m.contains_key(p) {
        m[p]@
    } else {
        Seq::empty()
    }
}

/// `s` is a chain of processes in which each one is listed as a child of
/// the one before it.
pub open spec fn is_chain(m: Map<u32, Vec<u32>>, s: Seq<u32>) -> bool {
    &&& s.len() >= 1
    &&& forall|i: int| 0 <= i < s.len() - 1 ==> #[trigger] children_of(m, s[i]).contains(s[i + 1])
}

/// `to` can be reached from `from` by following child links (in zero or
/// more steps).
pub open spec fn reachable(m: Map<u32, Vec<u32>>, from: u32, to: u32) -> bool {
    exists|s: Seq<u32>| #[trigger] is_chain(m, s) && s[0] == from && s.last() == to
}

/// `rank` strictly decreases along every child link that starts at a
/// process reachable from `root`.
pub open spec fn ranked_from(m: Map<u32, Vec<u32>>, rank: spec_fn(u32) -> nat, root: u32) -> bool {
    forall|x: u32, c: u32|
        #![trigger reachable(m, root, x), children_of(m, x).contains(c)]
        reachable(m, root, x) && children_of(m, x).contains(c) ==> rank(c) < rank(x)
}

/// No cycle of child links can be reached from `root`: some rank strictly
/// decreases along every reachable link.
pub open spec fn acyclic_from(m: Map<u32, Vec<u32>>, root: u32) -> bool {
    exists|rank: spec_fn(u32) -> nat| ranked_from(m, rank, root)
}

/// Depth-first, pre-order listing of the subtrees of the processes in
/// `cs`, in the order they are listed.  `bound` caps the rank of the
/// processes that are entered.
pub open spec fn descendants_of_list(
    m: Map<u32, Vec<u32>>,
    rank: spec_fn(u32) -> nat,
    cs: Seq<u32>,
    bound: nat,
) -> Seq<u32>
    decreases bound, cs.len(),
{
    if cs.len() == 0 {
        Seq::empty()
    } else {
        let c = cs[0];
        let head = if rank(c) < bound {
            seq![c] + descendants_of_list(m, rank, children_of(m, c), rank(c))
        } else {
            Seq::empty()
        };
        head + descendants_of_list(m, rank, cs.drop_first(), bound)
    }
}

/// Pre-order listing of the descendants of `p` (without `p` itself).
pub open spec fn descendants_ranked(m: Map<u32, Vec<u32>>, rank: spec_fn(u32) -> nat, p: u32) -> Seq<
    u32,
> {
    descendants_of_list(m, rank, children_of(m, p), rank(p))
}

/// All descendants of `p` in depth-first pre-order, children in the order
/// the map lists them.
pub open spec fn descendants(m: Map<u32, Vec<u32>>, p: u32) -> Seq<u32> {
    descendants_ranked(m, choose|rank: spec_fn(u32) -> nat| ranked_from(m, rank, p), p)
}

proof fn lemma_descendants_of_list_append(
    m: Map<u32, Vec<u32>>,
    rank: spec_fn(u32) -> nat,
    a: Seq<u32>,
    b: Seq<u32>,
    bound: nat,
)
    ensures
        descendants_of_list(m, rank, a + b, bound) == descendants_of_list(m, rank, a, bound)
            + descendants_of_list(m, rank, b, bound),
    decreases a.len(),
{
    if a.len() == 0 {
        assert(a + b =~= b);
    } else {
        lemma_descendants_of_list_append(m, rank, a.drop_first(), b, bound);
        assert((a + b).drop_first() =~= a.drop_first() + b);
        assert((a + b)[0] == a[0]);
    }
}

proof fn lemma_single_chain(m: Map<u32, Vec<u32>>, p: u32)
    ensures
        reachable(m, p, p),
{
    let s = seq![p];
    assert(is_chain(m, s));
}

proof fn lemma_reachable_through_child(m: Map<u32, Vec<u32>>, p: u32, c: u32, x: u32)
    requires
        children_of(m, p).contains(c),
        reachable(m, c, x),
    ensures
        reachable(m, p, x),
{
    let s = choose|s: Seq<u32>| #[trigger] is_chain(m, s) && s[0] == c && s.last() == x;
    let t = seq![p] + s;
    assert forall|i: int| 0 <= i < t.len() - 1 implies #[trigger] children_of(m, t[i]).contains(
        t[i + 1],
    ) by {
        if i > 0 {
            assert(t[i] == s[i - 1]);
            assert(t[i + 1] == s[i]);
            assert(children_of(m, s[i - 1]).contains(s[i - 1 + 1]));
        }
    }
    assert(is_chain(m, t));
    assert(t.last() == s.last());
}

proof fn lemma_ranked_child(m: Map<u32, Vec<u32>>, rank: spec_fn(u32) -> nat, p: u32, c: u32)
    requires
        ranked_from(m, rank, p),
        children_of(m, p).contains(c),
    ensures
        ranked_from(m, rank, c),
        rank(c) < rank(p),
{
    lemma_single_chain(m, p);
    assert forall|x: u32, d: u32|
        #![trigger reachable(m, c, x), children_of(m, x).contains(d)]
        reachable(m, c, x) && children_of(m, x).contains(d) implies rank(d) < rank(x) by {
        lemma_reachable_through_child(m, p, c, x);
    }
}

fn collect_descendants_ranked(
    pid: u32,
    children_map: &HashMap<u32, Vec<u32>>,
    pids: &mut Vec<u32>,
    Ghost(rank): Ghost<spec_fn(u32) -> nat>,
)
    requires
        ranked_from(children_map@, rank, pid),
    ensures
        final(pids)@ == old(pids)@ + descendants_ranked(children_map@, rank, pid),
    decreases rank(pid),
{
    let ghost m = children_map@;
    let ghost start = pids@;
    match children_map.get(&pid) {
        Some(children) => {
            assert(children@ == children_of(m, pid));
            let mut i: usize = 0;
            while i < children.len()
                invariant
                    children@ == children_of(m, pid),
                    ranked_from(m, rank, pid),
                    m == children_map@,
                    i <= children.len(),
                    pids@ == start + descendants_of_list(m, rank, children@.take(i as int), rank(pid)),
                decreases children.len() - i,
            {
                let c = children[i];
                assert(children_of(m, pid).contains(c)) by {
                    assert(children@[i as int] == c);
                }
                proof {
                    lemma_ranked_child(m, rank, pid, c);
                }
                let ghost before = pids@;
                pids.push(c);
                collect_descendants_ranked(c, children_map, pids, Ghost(rank));
                proof {
                    let ghost cs = children@;
                    assert(cs.take(i + 1) =~= cs.take(i as int) + seq![c]);
                    lemma_descendants_of_list_append(m, rank, cs.take(i as int), seq![c], rank(pid));
                    let one = seq![c];
                    assert(one.drop_first() =~= Seq::<u32>::empty());
                    assert(one[0] == c);
                    assert(descendants_of_list(m, rank, one.drop_first(), rank(pid)) =~= Seq::<
                        u32,
                    >::empty());
                    assert(descendants_of_list(m, rank, one, rank(pid)) =~= seq![c]
                        + descendants_ranked(m, rank, c));
                    assert(pids@ =~= start + descendants_of_list(m, rank, cs.take(i + 1), rank(pid)));
                }
                i += 1;
            }
            assert(children@.take(children@.len() as int) =~= children@);
        },
        None => {
            assert(children_of(m, pid) =~= Seq::<u32>::empty());
            assert(pids@ =~= start + descendants_ranked(m, rank, pid));
        },
    }
}

/// Appends to `pids` every descendant of `pid` listed in `children_map`,
/// in depth-first pre-order (each child right before its own subtree).
/// A cycle reachable from `pid` would make the walk endless, so it is
/// ruled out.
pub fn collect_descendants_from_map(
    pid: u32,
    children_map: &HashMap<u32, Vec<u32>>,
    pids: &mut Vec<u32>,
)
    requires
        acyclic_from(children_map@, pid),
    ensures
        final(pids)@ == old(pids)@ + descendants(children_map@, pid),
{
    let ghost rank = choose|rank: spec_fn(u32) -> nat| ranked_from(children_map@, rank, pid);
    collect_descendants_ranked(pid, children_map, pids, Ghost(rank));
}


// ----------------------------------------------------------------------
// /proc/<pid>/stat
// ----------------------------------------------------------------------

/// The `/proc/<pid>/stat` line cannot be sliced after its command name:
/// the last `)` is the final character, or is followed by a multi-byte
/// character (the byte two past it is not a character boundary).
pub open spec fn stat_line_unsliceable(content: Seq<char>) -> bool {
    match last_index_of(content, ')') {
        Some(k) => k + 1 >= content.len() || content[k + 1] as int >= 128,
        None => false,
    }
}

/// Whether a `/proc/<pid>/stat` line can be sliced after its command
/// name (see `stat_line_unsliceable`).
pub fn stat_line_sliceable(content: &str) -> (r: bool)
    ensures
        r == !stat_line_unsliceable(content@),
{
    let chars = chars_of(content);
    match rfind_char(&chars, ')') {
        Some(k) => !(k + 1 >= chars.len() || chars[k + 1] >= '\u{80}'),
        None => true,
    }
}

/// Field `field_idx` of a stat line (0 = pid, 1 = command, 2 = state,
/// 3 = ppid, ...).  Fields from 2 on are the whitespace-separated words
/// after the last `)` and the character that follows it; the field is
/// read as a signed decimal integer.
pub open spec fn stat_field(content: Seq<char>, field_idx: nat) -> Option<i64> {
    match last_index_of(content, ')') {
        None => None,
        Some(k) => {
            if field_idx < 2 {
                None
            } else {
                let fields = words(content.skip(k + 2));
                if field_idx - 2 < fields.len() {
                    parse_i64_spec(fields[field_idx - 2])
                } else {
                    None
                }
            }
        },
    }
}

/// Parses field `field_idx` of a `/proc/<pid>/stat` line.  The command
/// name (field 1) sits in parentheses and may hold spaces, so fields are
/// counted from the last `)`.
pub fn parse_stat_field(content: &str, field_idx: usize) -> (r: Option<i64>)
    requires
        !stat_line_unsliceable(content@),
    ensures
        r == stat_field(content@, field_idx as nat),
{
    let chars = chars_of(content);
    let close_paren = match rfind_char(&chars, ')') {
        Some(k) => k,
        None => return None,
    };
    let mut after: Vec<char> = Vec::new();
    let mut i: usize = close_paren + 2;
    while i < chars.len()
        invariant
            close_paren + 2 <= i <= chars.len(),
            after@ == chars@.subrange(close_paren + 2, i as int),
        decreases chars.len() - i,
    {
        after.push(chars[i]);
        i += 1;
        assert(after@ =~= chars@.subrange(close_paren + 2, i as int));
    }
    assert(after@ =~= chars@.skip(close_paren + 2));
    if field_idx < 2 {
        return None;
    }
    let adjusted = field_idx - 2;
    let fields = split_whitespace(&after);
    if adjusted < fields.len() {
        assert(views(fields@)[adjusted as int] == fields@[adjusted as int]@);
        parse_i64(&fields[adjusted])
    } else {
        None
    }
}

// ----------------------------------------------------------------------
// `ps` listings
// ----------------------------------------------------------------------

/// A listing line holding at least two words, the first two both
/// unsigned decimal integers, gives that pair of numbers.
pub open spec fn line_pair(line: Seq<char>) -> Option<(u32, u32)> {
    let w = words(line);
    if w.len() >= 2 {
        match (parse_u32_spec(w[0]), parse_u32_spec(w[1])) {
            (Some(a), Some(b)) => Some((a, b)),
            _ => None,
        }
    } else {
        None
    }
}

/// The number pairs of the listing lines that give one, in order.
pub open spec fn listing_pairs(ls: Seq<Seq<char>>) -> Seq<(u32, u32)>
    decreases ls.len(),
{
    if ls.len() == 0 {
        Seq::empty()
    } else {
        let rest = listing_pairs(ls.drop_last());
        match line_pair(ls.last()) {
            Some(p) => rest.push(p),
            None => rest,
        }
    }
}

/// The first numbers of the pairs whose second number is `parent`, in
/// order.
pub open spec fn children_listed(pairs: Seq<(u32, u32)>, parent: u32) -> Seq<u32>
    decreases pairs.len(),
{
    if pairs.len() == 0 {
        Seq::empty()
    } else {
        let rest = children_listed(pairs.drop_last(), parent);
        if pairs.last().1 == parent {
            rest.push(pairs.last().0)
        } else {
            rest
        }
    }
}

/// Reads the pair of numbers a listing line gives, if it gives one.
pub fn parse_pair_line(line: &Vec<char>) -> (r: Option<(u32, u32)>)
    ensures
        r == line_pair(line@),
{
    let parts = split_whitespace(line);
    if parts.len() >= 2 {
        assert(views(parts@)[0] == parts@[0]@);
        assert(views(parts@)[1] == parts@[1]@);
        match (parse_u32(&parts[0]), parse_u32(&parts[1])) {
            (Some(a), Some(b)) => Some((a, b)),
            _ => None,
        }
    } else {
        None
    }
}

/// Builds the parent-to-children map from the output of
/// `ps -o pid=,ppid= -A`: every line that gives a (pid, ppid) pair adds
/// pid to the children of ppid, in listing order.
pub fn parse_children_map(output: &str) -> (m: HashMap<u32, Vec<u32>>)
    ensures
        forall|p: u32| #[trigger] m@.contains_key(p) <==> children_listed(listing_pairs(lines(output@)), p).len() > 0,
        forall|p: u32| #[trigger] m@.contains_key(p) ==> m@[p]@ == children_listed(
            listing_pairs(lines(output@)),
            p,
        ),
{
    let chars = chars_of(output);
    let ls = split_lines(&chars);
    let mut m: HashMap<u32, Vec<u32>> = HashMap::new();
    let mut i: usize = 0;
    while i < ls.len()
        invariant
            i <= ls.len(),
            views(ls@) == lines(output@),
            forall|p: u32| #[trigger] m@.contains_key(p) <==> children_listed(listing_pairs(views(ls@).take(i as int)), p).len() > 0,
            forall|p: u32| #[trigger] m@.contains_key(p) ==> m@[p]@ == children_listed(
                listing_pairs(views(ls@).take(i as int)),
                p,
            ),
        decreases ls.len() - i,
    {
        let ghost pre = listing_pairs(views(ls@).take(i as int));
        assert(views(ls@).take(i + 1).drop_last() =~= views(ls@).take(i as int));
        assert(views(ls@).take(i + 1).last() == ls@[i as int]@);
        match parse_pair_line(&ls[i]) {
            Some((child, ppid)) => {
                let ghost post = pre.push((child, ppid));
                assert(post.drop_last() =~= pre);
                let mut list: Vec<u32> = match m.get(&ppid) {
                    Some(v) => {
                        let c = v.clone();
                        assert(c@ =~= v@);
                        c
                    },
                    None => Vec::new(),
                };
                list.push(child);
                m.insert(ppid, list);
                assert forall|p: u32| #[trigger] m@.contains_key(p) <==> children_listed(post, p).len() > 0 by {
                    if p != ppid {
                        assert(children_listed(post, p) == children_listed(pre, p));
                    }
                }
                assert forall|p: u32| #[trigger] m@.contains_key(p) implies m@[p]@ == children_listed(post, p) by {
                    if p != ppid {
                        assert(children_listed(post, p) == children_listed(pre, p));
                    }
                }
            },
            None => {},
        }
        i += 1;
    }
    assert(views(ls@).take(ls.len() as int) =~= views(ls@));
    m
}

/// The first process a `ps -o pid=,pgid= -A` listing shows in process
/// group `pgrp`.
pub open spec fn first_in_group(pairs: Seq<(u32, u32)>, pgrp: u32) -> Option<u32>
    decreases pairs.len(),
{
    if pairs.len() == 0 {
        None
    } else if pairs[0].1 == pgrp {
        Some(pairs[0].0)
    } else {
        first_in_group(pairs.drop_first(), pgrp)
    }
}

proof fn lemma_listing_pairs_push(ls: Seq<Seq<char>>, l: Seq<char>)
    ensures
        listing_pairs(ls.push(l)) == match line_pair(l) {
            Some(p) => listing_pairs(ls).push(p),
            None => listing_pairs(ls),
        },
{
    assert(ls.push(l).drop_last() =~= ls);
}

proof fn lemma_first_in_group_append(a: Seq<(u32, u32)>, b: Seq<(u32, u32)>, pgrp: u32)
    ensures
        first_in_group(a + b, pgrp) == match first_in_group(a, pgrp) {
            Some(x) => Some(x),
            None => first_in_group(b, pgrp),
        },
    decreases a.len(),
{
    if a.len() == 0 {
        assert(a + b =~= b);
    } else {
        assert((a + b).drop_first() =~= a.drop_first() + b);
        lemma_first_in_group_append(a.drop_first(), b, pgrp);
    }
}

/// Finds, in the output of `ps -o pid=,pgid= -A`, the first process that
/// belongs to process group `pgrp`.
pub fn find_process_in_group_listing(output: &str, pgrp: u32) -> (r: Option<u32>)
    ensures
        r == first_in_group(listing_pairs(lines(output@)), pgrp),
{
    let chars = chars_of(output);
    let ls = split_lines(&chars);
    let mut i: usize = 0;
    while i < ls.len()
        invariant
            i <= ls.len(),
            views(ls@) == lines(output@),
            first_in_group(listing_pairs(views(ls@).take(i as int)), pgrp) is None,
        decreases ls.len() - i,
    {
        let ghost pre = views(ls@).take(i as int);
        assert(views(ls@).take(i + 1) =~= pre.push(ls@[i as int]@));
        proof {
            lemma_listing_pairs_push(pre, ls@[i as int]@);
        }
        match parse_pair_line(&ls[i]) {
            Some((pid, proc_pgrp)) => {
                proof {
                    lemma_first_in_group_append(listing_pairs(pre), seq![(pid, proc_pgrp)], pgrp);
                    assert(listing_pairs(pre).push((pid, proc_pgrp)) =~= listing_pairs(pre) + seq![(pid, proc_pgrp)]);
                }
                if proc_pgrp == pgrp {
                    proof {
                        let full = views(ls@);
                        assert(full =~= full.take(i + 1) + full.skip(i + 1));
                        lemma_listing_pairs_concat(full.take(i + 1), full.skip(i + 1));
                        lemma_first_in_group_append(listing_pairs(full.take(i + 1)), listing_pairs(full.skip(i + 1)), pgrp);
                    }
                    return Some(pid);
                }
                proof {
                    let one = seq![(pid, proc_pgrp)];
                    assert(one.drop_first() =~= Seq::<(u32, u32)>::empty());
                    assert(one[0] == (pid, proc_pgrp));
                    assert(proc_pgrp != pgrp);
                    assert(first_in_group(Seq::<(u32, u32)>::empty(), pgrp) is None);
                    assert(first_in_group(one.drop_first(), pgrp) is None);
                    assert(first_in_group(one, pgrp) is None);
                    assert(first_in_group(listing_pairs(views(ls@).take(i + 1)), pgrp) is None);
                }
            },
            None => {
                assert(listing_pairs(views(ls@).take(i + 1)) == listing_pairs(pre));
            },
        }
        i += 1;
    }
    assert(views(ls@).take(ls.len() as int) =~= views(ls@));
    None
}

proof fn lemma_listing_pairs_concat(a: Seq<Seq<char>>, b: Seq<Seq<char>>)
    ensures
        listing_pairs(a + b) == listing_pairs(a) + listing_pairs(b),
    decreases b.len(),
{
    if b.len() == 0 {
        assert(a + b =~= a);
        assert(listing_pairs(a) + listing_pairs(b) =~= listing_pairs(a));
    } else {
        assert((a + b).drop_last() =~= a + b.drop_last());
        lemma_listing_pairs_concat(a, b.drop_last());
        match line_pair(b.last()) {
            Some(p) => {
                assert(listing_pairs(a) + listing_pairs(b.drop_last()).push(p) =~= (listing_pairs(a) + listing_pairs(b.drop_last())).push(p));
            },
            None => {},
        }
    }
}

} // verus!
