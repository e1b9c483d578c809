//! The line diff of two texts in hunks: `similar` finds the changes and
//! groups them with their context; the hunks (where each starts, how many
//! lines it spans on each side, and its lines numbered from one) are built
//! here.

use crate::diff_view::{ChangeTag, DiffHunk, DiffLine, FileDiff};
use vstd::prelude::*;

verus! {

/// One change of a line diff as `similar` reports it: its tag, its line
/// indexes (from zero) in the old and the new text, and the line.
pub struct LineChange {
    pub tag: ChangeTag,
    pub old_index: Option<usize>,
    pub new_index: Option<usize>,
    pub value: String,
}

/// One operation of a grouped line diff: the ranges of lines it covers in
/// the old and the new text, and its changes.
pub struct DiffOpView {
    pub old_start: usize,
    pub old_end: usize,
    pub new_start: usize,
    pub new_end: usize,
    pub changes: Vec<LineChange>,
}

/// A change as plain values.
pub open spec fn change_view(c: LineChange) -> (ChangeTag, Option<usize>, Option<usize>, Seq<char>) {
    (c.tag, c.old_index, c.new_index, c.value@)
}

/// An operation as plain values.
pub open spec fn op_view(o: DiffOpView) -> (usize, usize, usize, usize, Seq<(ChangeTag, Option<usize>, Option<usize>, Seq<char>)>) {
    (o.old_start, o.old_end, o.new_start, o.new_end, o.changes@.map_values(|c: LineChange| change_view(c)))
}

/// Groups of operations as plain values.
pub open spec fn groups_view(gs: Seq<Vec<DiffOpView>>) -> Seq<Seq<(usize, usize, usize, usize, Seq<(ChangeTag, Option<usize>, Option<usize>, Seq<char>)>)>> {
    gs.map_values(|g: Vec<DiffOpView>| g@.map_values(|o: DiffOpView| op_view(o)))
}

/// The grouped operations that `similar` finds in the line diff of `old`
/// against `new`, keeping `context` lines of context around each change.
pub uninterp spec fn grouped_line_diff(old: Seq<char>, new: Seq<char>, context: nat) -> Seq<
    Seq<(usize, usize, usize, usize, Seq<(ChangeTag, Option<usize>, Option<usize>, Seq<char>)>)>,
>;

/// Runs `similar::TextDiff::from_lines` on `old` and `new` (with no
/// deadline, so the result depends on the texts alone), takes its
/// `grouped_ops(context)` and reads each operation's ranges and, through
/// `iter_changes`, its changes.  The contract only names the result.
#[verifier::external_body]
fn similar_grouped_lines(old: &str, new: &str, context: usize) -> (r: Vec<Vec<DiffOpView>>)
    ensures
        groups_view(r@) == grouped_line_diff(old@, new@, context as nat),
{
    let diff = similar::TextDiff::from_lines(old, new);
    diff.grouped_ops(context).iter().map(|group| group.iter().map(|op| DiffOpView {
        old_start: op.old_range().start, old_end: op.old_range().end,
        new_start: op.new_range().start, new_end: op.new_range().end,
        changes: diff.iter_changes(op).map(|c| LineChange {
            tag: match c.tag() {
                similar::ChangeTag::Equal => ChangeTag::Equal,
                similar::ChangeTag::Delete => ChangeTag::Delete,
                similar::ChangeTag::Insert => ChangeTag::Insert,
            },
            old_index: c.old_index(), new_index: c.new_index(), value: c.value().to_string(),
        }).collect(),
    }).collect()).collect()
}

/// A line index counted from one.
pub open spec fn numbered(i: Option<usize>) -> Option<int> {
    match i {
        Some(n) => Some(n + 1),
        None => None,
    }
}

/// The changes of a group's operations, in order.
pub open spec fn changes_of_ops(ops: Seq<(usize, usize, usize, usize, Seq<(ChangeTag, Option<usize>, Option<usize>, Seq<char>)>)>) -> Seq<(ChangeTag, Option<usize>, Option<usize>, Seq<char>)>
    decreases ops.len(),
{
    if ops.len() == 0 {
        Seq::empty()
    } else {
        changes_of_ops(ops.drop_last()) + ops.last().4
    }
}

/// A diff line: the change with its indexes counted from one.
pub open spec fn line_spec(c: (ChangeTag, Option<usize>, Option<usize>, Seq<char>)) -> (ChangeTag, Option<int>, Option<int>, Seq<char>) {
    (c.0, numbered(c.1), numbered(c.2), c.3)
}

/// The hunk of a non-empty group: it starts (counted from one) where its
/// first operation starts and spans to where its last one ends, on each
/// side; its lines are the changes of its operations.
pub open spec fn hunk_spec(g: Seq<(usize, usize, usize, usize, Seq<(ChangeTag, Option<usize>, Option<usize>, Seq<char>)>)>) -> (int, int, int, int, Seq<(ChangeTag, Option<int>, Option<int>, Seq<char>)>) {
    (
        g[0].0 + 1,
        g.last().1 - g[0].0,
        g[0].2 + 1,
        g.last().3 - g[0].2,
        changes_of_ops(g).map_values(|c: (ChangeTag, Option<usize>, Option<usize>, Seq<char>)| line_spec(c)),
    )
}

/// The hunks of the groups: one for each non-empty group, in order.
pub open spec fn hunks_spec(gs: Seq<Seq<(usize, usize, usize, usize, Seq<(ChangeTag, Option<usize>, Option<usize>, Seq<char>)>)>>) -> Seq<(int, int, int, int, Seq<(ChangeTag, Option<int>, Option<int>, Seq<char>)>)>
    decreases gs.len(),
{
    if gs.len() == 0 {
        Seq::empty()
    } else if gs.last().len() == 0 {
        hunks_spec(gs.drop_last())
    } else {
        hunks_spec(gs.drop_last()).push(hunk_spec(gs.last()))
    }
}

/// The numbers of a non-empty group's hunk fit in a `usize`: every index
/// is below the largest, and each side's span does not run backwards.
pub open spec fn group_fits(g: Seq<(usize, usize, usize, usize, Seq<(ChangeTag, Option<usize>, Option<usize>, Seq<char>)>)>) -> bool {
    &&& g[0].0 < usize::MAX
    &&& g[0].2 < usize::MAX
    &&& g.last().1 >= g[0].0
    &&& g.last().3 >= g[0].2
    &&& forall|k: int, m: int|
        0 <= k < g.len() && 0 <= m < g[k].4.len() ==> (#[trigger] g[k].4[m]).1 != Some(usize::MAX)
            && g[k].4[m].2 != Some(usize::MAX)
}

/// Every non-empty group fits.
pub open spec fn groups_fit(gs: Seq<Seq<(usize, usize, usize, usize, Seq<(ChangeTag, Option<usize>, Option<usize>, Seq<char>)>)>>) -> bool {
    forall|j: int| 0 <= j < gs.len() && (#[trigger] gs[j]).len() > 0 ==> group_fits(gs[j])
}

/// An optional `usize` as an optional integer.
pub open spec fn opt_int(i: Option<usize>) -> Option<int> {
    match i {
        Some(n) => Some(n as int),
        None => None,
    }
}

/// A diff line as plain values.
pub open spec fn diff_line_view(l: DiffLine) -> (ChangeTag, Option<int>, Option<int>, Seq<char>) {
    (l.tag, opt_int(l.old_line_num), opt_int(l.new_line_num), l.content@)
}

/// A hunk as plain values.
pub open spec fn hunk_view(h: DiffHunk) -> (int, int, int, int, Seq<(ChangeTag, Option<int>, Option<int>, Seq<char>)>) {
    (
        h.old_start as int,
        h.old_lines as int,
        h.new_start as int,
        h.new_lines as int,
        h.lines@.map_values(|l: DiffLine| diff_line_view(l)),
    )
}

fn number(i: Option<usize>) -> (r: Option<usize>)
    requires
        i != Some(usize::MAX),
    ensures
        opt_int(r) == numbered(i),
{
    match i {
        Some(n) => Some(n + 1),
        None => None,
    }
}

/// The lines of one group's operations, numbered from one; none where an
/// index is the largest `usize` (it cannot be counted from one).
fn group_lines(g: &Vec<DiffOpView>) -> (r: Option<Vec<DiffLine>>)
    ensures
        (forall|k: int, m: int|
            0 <= k < g@.len() && 0 <= m < g@[k].changes@.len() ==> (#[trigger] g@[k].changes@[m]).old_index
                != Some(usize::MAX) && g@[k].changes@[m].new_index != Some(usize::MAX)) <==> r is Some,
        r matches Some(ls) ==> ls@.map_values(|l: DiffLine| diff_line_view(l)) == changes_of_ops(
            g@.map_values(|o: DiffOpView| op_view(o)),
        ).map_values(|c: (ChangeTag, Option<usize>, Option<usize>, Seq<char>)| line_spec(c)),
{
    let ghost gv = g@.map_values(|o: DiffOpView| op_view(o));
    let mut out: Vec<DiffLine> = Vec::new();
    let mut k: usize = 0;
    while k < g.len()
        invariant
            k <= g@.len(),
            gv == g@.map_values(|o: DiffOpView| op_view(o)),
            forall|kk: int, m: int|
                0 <= kk < k && 0 <= m < g@[kk].changes@.len() ==> (#[trigger] g@[kk].changes@[m]).old_index
                    != Some(usize::MAX) && g@[kk].changes@[m].new_index != Some(usize::MAX),
            out@.map_values(|l: DiffLine| diff_line_view(l)) == changes_of_ops(gv.take(k as int)).map_values(
                |c: (ChangeTag, Option<usize>, Option<usize>, Seq<char>)| line_spec(c),
            ),
        decreases g@.len() - k,
    {
        let op = &g[k];
        let ghost before = out@.map_values(|l: DiffLine| diff_line_view(l));
        let ghost cs = op.changes@.map_values(|c: LineChange| change_view(c));
        let mut m: usize = 0;
        while m < op.changes.len()
            invariant
                m <= op.changes@.len(),
                k < g@.len(),
                op.changes@ == g@[k as int].changes@,
                gv == g@.map_values(|o: DiffOpView| op_view(o)),
                before == changes_of_ops(gv.take(k as int)).map_values(
                    |c: (ChangeTag, Option<usize>, Option<usize>, Seq<char>)| line_spec(c),
                ),
                forall|kk: int, mm: int|
                    0 <= kk < k && 0 <= mm < g@[kk].changes@.len() ==> (#[trigger] g@[kk].changes@[mm]).old_index
                        != Some(usize::MAX) && g@[kk].changes@[mm].new_index != Some(usize::MAX),
                cs == op.changes@.map_values(|c: LineChange| change_view(c)),
                forall|mm: int|
                    0 <= mm < m ==> (#[trigger] op.changes@[mm]).old_index != Some(usize::MAX)
                        && op.changes@[mm].new_index != Some(usize::MAX),
                out@.map_values(|l: DiffLine| diff_line_view(l)) == before + cs.take(m as int).map_values(
                    |c: (ChangeTag, Option<usize>, Option<usize>, Seq<char>)| line_spec(c),
                ),
            decreases op.changes@.len() - m,
        {
            let c = &op.changes[m];
            if c.old_index == Some(usize::MAX) || c.new_index == Some(usize::MAX) {
                assert(g@[k as int].changes@[m as int] == *c);
                return None;
            }
            let ghost prev = out@.map_values(|l: DiffLine| diff_line_view(l));
            out.push(DiffLine {
                tag: c.tag,
                old_line_num: number(c.old_index),
                new_line_num: number(c.new_index),
                content: c.value.clone(),
            });
            assert(out@.map_values(|l: DiffLine| diff_line_view(l)) =~= prev.push(line_spec(cs[m as int])));
            assert(cs.take(m + 1).map_values(|c: (ChangeTag, Option<usize>, Option<usize>, Seq<char>)| line_spec(c))
                =~= cs.take(m as int).map_values(|c: (ChangeTag, Option<usize>, Option<usize>, Seq<char>)| line_spec(c)).push(
                line_spec(cs[m as int]),
            ));
            m += 1;
        }
        proof {
            assert(cs.take(cs.len() as int) =~= cs);
            assert(gv.take(k + 1).drop_last() =~= gv.take(k as int));
            assert(gv.take(k + 1).last() == gv[k as int]);
            assert(gv[k as int].4 == cs);
            assert((changes_of_ops(gv.take(k as int)) + cs).map_values(
                |c: (ChangeTag, Option<usize>, Option<usize>, Seq<char>)| line_spec(c),
            ) =~= changes_of_ops(gv.take(k as int)).map_values(
                |c: (ChangeTag, Option<usize>, Option<usize>, Seq<char>)| line_spec(c),
            ) + cs.map_values(|c: (ChangeTag, Option<usize>, Option<usize>, Seq<char>)| line_spec(c)));
            assert forall|kk: int, mm: int|
                0 <= kk < k + 1 && 0 <= mm < g@[kk].changes@.len() implies (#[trigger] g@[kk].changes@[mm]).old_index
                    != Some(usize::MAX) && g@[kk].changes@[mm].new_index != Some(usize::MAX) by {
                if kk == k {
                    assert(op.changes@[mm] == g@[kk].changes@[mm]);
                }
            }
        }
        k += 1;
    }
    assert(gv.take(g@.len() as int) =~= gv);
    Some(out)
}

/// The hunks of grouped line-diff operations, one for each non-empty
/// group, with line numbers counted from one; none where a number does
/// not fit (`groups_fit`).
pub fn hunks_from_groups(groups: &Vec<Vec<DiffOpView>>) -> (r: Option<Vec<DiffHunk>>)
    ensures
        r is Some <==> groups_fit(groups_view(groups@)),
        r matches Some(hs) ==> hs@.map_values(|h: DiffHunk| hunk_view(h)) == hunks_spec(groups_view(groups@)),
{
    let ghost gs = groups_view(groups@);
    let mut out: Vec<DiffHunk> = Vec::new();
    let mut i: usize = 0;
    while i < groups.len()
        invariant
            i <= groups@.len(),
            gs == groups_view(groups@),
            groups_fit(gs.take(i as int)),
            out@.map_values(|h: DiffHunk| hunk_view(h)) == hunks_spec(gs.take(i as int)),
        decreases groups@.len() - i,
    {
        let g = &groups[i];
        let ghost gv = g@.map_values(|o: DiffOpView| op_view(o));
        assert(gs[i as int] == gv);
        assert(gs.take(i + 1).drop_last() =~= gs.take(i as int));
        assert(gs.take(i + 1).last() == gv);
        if g.len() == 0 {
            assert forall|j: int| 0 <= j < i + 1 && (#[trigger] gs.take(i + 1)[j]).len() > 0 implies group_fits(
                gs.take(i + 1)[j],
            ) by {
                assert(gs.take(i as int)[j] == gs.take(i + 1)[j]);
            }
            i += 1;
            continue;
        }
        let first = &g[0];
        let last = &g[g.len() - 1];
        assert(gv[0] == op_view(*first));
        assert(gv.last() == op_view(*last));
        if first.old_start == usize::MAX || first.new_start == usize::MAX || last.old_end < first.old_start
            || last.new_end < first.new_start {
            assert(!group_fits(gs[i as int]));
            return None;
        }
        let lines = match group_lines(g) {
            Some(ls) => ls,
            None => {
                assert(!group_fits(gs[i as int])) by {
                    let (k, m) = choose|k: int, m: int|
                        0 <= k < g@.len() && 0 <= m < g@[k].changes@.len() && !((#[trigger] g@[k].changes@[m]).old_index
                            != Some(usize::MAX) && g@[k].changes@[m].new_index != Some(usize::MAX));
                    assert(gv[k].4[m] == change_view(g@[k].changes@[m]));
                }
                return None;
            },
        };
        proof {
            assert forall|k: int, m: int| 0 <= k < gv.len() && 0 <= m < gv[k].4.len() implies (#[trigger] gv[k].4[m]).1
                != Some(usize::MAX) && gv[k].4[m].2 != Some(usize::MAX) by {
                assert(gv[k].4[m] == change_view(g@[k].changes@[m]));
            }
            assert(group_fits(gv));
        }
        let ghost before = out@.map_values(|h: DiffHunk| hunk_view(h));
        out.push(DiffHunk {
            old_start: first.old_start + 1,
            old_lines: last.old_end - first.old_start,
            new_start: first.new_start + 1,
            new_lines: last.new_end - first.new_start,
            lines,
        });
        assert(out@.map_values(|h: DiffHunk| hunk_view(h)) =~= before.push(hunk_spec(gv)));
        assert forall|j: int| 0 <= j < i + 1 && (#[trigger] gs.take(i + 1)[j]).len() > 0 implies group_fits(
            gs.take(i + 1)[j],
        ) by {
            if j < i {
                assert(gs.take(i as int)[j] == gs.take(i + 1)[j]);
            }
        }
        i += 1;
    }
    assert(gs.take(groups@.len() as int) =~= gs);
    Some(out)
}

/// The line diff of `old` against `new` in hunks with `context` lines of
/// context, numbered from one: the hunks of the groups `similar` finds;
/// none where a line number does not fit.
pub fn text_diff(old: &str, new: &str, context: usize) -> (r: Option<FileDiff>)
    ensures
        r is Some <==> groups_fit(grouped_line_diff(old@, new@, context as nat)),
        r matches Some(d) ==> !d.is_binary && d.hunks@.map_values(|h: DiffHunk| hunk_view(h)) == hunks_spec(
            grouped_line_diff(old@, new@, context as nat),
        ),
{
    let groups = similar_grouped_lines(old, new, context);
    match hunks_from_groups(&groups) {
        Some(hunks) => Some(FileDiff { is_binary: false, hunks }),
        None => None,
    }
}

/// The number of hunk lines among `ls` that exist in the old version:
/// context and deleted lines.
pub open spec fn old_side_lines(ls: Seq<(ChangeTag, Option<int>, Option<int>, Seq<char>)>) -> int
    decreases ls.len(),
{
    if ls.len() == 0 {
        0
    } else {
        old_side_lines(ls.drop_last()) + if ls.last().0 == ChangeTag::Insert {
            0int
        } else {
            1int
        }
    }
}

/// The number of hunk lines among `ls` that exist in the new version:
/// context and inserted lines.
pub open spec fn new_side_lines(ls: Seq<(ChangeTag, Option<int>, Option<int>, Seq<char>)>) -> int
    decreases ls.len(),
{
    if ls.len() == 0 {
        0
    } else {
        new_side_lines(ls.drop_last()) + if ls.last().0 == ChangeTag::Delete {
            0int
        } else {
            1int
        }
    }
}

/// The hunk lines of some changes.
pub open spec fn lines_of(cs: Seq<(ChangeTag, Option<usize>, Option<usize>, Seq<char>)>) -> Seq<(ChangeTag, Option<int>, Option<int>, Seq<char>)> {
    cs.map_values(|c: (ChangeTag, Option<usize>, Option<usize>, Seq<char>)| line_spec(c))
}

/// A group as a line diff reports it: each operation's changes fill its
/// ranges (as many changes on each side as its range there spans), and
/// each operation starts, on both sides, where the one before it ends.
pub open spec fn group_consistent(g: Seq<(usize, usize, usize, usize, Seq<(ChangeTag, Option<usize>, Option<usize>, Seq<char>)>)>) -> bool {
    &&& forall|k: int|
        0 <= k < g.len() ==> old_side_lines(lines_of(#[trigger] g[k].4)) == g[k].1 - g[k].0 && new_side_lines(
            lines_of(g[k].4),
        ) == g[k].3 - g[k].2
    &&& forall|k: int| 0 < k < g.len() ==> (#[trigger] g[k]).0 == g[k - 1].1 && g[k].2 == g[k - 1].3
}

proof fn lemma_side_lines_append(a: Seq<(ChangeTag, Option<int>, Option<int>, Seq<char>)>, b: Seq<(ChangeTag, Option<int>, Option<int>, Seq<char>)>)
    ensures
        old_side_lines(a + b) == old_side_lines(a) + old_side_lines(b),
        new_side_lines(a + b) == new_side_lines(a) + new_side_lines(b),
    decreases b.len(),
{
    if b.len() == 0 {
        assert(a + b =~= a);
    } else {
        assert((a + b).drop_last() =~= a + b.drop_last());
        assert((a + b).last() == b.last());
        lemma_side_lines_append(a, b.drop_last());
    }
}

proof fn lemma_group_spans(g: Seq<(usize, usize, usize, usize, Seq<(ChangeTag, Option<usize>, Option<usize>, Seq<char>)>)>)
    requires
        g.len() > 0,
        group_consistent(g),
    ensures
        old_side_lines(lines_of(changes_of_ops(g))) == g.last().1 - g[0].0,
        new_side_lines(lines_of(changes_of_ops(g))) == g.last().3 - g[0].2,
    decreases g.len(),
{
    let p = g.drop_last();
    assert(lines_of(changes_of_ops(g)) =~= lines_of(changes_of_ops(p)) + lines_of(g.last().4));
    lemma_side_lines_append(lines_of(changes_of_ops(p)), lines_of(g.last().4));
    assert(old_side_lines(lines_of(g[g.len() - 1].4)) == g[g.len() - 1].1 - g[g.len() - 1].0);
    if p.len() == 0 {
        assert(changes_of_ops(p) =~= Seq::empty());
        assert(lines_of(changes_of_ops(p)) =~= Seq::empty());
    } else {
        assert forall|k: int| 0 <= k < p.len() implies old_side_lines(lines_of(#[trigger] p[k].4)) == p[k].1
            - p[k].0 && new_side_lines(lines_of(p[k].4)) == p[k].3 - p[k].2 by {
            assert(p[k] == g[k]);
        }
        assert forall|k: int| 0 < k < p.len() implies (#[trigger] p[k]).0 == p[k - 1].1 && p[k].2 == p[k - 1].3 by {
            assert(p[k] == g[k]);
            assert(p[k - 1] == g[k - 1]);
        }
        lemma_group_spans(p);
        assert(g[g.len() - 1].0 == g[g.len() - 2].1);
        assert(g[g.len() - 1].2 == g[g.len() - 2].3);
    }
}

/// A hunk counts its own lines: for a group as a line diff reports it,
/// the hunk's old line count is the number of its lines that exist in the
/// old version (context and deleted lines) and its new line count the
/// number that exist in the new version (context and inserted lines).
pub proof fn lemma_hunk_counts_its_lines(g: Seq<(usize, usize, usize, usize, Seq<(ChangeTag, Option<usize>, Option<usize>, Seq<char>)>)>)
    requires
        g.len() > 0,
        group_consistent(g),
    ensures
        hunk_spec(g).1 == old_side_lines(hunk_spec(g).4),
        hunk_spec(g).3 == new_side_lines(hunk_spec(g).4),
{
    lemma_group_spans(g);
    assert(hunk_spec(g).4 == lines_of(changes_of_ops(g)));
}

/// Every hunk of a diff counts its own lines, where each group is as a
/// line diff reports it (see `lemma_hunk_counts_its_lines`).
pub proof fn lemma_hunks_count_their_lines(gs: Seq<Seq<(usize, usize, usize, usize, Seq<(ChangeTag, Option<usize>, Option<usize>, Seq<char>)>)>>)
    requires
        forall|j: int| 0 <= j < gs.len() && (#[trigger] gs[j]).len() > 0 ==> group_consistent(gs[j]),
    ensures
        forall|i: int|
            0 <= i < hunks_spec(gs).len() ==> (#[trigger] hunks_spec(gs)[i]).1 == old_side_lines(hunks_spec(gs)[i].4)
                && hunks_spec(gs)[i].3 == new_side_lines(hunks_spec(gs)[i].4),
    decreases gs.len(),
{
    if gs.len() > 0 {
        let p = gs.drop_last();
        assert forall|j: int| 0 <= j < p.len() && (#[trigger] p[j]).len() > 0 implies group_consistent(p[j]) by {
            assert(p[j] == gs[j]);
        }
        lemma_hunks_count_their_lines(p);
        if gs.last().len() > 0 {
            assert(gs[gs.len() - 1] == gs.last());
            lemma_hunk_counts_its_lines(gs.last());
            assert forall|i: int| 0 <= i < hunks_spec(gs).len() implies (#[trigger] hunks_spec(gs)[i]).1
                == old_side_lines(hunks_spec(gs)[i].4) && hunks_spec(gs)[i].3 == new_side_lines(hunks_spec(gs)[i].4) by {
                if i < hunks_spec(p).len() {
                    assert(hunks_spec(gs)[i] == hunks_spec(p)[i]);
                }
            }
        }
    }
}

} // verus!
