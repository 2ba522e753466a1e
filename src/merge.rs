use vstd::prelude::*;

use crate::text::{
    append_lines, ensure_newline, join, join_range, lines_of, newline_terminated, same_text, split_lines, strings_view,
};

verus! {

/// Above this many lines on any side, no line merge is attempted.
pub const MAX_MERGE_LINES: usize = 20000;

/// One hunk of a line diff against the base: base lines
/// `[base_start, base_end)` are replaced by `replacement`.
#[derive(Clone, Debug)]
pub struct Edit {
    pub base_start: usize,
    pub base_end: usize,
    pub replacement: Vec<String>,
}

/// What an [`Edit`] means: a base range and the lines that replace it.
pub struct EditView {
    pub start: int,
    pub end: int,
    pub lines: Seq<Seq<char>>,
}

impl View for Edit {
    type V = EditView;

    open spec fn view(&self) -> EditView {
        EditView {
            start: self.base_start as int,
            end: self.base_end as int,
            lines: strings_view(self.replacement@),
        }
    }
}

/// The views of a vector of edits.
pub open spec fn edits_view(v: Seq<Edit>) -> Seq<EditView> {
    v.map_values(|e: Edit| e@)
}

/// The result of a three-way merge.
#[derive(Debug, PartialEq, Eq)]
pub enum MergeOutcome {
    Clean(String),
    Conflicted { conflict_marked: String, ours_wins: String },
}

/// What a [`MergeOutcome`] holds.
pub enum MergeView {
    Clean(Seq<char>),
    Conflicted { conflict_marked: Seq<char>, ours_wins: Seq<char> },
}

impl View for MergeOutcome {
    type V = MergeView;

    open spec fn view(&self) -> MergeView {
        match self {
            MergeOutcome::Clean(t) => MergeView::Clean(t@),
            MergeOutcome::Conflicted { conflict_marked, ours_wins } => MergeView::Conflicted {
                conflict_marked: conflict_marked@,
                ours_wins: ours_wins@,
            },
        }
    }
}

/// Edits lie within `n` base lines and come in order, each ending at or
/// before the start of the next.
pub open spec fn edits_wf(es: Seq<EditView>, n: int) -> bool {
    &&& forall|k: int| 0 <= k < es.len() ==> 0 <= #[trigger] es[k].start <= es[k].end <= n
    &&& forall|j: int, k: int|
        0 <= j < k < es.len() ==> #[trigger] es[j].end <= #[trigger] es[k].start
}

/// Two edits touch the same part of the base. A pure insertion meets another
/// only at the same point, and a non-empty range when it lies strictly inside.
pub open spec fn overlap(l: EditView, r: EditView) -> bool {
    if l.start == l.end && r.start == r.end {
        l.start == r.start
    } else if l.start == l.end {
        r.start <= l.start < r.end
    } else if r.start == r.end {
        l.start <= r.start < l.end
    } else {
        l.start < r.end && r.start < l.end
    }
}

/// Base lines `[pos, end)` with the edits `es[k..hi]` applied, each edit's
/// base range being replaced by its lines.
pub open spec fn render_from(
    base: Seq<Seq<char>>,
    pos: int,
    end: int,
    es: Seq<EditView>,
    k: int,
    hi: int,
) -> Seq<char>
    decreases hi - k,
{
    if k >= hi {
        join_range(base, pos, end)
    } else {
        join_range(base, pos, es[k].start) + join(es[k].lines) + render_from(
            base,
            es[k].end,
            end,
            es,
            k + 1,
            hi,
        )
    }
}

/// Grows a group of overlapping edits: takes in the next edit of either side
/// while it starts before the group's end, extending the end to cover it.
/// Returns the next unused edit of each side and the group's end.
pub open spec fn grow(os: Seq<EditView>, ts: Seq<EditView>, io: int, it: int, end: int) -> (int, int, int)
    decreases os.len() - io + ts.len() - it,
{
    if !(0 <= io <= os.len() && 0 <= it <= ts.len()) {
        (io, it, end)
    } else {
        let take_o = io < os.len() && os[io].start < end;
        let io1 = if take_o { io + 1 } else { io };
        let end1 = if take_o && os[io].end > end { os[io].end } else { end };
        let take_t = it < ts.len() && ts[it].start < end1;
        let it1 = if take_t { it + 1 } else { it };
        let end2 = if take_t && ts[it].end > end1 { ts[it].end } else { end1 };
        if take_o || take_t {
            grow(os, ts, io1, it1, end2)
        } else {
            (io, it, end)
        }
    }
}

/// The state of the merge walk: the base position, the next edit of each
/// side, the two outputs so far and whether a conflict was marked.
pub struct Walk {
    pub pos: int,
    pub io: int,
    pub it: int,
    pub wins: Seq<char>,
    pub marked: Seq<char>,
    pub conflict: bool,
}

/// The base position where the next edit of either side starts, or the end
/// of the base when both sides are done.
pub open spec fn first_edit_start(n: int, os: Seq<EditView>, ts: Seq<EditView>, io: int, it: int) -> int {
    if io < os.len() && it < ts.len() {
        if os[io].start <= ts[it].start {
            os[io].start
        } else {
            ts[it].start
        }
    } else if io < os.len() {
        os[io].start
    } else if it < ts.len() {
        ts[it].start
    } else {
        n
    }
}

/// Both outputs extended by the same text.
pub open spec fn emit(w: Walk, t: Seq<char>) -> Walk {
    Walk { wins: w.wins + t, marked: w.marked + t, ..w }
}

/// The marked output extended by a conflict block between the two renditions.
pub open spec fn conflict_block(marked: Seq<char>, ours: Seq<char>, theirs: Seq<char>) -> Seq<char> {
    newline_terminated(
        newline_terminated(newline_terminated(marked) + "<<<<<<< ours\n"@ + ours) + "=======\n"@
            + theirs,
    ) + ">>>>>>> theirs\n"@
}

/// The merge walk from state `w` to its end: unedited base spans are copied,
/// an edit made identically on both sides is applied once, an edit that
/// overlaps nothing on the other side is applied, and a group of overlapping
/// edits is rendered once per side, either once when both agree or as a
/// conflict block (with the ours rendition in the ours-wins output).
pub open spec fn walk(base: Seq<Seq<char>>, os: Seq<EditView>, ts: Seq<EditView>, w: Walk) -> Walk
    decreases os.len() - w.io + ts.len() - w.it,
{
    if !(0 <= w.io <= os.len() && 0 <= w.it <= ts.len()) {
        w
    } else {
        let ns = first_edit_start(base.len() as int, os, ts, w.io, w.it);
        let pos = if w.pos < ns { ns } else { w.pos };
        let w1 = Walk { pos, ..emit(w, join_range(base, w.pos, ns)) };
        let has_o = w.io < os.len();
        let has_t = w.it < ts.len();
        if !has_o && !has_t {
            w1
        } else if !has_t {
            walk(base, os, ts, Walk { pos: os[w.io].end, io: w.io + 1, ..emit(w1, join(os[w.io].lines)) })
        } else if !has_o {
            walk(base, os, ts, Walk { pos: ts[w.it].end, it: w.it + 1, ..emit(w1, join(ts[w.it].lines)) })
        } else {
            let oe = os[w.io];
            let te = ts[w.it];
            if oe.start == pos && te.start == pos && oe == te {
                walk(
                    base,
                    os,
                    ts,
                    Walk { pos: oe.end, io: w.io + 1, it: w.it + 1, ..emit(w1, join(oe.lines)) },
                )
            } else if !overlap(oe, te) {
                if oe.start < te.start {
                    walk(base, os, ts, Walk { pos: oe.end, io: w.io + 1, ..emit(w1, join(oe.lines)) })
                } else {
                    walk(base, os, ts, Walk { pos: te.end, it: w.it + 1, ..emit(w1, join(te.lines)) })
                }
            } else {
                let o_first = oe.start == pos;
                let t_first = te.start == pos;
                let io0 = if o_first { w.io + 1 } else { w.io };
                let it0 = if t_first { w.it + 1 } else { w.it };
                let e0 = if o_first && oe.end > pos { oe.end } else { pos };
                let e1 = if t_first && te.end > e0 { te.end } else { e0 };
                let g = grow(os, ts, io0, it0, e1);
                let oc = render_from(base, pos, g.2, os, w.io, g.0);
                let tc = render_from(base, pos, g.2, ts, w.it, g.1);
                let w2 = if oc == tc {
                    emit(w1, oc)
                } else {
                    Walk {
                        wins: w1.wins + oc,
                        marked: conflict_block(w1.marked, oc, tc),
                        conflict: true,
                        ..w1
                    }
                };
                if w.io <= g.0 <= os.len() && w.it <= g.1 <= ts.len() && g.0 + g.1 > w.io + w.it {
                    walk(base, os, ts, Walk { pos: g.2, io: g.0, it: g.1, ..w2 })
                } else {
                    w2
                }
            }
        }
    }
}

/// The outcome of merging two edit lists against the base lines.
pub open spec fn merge_edits_spec(base: Seq<Seq<char>>, os: Seq<EditView>, ts: Seq<EditView>) -> MergeView {
    let w = walk(
        base,
        os,
        ts,
        Walk { pos: 0, io: 0, it: 0, wins: Seq::empty(), marked: Seq::empty(), conflict: false },
    );
    if w.conflict {
        MergeView::Conflicted { conflict_marked: w.marked, ours_wins: w.wins }
    } else {
        MergeView::Clean(w.wins)
    }
}

/// Whether two edits overlap (see [`overlap`]).
pub fn edits_overlap(left: &Edit, right: &Edit) -> (r: bool)
    ensures
        r == overlap(left@, right@),
{
    if left.base_start == left.base_end && right.base_start == right.base_end {
        return left.base_start == right.base_start;
    }
    if left.base_start == left.base_end {
        return right.base_start <= left.base_start && left.base_start < right.base_end;
    }
    if right.base_start == right.base_end {
        return left.base_start <= right.base_start && right.base_start < left.base_end;
    }
    left.base_start < right.base_end && right.base_start < left.base_end
}

/// Whether two edits have the same range and the same replacement lines.
pub fn edits_identical(left: &Edit, right: &Edit) -> (r: bool)
    ensures
        r == (left@ == right@),
{
    if left.base_start != right.base_start || left.base_end != right.base_end
        || left.replacement.len() != right.replacement.len() {
        assert(left@.lines.len() == left.replacement.len());
        assert(right@.lines.len() == right.replacement.len());
        return false;
    }
    let mut i: usize = 0;
    while i < left.replacement.len()
        invariant
            left.replacement.len() == right.replacement.len(),
            i <= left.replacement.len(),
            forall|k: int| 0 <= k < i ==> left.replacement@[k]@ == right.replacement@[k]@,
        decreases left.replacement.len() - i,
    {
        if left.replacement[i] != right.replacement[i] {
            assert(left@.lines[i as int] != right@.lines[i as int]);
            return false;
        }
        i = i + 1;
    }
    assert(left@.lines =~= right@.lines);
    true
}

/// Base lines `[start, end)` with `edits[lo..hi]` applied.
pub fn render_range_with_edits(
    base: &Vec<String>,
    start: usize,
    end: usize,
    edits: &Vec<Edit>,
    lo: usize,
    hi: usize,
) -> (r: String)
    requires
        lo <= hi <= edits.len(),
        start <= end <= base.len(),
        edits_wf(edits_view(edits@), base.len() as int),
    ensures
        r@ == render_from(strings_view(base@), start as int, end as int, edits_view(edits@), lo as int, hi as int),
{
    let ghost bv = strings_view(base@);
    let ghost ev = edits_view(edits@);
    let mut out = String::new();
    let mut pos = start;
    assert(out@ =~= Seq::empty());
    let mut k = lo;
    while k < hi
        invariant
            lo <= k <= hi <= edits.len(),
            end <= base.len(),
            edits_wf(ev, base.len() as int),
            bv == strings_view(base@),
            ev == edits_view(edits@),
            pos <= base.len(),
            out@ + render_from(bv, pos as int, end as int, ev, k as int, hi as int)
                == render_from(bv, start as int, end as int, ev, lo as int, hi as int),
        decreases hi - k,
    {
        let edit = &edits[k];
        let ghost before = out@;
        assert(ev[k as int] == edit@);
        if pos < edit.base_start {
            append_lines(&mut out, base, pos, edit.base_start);
        } else {
            assert(join_range(bv, pos as int, edit.base_start as int) =~= Seq::empty());
        }
        let mut i: usize = 0;
        while i < edit.replacement.len()
            invariant
                i <= edit.replacement.len(),
                out@ == before + join_range(bv, pos as int, edit.base_start as int)
                    + join_range(edit@.lines, 0, i as int),
            decreases edit.replacement.len() - i,
        {
            out.append(edit.replacement[i].as_str());
            i = i + 1;
        }
        assert(out@ == before + (join_range(bv, pos as int, edit.base_start as int) + join(edit@.lines)));
        pos = edit.base_end;
        k = k + 1;
    }
    if pos < end {
        append_lines(&mut out, base, pos, end);
    } else {
        assert(join_range(bv, pos as int, end as int) =~= Seq::empty());
    }
    out
}

/// The hunks of imara-diff's line diff of `before` into `after`, each as
/// (before start, before end, after start, after end) in lines.
pub uninterp spec fn line_hunks(before: Seq<char>, after: Seq<char>) -> Seq<(int, int, int, int)>;

/// The hunks as integers.
pub open spec fn hunks_view(h: Seq<(usize, usize, usize, usize)>) -> Seq<(int, int, int, int)> {
    h.map_values(|x: (usize, usize, usize, usize)| (x.0 as int, x.1 as int, x.2 as int, x.3 as int))
}

/// Hunks lie within `nb` lines before and `na` lines after, in increasing order.
pub open spec fn hunks_wf(h: Seq<(int, int, int, int)>, nb: int, na: int) -> bool {
    &&& forall|k: int| 0 <= k < h.len() ==> 0 <= (#[trigger] h[k]).0 <= h[k].1 <= nb && 0 <= h[k].2 <= h[k].3 <= na
    &&& forall|j: int, k: int| 0 <= j < k < h.len() ==> (#[trigger] h[j]).1 < (#[trigger] h[k]).0 && h[j].3 < h[k].2
}

/// The edits that the hunks describe, with the replacement lines taken from `other`.
pub open spec fn edits_of(h: Seq<(int, int, int, int)>, other: Seq<Seq<char>>) -> Seq<EditView> {
    h.map_values(|x: (int, int, int, int)| EditView { start: x.0, end: x.1, lines: other.subrange(x.2, x.3) })
}

/// Relies on imara-diff: `InternedInput::new` over the lines of both texts,
/// `Diff::compute` with the histogram algorithm, `postprocess_lines`, and
/// `Diff::hunks`, which lists the hunks in increasing order, each within the
/// lines of its side. The hunks form an edit script that turns `before` into
/// `after` (`Diff::compute`), and equal texts give none: their common prefix
/// is all of them and nothing is marked changed. Tokens are numbered in order
/// of first appearance, so the hunks depend on the two texts alone. The line
/// count must stay below `i32::MAX`, where `compute_with` asserts.
#[verifier::external_body]
fn line_diff_hunks(before: &str, after: &str) -> (r: Vec<(usize, usize, usize, usize)>)
    requires
        split_lines(before@).len() < 0x7fff_ffff,
        split_lines(after@).len() < 0x7fff_ffff,
    ensures
        hunks_view(r@) == line_hunks(before@, after@),
        hunks_wf(hunks_view(r@), split_lines(before@).len() as int, split_lines(after@).len() as int),
        apply_edits(split_lines(before@), edits_of(hunks_view(r@), split_lines(after@))) == after@,
        before@ == after@ ==> r@.len() == 0,
{
    let input = imara_diff::InternedInput::new(before, after);
    let mut diff = imara_diff::Diff::compute(imara_diff::Algorithm::Histogram, &input);
    diff.postprocess_lines(&input);
    diff.hunks()
        .map(|h| (h.before.start as usize, h.before.end as usize, h.after.start as usize, h.after.end as usize))
        .collect()
}

/// Builds the edits that `hunks` describe, taking each replacement from `other_lines`.
pub fn edits_from_hunks(hunks: &Vec<(usize, usize, usize, usize)>, other_lines: &Vec<String>) -> (r: Vec<Edit>)
    requires
        forall|k: int| 0 <= k < hunks.len() ==> (#[trigger] hunks@[k]).2 <= hunks@[k].3 <= other_lines.len(),
    ensures
        edits_view(r@) == edits_of(hunks_view(hunks@), strings_view(other_lines@)),
{
    let ghost ov = strings_view(other_lines@);
    let mut r: Vec<Edit> = Vec::new();
    let mut k: usize = 0;
    while k < hunks.len()
        invariant
            k <= hunks.len(),
            ov == strings_view(other_lines@),
            forall|j: int| 0 <= j < hunks.len() ==> (#[trigger] hunks@[j]).2 <= hunks@[j].3 <= other_lines.len(),
            edits_view(r@) == edits_of(hunks_view(hunks@), ov).take(k as int),
        decreases hunks.len() - k,
    {
        let (bs, be, a_s, a_e) = hunks[k];
        let mut replacement: Vec<String> = Vec::new();
        let mut i: usize = a_s;
        while i < a_e
            invariant
                a_s <= i <= a_e <= other_lines.len(),
                ov == strings_view(other_lines@),
                strings_view(replacement@) == ov.subrange(a_s as int, i as int),
            decreases a_e - i,
        {
            let ghost prev = strings_view(replacement@);
            replacement.push(other_lines[i].clone());
            assert(strings_view(replacement@) =~= prev.push(ov[i as int]));
            assert(ov.subrange(a_s as int, i + 1) =~= ov.subrange(a_s as int, i as int).push(ov[i as int]));
            i = i + 1;
        }
        let ghost prev = edits_view(r@);
        let e = Edit { base_start: bs, base_end: be, replacement };
        r.push(e);
        assert(edits_view(r@) =~= prev.push(e@));
        assert(edits_of(hunks_view(hunks@), ov).take(k + 1) =~= edits_of(hunks_view(hunks@), ov).take(k as int).push(e@));
        k = k + 1;
    }
    assert(edits_of(hunks_view(hunks@), ov).take(hunks.len() as int) =~= edits_of(hunks_view(hunks@), ov));
    r
}

/// The line edits imara-diff finds from `before` to `after`.
pub open spec fn diff_spec(before: Seq<char>, after: Seq<char>) -> Seq<EditView> {
    edits_of(line_hunks(before, after), split_lines(after))
}

/// What holds of the line diff from `before` to `after`: its edits lie in
/// order within the base lines, applied to them they give `after`, and equal
/// texts have none.
pub open spec fn diff_facts(before: Seq<char>, after: Seq<char>) -> bool {
    &&& edits_wf(diff_spec(before, after), split_lines(before).len() as int)
    &&& apply_edits(split_lines(before), diff_spec(before, after)) == after
    &&& before == after ==> diff_spec(before, after).len() == 0
}

/// The line edits that turn `base` into `other`.
pub fn diff_edits(base: &str, other: &str) -> (r: Vec<Edit>)
    requires
        split_lines(base@).len() < 0x7fff_ffff,
        split_lines(other@).len() < 0x7fff_ffff,
    ensures
        edits_view(r@) == diff_spec(base@, other@),
        edits_wf(edits_view(r@), split_lines(base@).len() as int),
        apply_edits(split_lines(base@), edits_view(r@)) == other@,
        diff_facts(base@, other@),
{
    let hunks = line_diff_hunks(base, other);
    let other_lines = lines_of(other);
    proof {
        assert(other_lines.len() == strings_view(other_lines@).len());
        assert forall|k: int| 0 <= k < hunks.len() implies (#[trigger] hunks@[k]).2 <= hunks@[k].3 <= other_lines.len() by {
            assert(hunks_view(hunks@)[k] == (hunks@[k].0 as int, hunks@[k].1 as int, hunks@[k].2 as int, hunks@[k].3 as int));
        }
    }
    let r = edits_from_hunks(&hunks, &other_lines);
    proof {
        let hv = hunks_view(hunks@);
        let ev = edits_view(r@);
        assert forall|k: int| 0 <= k < ev.len() implies 0 <= #[trigger] ev[k].start <= ev[k].end <= split_lines(base@).len() by {
            assert(hv[k] == (hunks@[k].0 as int, hunks@[k].1 as int, hunks@[k].2 as int, hunks@[k].3 as int));
        }
        assert forall|j: int, k: int| 0 <= j < k < ev.len() implies #[trigger] ev[j].end <= #[trigger] ev[k].start by {
            assert(hv[j].1 < hv[k].0);
        }
        assert(ev.len() == hv.len());
    }
    r
}

/// Every edit from index `i` on starts at or after `pos`.
pub open spec fn starts_after(es: Seq<EditView>, i: int, pos: int) -> bool {
    forall|k: int| i <= k < es.len() ==> pos <= #[trigger] es[k].start
}

proof fn lemma_after_edit(es: Seq<EditView>, n: int, i: int)
    requires
        edits_wf(es, n),
        0 <= i < es.len(),
    ensures
        starts_after(es, i + 1, es[i].end),
{
    assert forall|k: int| i + 1 <= k < es.len() implies es[i].end <= #[trigger] es[k].start by {
        assert(es[i].end <= es[k].start);
    }
}

proof fn lemma_grow_stopped(os: Seq<EditView>, ts: Seq<EditView>, n: int, io: int, it: int, end: int)
    requires
        edits_wf(os, n),
        edits_wf(ts, n),
        0 <= io <= os.len(),
        0 <= it <= ts.len(),
        grow(os, ts, io, it, end) == (io, it, end),
    ensures
        starts_after(os, io, end),
        starts_after(ts, it, end),
{
    let take_o = io < os.len() && os[io].start < end;
    let end1 = if take_o && os[io].end > end { os[io].end } else { end };
    let take_t = it < ts.len() && ts[it].start < end1;
    let it1 = if take_t { it + 1 } else { it };
    let end2 = if take_t && ts[it].end > end1 { ts[it].end } else { end1 };
    if take_o {
        lemma_grow_monotone(os, ts, io + 1, it1, end2);
    } else if take_t {
        lemma_grow_monotone(os, ts, io, it1, end2);
    }
    assert forall|k: int| io <= k < os.len() implies end <= #[trigger] os[k].start by {
        if k > io {
            assert(os[io].end <= os[k].start);
        }
    }
    assert forall|k: int| it <= k < ts.len() implies end <= #[trigger] ts[k].start by {
        if k > it {
            assert(ts[it].end <= ts[k].start);
        }
    }
}

proof fn lemma_grow_monotone(os: Seq<EditView>, ts: Seq<EditView>, io: int, it: int, end: int)
    requires
        0 <= io <= os.len(),
        0 <= it <= ts.len(),
    ensures
        io <= grow(os, ts, io, it, end).0 <= os.len(),
        it <= grow(os, ts, io, it, end).1 <= ts.len(),
    decreases os.len() - io + ts.len() - it,
{
    let take_o = io < os.len() && os[io].start < end;
    let io1 = if take_o { io + 1 } else { io };
    let end1 = if take_o && os[io].end > end { os[io].end } else { end };
    let take_t = it < ts.len() && ts[it].start < end1;
    let it1 = if take_t { it + 1 } else { it };
    let end2 = if take_t && ts[it].end > end1 { ts[it].end } else { end1 };
    if take_o || take_t {
        lemma_grow_monotone(os, ts, io1, it1, end2);
    }
}

/// The current walk state of the exec merge.
pub open spec fn walk_state(pos: usize, io: usize, it: usize, wins: Seq<char>, marked: Seq<char>, conflict: bool) -> Walk {
    Walk { pos: pos as int, io: io as int, it: it as int, wins, marked, conflict }
}

/// Appends every line of `lines` to both outputs.
fn emit_lines(wins: &mut String, marked: &mut String, lines: &Vec<String>)
    ensures
        final(wins)@ == old(wins)@ + join(strings_view(lines@)),
        final(marked)@ == old(marked)@ + join(strings_view(lines@)),
{
    append_lines(wins, lines, 0, lines.len());
    append_lines(marked, lines, 0, lines.len());
}

/// Merges the edits of two sides against the base lines: both are applied
/// where they do not overlap, and overlapping groups that differ become
/// conflict blocks.
pub fn merge_edits(base: &Vec<String>, ours_edits: &Vec<Edit>, theirs_edits: &Vec<Edit>) -> (r: MergeOutcome)
    requires
        edits_wf(edits_view(ours_edits@), base.len() as int),
        edits_wf(edits_view(theirs_edits@), base.len() as int),
    ensures
        r@ == merge_edits_spec(strings_view(base@), edits_view(ours_edits@), edits_view(theirs_edits@)),
{
    let ghost bv = strings_view(base@);
    let ghost ov = edits_view(ours_edits@);
    let ghost tv = edits_view(theirs_edits@);
    let ghost init = Walk { pos: 0, io: 0, it: 0, wins: Seq::empty(), marked: Seq::empty(), conflict: false };
    let base_len = base.len();
    let mut pos: usize = 0;
    let mut i_ours: usize = 0;
    let mut i_theirs: usize = 0;
    let mut ours_wins = String::new();
    let mut conflict_marked = String::new();
    let mut has_conflicts = false;
    assert(walk_state(pos, i_ours, i_theirs, ours_wins@, conflict_marked@, has_conflicts) == init);

    loop
        invariant
            bv == strings_view(base@),
            ov == edits_view(ours_edits@),
            tv == edits_view(theirs_edits@),
            base_len == base.len(),
            edits_wf(ov, base_len as int),
            edits_wf(tv, base_len as int),
            i_ours <= ours_edits.len(),
            i_theirs <= theirs_edits.len(),
            pos <= base_len,
            starts_after(ov, i_ours as int, pos as int),
            starts_after(tv, i_theirs as int, pos as int),
            walk(bv, ov, tv, walk_state(pos, i_ours, i_theirs, ours_wins@, conflict_marked@, has_conflicts))
                == walk(bv, ov, tv, init),
        ensures
            walk_state(pos, i_ours, i_theirs, ours_wins@, conflict_marked@, has_conflicts)
                == walk(bv, ov, tv, init),
        decreases ours_edits.len() - i_ours + theirs_edits.len() - i_theirs,
    {
        let ghost w = walk_state(pos, i_ours, i_theirs, ours_wins@, conflict_marked@, has_conflicts);
        let has_o = i_ours < ours_edits.len();
        let has_t = i_theirs < theirs_edits.len();
        proof {
            if has_o { assert(ov[i_ours as int] == ours_edits@[i_ours as int]@); }
            if has_t { assert(tv[i_theirs as int] == theirs_edits@[i_theirs as int]@); }
        }
        let next_start = if has_o && has_t {
            if ours_edits[i_ours].base_start <= theirs_edits[i_theirs].base_start {
                ours_edits[i_ours].base_start
            } else {
                theirs_edits[i_theirs].base_start
            }
        } else if has_o {
            ours_edits[i_ours].base_start
        } else if has_t {
            theirs_edits[i_theirs].base_start
        } else {
            base_len
        };
        assert(next_start == first_edit_start(bv.len() as int, ov, tv, w.io, w.it));
        if pos < next_start {
            append_lines(&mut ours_wins, base, pos, next_start);
            append_lines(&mut conflict_marked, base, pos, next_start);
            pos = next_start;
        } else {
            assert(join_range(bv, pos as int, next_start as int) =~= Seq::empty());
            assert(ours_wins@ == ours_wins@ + join_range(bv, pos as int, next_start as int));
            assert(conflict_marked@ == conflict_marked@ + join_range(bv, pos as int, next_start as int));
        }
        let ghost w1 = walk_state(pos, i_ours, i_theirs, ours_wins@, conflict_marked@, has_conflicts);
        if !has_o && !has_t {
            break;
        }
        if !has_t {
            let oe = &ours_edits[i_ours];
            proof { lemma_after_edit(ov, base_len as int, i_ours as int); }
            emit_lines(&mut ours_wins, &mut conflict_marked, &oe.replacement);
            pos = oe.base_end;
            i_ours = i_ours + 1;
            continue;
        }
        if !has_o {
            let te = &theirs_edits[i_theirs];
            proof { lemma_after_edit(tv, base_len as int, i_theirs as int); }
            emit_lines(&mut ours_wins, &mut conflict_marked, &te.replacement);
            pos = te.base_end;
            i_theirs = i_theirs + 1;
            continue;
        }
        let oe = &ours_edits[i_ours];
        let te = &theirs_edits[i_theirs];
        proof {
            lemma_after_edit(ov, base_len as int, i_ours as int);
            lemma_after_edit(tv, base_len as int, i_theirs as int);
        }
        if oe.base_start == pos && te.base_start == pos && edits_identical(oe, te) {
            emit_lines(&mut ours_wins, &mut conflict_marked, &oe.replacement);
            pos = oe.base_end;
            i_ours = i_ours + 1;
            i_theirs = i_theirs + 1;
            continue;
        }
        if !edits_overlap(oe, te) {
            if oe.base_start < te.base_start {
                emit_lines(&mut ours_wins, &mut conflict_marked, &oe.replacement);
                pos = oe.base_end;
                i_ours = i_ours + 1;
            } else {
                emit_lines(&mut ours_wins, &mut conflict_marked, &te.replacement);
                pos = te.base_end;
                i_theirs = i_theirs + 1;
            }
            continue;
        }

        let conflict_start = pos;
        let ours_group_start = i_ours;
        let theirs_group_start = i_theirs;
        let mut group_end = conflict_start;
        if oe.base_start == conflict_start {
            if oe.base_end > group_end {
                group_end = oe.base_end;
            }
            i_ours = i_ours + 1;
        }
        if te.base_start == conflict_start {
            if te.base_end > group_end {
                group_end = te.base_end;
            }
            i_theirs = i_theirs + 1;
        }
        let ghost io0 = i_ours as int;
        let ghost it0 = i_theirs as int;
        let ghost e1 = group_end as int;
        loop
            invariant
                ov == edits_view(ours_edits@),
                tv == edits_view(theirs_edits@),
                edits_wf(ov, base_len as int),
                edits_wf(tv, base_len as int),
                io0 <= i_ours <= ours_edits.len(),
                it0 <= i_theirs <= theirs_edits.len(),
                conflict_start <= group_end <= base_len,
                grow(ov, tv, i_ours as int, i_theirs as int, group_end as int) == grow(ov, tv, io0, it0, e1),
            ensures
                grow(ov, tv, io0, it0, e1) == (i_ours as int, i_theirs as int, group_end as int),
            decreases ours_edits.len() - i_ours + theirs_edits.len() - i_theirs,
        {
            let mut progressed = false;
            if i_ours < ours_edits.len() && ours_edits[i_ours].base_start < group_end {
                assert(ov[i_ours as int] == ours_edits@[i_ours as int]@);
                if ours_edits[i_ours].base_end > group_end {
                    group_end = ours_edits[i_ours].base_end;
                }
                i_ours = i_ours + 1;
                progressed = true;
            }
            if i_theirs < theirs_edits.len() && theirs_edits[i_theirs].base_start < group_end {
                assert(tv[i_theirs as int] == theirs_edits@[i_theirs as int]@);
                if theirs_edits[i_theirs].base_end > group_end {
                    group_end = theirs_edits[i_theirs].base_end;
                }
                i_theirs = i_theirs + 1;
                progressed = true;
            }
            if !progressed {
                break;
            }
        }

        proof {
            lemma_grow_stopped(ov, tv, base_len as int, i_ours as int, i_theirs as int, group_end as int);
        }
        let ours_chunk = render_range_with_edits(base, conflict_start, group_end, ours_edits, ours_group_start, i_ours);
        let theirs_chunk = render_range_with_edits(base, conflict_start, group_end, theirs_edits, theirs_group_start, i_theirs);
        if ours_chunk == theirs_chunk {
            ours_wins.append(ours_chunk.as_str());
            conflict_marked.append(ours_chunk.as_str());
        } else {
            has_conflicts = true;
            ours_wins.append(ours_chunk.as_str());
            ensure_newline(&mut conflict_marked);
            conflict_marked.append("<<<<<<< ours\n");
            conflict_marked.append(ours_chunk.as_str());
            ensure_newline(&mut conflict_marked);
            conflict_marked.append("=======\n");
            conflict_marked.append(theirs_chunk.as_str());
            ensure_newline(&mut conflict_marked);
            conflict_marked.append(">>>>>>> theirs\n");
        }
        pos = group_end;
    }

    if has_conflicts {
        MergeOutcome::Conflicted { conflict_marked, ours_wins }
    } else {
        MergeOutcome::Clean(ours_wins)
    }
}

/// The marked text used when the texts are too long to merge by lines:
/// all of ours against all of theirs.
pub open spec fn whole_file_conflict(ours: Seq<char>, theirs: Seq<char>) -> Seq<char> {
    newline_terminated(newline_terminated("<<<<<<< ours\n"@ + ours) + "=======\n"@ + theirs)
        + ">>>>>>> theirs\n"@
}

/// The three-way merge of `ours` and `theirs` against their common `base`.
pub open spec fn merge_spec(base: Seq<char>, ours: Seq<char>, theirs: Seq<char>) -> MergeView {
    if ours == theirs {
        MergeView::Clean(ours)
    } else if base == ours {
        MergeView::Clean(theirs)
    } else if base == theirs {
        MergeView::Clean(ours)
    } else if split_lines(base).len() > MAX_MERGE_LINES || split_lines(ours).len() > MAX_MERGE_LINES
        || split_lines(theirs).len() > MAX_MERGE_LINES {
        MergeView::Conflicted { conflict_marked: whole_file_conflict(ours, theirs), ours_wins: ours }
    } else {
        merge_edits_spec(
            split_lines(base),
            edits_of(line_hunks(base, ours), split_lines(ours)),
            edits_of(line_hunks(base, theirs), split_lines(theirs)),
        )
    }
}

/// Merges local edits (`ours`) and the text on disk (`theirs`) against the
/// text both started from (`base`).
pub fn merge_three_way(base: &str, ours: &str, theirs: &str) -> (r: MergeOutcome)
    ensures
        r@ == merge_spec(base@, ours@, theirs@),
{
    if same_text(ours, theirs) {
        return MergeOutcome::Clean(ours.to_owned());
    }
    if same_text(base, ours) {
        return MergeOutcome::Clean(theirs.to_owned());
    }
    if same_text(base, theirs) {
        return MergeOutcome::Clean(ours.to_owned());
    }

    let base_lines = lines_of(base);
    let ours_lines = lines_of(ours);
    let theirs_lines = lines_of(theirs);
    proof {
        assert(base_lines.len() == strings_view(base_lines@).len());
        assert(ours_lines.len() == strings_view(ours_lines@).len());
        assert(theirs_lines.len() == strings_view(theirs_lines@).len());
    }
    if base_lines.len() > MAX_MERGE_LINES || ours_lines.len() > MAX_MERGE_LINES
        || theirs_lines.len() > MAX_MERGE_LINES {
        let mut conflict_marked = String::new();
        conflict_marked.append("<<<<<<< ours\n");
        conflict_marked.append(ours);
        ensure_newline(&mut conflict_marked);
        conflict_marked.append("=======\n");
        conflict_marked.append(theirs);
        ensure_newline(&mut conflict_marked);
        conflict_marked.append(">>>>>>> theirs\n");
        proof {
            assert(Seq::<char>::empty() + "<<<<<<< ours\n"@ == "<<<<<<< ours\n"@);
        }
        return MergeOutcome::Conflicted { conflict_marked, ours_wins: ours.to_owned() };
    }

    let ours_edits = diff_edits(base, ours);
    let theirs_edits = diff_edits(base, theirs);
    merge_edits(&base_lines, &ours_edits, &theirs_edits)
}

/// Merging two equal sides gives that text, whatever the base.
pub proof fn lemma_merge_equal_sides(base: Seq<char>, x: Seq<char>)
    ensures
        merge_spec(base, x, x) == MergeView::Clean(x),
{
}

/// When only ours changed the base, the merge is ours; when only theirs
/// did, it is theirs.
pub proof fn lemma_merge_one_side_changed(base: Seq<char>, ours: Seq<char>, theirs: Seq<char>)
    ensures
        merge_spec(base, ours, base) == MergeView::Clean(ours),
        merge_spec(base, base, theirs) == MergeView::Clean(theirs),
{
}

/// No edit of one side overlaps an edit of the other.
pub open spec fn disjoint_edits(os: Seq<EditView>, ts: Seq<EditView>) -> bool {
    forall|i: int, j: int| 0 <= i < os.len() && 0 <= j < ts.len() ==> !overlap(#[trigger] os[i], #[trigger] ts[j])
}

proof fn lemma_walk_disjoint(base: Seq<Seq<char>>, os: Seq<EditView>, ts: Seq<EditView>, w: Walk)
    requires
        disjoint_edits(os, ts),
    ensures
        walk(base, os, ts, w).conflict == w.conflict,
    decreases os.len() - w.io + ts.len() - w.it,
{
    if 0 <= w.io <= os.len() && 0 <= w.it <= ts.len() {
        let ns = first_edit_start(base.len() as int, os, ts, w.io, w.it);
        let pos = if w.pos < ns { ns } else { w.pos };
        let w1 = Walk { pos, ..emit(w, join_range(base, w.pos, ns)) };
        let has_o = w.io < os.len();
        let has_t = w.it < ts.len();
        if !has_o && !has_t {
        } else if !has_t {
            lemma_walk_disjoint(base, os, ts, Walk { pos: os[w.io].end, io: w.io + 1, ..emit(w1, join(os[w.io].lines)) });
        } else if !has_o {
            lemma_walk_disjoint(base, os, ts, Walk { pos: ts[w.it].end, it: w.it + 1, ..emit(w1, join(ts[w.it].lines)) });
        } else {
            let oe = os[w.io];
            let te = ts[w.it];
            assert(!overlap(oe, te));
            if oe.start == pos && te.start == pos && oe == te {
                lemma_walk_disjoint(
                    base,
                    os,
                    ts,
                    Walk { pos: oe.end, io: w.io + 1, it: w.it + 1, ..emit(w1, join(oe.lines)) },
                );
            } else if oe.start < te.start {
                lemma_walk_disjoint(base, os, ts, Walk { pos: oe.end, io: w.io + 1, ..emit(w1, join(oe.lines)) });
            } else {
                lemma_walk_disjoint(base, os, ts, Walk { pos: te.end, it: w.it + 1, ..emit(w1, join(te.lines)) });
            }
        }
    }
}

/// Edits of the two sides that do not overlap never conflict: the merge of
/// such edit lists is clean.
pub proof fn lemma_disjoint_edits_merge_clean(base: Seq<Seq<char>>, os: Seq<EditView>, ts: Seq<EditView>)
    requires
        disjoint_edits(os, ts),
    ensures
        merge_edits_spec(base, os, ts) is Clean,
{
    lemma_walk_disjoint(
        base,
        os,
        ts,
        Walk { pos: 0, io: 0, it: 0, wins: Seq::empty(), marked: Seq::empty(), conflict: false },
    );
}

/// When neither side's line edits overlap the other's and no side is too
/// long to merge by lines, the three-way merge is clean.
pub proof fn lemma_non_overlapping_merge_clean(base: Seq<char>, ours: Seq<char>, theirs: Seq<char>)
    requires
        split_lines(base).len() <= MAX_MERGE_LINES,
        split_lines(ours).len() <= MAX_MERGE_LINES,
        split_lines(theirs).len() <= MAX_MERGE_LINES,
        disjoint_edits(
            edits_of(line_hunks(base, ours), split_lines(ours)),
            edits_of(line_hunks(base, theirs), split_lines(theirs)),
        ),
    ensures
        merge_spec(base, ours, theirs) is Clean,
{
    lemma_disjoint_edits_merge_clean(
        split_lines(base),
        edits_of(line_hunks(base, ours), split_lines(ours)),
        edits_of(line_hunks(base, theirs), split_lines(theirs)),
    );
}

/// The edits of both sides from `io` and `it` on, in order of their start;
/// an edit of ours comes first only when it starts strictly earlier.
pub open spec fn interleave(os: Seq<EditView>, ts: Seq<EditView>, io: int, it: int) -> Seq<EditView>
    decreases os.len() - io + ts.len() - it,
{
    if !(0 <= io <= os.len() && 0 <= it <= ts.len()) {
        Seq::empty()
    } else if io < os.len() && (it >= ts.len() || os[io].start < ts[it].start) {
        seq![os[io]] + interleave(os, ts, io + 1, it)
    } else if it < ts.len() {
        seq![ts[it]] + interleave(os, ts, io, it + 1)
    } else {
        Seq::empty()
    }
}

/// The base with `es` applied, each edit's range replaced by its lines.
pub open spec fn apply_edits(base: Seq<Seq<char>>, es: Seq<EditView>) -> Seq<char> {
    render_from(base, 0, base.len() as int, es, 0, es.len() as int)
}

proof fn lemma_render_cons(base: Seq<Seq<char>>, p: int, end: int, e: EditView, rest: Seq<EditView>, k: int)
    requires
        0 <= k <= rest.len(),
    ensures
        render_from(base, p, end, seq![e] + rest, k + 1, rest.len() + 1 as int) == render_from(base, p, end, rest, k, rest.len() as int),
    decreases rest.len() - k,
{
    let s = seq![e] + rest;
    if k < rest.len() {
        assert(s[k + 1] == rest[k]);
        lemma_render_cons(base, rest[k].end, end, e, rest, k + 1);
    }
}

/// Whether the next edit of the walk is ours, when the sides do not overlap.
pub open spec fn ours_next(os: Seq<EditView>, ts: Seq<EditView>, io: int, it: int) -> bool {
    io < os.len() && (it >= ts.len() || os[io].start < ts[it].start)
}

/// The walk state after applying the next edit, when the sides do not overlap.
pub open spec fn disjoint_next(base: Seq<Seq<char>>, os: Seq<EditView>, ts: Seq<EditView>, w: Walk) -> Walk {
    let e = if ours_next(os, ts, w.io, w.it) { os[w.io] } else { ts[w.it] };
    let out = join_range(base, w.pos, e.start) + join(e.lines);
    Walk {
        pos: e.end,
        io: if ours_next(os, ts, w.io, w.it) { w.io + 1 } else { w.io },
        it: if ours_next(os, ts, w.io, w.it) { w.it } else { w.it + 1 },
        wins: w.wins + out,
        marked: w.marked + out,
        conflict: w.conflict,
    }
}

#[verifier::rlimit(60)]
proof fn lemma_walk_step_disjoint(base: Seq<Seq<char>>, os: Seq<EditView>, ts: Seq<EditView>, w: Walk)
    requires
        disjoint_edits(os, ts),
        edits_wf(os, base.len() as int),
        edits_wf(ts, base.len() as int),
        0 <= w.io <= os.len(),
        0 <= w.it <= ts.len(),
        w.io < os.len() || w.it < ts.len(),
    ensures
        walk(base, os, ts, w) == walk(base, os, ts, disjoint_next(base, os, ts, w)),
{
    let has_o = w.io < os.len();
    let has_t = w.it < ts.len();
    if has_o && has_t {
        assert(!overlap(os[w.io], ts[w.it]));
        assert(overlap(ts[w.it], ts[w.it]));
        assert(os[w.io] != ts[w.it]);
    }
    let ns = first_edit_start(base.len() as int, os, ts, w.io, w.it);
    let pos = if w.pos < ns { ns } else { w.pos };
    let w1 = Walk { pos, ..emit(w, join_range(base, w.pos, ns)) };
    let e = if ours_next(os, ts, w.io, w.it) { os[w.io] } else { ts[w.it] };
    assert(ns == e.start);
    assert(emit(w1, join(e.lines)).wins == w.wins + (join_range(base, w.pos, e.start) + join(e.lines)));
    assert(emit(w1, join(e.lines)).marked == w.marked + (join_range(base, w.pos, e.start) + join(e.lines)));
}

proof fn lemma_walk_disjoint_output(base: Seq<Seq<char>>, os: Seq<EditView>, ts: Seq<EditView>, w: Walk)
    requires
        disjoint_edits(os, ts),
        edits_wf(os, base.len() as int),
        edits_wf(ts, base.len() as int),
        0 <= w.io <= os.len(),
        0 <= w.it <= ts.len(),
    ensures
        walk(base, os, ts, w).wins == w.wins + render_from(
            base,
            w.pos,
            base.len() as int,
            interleave(os, ts, w.io, w.it),
            0,
            interleave(os, ts, w.io, w.it).len() as int,
        ),
    decreases os.len() - w.io + ts.len() - w.it,
{
    let n = base.len() as int;
    let il = interleave(os, ts, w.io, w.it);
    if !(w.io < os.len()) && !(w.it < ts.len()) {
        assert(il.len() == 0);
        assert(walk(base, os, ts, w).wins == w.wins + join_range(base, w.pos, n));
    } else {
        let take_o = ours_next(os, ts, w.io, w.it);
        let e = if take_o { os[w.io] } else { ts[w.it] };
        let next = disjoint_next(base, os, ts, w);
        let rest = if take_o { interleave(os, ts, w.io + 1, w.it) } else { interleave(os, ts, w.io, w.it + 1) };
        assert(il == seq![e] + rest);
        lemma_walk_step_disjoint(base, os, ts, w);
        lemma_walk_disjoint_output(base, os, ts, next);
        lemma_render_cons(base, e.end, n, e, rest, 0);
        assert(il[0] == e);
        assert(render_from(base, w.pos, n, il, 0, il.len() as int) == join_range(base, w.pos, e.start) + join(e.lines)
            + render_from(base, e.end, n, il, 1, il.len() as int));
    }
}

proof fn lemma_interleave_contains(os: Seq<EditView>, ts: Seq<EditView>, io: int, it: int)
    requires
        0 <= io <= os.len(),
        0 <= it <= ts.len(),
    ensures
        forall|i: int| io <= i < os.len() ==> interleave(os, ts, io, it).contains(#[trigger] os[i]),
        forall|j: int| it <= j < ts.len() ==> interleave(os, ts, io, it).contains(#[trigger] ts[j]),
    decreases os.len() - io + ts.len() - it,
{
    let il = interleave(os, ts, io, it);
    if io < os.len() && (it >= ts.len() || os[io].start < ts[it].start) {
        lemma_interleave_contains(os, ts, io + 1, it);
        let rest = interleave(os, ts, io + 1, it);
        assert forall|i: int| io <= i < os.len() implies il.contains(#[trigger] os[i]) by {
            if i == io {
                assert(il[0] == os[io]);
            } else {
                let k = choose|k: int| 0 <= k < rest.len() && rest[k] == os[i];
                assert(il[k + 1] == os[i]);
            }
        }
        assert forall|j: int| it <= j < ts.len() implies il.contains(#[trigger] ts[j]) by {
            let k = choose|k: int| 0 <= k < rest.len() && rest[k] == ts[j];
            assert(il[k + 1] == ts[j]);
        }
    } else if it < ts.len() {
        lemma_interleave_contains(os, ts, io, it + 1);
        let rest = interleave(os, ts, io, it + 1);
        assert forall|i: int| io <= i < os.len() implies il.contains(#[trigger] os[i]) by {
            let k = choose|k: int| 0 <= k < rest.len() && rest[k] == os[i];
            assert(il[k + 1] == os[i]);
        }
        assert forall|j: int| it <= j < ts.len() implies il.contains(#[trigger] ts[j]) by {
            if j == it {
                assert(il[0] == ts[it]);
            } else {
                let k = choose|k: int| 0 <= k < rest.len() && rest[k] == ts[j];
                assert(il[k + 1] == ts[j]);
            }
        }
    }
}

/// Edits of the two sides that do not overlap merge cleanly into the base
/// with every edit of both sides applied, in order of their start.
pub proof fn lemma_disjoint_edits_apply_both(base: Seq<Seq<char>>, os: Seq<EditView>, ts: Seq<EditView>)
    requires
        edits_wf(os, base.len() as int),
        edits_wf(ts, base.len() as int),
        disjoint_edits(os, ts),
    ensures
        merge_edits_spec(base, os, ts) == MergeView::Clean(apply_edits(base, interleave(os, ts, 0, 0))),
        forall|i: int| 0 <= i < os.len() ==> interleave(os, ts, 0, 0).contains(#[trigger] os[i]),
        forall|j: int| 0 <= j < ts.len() ==> interleave(os, ts, 0, 0).contains(#[trigger] ts[j]),
{
    let w = Walk { pos: 0, io: 0, it: 0, wins: Seq::empty(), marked: Seq::empty(), conflict: false };
    lemma_walk_disjoint(base, os, ts, w);
    lemma_walk_disjoint_output(base, os, ts, w);
    lemma_interleave_contains(os, ts, 0, 0);
    assert(Seq::<char>::empty() + apply_edits(base, interleave(os, ts, 0, 0)) == apply_edits(base, interleave(os, ts, 0, 0)));
}

proof fn lemma_interleave_one_side(os: Seq<EditView>, ts: Seq<EditView>, io: int, it: int)
    requires
        0 <= io <= os.len(),
        0 <= it <= ts.len(),
    ensures
        os.len() == 0 ==> interleave(os, ts, io, it) == ts.subrange(it, ts.len() as int),
        ts.len() == 0 ==> interleave(os, ts, io, it) == os.subrange(io, os.len() as int),
    decreases os.len() - io + ts.len() - it,
{
    if os.len() == 0 && it < ts.len() {
        lemma_interleave_one_side(os, ts, io, it + 1);
        assert(ts.subrange(it, ts.len() as int) =~= seq![ts[it]] + ts.subrange(it + 1, ts.len() as int));
    }
    if ts.len() == 0 && io < os.len() {
        lemma_interleave_one_side(os, ts, io + 1, it);
        assert(os.subrange(io, os.len() as int) =~= seq![os[io]] + os.subrange(io + 1, os.len() as int));
    }
    if os.len() == 0 && it == ts.len() {
        assert(ts.subrange(it, ts.len() as int) =~= Seq::<EditView>::empty());
    }
    if ts.len() == 0 && io == os.len() {
        assert(os.subrange(io, os.len() as int) =~= Seq::<EditView>::empty());
    }
}

/// Edits that overlap no edit of a well-formed list, itself included, leave
/// that list empty.
proof fn lemma_self_disjoint_empty(es: Seq<EditView>, n: int)
    requires
        edits_wf(es, n),
        disjoint_edits(es, es),
    ensures
        es.len() == 0,
{
    if es.len() > 0 {
        assert(!overlap(es[0], es[0]));
    }
}

/// Non-overlapping edits merge cleanly and keep both changes: when no line
/// edit of ours overlaps one of theirs and no side is too long to merge by
/// lines, the merge is the base with every edit of both sides applied, in
/// order of their start. The diff facts are what [`diff_edits`] ensures.
pub proof fn lemma_non_overlapping_merge_applies_both(base: Seq<char>, ours: Seq<char>, theirs: Seq<char>)
    requires
        diff_facts(base, ours),
        diff_facts(base, theirs),
        split_lines(base).len() <= MAX_MERGE_LINES,
        split_lines(ours).len() <= MAX_MERGE_LINES,
        split_lines(theirs).len() <= MAX_MERGE_LINES,
        disjoint_edits(diff_spec(base, ours), diff_spec(base, theirs)),
    ensures
        merge_spec(base, ours, theirs) == MergeView::Clean(
            apply_edits(split_lines(base), interleave(diff_spec(base, ours), diff_spec(base, theirs), 0, 0)),
        ),
        forall|i: int| 0 <= i < diff_spec(base, ours).len() ==> interleave(diff_spec(base, ours), diff_spec(base, theirs), 0, 0).contains(#[trigger] diff_spec(base, ours)[i]),
        forall|j: int| 0 <= j < diff_spec(base, theirs).len() ==> interleave(diff_spec(base, ours), diff_spec(base, theirs), 0, 0).contains(#[trigger] diff_spec(base, theirs)[j]),
{
    let b = split_lines(base);
    let oe = diff_spec(base, ours);
    let te = diff_spec(base, theirs);
    lemma_interleave_contains(oe, te, 0, 0);
    lemma_interleave_one_side(oe, te, 0, 0);
    if ours == theirs {
        lemma_self_disjoint_empty(oe, b.len() as int);
        assert(oe =~= Seq::<EditView>::empty());
        assert(interleave(oe, te, 0, 0) =~= oe);
    } else if base == ours {
        assert(te.subrange(0, te.len() as int) =~= te);
    } else if base == theirs {
        assert(oe.subrange(0, oe.len() as int) =~= oe);
    } else {
        lemma_disjoint_edits_apply_both(b, oe, te);
    }
}

} // verus!
