use vstd::prelude::*;

use crate::canvas::DrawOp;
use crate::geometry::Rect;
use crate::widget_cache::{dim_color, WidgetContainer};

verus! {

/// Widget `i` lies in the part of the hierarchy that the draw pass from `w` reaches: its parent
/// is `w` or lies there itself.  The root is its own parent, so it is reached from itself.
pub open spec fn descends(s: Seq<WidgetContainer>, i: int, w: int) -> bool
    decreases i,
{
    if 0 < i < s.len() && 0 <= s[i].parent_id < i {
        s[i].parent_id == w || descends(s, s[i].parent_id as int, w)
    } else {
        i == 0 && w == 0
    }
}

/// Each widget's ID is its index; each parent was added before its child, and the root is its own
/// parent.
pub open spec fn registry_wf(s: Seq<WidgetContainer>) -> bool {
    &&& s.len() <= i32::MAX
    &&& forall|i: int|
        0 <= i < s.len() ==> {
            &&& #[trigger] s[i].widget_id == i
            &&& 0 <= s[i].parent_id
            &&& (i == 0 ==> s[i].parent_id == 0)
            &&& (i > 0 ==> s[i].parent_id < i)
        }
}

/// Replacing a widget's container by one with the same IDs keeps the registry well formed.
pub proof fn lemma_wf_update(s: Seq<WidgetContainer>, i: int, c: WidgetContainer)
    requires
        registry_wf(s),
        0 <= i < s.len(),
        c.widget_id == s[i].widget_id,
        c.parent_id == s[i].parent_id,
    ensures
        registry_wf(s.update(i, c)),
        same_parents(s, s.update(i, c)),
{
    let t = s.update(i, c);
    assert forall|j: int| 0 <= j < t.len() implies #[trigger] t[j].widget_id == j && 0 <= t[j].parent_id
        && (j == 0 ==> t[j].parent_id == 0) && (j > 0 ==> t[j].parent_id < j) by {
        assert(s[j].widget_id == j);
    }
}

/// The two registries have the same hierarchy.
pub open spec fn same_parents(s: Seq<WidgetContainer>, t: Seq<WidgetContainer>) -> bool {
    &&& s.len() == t.len()
    &&& forall|i: int| 0 <= i < s.len() ==> #[trigger] s[i].parent_id == t[i].parent_id
}

pub proof fn lemma_descends_same_parents(s: Seq<WidgetContainer>, t: Seq<WidgetContainer>, i: int, w: int)
    requires
        same_parents(s, t),
    ensures
        descends(s, i, w) == descends(t, i, w),
    decreases i,
{
    if 0 < i < s.len() && 0 <= s[i].parent_id < i {
        lemma_descends_same_parents(s, t, s[i].parent_id as int, w);
    }
}

pub proof fn lemma_descends_trans(s: Seq<WidgetContainer>, i: int, c: int, w: int)
    requires
        descends(s, i, c),
        descends(s, c, w),
    ensures
        descends(s, i, w),
    decreases i,
{
    if 0 < i < s.len() && 0 <= s[i].parent_id < i {
        if s[i].parent_id != c {
            lemma_descends_trans(s, s[i].parent_id as int, c, w);
        }
    }
}

/// The draw pass from `w` reaches widget `i` exactly when `i` is a child of `w`, or lies below a
/// child of `w` other than `w` itself.
pub proof fn lemma_descends_children(s: Seq<WidgetContainer>, i: int, w: int)
    requires
        registry_wf(s),
        0 <= i < s.len(),
        0 <= w < s.len(),
    ensures
        descends(s, i, w) <==> (s[i].parent_id == w || exists|c: int|
            0 <= c < s.len() && #[trigger] s[c].parent_id == w && c != w && descends(s, i, c)),
    decreases i,
{
    assert(s[i].widget_id == i);
    if descends(s, i, w) {
        if i > 0 && s[i].parent_id != w {
            let p = s[i].parent_id as int;
            assert(s[p].widget_id == p);
            lemma_descends_children(s, p, w);
            if s[p].parent_id == w {
                assert(descends(s, i, p));
                assert(0 <= p < s.len() && s[p].parent_id == w && p != w && descends(s, i, p));
            } else {
                let c = choose|c: int|
                    0 <= c < s.len() && #[trigger] s[c].parent_id == w && c != w && descends(s, p, c);
                assert(descends(s, i, c));
                assert(0 <= c < s.len() && s[c].parent_id == w && c != w && descends(s, i, c));
            }
        }
    }
    if s[i].parent_id == w {
        if i == 0 {
            assert(w == 0);
        }
    } else if exists|c: int|
        0 <= c < s.len() && #[trigger] s[c].parent_id == w && c != w && descends(s, i, c) {
        let c = choose|c: int|
            0 <= c < s.len() && #[trigger] s[c].parent_id == w && c != w && descends(s, i, c);
        assert(s[c].widget_id == c);
        assert(s[0].widget_id == 0);
        assert(c > 0);
        assert(descends(s, c, w));
        lemma_descends_trans(s, i, c, w);
    }
}

/// The draw pass from the root reaches every widget.
pub proof fn lemma_all_descend_from_root(s: Seq<WidgetContainer>)
    requires
        registry_wf(s),
    ensures
        forall|i: int| 0 <= i < s.len() ==> #[trigger] descends(s, i, 0),
{
    assert forall|i: int| 0 <= i < s.len() implies #[trigger] descends(s, i, 0) by {
        lemma_descends_root(s, i);
    }
}

pub proof fn lemma_descends_root(s: Seq<WidgetContainer>, i: int)
    requires
        registry_wf(s),
        0 <= i < s.len(),
    ensures
        descends(s, i, 0),
    decreases i,
{
    assert(s[i].widget_id == i);
    if i > 0 && s[i].parent_id != 0 {
        let p = s[i].parent_id as int;
        assert(s[p].widget_id == p);
        lemma_descends_root(s, p);
    }
}

/// The IDs of those of the first `m` widgets whose parent is `w`, in order.
pub open spec fn children_upto(s: Seq<WidgetContainer>, w: int, m: int) -> Seq<usize>
    decreases m,
{
    if m <= 0 {
        seq![]
    } else if s[m - 1].parent_id == w {
        children_upto(s, w, m - 1).push((m - 1) as usize)
    } else {
        children_upto(s, w, m - 1)
    }
}

/// What the draw pass from widget `w` draws in a registry `s` of `n` widgets, and the registry
/// after it: the children of `w` are walked in the order they were added (see `walk_children`).
pub open spec fn walk(s: Seq<WidgetContainer>, n: int, w: int) -> (Seq<DrawOp>, Seq<WidgetContainer>)
    decreases n - w, 1int, 0int,
{
    if 0 <= w < n && s.len() == n {
        walk_children(s, n, w, children_upto(s, w, n), 0, s[0].widget.config_spec().area_spec())
    } else {
        (seq![], s)
    }
}

/// The draw pass over the children `ch[k..]` of `w`.  Each child that is visible and invalidated
/// is painted with the clip set to its bounds, after which the clip goes back to `top`, the
/// bounds of the root; then the pass goes down into the child's own children; then a disabled
/// child is dimmed.
pub open spec fn walk_children(
    s: Seq<WidgetContainer>,
    n: int,
    w: int,
    ch: Seq<usize>,
    k: int,
    top: Rect,
) -> (Seq<DrawOp>, Seq<WidgetContainer>)
    decreases n - w, 0int, ch.len() - k,
{
    if k < 0 || k >= ch.len() || ch[k] >= s.len() {
        (seq![], s)
    } else {
        let c = ch[k] as int;
        let cfg = s[c].widget.config_spec();
        let area = cfg.area_spec();
        let paint = if s[c].needs_paint() {
            seq![DrawOp::SetClip(area)] + s[c].widget.draw_spec() + seq![DrawOp::SetClip(top)]
        } else {
            seq![]
        };
        let s1 = if s[c].needs_paint() {
            s.update(c, s[c].with_widget(s[c].widget.drawn_spec()))
        } else {
            s
        };
        let sub = if w < c < n {
            walk(s1, n, c)
        } else {
            (seq![], s1)
        };
        let dim = if !cfg.enabled {
            seq![DrawOp::DrawRect(area, dim_color())]
        } else {
            seq![]
        };
        let rest = walk_children(sub.1, n, w, ch, k + 1, top);
        (paint + sub.0 + dim + rest.0, rest.1)
    }
}

/// Widget `i` is reached by the draw pass from `w` once it has walked the first `k` children
/// in `ch`.
pub open spec fn visited(s: Seq<WidgetContainer>, ch: Seq<usize>, k: int, w: int, i: int) -> bool {
    exists|j: int|
        0 <= j < k && (i == #[trigger] ch[j] || (ch[j] != w && descends(s, i, ch[j] as int)))
}

} // verus!
