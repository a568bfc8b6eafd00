use vstd::prelude::*;

use crate::geometry::{Color, Rect};

verus! {

/// One drawing command for the surface.  Widgets and the draw loop describe a frame as a list of
/// these; the host replays them, in order, on its canvas.
#[derive(Clone, Copy, Debug, PartialEq, Eq, Structural)]
pub enum DrawOp {
    /// Restricts all following drawing to the rectangle.
    SetClip(Rect),
    /// Paints the rectangle's area.
    FillRect(Rect, Color),
    /// Strokes the rectangle's outline.
    DrawRect(Rect, Color),
    /// Draws a line from `(x1, y1)` to `(x2, y2)`.
    DrawLine(i64, i64, i64, i64, Color),
    /// Paints one pixel.
    DrawPoint(i64, i64, Color),
    /// Shows everything drawn so far on screen.
    Present,
}

/// The number of `Present` commands in `ops`.
pub open spec fn present_count(ops: Seq<DrawOp>) -> nat
    decreases ops.len(),
{
    if ops.len() == 0 {
        0
    } else {
        present_count(ops.drop_last()) + if ops.last() is Present {
            1nat
        } else {
            0nat
        }
    }
}

/// No command in `ops` presents the surface.
pub open spec fn presents_nothing(ops: Seq<DrawOp>) -> bool {
    forall|i: int| 0 <= i < ops.len() ==> !(#[trigger] ops[i] is Present)
}

pub proof fn lemma_present_count_none(ops: Seq<DrawOp>)
    requires
        presents_nothing(ops),
    ensures
        present_count(ops) == 0,
    decreases ops.len(),
{
    if ops.len() > 0 {
        assert(presents_nothing(ops.drop_last())) by {
            assert forall|i: int| 0 <= i < ops.drop_last().len() implies !(
            #[trigger] ops.drop_last()[i] is Present) by {
                assert(ops.drop_last()[i] == ops[i]);
            }
        }
        lemma_present_count_none(ops.drop_last());
        assert(!(ops[ops.len() - 1] is Present));
    }
}

/// `after` is `before` followed by commands none of which presents the surface.
pub open spec fn extends_quietly(before: Seq<DrawOp>, after: Seq<DrawOp>) -> bool {
    &&& before.len() <= after.len()
    &&& after.subrange(0, before.len() as int) == before
    &&& presents_nothing(after.subrange(before.len() as int, after.len() as int))
}

pub proof fn lemma_extends_quietly_refl(a: Seq<DrawOp>)
    ensures
        extends_quietly(a, a),
{
    assert(a.subrange(0, a.len() as int) =~= a);
}

pub proof fn lemma_extends_quietly_trans(a: Seq<DrawOp>, b: Seq<DrawOp>, c: Seq<DrawOp>)
    requires
        extends_quietly(a, b),
        extends_quietly(b, c),
    ensures
        extends_quietly(a, c),
{
    assert(c.subrange(0, a.len() as int) =~= b.subrange(0, a.len() as int));
    assert forall|i: int| 0 <= i < c.len() - a.len() implies !(#[trigger] c.subrange(
        a.len() as int,
        c.len() as int,
    )[i] is Present) by {
        if i < b.len() - a.len() {
            assert(c.subrange(a.len() as int, c.len() as int)[i] == b.subrange(
                a.len() as int,
                b.len() as int,
            )[i]);
        } else {
            assert(c.subrange(a.len() as int, c.len() as int)[i] == c.subrange(
                b.len() as int,
                c.len() as int,
            )[i - (b.len() - a.len())]);
        }
    }
}

pub proof fn lemma_extends_quietly_append(a: Seq<DrawOp>, m: Seq<DrawOp>)
    requires
        presents_nothing(m),
    ensures
        extends_quietly(a, a + m),
{
    assert((a + m).subrange(0, a.len() as int) =~= a);
    assert((a + m).subrange(a.len() as int, (a + m).len() as int) =~= m);
}

pub proof fn lemma_extends_quietly_push(a: Seq<DrawOp>, op: DrawOp)
    requires
        !(op is Present),
    ensures
        extends_quietly(a, a.push(op)),
{
    assert(a.push(op) =~= a + seq![op]);
    assert(presents_nothing(seq![op]));
    lemma_extends_quietly_append(a, seq![op]);
}

/// Appends the commands of `more` to `ops`.
pub fn append_ops(ops: &mut Vec<DrawOp>, more: &Vec<DrawOp>)
    ensures
        final(ops)@ == old(ops)@ + more@,
{
    let mut i: usize = 0;
    let ghost start = old(ops)@;
    while i < more.len()
        invariant
            i <= more.len(),
            ops@ == start + more@.subrange(0, i as int),
        decreases more.len() - i,
    {
        ops.push(more[i]);
        i = i + 1;
        assert(ops@ =~= start + more@.subrange(0, i as int));
    }
    assert(more@.subrange(0, more.len() as int) =~= more@);
}

} // verus!
