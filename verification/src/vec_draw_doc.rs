//! The drawing document: the ordered list of shapes (first drawn first) and
//! the shape being drawn.
use vstd::prelude::*;

verus! {

/// The shapes of `s` whose flag is false, in order.
pub open spec fn unflagged<S>(s: Seq<S>, flags: Seq<bool>) -> Seq<S>
    decreases s.len(),
{
    if s.len() == 0 {
        Seq::<S>::empty()
    } else {
        let rest = unflagged(s.drop_last(), flags);
        if flags[s.len() - 1] {
            rest
        } else {
            rest.push(s.last())
        }
    }
}

/// The shapes of `s` whose flag is true, in order.
pub open spec fn flagged<S>(s: Seq<S>, flags: Seq<bool>) -> Seq<S>
    decreases s.len(),
{
    if s.len() == 0 {
        Seq::<S>::empty()
    } else {
        let rest = flagged(s.drop_last(), flags);
        if flags[s.len() - 1] {
            rest.push(s.last())
        } else {
            rest
        }
    }
}

/// `r` holds, in order, a clone of each shape of `s` whose flag is true.
pub open spec fn clones_of_flagged<S: Clone>(r: Seq<S>, s: Seq<S>, flags: Seq<bool>) -> bool {
    &&& r.len() == flagged(s, flags).len()
    &&& forall|k: int| 0 <= k < r.len() ==> cloned(#[trigger] flagged(s, flags)[k], r[k])
}

/// The shapes of a drawing, in drawing order, and the shape in progress.
pub struct VecDrawDoc<S> {
    pub shapes: Vec<S>,
    pub ghost_shape: Option<S>,
}

impl<S> VecDrawDoc<S> {
    /// An empty drawing.
    pub fn new() -> (doc: Self)
        ensures
            doc.shapes@ == Seq::<S>::empty(),
            doc.ghost_shape is None,
    {
        Self { shapes: Vec::new(), ghost_shape: None }
    }

    /// Adds a shape on top of the others.
    pub fn add_shape(&mut self, shape: S)
        ensures
            final(self).shapes@ == old(self).shapes@.push(shape),
            final(self).ghost_shape == old(self).ghost_shape,
    {
        self.shapes.push(shape);
    }

    /// Removes the shapes that the eraser hits; `hits[i]` says whether it
    /// hits shape `i`.
    pub fn erase(&mut self, hits: &Vec<bool>)
        requires
            hits@.len() == old(self).shapes@.len(),
        ensures
            final(self).shapes@ == unflagged(old(self).shapes@, hits@),
            final(self).ghost_shape == old(self).ghost_shape,
    {
        remove_flagged(&mut self.shapes, hits);
    }

    /// Removes every shape.
    pub fn clear(&mut self)
        ensures
            final(self).shapes@ == Seq::<S>::empty(),
            final(self).ghost_shape == old(self).ghost_shape,
    {
        self.shapes.clear();
    }

    /// Removes the selected shapes; `selected[i]` says whether shape `i` is selected.
    pub fn delete_selected(&mut self, selected: &Vec<bool>)
        requires
            selected@.len() == old(self).shapes@.len(),
        ensures
            final(self).shapes@ == unflagged(old(self).shapes@, selected@),
            final(self).ghost_shape == old(self).ghost_shape,
    {
        remove_flagged(&mut self.shapes, selected);
    }

    /// Number of shapes.
    pub fn count(&self) -> (n: usize)
        ensures
            n == self.shapes@.len(),
    {
        self.shapes.len()
    }
}

impl<S: Clone> VecDrawDoc<S> {
    /// A clone of shape `index`, if there is one.
    pub fn nth(&self, index: usize) -> (res: Option<S>)
        ensures
            res is Some <==> index < self.shapes@.len(),
            res matches Some(r) ==> cloned(self.shapes@[index as int], r),
    {
        if index < self.shapes.len() {
            Some(self.shapes[index].clone())
        } else {
            None
        }
    }

    /// Clones of the shapes under the mouse, in order; `hits[i]` says whether
    /// the mouse is over shape `i`.
    pub fn get_shapes_under_mouse(&self, hits: &Vec<bool>) -> (res: Vec<S>)
        requires
            hits@.len() == self.shapes@.len(),
        ensures
            clones_of_flagged(res@, self.shapes@, hits@),
    {
        clone_flagged(&self.shapes, hits)
    }

    /// Clones of the selected shapes, in order; `selected[i]` says whether
    /// shape `i` is selected.
    pub fn get_selected_shapes(&self, selected: &Vec<bool>) -> (res: Vec<S>)
        requires
            selected@.len() == self.shapes@.len(),
        ensures
            clones_of_flagged(res@, self.shapes@, selected@),
    {
        clone_flagged(&self.shapes, selected)
    }
}

/// Keeps, in order, the items of `v` whose flag is false.
fn remove_flagged<S>(v: &mut Vec<S>, flags: &Vec<bool>)
    requires
        flags@.len() == old(v)@.len(),
    ensures
        final(v)@ == unflagged(old(v)@, flags@),
{
    let ghost orig = v@;
    let mut kept: Vec<S> = Vec::new();
    let mut rest: Vec<S> = Vec::new();
    std::mem::swap(v, &mut rest);
    let n = flags.len();
    let mut i: usize = 0;
    assert(orig.take(0) =~= Seq::<S>::empty());
    while i < n
        invariant
            n == flags@.len(),
            n == orig.len(),
            i <= n,
            rest@ == orig.skip(i as int),
            kept@ == unflagged(orig.take(i as int), flags@),
        decreases n - i,
    {
        let item = rest.remove(0);
        assert(orig.skip(i as int).remove(0) =~= orig.skip(i + 1));
        proof {
            let t = orig.take(i + 1);
            assert(t.drop_last() =~= orig.take(i as int));
            assert(t.last() == orig[i as int]);
        }
        if !flags[i] {
            kept.push(item);
        }
        i += 1;
    }
    assert(orig.take(n as int) =~= orig);
    *v = kept;
}

/// Clones, in order, of the items of `v` whose flag is true.
fn clone_flagged<S: Clone>(v: &Vec<S>, flags: &Vec<bool>) -> (res: Vec<S>)
    requires
        flags@.len() == v@.len(),
    ensures
        clones_of_flagged(res@, v@, flags@),
{
    let mut res: Vec<S> = Vec::new();
    let n = v.len();
    let mut i: usize = 0;
    assert(v@.take(0) =~= Seq::<S>::empty());
    while i < n
        invariant
            n == flags@.len(),
            n == v@.len(),
            i <= n,
            clones_of_flagged(res@, v@.take(i as int), flags@),
        decreases n - i,
    {
        let ghost t = v@.take(i + 1);
        assert(t.drop_last() =~= v@.take(i as int));
        assert(t.last() == v@[i as int]);
        if flags[i] {
            let c = v[i].clone();
            res.push(c);
            assert(flagged(t, flags@) == flagged(v@.take(i as int), flags@).push(v@[i as int]));
            assert forall|k: int| 0 <= k < res@.len() implies cloned(
                #[trigger] flagged(t, flags@)[k],
                res@[k],
            ) by {
                if k < res@.len() - 1 {
                    assert(flagged(t, flags@)[k] == flagged(v@.take(i as int), flags@)[k]);
                }
            }
        }
        i += 1;
    }
    assert(v@.take(n as int) =~= v@);
    res
}

/// Spacing of the ruler ticks, in canvas pixels.
pub const TICK_INTERVAL: usize = 10;

/// Spacing of the labelled (longer) ruler ticks.
pub const MAJOR_TICK_INTERVAL: i32 = 50;

/// The positions `0, step, 2*step, ...` below `extent`, as walked by
/// `(0..extent).step_by(step)`: the ticks of a ruler, or the dots of a grid
/// row.
pub fn step_positions(extent: i32, step: usize) -> (res: Vec<i32>)
    requires
        step > 0,
    ensures
        forall|k: int| 0 <= k < res.len() ==> #[trigger] res@[k] == k * step && res@[k] < extent,
        res.len() * step >= extent,
{
    let mut res: Vec<i32> = Vec::new();
    if extent <= 0 {
        return res;
    }
    let ext: u64 = extent as u64;
    let st: u64 = step as u64;
    let mut pos: u64 = 0;
    proof {
        assert(res.len() * step == 0) by (nonlinear_arith)
            requires
                res.len() == 0,
        ;
    }
    while pos < ext
        invariant
            step > 0,
            st == step,
            ext == extent,
            0 < extent,
            pos == res.len() * step,
            forall|k: int| 0 <= k < res.len() ==> #[trigger] res@[k] == k * step && res@[k] < extent,
        decreases ext - pos,
    {
        proof {
            assert((res.len() + 1) * step == res.len() * step + step) by (nonlinear_arith);
        }
        res.push(pos as i32);
        if st >= ext - pos {
            return res;
        }
        pos = pos + st;
    }
    res
}

/// Whether the ruler tick at `position` is a long, labelled one.
pub fn is_major_tick(position: i32) -> (res: bool)
    ensures
        res == (position % MAJOR_TICK_INTERVAL == 0),
{
    position % MAJOR_TICK_INTERVAL == 0
}

/// Adding a shape makes it the last one: the count grows by one and `nth`
/// of the old count is the added shape.
pub proof fn lemma_add_then_last<S>(shapes: Seq<S>, shape: S)
    ensures
        shapes.push(shape).len() == shapes.len() + 1,
        shapes.push(shape)[shapes.len() as int] == shape,
{
}

/// Deleting the selected shapes keeps exactly the unselected ones: what stays
/// plus what is selected is as many shapes as there were, and deleting again
/// with no shape selected changes nothing.
pub proof fn lemma_delete_partitions<S>(s: Seq<S>, flags: Seq<bool>)
    requires
        flags.len() == s.len(),
    ensures
        unflagged(s, flags).len() + flagged(s, flags).len() == s.len(),
        unflagged(unflagged(s, flags), Seq::new(unflagged(s, flags).len(), |i: int| false))
            == unflagged(s, flags),
    decreases s.len(),
{
    lemma_partition_len(s, flags);
    lemma_unflagged_none(unflagged(s, flags), Seq::new(unflagged(s, flags).len(), |i: int| false));
}

proof fn lemma_partition_len<S>(s: Seq<S>, flags: Seq<bool>)
    requires
        flags.len() >= s.len(),
    ensures
        unflagged(s, flags).len() + flagged(s, flags).len() == s.len(),
    decreases s.len(),
{
    if s.len() > 0 {
        lemma_partition_len(s.drop_last(), flags);
    }
}

proof fn lemma_unflagged_none<S>(s: Seq<S>, flags: Seq<bool>)
    requires
        flags.len() >= s.len(),
        forall|i: int| 0 <= i < flags.len() ==> !flags[i],
    ensures
        unflagged(s, flags) == s,
    decreases s.len(),
{
    if s.len() > 0 {
        lemma_unflagged_none(s.drop_last(), flags);
        assert(s.drop_last().push(s.last()) =~= s);
    } else {
        assert(s =~= Seq::<S>::empty());
    }
}

} // verus!
