//! The committed shape list with its undo/redo stacks and the version
//! counter that effect previews are keyed by.

use crate::shapes::Shape;
use vstd::prelude::*;

verus! {

/// What a history holds: the committed shapes in z-order, the shapes that
/// `redo` would bring back (last out first), and the version counter.
pub struct HistoryView {
    pub shapes: Seq<Shape>,
    pub redo: Seq<Shape>,
    pub version: u64,
}

/// The next version token; it wraps around, as only equality is ever
/// tested.
pub open spec fn bump(v: u64) -> u64 {
    if v == u64::MAX {
        0
    } else {
        (v + 1) as u64
    }
}

/// `commit(x)`: append `x`, forget the redo stack, bump the version.
pub open spec fn committed(h: HistoryView, x: Shape) -> HistoryView {
    HistoryView { shapes: h.shapes.push(x), redo: Seq::empty(), version: bump(h.version) }
}

/// `undo()`: move the last shape onto the redo stack; nothing when the
/// list is empty.
pub open spec fn undone(h: HistoryView) -> HistoryView {
    if h.shapes.len() == 0 {
        h
    } else {
        HistoryView {
            shapes: h.shapes.drop_last(),
            redo: h.redo.push(h.shapes.last()),
            version: bump(h.version),
        }
    }
}

/// `redo()`: move the top of the redo stack back onto the list; nothing
/// when the stack is empty.
pub open spec fn redone(h: HistoryView) -> HistoryView {
    if h.redo.len() == 0 {
        h
    } else {
        HistoryView {
            shapes: h.shapes.push(h.redo.last()),
            redo: h.redo.drop_last(),
            version: bump(h.version),
        }
    }
}

/// `clear()`: empty the list and the redo stack; nothing when the list is
/// already empty.
pub open spec fn cleared(h: HistoryView) -> HistoryView {
    if h.shapes.len() == 0 {
        h
    } else {
        HistoryView { shapes: Seq::empty(), redo: Seq::empty(), version: bump(h.version) }
    }
}

/// The largest callout number among `s`, or zero.
pub open spec fn max_count(s: Seq<Shape>) -> nat
    decreases s.len(),
{
    if s.len() == 0 {
        0
    } else {
        let m = max_count(s.drop_last());
        match s.last() {
            Shape::CircleCount(c) => if c.count > m {
                c.count as nat
            } else {
                m
            },
            _ => m,
        }
    }
}

/// The number the next callout gets: one more than the largest so far
/// (held at `u32::MAX` once that is reached).
pub open spec fn next_count(s: Seq<Shape>) -> u32 {
    if max_count(s) < u32::MAX {
        (max_count(s) + 1) as u32
    } else {
        u32::MAX
    }
}

/// The shape list and its undo/redo history.
pub struct History {
    shapes: Vec<Shape>,
    redo: Vec<Shape>,
    version: u64,
}

impl View for History {
    type V = HistoryView;

    closed spec fn view(&self) -> HistoryView {
        HistoryView { shapes: self.shapes@, redo: self.redo@, version: self.version }
    }
}

impl History {
    /// An empty history at version zero.
    pub fn new() -> (h: History)
        ensures
            h@.shapes.len() == 0,
            h@.redo.len() == 0,
            h@.version == 0,
    {
        History { shapes: Vec::new(), redo: Vec::new(), version: 0 }
    }

    pub fn shapes(&self) -> (s: &Vec<Shape>)
        ensures
            s@ == self@.shapes,
    {
        &self.shapes
    }

    pub fn version(&self) -> (v: u64)
        ensures
            v == self@.version,
    {
        self.version
    }

    pub fn redo_len(&self) -> (n: usize)
        ensures
            n == self@.redo.len(),
    {
        self.redo.len()
    }

    fn bump_version(&mut self)
        ensures
            final(self)@ == (HistoryView { version: bump(old(self)@.version), ..old(self)@ }),
    {
        self.version = if self.version == u64::MAX {
            0
        } else {
            self.version + 1
        };
    }

    /// Commits `shape` on top of the list.
    pub fn push_shape(&mut self, shape: Shape)
        ensures
            final(self)@ == committed(old(self)@, shape),
    {
        self.shapes.push(shape);
        self.redo.clear();
        self.bump_version();
    }

    /// Undoes the last commit.
    pub fn pop_shape(&mut self)
        ensures
            final(self)@ == undone(old(self)@),
    {
        match self.shapes.pop() {
            Some(shape) => {
                self.redo.push(shape);
                self.bump_version();
            },
            None => {},
        }
    }

    /// Brings back the last undone shape.
    pub fn redo_shape(&mut self)
        ensures
            final(self)@ == redone(old(self)@),
    {
        match self.redo.pop() {
            Some(shape) => {
                self.shapes.push(shape);
                self.bump_version();
            },
            None => {},
        }
    }

    /// Removes every shape.
    pub fn clear_shapes(&mut self)
        ensures
            final(self)@ == cleared(old(self)@),
    {
        if self.shapes.len() > 0 {
            self.shapes.clear();
            self.redo.clear();
            self.bump_version();
            assert(self.shapes@ =~= Seq::empty());
            assert(self.redo@ =~= Seq::empty());
        }
    }

    /// The number a new callout gets.
    pub fn next_circle_count(&self) -> (n: u32)
        ensures
            n == next_count(self@.shapes),
    {
        let mut max: u32 = 0;
        let mut i: usize = 0;
        while i < self.shapes.len()
            invariant
                0 <= i <= self.shapes@.len(),
                max == max_count(self.shapes@.take(i as int)),
            decreases self.shapes@.len() - i,
        {
            assert(self.shapes@.take(i as int + 1).drop_last() =~= self.shapes@.take(i as int));
            match &self.shapes[i] {
                Shape::CircleCount(c) => {
                    if c.count > max {
                        max = c.count;
                    }
                },
                _ => {},
            }
            i = i + 1;
        }
        assert(self.shapes@.take(i as int) =~= self.shapes@);
        if max < u32::MAX {
            max + 1
        } else {
            u32::MAX
        }
    }
}

/// Undo takes back a commit, and redo restores it: from any history,
/// `commit(x); undo()` leaves the shape list as it was, and a following
/// `redo()` leaves it with `x` appended.
pub proof fn lemma_undo_redo_duality(h: HistoryView, x: Shape)
    ensures
        undone(committed(h, x)).shapes == h.shapes,
        redone(undone(committed(h, x))).shapes == h.shapes.push(x),
{
    assert(h.shapes.push(x).drop_last() =~= h.shapes);
}

/// A commit invalidates redo: after `commit(x); undo(); commit(y)`, a
/// `redo()` changes nothing, and `y` stays the last shape.
pub proof fn lemma_commit_invalidates_redo(h: HistoryView, x: Shape, y: Shape)
    ensures
        redone(committed(undone(committed(h, x)), y)) == committed(undone(committed(h, x)), y),
        committed(undone(committed(h, x)), y).shapes.last() == y,
{
}

/// Every change of the shape list moves the version: a commit always, and
/// undo, redo or clear whenever they change anything.
pub proof fn lemma_mutation_moves_version(h: HistoryView, x: Shape)
    ensures
        committed(h, x).version != h.version,
        undone(h) != h ==> undone(h).version != h.version,
        redone(h) != h ==> redone(h).version != h.version,
        cleared(h) != h ==> cleared(h).version != h.version,
{
}

/// The callout number is one more than the largest present: committing a
/// callout that got `next_count` raises the next number by one, committing
/// any other shape leaves it alone, and undoing the commit restores it.
pub proof fn lemma_next_count_sequence(s: Seq<Shape>, x: Shape)
    ensures
        (x matches Shape::CircleCount(c) && c.count == next_count(s) && max_count(s) + 1 < u32::MAX)
            ==> next_count(s.push(x)) == next_count(s) + 1,
        !(x is CircleCount) ==> next_count(s.push(x)) == next_count(s),
        next_count(s.push(x).drop_last()) == next_count(s),
{
    assert(s.push(x).drop_last() =~= s);
}

} // verus!
