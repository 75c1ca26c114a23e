//! Iterator over a global tensor view that advances along `k`.

use vstd::prelude::*;

verus! {

/// Axis along which the iterator advances.
#[derive(Copy, Clone, Debug, Hash, PartialEq, Eq, Structural)]
pub enum ViewDirection {
    Row,
    Col,
    /// Cannot advance: the view is the whole global view.
    Fixed,
}

/// Position of an iterator over a global view of `view_size` (after the
/// first slicing), advancing by `step` along `view_direction`, except for
/// the first advance, which is `first_step`.
#[derive(Copy, Clone, Debug)]
pub struct GlobalIterator {
    pub offset: u32,
    /// The amount to advance by on each iteration.
    pub step: u32,
    pub first_step: u32,
    pub view_size: (u32, u32),
    pub view_direction: ViewDirection,
    pub checked: bool,
}

/// The slice of the global view the iterator currently covers.
#[derive(Copy, Clone, Debug, PartialEq, Eq)]
pub struct ViewSlice {
    /// Start `(row, column)` of the slice.
    pub offset: (u32, u32),
    /// Size `(rows, columns)` of the slice.
    pub size: (u32, u32),
    /// Whether reads through the slice are bounds-checked.
    pub checked: bool,
}

/// Advance of the next step: `first_step` at offset 0, `step` afterwards.
pub open spec fn current_step(it: GlobalIterator) -> u32 {
    if it.offset == 0 {
        it.first_step
    } else {
        it.step
    }
}

/// The iterator after one advance.
pub open spec fn advance_spec(it: GlobalIterator) -> GlobalIterator {
    GlobalIterator { offset: (it.offset + current_step(it)) as u32, ..it }
}

/// The slice of the global view an iterator covers.
pub open spec fn view_spec(it: GlobalIterator) -> ViewSlice {
    let s = current_step(it);
    ViewSlice {
        offset: match it.view_direction {
            ViewDirection::Row => (it.offset, 0),
            ViewDirection::Col => (0, it.offset),
            ViewDirection::Fixed => (0, 0),
        },
        size: match it.view_direction {
            ViewDirection::Row => (s, it.view_size.1),
            ViewDirection::Col => (it.view_size.0, s),
            ViewDirection::Fixed => it.view_size,
        },
        checked: it.checked,
    }
}

impl GlobalIterator {
    /// Starts an iterator at offset 0 over a global view of shape
    /// `global_shape`, sliced to `step` along the direction of advance.
    pub fn new(global_shape: (u32, u32), step: u32, view_direction: ViewDirection, checked: bool) -> (r: Self)
        ensures
            r.offset == 0,
            r.step == step,
            r.first_step == step,
            r.view_direction == view_direction,
            r.checked == checked,
            r.view_size == match view_direction {
                ViewDirection::Row => (step, global_shape.1),
                ViewDirection::Col => (global_shape.0, step),
                ViewDirection::Fixed => global_shape,
            },
    {
        let (size_row, size_col) = global_shape;
        let view_size = match view_direction {
            ViewDirection::Row => (step, size_col),
            ViewDirection::Col => (size_row, step),
            ViewDirection::Fixed => (size_row, size_col),
        };
        GlobalIterator { offset: 0, step, first_step: step, view_size, view_direction, checked }
    }

    /// Advances the view: by the first step from offset 0, by the step afterwards.
    pub fn advance(&mut self)
        requires
            old(self).offset + current_step(*old(self)) <= u32::MAX,
        ensures
            *final(self) == advance_spec(*old(self)),
    {
        let offset = self.offset;
        let step = if offset == 0 {
            self.first_step
        } else {
            self.step
        };
        self.offset = offset + step;
    }

    /// Sets the amount of the first advance.
    pub fn set_first_step(&mut self, first: u32)
        ensures
            *final(self) == (GlobalIterator { first_step: first, ..*old(self) }),
    {
        self.first_step = first;
    }

    /// The slice of the global view the iterator currently covers.
    pub fn view(&self) -> (r: ViewSlice)
        ensures
            r == view_spec(*self),
    {
        let step = if self.offset == 0 {
            self.first_step
        } else {
            self.step
        };
        let offset = match self.view_direction {
            ViewDirection::Row => (self.offset, 0u32),
            ViewDirection::Col => (0u32, self.offset),
            ViewDirection::Fixed => (0u32, 0u32),
        };
        let size = match self.view_direction {
            ViewDirection::Row => (step, self.view_size.1),
            ViewDirection::Col => (self.view_size.0, step),
            ViewDirection::Fixed => self.view_size,
        };
        ViewSlice { offset, size, checked: self.checked }
    }

    /// Current offset along the direction of advance.
    pub fn offset(&self) -> (r: u32)
        ensures
            r == self.offset,
    {
        self.offset
    }
}

/// The iterator after `n` advances.
pub open spec fn advance_n(it: GlobalIterator, n: nat) -> GlobalIterator
    decreases n,
{
    if n == 0 {
        it
    } else {
        advance_spec(advance_n(it, (n - 1) as nat))
    }
}

/// Law: consecutive views are adjacent. Along the direction of advance, the
/// current slice ends exactly where the slice after one advance starts; an
/// iterator without a direction does not move: its view stays the same.
pub proof fn lemma_views_adjacent(it: GlobalIterator)
    requires
        it.offset + current_step(it) <= u32::MAX,
    ensures
        it.view_direction == ViewDirection::Row ==> view_spec(it).offset.0 + view_spec(it).size.0
            == view_spec(advance_spec(it)).offset.0,
        it.view_direction == ViewDirection::Col ==> view_spec(it).offset.1 + view_spec(it).size.1
            == view_spec(advance_spec(it)).offset.1,
        it.view_direction == ViewDirection::Fixed ==> view_spec(advance_spec(it)) == view_spec(it),
{
}

/// Law: from offset 0 with a nonzero first step, `n >= 1` advances reach
/// `first_step + (n - 1) * step` (as long as no offset overflows).
pub proof fn lemma_offset_after_advances(it: GlobalIterator, n: nat)
    requires
        it.offset == 0,
        it.first_step > 0,
        n >= 1,
        it.first_step + (n - 1) * it.step <= u32::MAX,
    ensures
        advance_n(it, n).offset == it.first_step + (n - 1) * it.step,
        advance_n(it, n).step == it.step,
        advance_n(it, n).first_step == it.first_step,
    decreases n,
{
    if n == 1 {
        assert(advance_n(it, 0) == it);
        assert(advance_n(it, 1) == advance_spec(it));
        assert((n - 1) * it.step == 0) by (nonlinear_arith)
            requires
                n == 1,
        ;
    } else {
        assert((n - 2) * it.step <= (n - 1) * it.step) by (nonlinear_arith)
            requires
                n >= 2,
        ;
        let p = (n - 1) as nat;
        lemma_offset_after_advances(it, p);
        let prev = advance_n(it, p);
        assert(prev.offset > 0);
        assert(current_step(prev) == it.step);
        assert(it.first_step + (p - 1) * it.step + it.step == it.first_step + (n - 1) * it.step)
            by (nonlinear_arith)
            requires
                p == n - 1,
                n >= 2,
        ;
        assert(prev.offset + it.step <= u32::MAX);
        assert(advance_n(it, n) == advance_spec(prev));
    }
}

} // verus!
