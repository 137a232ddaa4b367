use vstd::prelude::*;

use crate::vec2::Vec2U32;

verus! {

/// The iteration limit that the viewer starts with and returns to on a reset.
pub const DEFAULT_MAX_ITERATIONS: u32 = 50;

/// The iteration limit that results from changing `max_iterations` by `by`:
/// the sum, or zero where the sum is negative.
pub open spec fn precision_after(max_iterations: int, by: int) -> int {
    if max_iterations + by >= 0 {
        max_iterations + by
    } else {
        0
    }
}

/// What a `Params` holds: the surface size and the iteration limit.
pub struct ParamsView {
    pub size: Vec2U32,
    pub max_iterations: int,
}

/// The parameters after a precision change by `by`.
pub open spec fn precision_changed(v: ParamsView, by: int) -> ParamsView {
    ParamsView { size: v.size, max_iterations: precision_after(v.max_iterations, by) }
}

/// The parameters after the precision changes `bys`, in order.
pub open spec fn precision_changes(v: ParamsView, bys: Seq<i32>) -> ParamsView
    decreases bys.len(),
{
    if bys.len() == 0 {
        v
    } else {
        precision_changed(precision_changes(v, bys.drop_last()), bys.last() as int)
    }
}

/// The parameters after a reset: the same size, the default iteration limit.
pub open spec fn reset_view(v: ParamsView) -> ParamsView {
    ParamsView { size: v.size, max_iterations: DEFAULT_MAX_ITERATIONS as int }
}

/// The integer part of the parameters that the shader draws with: the size of
/// the drawing surface in pixels and the number of iterations after which a
/// point counts as inside the set.
///
/// The iteration limit is changed through an `i32` sum, so it never exceeds
/// `i32::MAX`; that bound is the type's invariant.
#[derive(Debug, Clone, Copy)]
pub struct Params {
    size: Vec2U32,
    max_iterations: u32,
}

impl View for Params {
    type V = ParamsView;

    closed spec fn view(&self) -> ParamsView {
        ParamsView { size: self.size, max_iterations: self.max_iterations as int }
    }
}

impl Params {
    #[verifier::type_invariant]
    spec fn limit_fits_i32(self) -> bool {
        self.max_iterations <= i32::MAX
    }

    /// The size of the drawing surface.
    pub closed spec fn spec_size(self) -> Vec2U32 {
        self.size
    }

    /// The iteration limit.
    pub closed spec fn spec_max_iterations(self) -> u32 {
        self.max_iterations
    }

    /// Parameters for a surface of `size`, with the default iteration limit.
    pub fn new(size: Vec2U32) -> (p: Params)
        ensures
            p.spec_size() == size,
            p.spec_max_iterations() == DEFAULT_MAX_ITERATIONS,
            p.spec_max_iterations() == 50,
            p@ == (ParamsView { size, max_iterations: DEFAULT_MAX_ITERATIONS as int }),
    {
        Params { size, max_iterations: DEFAULT_MAX_ITERATIONS }
    }

    /// The size of the drawing surface.
    pub fn size(&self) -> (s: Vec2U32)
        ensures
            s == self.spec_size(),
    {
        self.size
    }

    /// The iteration limit; it never exceeds `i32::MAX`.
    pub fn max_iterations(&self) -> (m: u32)
        ensures
            m == self.spec_max_iterations(),
            m <= i32::MAX,
    {
        proof {
            use_type_invariant(self);
        }
        self.max_iterations
    }

    /// Takes a new surface size. A size with a zero width or height is ignored
    /// (the window is minimised); the result says whether the size was taken.
    pub fn resize(&mut self, new_size: Vec2U32) -> (applied: bool)
        ensures
            applied == (new_size.spec_x() != 0 && new_size.spec_y() != 0),
            final(self).spec_size() == (if applied { new_size } else { old(self).spec_size() }),
            final(self).spec_max_iterations() == old(self).spec_max_iterations(),
            final(self)@ == (if applied {
                ParamsView { size: new_size, ..old(self)@ }
            } else {
                old(self)@
            }),
    {
        proof {
            use_type_invariant(&*self);
        }
        if new_size.x() == 0 || new_size.y() == 0 {
            return false;
        }
        self.size = new_size;
        true
    }

    /// Changes the iteration limit by `by`; a limit that would fall below zero
    /// becomes zero.
    ///
    /// The sum is formed as an `i32`, so it must not exceed `i32::MAX`.
    pub fn change_precision(&mut self, by: i32)
        requires
            old(self).spec_max_iterations() + by <= i32::MAX,
        ensures
            final(self).spec_max_iterations() == precision_after(
                old(self).spec_max_iterations() as int,
                by as int,
            ),
            final(self).spec_size() == old(self).spec_size(),
            final(self)@ == precision_changed(old(self)@, by as int),
            old(self).spec_max_iterations() + by >= 0 ==> final(self).spec_max_iterations()
                == old(self).spec_max_iterations() + by,
            old(self).spec_max_iterations() + by < 0 ==> final(self).spec_max_iterations() == 0,
    {
        proof {
            use_type_invariant(&*self);
        }
        let sum: i32 = self.max_iterations as i32 + by;
        self.max_iterations = if sum >= 0 {
            sum as u32
        } else {
            0
        };
    }

    /// Returns to the default iteration limit, keeping the surface size.
    pub fn reset(&mut self)
        ensures
            final(self).spec_max_iterations() == DEFAULT_MAX_ITERATIONS,
            final(self).spec_max_iterations() == 50,
            final(self).spec_size() == old(self).spec_size(),
            final(self)@ == reset_view(old(self)@),
    {
        self.max_iterations = DEFAULT_MAX_ITERATIONS;
    }

    /// The number of points drawn per frame: one per pixel of the surface.
    pub fn vertex_count(&self) -> (n: u32)
        requires
            self.spec_size().spec_x() * self.spec_size().spec_y() <= u32::MAX,
        ensures
            n == self.spec_size().spec_x() * self.spec_size().spec_y(),
    {
        self.size.x() * self.size.y()
    }
}

/// Changing the precision by `by` and then by `-by` gives back the limit one
/// started from, unless the first change was cut off at zero.
pub proof fn lemma_change_precision_undone(max_iterations: int, by: int)
    requires
        max_iterations >= 0,
        max_iterations + by >= 0,
    ensures
        precision_after(precision_after(max_iterations, by), -by) == max_iterations,
{
}

/// Changing the precision never gives a negative limit, and a change by a
/// non-negative amount never lowers it.
pub proof fn lemma_change_precision_bounds(max_iterations: int, by: int)
    requires
        max_iterations >= 0,
    ensures
        precision_after(max_iterations, by) >= 0,
        by >= 0 ==> precision_after(max_iterations, by) >= max_iterations,
{
}

/// Changing the precision by `by` gives exactly the sum where it is not
/// negative, and zero where it is.
pub proof fn lemma_precision_after_is_clamped_sum(max_iterations: int, by: int)
    ensures
        max_iterations + by >= 0 ==> precision_after(max_iterations, by) == max_iterations + by,
        max_iterations + by < 0 ==> precision_after(max_iterations, by) == 0,
        precision_changed(ParamsView { size: Vec2U32([0, 0]), max_iterations }, by).max_iterations
            == (if max_iterations + by >= 0 { max_iterations + by } else { 0 }),
{
}

/// A reset gives the default limit of fifty iterations and keeps the size,
/// whatever came before.
pub proof fn lemma_reset_is_default(v: ParamsView)
    ensures
        reset_view(v).max_iterations == 50,
        reset_view(v).size == v.size,
{
}

/// Precision changes keep the surface size.
pub proof fn lemma_precision_changes_keep_size(v: ParamsView, bys: Seq<i32>)
    ensures
        precision_changes(v, bys).size == v.size,
    decreases bys.len(),
{
    if bys.len() > 0 {
        lemma_precision_changes_keep_size(v, bys.drop_last());
    }
}

/// A reset undoes every precision change made before it: changing the
/// precision any number of times and then resetting gives what resetting
/// alone gives, and resetting twice gives what resetting once gives.
pub proof fn lemma_reset_absorbs(v: ParamsView, bys: Seq<i32>)
    ensures
        reset_view(precision_changes(v, bys)) == reset_view(v),
        reset_view(reset_view(v)) == reset_view(v),
{
    lemma_precision_changes_keep_size(v, bys);
}

} // verus!
