use vstd::prelude::*;

verus! {

/// A pair of unsigned integers, laid out as the shader reads it: a width and a
/// height, in pixels.
#[derive(Debug, Clone, Copy, Default, PartialEq, Eq)]
pub struct Vec2U32(pub [u32; 2]);

impl Vec2U32 {
    /// The first component.
    pub open spec fn spec_x(self) -> u32 {
        self.0@[0]
    }

    /// The second component.
    pub open spec fn spec_y(self) -> u32 {
        self.0@[1]
    }

    /// The first component (the width, for a size).
    #[verifier::when_used_as_spec(spec_x)]
    pub fn x(self) -> (r: u32)
        ensures
            r == self.spec_x(),
    {
        self.0[0]
    }

    /// The second component (the height, for a size).
    #[verifier::when_used_as_spec(spec_y)]
    pub fn y(self) -> (r: u32)
        ensures
            r == self.spec_y(),
    {
        self.0[1]
    }
}

/// The first component of a pair is its first element and the second its
/// second.
pub proof fn lemma_components(a: u32, b: u32)
    ensures
        Vec2U32([a, b]).spec_x() == a,
        Vec2U32([a, b]).spec_y() == b,
{
}

} // verus!
