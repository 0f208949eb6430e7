//! The display size of the loaded video.
use vstd::prelude::*;

verus! {

/// A video's display size, both dimensions non-zero.
#[derive(Debug, Clone, Copy, PartialEq, Eq, Hash, Structural)]
pub struct VideoGeometry {
    width: u32,
    height: u32,
}

impl View for VideoGeometry {
    type V = (u32, u32);

    closed spec fn view(&self) -> (u32, u32) {
        (self.width, self.height)
    }
}

impl VideoGeometry {
    /// Both dimensions are non-zero, whatever made the value.
    #[verifier::type_invariant]
    spec fn nonzero(self) -> bool {
        self.width > 0 && self.height > 0
    }

    /// A size, or `None` when either dimension is zero: a zero dimension is
    /// refused rather than repaired.
    pub fn new(width: u32, height: u32) -> (geometry: Option<VideoGeometry>)
        ensures
            geometry is Some <==> (width != 0 && height != 0),
            geometry matches Some(g) ==> g@ == (width, height),
    {
        if width == 0 || height == 0 {
            None
        } else {
            Some(VideoGeometry { width, height })
        }
    }

    pub fn width(self) -> (width: u32)
        ensures
            width == self@.0,
            width > 0,
    {
        proof {
            use_type_invariant(&self);
        }
        self.width
    }

    pub fn height(self) -> (height: u32)
        ensures
            height == self@.1,
            height > 0,
    {
        proof {
            use_type_invariant(&self);
        }
        self.height
    }
}

} // verus!
