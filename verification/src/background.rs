//! The flat background pattern behind the scene.
use vstd::prelude::*;

verus! {

/// Fills screen rows with a repeating pattern of four colours.
pub struct PieBackground;

impl PieBackground {
    /// Fills `pixels` with `colors` repeated: pixel `i` gets `colors[i % 4]`.
    pub fn fill(&mut self, pixels: &mut [u16], colors: [u16; 4])
        ensures
            final(pixels)@.len() == old(pixels)@.len(),
            forall|i: int| 0 <= i < final(pixels)@.len() ==> #[trigger] final(pixels)@[i] == colors@[i % 4],
    {
        let len = pixels.len();
        let mut i: usize = 0;
        while i < len
            invariant
                i <= len,
                pixels@.len() == len,
                forall|k: int| 0 <= k < i ==> #[trigger] pixels@[k] == colors@[k % 4],
            decreases len - i,
        {
            pixels[i] = colors[i % 4];
            i += 1;
        }
    }
}

} // verus!
