//! Still images as plain RGBA pixel data.

use vstd::prelude::*;

verus! {

/// A decoded still image held as plain data: `rgba` stores the pixels
/// row-major, four bytes (one RGBA quadruple) per pixel.
#[derive(Debug)]
pub struct Frame {
    pub width: u32,
    pub height: u32,
    pub rgba: Vec<u8>,
}

/// The mathematical value of a [`Frame`]: its dimensions and its pixel bytes.
pub ghost struct FrameV {
    pub width: u32,
    pub height: u32,
    pub rgba: Seq<u8>,
}

impl View for Frame {
    type V = FrameV;

    open spec fn view(&self) -> FrameV {
        FrameV { width: self.width, height: self.height, rgba: self.rgba@ }
    }
}

impl Frame {
    /// A frame is well formed when it holds exactly one RGBA quadruple per pixel.
    pub open spec fn wf(&self) -> bool {
        self.rgba@.len() == 4 * (self.width as int) * (self.height as int)
    }
}

/// The sequence of mathematical values of a sequence of frames.
pub open spec fn frames_view(frames: Seq<Frame>) -> Seq<FrameV> {
    frames.map_values(|f: Frame| f@)
}

impl Clone for Frame {
    fn clone(&self) -> (r: Self)
        ensures
            r@ == self@,
    {
        let n = self.rgba.len();
        let mut rgba: Vec<u8> = Vec::new();
        let mut i: usize = 0;
        while i < n
            invariant
                i <= n,
                n == self.rgba@.len(),
                rgba@ =~= self.rgba@.subrange(0, i as int),
            decreases n - i,
        {
            rgba.push(self.rgba[i]);
            i = i + 1;
        }
        proof {
            assert(rgba@ =~= self.rgba@);
        }
        Frame { width: self.width, height: self.height, rgba }
    }
}

} // verus!
