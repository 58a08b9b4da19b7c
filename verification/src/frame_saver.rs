//! The frame counter behind animation capture: it numbers the frames
//! handed out for saving.  Encoding and writing the image files is I/O and
//! lives outside this crate; the counter's arithmetic lives here.
use vstd::prelude::*;

verus! {

/// Numbers the frames of one capture session.
pub struct FrameSaver {
    /// Index of the next frame to be saved.
    pub index: i32,
}

impl FrameSaver {
    /// A counter starting at frame zero.
    pub fn new() -> (r: FrameSaver)
        ensures
            r.index == 0,
    {
        FrameSaver { index: 0 }
    }

    /// Restart the numbering at zero.
    pub fn reset(&mut self)
        ensures
            final(self).index == 0,
    {
        self.index = 0;
    }

    /// The index the next saved frame gets; the counter then moves on.
    /// Numbering past the counter's range is refused.
    pub fn next_index(&mut self) -> (r: Option<i32>)
        ensures
            match r {
                Some(i) => i == old(self).index && final(self).index == old(self).index + 1,
                None => old(self).index == i32::MAX && *final(self) == *old(self),
            },
    {
        if self.index == i32::MAX {
            None
        } else {
            let i = self.index;
            self.index = self.index + 1;
            Some(i)
        }
    }
}

} // verus!
