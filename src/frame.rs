use vstd::prelude::*;

use crate::error::BlendError;

verus! {

/// Height, width and channel count of a frame.
pub type Shape = (usize, usize, usize);

/// Number of samples in a frame of the given shape.
pub open spec fn shape_len(s: Shape) -> nat {
    (s.0 * s.1 * s.2) as nat
}

/// A height x width x channel array of 8-bit samples, stored row-major with
/// the channel index varying fastest.
pub struct Frame {
    height: usize,
    width: usize,
    channels: usize,
    samples: Vec<u8>,
}

impl Frame {
    #[verifier::type_invariant]
    spec fn fits(&self) -> bool {
        self.samples@.len() == shape_len((self.height, self.width, self.channels))
    }

    /// The frame's dimensions.
    pub closed spec fn shape(&self) -> Shape {
        (self.height, self.width, self.channels)
    }

    /// The frame's samples in storage order.
    pub closed spec fn pixels(&self) -> Seq<u8> {
        self.samples@
    }

    /// Whether the frame holds exactly as many samples as its shape calls for;
    /// every frame that can be built is valid.
    pub open spec fn is_valid(&self) -> bool {
        self.pixels().len() == shape_len(self.shape())
    }

    /// Builds a frame from parts already known to fit together.
    pub(crate) fn from_parts(shape: Shape, samples: Vec<u8>) -> (r: Frame)
        requires
            samples@.len() == shape_len(shape),
        ensures
            r.shape() == shape,
            r.pixels() == samples@,
            r.is_valid(),
    {
        Frame { height: shape.0, width: shape.1, channels: shape.2, samples }
    }

    /// Builds a frame from its dimensions and its samples in storage order.
    /// Fails with `ShapeMismatch` when the buffer's length is not
    /// `height * width * channels`.
    pub fn new(height: usize, width: usize, channels: usize, samples: Vec<u8>) -> (r: Result<
        Frame,
        BlendError,
    >)
        ensures
            r is Ok <==> samples@.len() == shape_len((height, width, channels)),
            r is Err ==> r == Err::<Frame, BlendError>(BlendError::ShapeMismatch),
            r matches Ok(f) ==> f.shape() == (height, width, channels) && f.pixels() == samples@
                && f.is_valid(),
    {
        let len = samples.len();
        let fits = if height == 0 || width == 0 || channels == 0 {
            assert(height as int * width as int * channels as int == 0) by (nonlinear_arith)
                requires
                    height == 0 || width == 0 || channels == 0,
            ;
            len == 0
        } else {
            match height.checked_mul(width) {
                Some(hw) => match hw.checked_mul(channels) {
                    Some(n) => n == len,
                    None => {
                        assert(hw as int * channels as int > len);
                        false
                    },
                },
                None => {
                    assert(height as int * width as int * channels as int > len) by (nonlinear_arith)
                        requires
                            height as int * width as int > usize::MAX,
                            channels >= 1,
                            len <= usize::MAX,
                    ;
                    false
                },
            }
        };
        if fits {
            Ok(Frame { height, width, channels, samples })
        } else {
            Err(BlendError::ShapeMismatch)
        }
    }

    pub fn height(&self) -> (r: usize)
        ensures
            r == self.shape().0,
    {
        self.height
    }

    pub fn width(&self) -> (r: usize)
        ensures
            r == self.shape().1,
    {
        self.width
    }

    pub fn channels(&self) -> (r: usize)
        ensures
            r == self.shape().2,
    {
        self.channels
    }

    /// The frame's dimensions as `(height, width, channels)`.
    pub fn dims(&self) -> (r: Shape)
        ensures
            r == self.shape(),
    {
        (self.height, self.width, self.channels)
    }

    /// The samples in storage order.
    pub fn samples(&self) -> (r: &[u8])
        ensures
            r@ == self.pixels(),
            self.is_valid(),
    {
        proof { use_type_invariant(self); }
        self.samples.as_slice()
    }

    /// Whether two frames have the same height, width and channel count.
    pub fn same_shape(&self, other: &Frame) -> (r: bool)
        ensures
            r == (self.shape() == other.shape()),
    {
        self.height == other.height && self.width == other.width && self.channels == other.channels
    }
}

} // verus!
