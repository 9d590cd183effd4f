//! The pixel buffer that carries a payload: 8-bit R, G and B channels per
//! pixel, stored row-major.
use vstd::prelude::*;

verus! {

/// Number of channel bytes in one pixel.
pub const CHANNELS: usize = 3;

/// An RGB image held as its raw channel bytes.
///
/// Channel `c` of pixel `(x, y)` is the byte at `(y * width + x) * 3 + c`.
#[derive(Debug, PartialEq, Eq)]
pub struct Carrier {
    pub(crate) width: u32,
    pub(crate) height: u32,
    pub(crate) samples: Vec<u8>,
}

/// The channel-byte count of a `width` by `height` image.
pub open spec fn sample_count(width: nat, height: nat) -> nat {
    width * height * 3
}

impl Carrier {
    /// Three channel bytes for every pixel, no more and no fewer.
    pub open spec fn wf(&self) -> bool {
        self.spec_samples().len() == sample_count(self.spec_width(), self.spec_height())
    }

    /// Width in pixels; `width()` returns it.
    pub open(crate) spec fn spec_width(&self) -> nat {
        self.width as nat
    }

    /// Height in pixels; `height()` returns it.
    pub open(crate) spec fn spec_height(&self) -> nat {
        self.height as nat
    }

    /// The channel bytes, row-major, R then G then B within a pixel;
    /// `samples()` returns them.
    pub open(crate) spec fn spec_samples(&self) -> Seq<u8> {
        self.samples@
    }

    /// A `width` by `height` image whose every pixel is `pixel`.
    pub fn from_pixel(width: u32, height: u32, pixel: [u8; 3]) -> (r: Carrier)
        requires
            sample_count(width as nat, height as nat) <= usize::MAX,
        ensures
            r.wf(),
            r.spec_width() == width,
            r.spec_height() == height,
            r.spec_samples().len() == sample_count(width as nat, height as nat),
            forall|i: int|
                0 <= i < r.spec_samples().len() ==> #[trigger] r.spec_samples()[i] == pixel@[i % 3],
    {
        let pixels: usize = width as usize * height as usize;
        let mut samples: Vec<u8> = Vec::new();
        let mut n: usize = 0;
        while n < pixels
            invariant
                pixels == width as nat * height as nat,
                pixels * 3 <= usize::MAX,
                n <= pixels,
                samples@.len() == 3 * n,
                forall|i: int| 0 <= i < samples@.len() ==> #[trigger] samples@[i] == pixel@[i % 3],
            decreases pixels - n,
        {
            samples.push(pixel[0]);
            samples.push(pixel[1]);
            samples.push(pixel[2]);
            n = n + 1;
            assert forall|i: int| 0 <= i < samples@.len() implies #[trigger] samples@[i] == pixel@[i % 3] by {
                if i >= 3 * (n - 1) {
                    assert(i % 3 == i - 3 * (n - 1));
                }
            }
        }
        Carrier { width, height, samples }
    }
    /// A carrier made of raw channel bytes, row-major, three per pixel; `None`
    /// when `samples` does not hold exactly `width * height * 3` bytes.
    pub fn from_raw(width: u32, height: u32, samples: Vec<u8>) -> (r: Option<Carrier>)
        ensures
            r is Some <==> samples@.len() == sample_count(width as nat, height as nat),
            r matches Some(c) ==> c.wf() && c.spec_width() == width && c.spec_height() == height
                && c.spec_samples() == samples@,
    {
        let pixels: Option<usize> = (width as usize).checked_mul(height as usize);
        let count: Option<usize> = match pixels {
            Some(p) => p.checked_mul(3),
            None => None,
        };
        let len: usize = samples.len();
        match count {
            Some(n) => {
                if len == n {
                    Some(Carrier { width, height, samples })
                } else {
                    None
                }
            },
            None => {
                assert(samples@.len() != sample_count(width as nat, height as nat)) by (
                nonlinear_arith)
                    requires
                        samples@.len() == len,
                        len <= usize::MAX,
                        width as nat * height as nat > usize::MAX || width as nat * height as nat * 3
                            > usize::MAX,
                ;
                None
            },
        }
    }

    /// Width in pixels.
    pub fn width(&self) -> (r: u32)
        ensures
            r == self.spec_width(),
    {
        self.width
    }

    /// Height in pixels.
    pub fn height(&self) -> (r: u32)
        ensures
            r == self.spec_height(),
    {
        self.height
    }

    /// The channel bytes, row-major, R then G then B within a pixel.
    pub fn samples(&self) -> (r: &[u8])
        ensures
            r@ == self.spec_samples(),
    {
        self.samples.as_slice()
    }

    /// The channel bytes, giving up the carrier.
    pub fn into_raw(self) -> (r: Vec<u8>)
        ensures
            r@ == self.spec_samples(),
    {
        self.samples
    }

    /// The linear index of channel `channel` of pixel `(x, y)`.
    pub fn channel_index(&self, x: u32, y: u32, channel: usize) -> (r: usize)
        requires
            self.wf(),
            x < self.spec_width(),
            y < self.spec_height(),
            channel < CHANNELS,
        ensures
            r == (y * self.spec_width() + x) * 3 + channel,
            r < self.spec_samples().len(),
    {
        let w: usize = self.width as usize;
        let h: usize = self.height as usize;
        let n: usize = self.samples.len();
        assert(y * w + x < w * h && (y * w + x) * 3 + channel < w * h * 3) by (nonlinear_arith)
            requires
                x < w,
                y < h,
                channel < 3,
        ;
        (y as usize * w + x as usize) * 3 + channel
    }

    /// The number of channel bytes: one payload bit fits in each.
    pub fn capacity_bits(&self) -> (r: usize)
        requires
            self.wf(),
        ensures
            r == sample_count(self.spec_width(), self.spec_height()),
            r == self.spec_samples().len(),
    {
        self.samples.len()
    }
}


impl Clone for Carrier {
    fn clone(&self) -> (r: Carrier)
        ensures
            r.spec_width() == self.spec_width(),
            r.spec_height() == self.spec_height(),
            r.spec_samples() == self.spec_samples(),
    {
        let samples = self.samples.clone();
        assert(samples@ =~= self.samples@);
        Carrier { width: self.width, height: self.height, samples }
    }
}

} // verus!
