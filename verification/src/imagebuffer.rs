//! A two-dimensional raster of integer pixel magnitudes.

use vstd::prelude::*;
use crate::error::Error;

verus! {

/// A raster of `width` by `height` pixels, each an unsigned magnitude.
///
/// The pixels are kept row by row: the pixel at column `x` of row `y` is sample
/// `y * width + x`. The number of samples is always `width * height`.
#[derive(Debug)]
pub struct ImageBuffer {
    buffer: Vec<u32>,
    width: usize,
    height: usize,
}

/// Position of pixel `(x, y)` among the samples of a raster `width` pixels wide.
pub open spec fn sample_index(width: int, x: int, y: int) -> int {
    y * width + x
}

/// Every pixel inside a raster has its own sample, and that sample exists.
pub proof fn lemma_sample_index(width: int, height: int, x: int, y: int)
    requires
        0 <= x < width,
        0 <= y < height,
    ensures
        0 <= y * width <= sample_index(width, x, y) < width * height,
        forall|x2: int, y2: int|
            0 <= x2 < width && 0 <= y2 && #[trigger] sample_index(width, x2, y2) == y * width + x
                ==> x2 == x && y2 == y,
{
    assert(0 <= y * width <= y * width + x < width * height) by (nonlinear_arith)
        requires
            0 <= x < width,
            0 <= y < height,
    ;
    assert forall|x2: int, y2: int|
        0 <= x2 < width && 0 <= y2 && #[trigger] sample_index(width, x2, y2) == y * width + x
        implies x2 == x && y2 == y by {
        assert(x2 == x && y2 == y) by (nonlinear_arith)
            requires
                0 <= x < width,
                0 <= x2 < width,
                0 <= y,
                0 <= y2,
                y2 * width + x2 == y * width + x,
        ;
    }
}

impl View for ImageBuffer {
    type V = Seq<u32>;

    /// The samples, row by row.
    closed spec fn view(&self) -> Seq<u32> {
        self.buffer@
    }
}

impl Clone for ImageBuffer {
    fn clone(&self) -> (copy: Self)
        ensures
            copy.width() == self.width(),
            copy.height() == self.height(),
            copy@ == self@,
    {
        proof {
            use_type_invariant(self);
        }
        let buffer = self.buffer.clone();
        assert(buffer@ =~= self.buffer@);
        ImageBuffer { buffer, width: self.width, height: self.height }
    }
}

impl ImageBuffer {
    #[verifier::type_invariant]
    spec fn samples_fill_the_raster(&self) -> bool {
        self.buffer.len() == self.width * self.height
    }

    /// Number of columns.
    pub closed spec fn spec_width(&self) -> usize {
        self.width
    }

    /// Number of rows.
    pub closed spec fn spec_height(&self) -> usize {
        self.height
    }

    /// Whether `(x, y)` names a pixel of this raster.
    pub open spec fn contains(&self, x: int, y: int) -> bool {
        0 <= x < self.width() && 0 <= y < self.height()
    }

    /// The magnitude of pixel `(x, y)`; meaningful where `contains(x, y)`.
    pub open spec fn at(&self, x: int, y: int) -> u32 {
        self@[sample_index(self.width() as int, x, y)]
    }

    /// A raster of `width` by `height` pixels, all zero. Fails with
    /// `InvalidDimensions` when the number of pixels does not fit a `usize`.
    pub fn new(width: usize, height: usize) -> (res: Result<ImageBuffer, Error>)
        ensures
            width * height <= usize::MAX <==> res is Ok,
            res matches Ok(b) ==> {
                &&& b.width() == width
                &&& b.height() == height
                &&& b@ == Seq::new((width * height) as nat, |i: int| 0u32)
            },
            res matches Err(e) ==> e == Error::InvalidDimensions,
    {
        match width.checked_mul(height) {
            Some(n) => {
                let buffer = vec![0u32; n];
                assert(buffer@ =~= Seq::new((width * height) as nat, |i: int| 0u32));
                Ok(ImageBuffer { buffer, width, height })
            },
            None => Err(Error::InvalidDimensions),
        }
    }

    /// A raster of `width` by `height` pixels holding `samples`, row by row.
    /// Fails with `InvalidDimensions` unless there are exactly `width * height`
    /// samples.
    pub fn from_vec(samples: Vec<u32>, width: usize, height: usize) -> (res: Result<
        ImageBuffer,
        Error,
    >)
        ensures
            samples.len() == width * height <==> res is Ok,
            res matches Ok(b) ==> b.width() == width && b.height() == height && b@ == samples@,
            res matches Err(e) ==> e == Error::InvalidDimensions,
    {
        match width.checked_mul(height) {
            Some(n) => {
                if samples.len() == n {
                    Ok(ImageBuffer { buffer: samples, width, height })
                } else {
                    Err(Error::InvalidDimensions)
                }
            },
            None => Err(Error::InvalidDimensions),
        }
    }

    /// Number of columns. The samples are as many as columns times rows.
    #[verifier::when_used_as_spec(spec_width)]
    pub fn width(&self) -> (w: usize)
        ensures
            w == self.width(),
            self@.len() == self.width() * self.height(),
    {
        proof {
            use_type_invariant(self);
        }
        self.width
    }

    /// Number of rows. The samples are as many as columns times rows.
    #[verifier::when_used_as_spec(spec_height)]
    pub fn height(&self) -> (h: usize)
        ensures
            h == self.height(),
            self@.len() == self.width() * self.height(),
    {
        proof {
            use_type_invariant(self);
        }
        self.height
    }

    /// The samples, row by row.
    pub fn to_vector(&self) -> (samples: Vec<u32>)
        ensures
            samples@ == self@,
            samples.len() == self.width() * self.height(),
    {
        proof {
            use_type_invariant(self);
        }
        let samples = self.buffer.clone();
        assert(samples@ =~= self.buffer@);
        samples
    }

    /// Reads pixel `(x, y)`. Fails with `InvalidPixelCoordinates` outside the
    /// raster.
    pub fn get(&self, x: usize, y: usize) -> (res: Result<u32, Error>)
        ensures
            self.contains(x as int, y as int) ==> res == Ok::<u32, Error>(self.at(x as int, y as int)),
            !self.contains(x as int, y as int) ==> res == Err::<u32, Error>(
                Error::InvalidPixelCoordinates,
            ),
    {
        if x < self.width && y < self.height {
            proof {
                use_type_invariant(self);
                lemma_sample_index(self.width as int, self.height as int, x as int, y as int);
            }
            let index = y * self.width + x;
            Ok(self.buffer[index])
        } else {
            Err(Error::InvalidPixelCoordinates)
        }
    }

    /// Writes `val` to pixel `(x, y)` and leaves every other pixel as it was.
    /// Fails with `InvalidPixelCoordinates` outside the raster, changing nothing.
    pub fn put(&mut self, x: usize, y: usize, val: u32) -> (res: Result<(), Error>)
        ensures
            final(self).width() == old(self).width(),
            final(self).height() == old(self).height(),
            old(self).contains(x as int, y as int) ==> {
                &&& res is Ok
                &&& final(self)@ == old(self)@.update(
                    sample_index(old(self).width() as int, x as int, y as int),
                    val,
                )
                &&& final(self).at(x as int, y as int) == val
                &&& forall|x2: int, y2: int|
                    #![trigger final(self).at(x2, y2)]
                    old(self).contains(x2, y2) && !(x2 == x && y2 == y) ==>
                        final(self).at(x2, y2) == old(self).at(x2, y2)
            },
            !old(self).contains(x as int, y as int) ==> {
                &&& res == Err::<(), Error>(Error::InvalidPixelCoordinates)
                &&& final(self)@ == old(self)@
            },
    {
        if x < self.width && y < self.height {
            proof {
                use_type_invariant(&*self);
                lemma_sample_index(self.width as int, self.height as int, x as int, y as int);
            }
            let index = y * self.width + x;
            self.buffer[index] = val;
            proof {
                assert forall|x2: int, y2: int|
                    old(self).contains(x2, y2) && !(x2 == x && y2 == y) implies self.at(x2, y2)
                    == old(self).at(x2, y2) by {
                    lemma_sample_index(self.width as int, self.height as int, x2, y2);
                }
            }
            Ok(())
        } else {
            Err(Error::InvalidPixelCoordinates)
        }
    }
}

} // verus!
