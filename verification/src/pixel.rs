//! Pixels and planar pixel buffers.

use vstd::prelude::*;

verus! {

/// The four 8-bit channel intensities of one pixel.
#[derive(Clone, Copy, Debug, PartialEq, Eq, Structural)]
pub struct Pixel {
    pub red: u8,
    pub green: u8,
    pub blue: u8,
    pub alpha: u8,
}

/// The pixels that four channels of one length hold: pixel `i` takes its
/// intensities from index `i` of each channel.
pub open spec fn knit(red: Seq<u8>, green: Seq<u8>, blue: Seq<u8>, alpha: Seq<u8>) -> Seq<Pixel> {
    Seq::new(
        red.len(),
        |i: int| Pixel { red: red[i], green: green[i], blue: blue[i], alpha: alpha[i] },
    )
}

/// An image in planar layout: one channel of 8-bit intensities for each of
/// red, green, blue and alpha, all four of the same length.
///
/// The view of a buffer is the sequence of its pixels.
#[derive(Debug, PartialEq, Eq)]
pub struct PixelBuffer {
    red: Vec<u8>,
    green: Vec<u8>,
    blue: Vec<u8>,
    alpha: Vec<u8>,
}

impl View for PixelBuffer {
    type V = Seq<Pixel>;

    closed spec fn view(&self) -> Seq<Pixel> {
        knit(self.red@, self.green@, self.blue@, self.alpha@)
    }
}

impl Clone for PixelBuffer {
    /// Copies the four channels.
    fn clone(&self) -> (copy: PixelBuffer)
        ensures
            copy@ == self@,
    {
        proof {
            use_type_invariant(self);
        }
        PixelBuffer {
            red: self.red.clone(),
            green: self.green.clone(),
            blue: self.blue.clone(),
            alpha: self.alpha.clone(),
        }
    }
}

impl PixelBuffer {
    /// The four channels have one length.
    #[verifier::type_invariant]
    spec fn aligned(self) -> bool {
        &&& self.green@.len() == self.red@.len()
        &&& self.blue@.len() == self.red@.len()
        &&& self.alpha@.len() == self.red@.len()
    }

    /// Makes a buffer of four channels, if they have one length.
    pub fn new(red: Vec<u8>, green: Vec<u8>, blue: Vec<u8>, alpha: Vec<u8>) -> (buffer: Option<
        PixelBuffer,
    >)
        ensures
            buffer is Some <==> green@.len() == red@.len() && blue@.len() == red@.len()
                && alpha@.len() == red@.len(),
            buffer matches Some(b) ==> b@ == knit(red@, green@, blue@, alpha@),
    {
        if green.len() == red.len() && blue.len() == red.len() && alpha.len() == red.len() {
            Some(PixelBuffer { red, green, blue, alpha })
        } else {
            None
        }
    }

    /// Number of pixels.
    pub fn len(&self) -> (n: usize)
        ensures
            n == self@.len(),
    {
        self.red.len()
    }

    /// The pixel at `index`, if the buffer has one there.
    pub fn get(&self, index: usize) -> (pixel: Option<Pixel>)
        ensures
            pixel == if index < self@.len() {
                Some(self@[index as int])
            } else {
                None
            },
    {
        proof {
            use_type_invariant(self);
        }
        if index < self.red.len() {
            Some(
                Pixel {
                    red: self.red[index],
                    green: self.green[index],
                    blue: self.blue[index],
                    alpha: self.alpha[index],
                },
            )
        } else {
            None
        }
    }

    /// The pixel at `index`, which the buffer must have.
    pub(crate) fn pixel(&self, index: usize) -> (pixel: Pixel)
        requires
            index < self@.len(),
        ensures
            pixel == self@[index as int],
    {
        proof {
            use_type_invariant(self);
        }
        Pixel {
            red: self.red[index],
            green: self.green[index],
            blue: self.blue[index],
            alpha: self.alpha[index],
        }
    }

    /// Writes the red intensity of the pixel at `index` and nothing else.
    pub(crate) fn set_red(&mut self, index: usize, value: u8)
        requires
            index < old(self)@.len(),
        ensures
            final(self)@ == old(self)@.update(
                index as int,
                Pixel { red: value, ..old(self)@[index as int] },
            ),
    {
        proof {
            use_type_invariant(&*self);
        }
        self.red[index] = value;
    }

    /// Writes the green intensity of the pixel at `index` and nothing else.
    pub(crate) fn set_green(&mut self, index: usize, value: u8)
        requires
            index < old(self)@.len(),
        ensures
            final(self)@ == old(self)@.update(
                index as int,
                Pixel { green: value, ..old(self)@[index as int] },
            ),
    {
        proof {
            use_type_invariant(&*self);
        }
        self.green[index] = value;
    }

    /// Writes the blue intensity of the pixel at `index` and nothing else.
    pub(crate) fn set_blue(&mut self, index: usize, value: u8)
        requires
            index < old(self)@.len(),
        ensures
            final(self)@ == old(self)@.update(
                index as int,
                Pixel { blue: value, ..old(self)@[index as int] },
            ),
    {
        proof {
            use_type_invariant(&*self);
        }
        self.blue[index] = value;
    }

    /// Writes the alpha intensity of the pixel at `index` and nothing else.
    pub(crate) fn set_alpha(&mut self, index: usize, value: u8)
        requires
            index < old(self)@.len(),
        ensures
            final(self)@ == old(self)@.update(
                index as int,
                Pixel { alpha: value, ..old(self)@[index as int] },
            ),
    {
        proof {
            use_type_invariant(&*self);
        }
        self.alpha[index] = value;
    }

    /// Takes the buffer apart into its red, green, blue and alpha channels.
    pub fn into_channels(self) -> (channels: (Vec<u8>, Vec<u8>, Vec<u8>, Vec<u8>))
        ensures
            channels.1@.len() == channels.0@.len(),
            channels.2@.len() == channels.0@.len(),
            channels.3@.len() == channels.0@.len(),
            knit(channels.0@, channels.1@, channels.2@, channels.3@) == self@,
    {
        proof {
            use_type_invariant(&self);
        }
        (self.red, self.green, self.blue, self.alpha)
    }
}

} // verus!
