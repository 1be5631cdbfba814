//! The pixel channel accessor: a decoded image as an ordered sequence of
//! 8-bit channel values in a fixed traversal order.

use vstd::prelude::*;

verus! {

/// Channels per pixel: the carrier layout is RGBA.
pub const CHANNELS_PER_PIXEL: u32 = 4;

/// A decoded raster image as a flat, ordered sequence of 8-bit channel
/// values: row-major by pixel (left to right, then top to bottom), and
/// within a pixel the channels in ascending order (R, G, B, A).
#[derive(Debug)]
pub struct Carrier {
    pub width: u32,
    pub height: u32,
    pub channels: Vec<u8>,
}

impl Carrier {
    /// Well-formed: the flat channel vector holds exactly
    /// `width * height * 4` values.
    pub open spec fn wf(self) -> bool {
        self.channels@.len() == self.width * self.height * CHANNELS_PER_PIXEL
    }

    /// Builds a carrier from its dimensions and flat channel values.
    pub fn new(width: u32, height: u32, channels: Vec<u8>) -> (r: Carrier)
        requires
            channels@.len() == width * height * CHANNELS_PER_PIXEL,
        ensures
            r.wf(),
            r.width == width,
            r.height == height,
            r.channels == channels,
    {
        Carrier { width, height, channels }
    }

    /// The number of addressable channel slots: `width * height * 4`.
    pub fn channel_count(&self) -> (r: usize)
        requires
            self.wf(),
        ensures
            r == self.channels@.len(),
            r == self.width * self.height * CHANNELS_PER_PIXEL,
    {
        self.channels.len()
    }

    /// The channel value at `index`, in the fixed traversal order.
    pub fn get(&self, index: usize) -> (r: u8)
        requires
            self.wf(),
            index < self.channels@.len(),
        ensures
            r == self.channels@[index as int],
    {
        self.channels[index]
    }

    /// Replaces the channel value at `index`; every other slot is untouched.
    pub fn set(&mut self, index: usize, value: u8)
        requires
            old(self).wf(),
            index < old(self).channels@.len(),
        ensures
            final(self).wf(),
            final(self).width == old(self).width,
            final(self).height == old(self).height,
            final(self).channels@ == old(self).channels@.update(index as int, value),
    {
        self.channels.set(index, value);
    }
}

} // verus!
