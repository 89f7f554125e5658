//! Point light sources.

use vstd::prelude::*;
use crate::CHUNK_SIZE;

verus! {

/// A point light. Each colour channel is also the distance, in blocks, over
/// which that channel fades to nothing.
///
/// The position is kept as the bit patterns of its three single-precision
/// coordinates: this module stores and hands back the position, and never
/// computes with it.
pub struct LightSource {
    red: u8,
    green: u8,
    blue: u8,
    location: [u32; 3],
    updated: bool,
}

/// Mathematical content of a [`LightSource`].
pub struct LightView {
    pub red: u8,
    pub green: u8,
    pub blue: u8,
    pub location: Seq<u32>,
    /// Whether the light has changed since the flag was last reset.
    pub updated: bool,
}

/// The colour of a light in one word: the low four bits of red in bits
/// 12-15, of green in bits 8-11 and of blue in bits 4-7.
pub open spec fn pack_light(red: u8, green: u8, blue: u8) -> u32 {
    ((red as u32 & 0xf) << 12) | ((green as u32 & 0xf) << 8) | ((blue as u32 & 0xf) << 4)
}

/// Each channel can be read back from the packed colour, up to its low four
/// bits, and nothing else is set in the word.
pub proof fn lemma_pack_light_channels(red: u8, green: u8, blue: u8)
    ensures
        (pack_light(red, green, blue) >> 12) & 0xf == red as u32 & 0xf,
        (pack_light(red, green, blue) >> 8) & 0xf == green as u32 & 0xf,
        (pack_light(red, green, blue) >> 4) & 0xf == blue as u32 & 0xf,
        pack_light(red, green, blue) & 0xffff_000f == 0,
{
    assert((((((red as u32 & 0xf) << 12) | ((green as u32 & 0xf) << 8) | ((blue as u32 & 0xf)
        << 4)) >> 12) & 0xf == red as u32 & 0xf) && (((((red as u32 & 0xf) << 12) | ((green as u32
        & 0xf) << 8) | ((blue as u32 & 0xf) << 4)) >> 8) & 0xf == green as u32 & 0xf) && (((((
    red as u32 & 0xf) << 12) | ((green as u32 & 0xf) << 8) | ((blue as u32 & 0xf) << 4)) >> 4)
        & 0xf == blue as u32 & 0xf) && ((((red as u32 & 0xf) << 12) | ((green as u32 & 0xf) << 8)
        | ((blue as u32 & 0xf) << 4)) & 0xffff_000f == 0)) by (bit_vector);
}

/// The largest of the three channels: the distance beyond which the light
/// adds nothing.
pub open spec fn max_radius_spec(red: u8, green: u8, blue: u8) -> u8 {
    if red >= green && red >= blue {
        red
    } else if green >= blue {
        green
    } else {
        blue
    }
}

/// How many chunks away from its own chunk, along each axis, a light of the
/// given radius can reach at most.
pub open spec fn reach_in_chunks(radius: u8) -> int {
    radius as int / 16 + 1
}

impl View for LightSource {
    type V = LightView;

    closed spec fn view(&self) -> LightView {
        LightView {
            red: self.red,
            green: self.green,
            blue: self.blue,
            location: self.location@,
            updated: self.updated,
        }
    }
}

impl LightSource {
    /// A light that counts as changed, so that whatever it shines on is lit
    /// for the first time.
    pub fn new(red: u8, green: u8, blue: u8, location: [u32; 3]) -> (light: LightSource)
        ensures
            light@ == (LightView { red, green, blue, location: location@, updated: true }),
    {
        LightSource { red, green, blue, location, updated: true }
    }

    /// The colour packed into one word.
    pub fn as_uint(&self) -> (packed: u32)
        ensures
            packed == pack_light(self@.red, self@.green, self@.blue),
    {
        ((self.red as u32 & 0xf) << 12) | ((self.green as u32 & 0xf) << 8) | ((self.blue as u32
            & 0xf) << 4)
    }

    /// The red channel.
    pub fn red(&self) -> (red: u8)
        ensures
            red == self@.red,
    {
        self.red
    }

    /// The green channel.
    pub fn green(&self) -> (green: u8)
        ensures
            green == self@.green,
    {
        self.green
    }

    /// The blue channel.
    pub fn blue(&self) -> (blue: u8)
        ensures
            blue == self@.blue,
    {
        self.blue
    }

    /// The bit patterns of the position's coordinates.
    pub fn location(&self) -> (location: [u32; 3])
        ensures
            location@ == self@.location,
    {
        self.location
    }

    /// Whether the light has changed since the flag was last reset.
    pub fn updated(&self) -> (updated: bool)
        ensures
            updated == self@.updated,
    {
        self.updated
    }

    /// Marks the change as dealt with.
    pub fn reset_updated(&mut self)
        ensures
            final(self)@ == (LightView { updated: false, ..old(self)@ }),
    {
        self.updated = false;
    }

    /// Changes the red channel.
    pub fn set_red(&mut self, red: u8)
        ensures
            final(self)@ == (LightView { red, updated: true, ..old(self)@ }),
    {
        self.red = red;
        self.updated = true;
    }

    /// Changes the green channel.
    pub fn set_green(&mut self, green: u8)
        ensures
            final(self)@ == (LightView { green, updated: true, ..old(self)@ }),
    {
        self.green = green;
        self.updated = true;
    }

    /// Changes the blue channel.
    pub fn set_blue(&mut self, blue: u8)
        ensures
            final(self)@ == (LightView { blue, updated: true, ..old(self)@ }),
    {
        self.blue = blue;
        self.updated = true;
    }

    /// Moves the light.
    pub fn set_location(&mut self, location: [u32; 3])
        ensures
            final(self)@ == (LightView { location: location@, updated: true, ..old(self)@ }),
    {
        self.location = location;
        self.updated = true;
    }

    /// The largest of the three channels.
    pub fn max_radius(&self) -> (radius: u8)
        ensures
            radius == max_radius_spec(self@.red, self@.green, self@.blue),
    {
        if self.red >= self.green && self.red >= self.blue {
            self.red
        } else if self.green >= self.blue {
            self.green
        } else {
            self.blue
        }
    }

    /// How many chunks away from its own chunk, along each axis, the light
    /// can reach at most.
    pub fn reach(&self) -> (chunks: u32)
        ensures
            chunks == reach_in_chunks(max_radius_spec(self@.red, self@.green, self@.blue)),
    {
        self.max_radius() as u32 / CHUNK_SIZE as u32 + 1
    }
}

} // verus!
