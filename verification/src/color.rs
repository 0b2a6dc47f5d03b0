use vstd::prelude::*;

verus! {

/// The packed value of the channels: alpha in the top byte, then red,
/// green and blue.
pub open spec fn pack_argb(a: int, r: int, g: int, b: int) -> int {
    a * 0x1000000 + r * 0x10000 + g * 0x100 + b
}

/// The byte of `data` that starts at bit `8 * k`: blue, green, red, alpha
/// for `k` from 0 to 3.
pub open spec fn channel(data: u32, k: nat) -> int {
    if k == 0 {
        data as int % 256
    } else if k == 1 {
        (data as int / 0x100) % 256
    } else if k == 2 {
        (data as int / 0x10000) % 256
    } else {
        (data as int / 0x1000000) % 256
    }
}

/// A pixel colour, packed as `0xAARRGGBB`.
#[derive(Copy, Clone, Debug)]
pub struct Color {
    pub data: u32,
}

pub proof fn lemma_pack_bits(a: u32, r: u32, g: u32, b: u32)
    requires
        a < 256,
        r < 256,
        g < 256,
        b < 256,
    ensures
        (a << 24u32) | (r << 16u32) | (g << 8u32) | b == a * 0x1000000 + r * 0x10000 + g * 0x100
            + b,
{
    assert((a << 24u32) | (r << 16u32) | (g << 8u32) | b == a * 0x1000000 + r * 0x10000 + g
        * 0x100 + b) by (bit_vector)
        requires
            a < 256,
            r < 256,
            g < 256,
            b < 256,
    ;
}

pub proof fn lemma_channel_bits(d: u32)
    ensures
        (d & 0x00FF0000u32) >> 16u32 == (d / 0x10000) % 256,
        (d & 0x0000FF00u32) >> 8u32 == (d / 0x100) % 256,
        d & 0x000000FFu32 == d % 256,
        (d & 0xFF000000u32) >> 24u32 == d / 0x1000000,
        d / 0x1000000 < 256,
        (d >> 24u32) & 0xFFu32 == d / 0x1000000,
        (d >> 16u32) & 0xFFu32 == (d / 0x10000) % 256,
        (d >> 8u32) & 0xFFu32 == (d / 0x100) % 256,
{
    assert((d & 0x00FF0000u32) >> 16u32 == (d / 0x10000) % 256) by (bit_vector);
    assert((d & 0x0000FF00u32) >> 8u32 == (d / 0x100) % 256) by (bit_vector);
    assert(d & 0x000000FFu32 == d % 256) by (bit_vector);
    assert((d & 0xFF000000u32) >> 24u32 == d / 0x1000000) by (bit_vector);
    assert(d / 0x1000000 < 256) by (bit_vector);
    assert((d >> 24u32) & 0xFFu32 == d / 0x1000000) by (bit_vector);
    assert((d >> 16u32) & 0xFFu32 == (d / 0x10000) % 256) by (bit_vector);
    assert((d >> 8u32) & 0xFFu32 == (d / 0x100) % 256) by (bit_vector);
}

impl Color {
    /// An opaque colour from its red, green and blue values.
    pub fn rgb(r: u8, g: u8, b: u8) -> (c: Color)
        ensures
            c.data == pack_argb(255, r as int, g as int, b as int),
    {
        proof {
            lemma_pack_bits(255, r as u32, g as u32, b as u32);
            assert(255u32 << 24u32 == 0xFF000000u32) by (bit_vector);
        }
        Color { data: 0xFF000000u32 | ((r as u32) << 16u32) | ((g as u32) << 8u32) | (b as u32) }
    }

    /// A colour from its red, green, blue and alpha values.
    pub fn rgba(r: u8, g: u8, b: u8, a: u8) -> (c: Color)
        ensures
            c.data == pack_argb(a as int, r as int, g as int, b as int),
    {
        proof {
            lemma_pack_bits(a as u32, r as u32, g as u32, b as u32);
        }
        Color {
            data: ((a as u32) << 24u32) | ((r as u32) << 16u32) | ((g as u32) << 8u32) | (b as u32),
        }
    }

    pub fn r(&self) -> (v: u8)
        ensures
            v == channel(self.data, 2),
    {
        proof {
            lemma_channel_bits(self.data);
        }
        ((self.data & 0x00FF0000u32) >> 16u32) as u8
    }

    pub fn g(&self) -> (v: u8)
        ensures
            v == channel(self.data, 1),
    {
        proof {
            lemma_channel_bits(self.data);
        }
        ((self.data & 0x0000FF00u32) >> 8u32) as u8
    }

    pub fn b(&self) -> (v: u8)
        ensures
            v == channel(self.data, 0),
    {
        proof {
            lemma_channel_bits(self.data);
        }
        (self.data & 0x000000FFu32) as u8
    }

    pub fn a(&self) -> (v: u8)
        ensures
            v == channel(self.data, 3),
    {
        proof {
            lemma_channel_bits(self.data);
        }
        ((self.data & 0xFF000000u32) >> 24u32) as u8
    }
}

/// Packing four channels and reading them back gives the same channels.
pub proof fn lemma_channels_of_pack(a: u8, r: u8, g: u8, b: u8, data: u32)
    requires
        data == pack_argb(a as int, r as int, g as int, b as int),
    ensures
        channel(data, 3) == a,
        channel(data, 2) == r,
        channel(data, 1) == g,
        channel(data, 0) == b,
{
    let (ai, ri, gi, bi) = (a as int, r as int, g as int, b as int);
    assert(((ai * 0x1000000 + ri * 0x10000 + gi * 0x100 + bi) / 0x1000000) % 256 == ai
        && ((ai * 0x1000000 + ri * 0x10000 + gi * 0x100 + bi) / 0x10000) % 256 == ri
        && ((ai * 0x1000000 + ri * 0x10000 + gi * 0x100 + bi) / 0x100) % 256 == gi
        && (ai * 0x1000000 + ri * 0x10000 + gi * 0x100 + bi) % 256 == bi) by (nonlinear_arith)
        requires
            0 <= ai < 256,
            0 <= ri < 256,
            0 <= gi < 256,
            0 <= bi < 256,
    ;
}

} // verus!
