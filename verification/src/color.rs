//! Color tags and color-space names.
//!
//! A color is kept as a readable byte tag, `Gray(v)` or `RGB(r, g, b)`, with
//! channels scaled from the operand range `[0, 1]` (held fixed-point, in
//! thousandths) to `[0, 255]`.  A color combined with the color space it was
//! set under formats as `<tag> (<space>)`.

use vstd::prelude::*;

verus! {

/// A `[0, 1]` fixed-point operand scaled to a `[0, 255]` channel, truncated,
/// with out-of-range operands clamped.
pub open spec fn spec_scale_channel(v: int) -> int {
    if v <= 0 {
        0
    } else if v >= 1000 {
        255
    } else {
        (v * 255) / 1000
    }
}

/// Executable channel scaling.
pub fn scale_channel(v: i64) -> (r: u8)
    ensures
        r as int == spec_scale_channel(v as int),
{
    if v <= 0 {
        0
    } else if v >= 1000 {
        255
    } else {
        ((v as u64 * 255) / 1000) as u8
    }
}

/// The decimal digits of a byte value, as ASCII.
pub open spec fn spec_u8_digits(n: u8) -> Seq<u8> {
    if n < 10 {
        seq![(n + 0x30) as u8]
    } else if n < 100 {
        seq![(n / 10 + 0x30) as u8, (n % 10 + 0x30) as u8]
    } else {
        seq![(n / 100 + 0x30) as u8, ((n / 10) % 10 + 0x30) as u8, (n % 10 + 0x30) as u8]
    }
}

/// Appends the decimal digits of `n` to `out`.
fn push_u8_decimal(out: &mut Vec<u8>, n: u8)
    ensures
        final(out)@ == old(out)@ + spec_u8_digits(n),
{
    if n < 10 {
        out.push(n + 0x30);
        proof {
            assert(out@ =~= old(out)@ + spec_u8_digits(n));
        }
    } else if n < 100 {
        out.push(n / 10 + 0x30);
        out.push(n % 10 + 0x30);
        proof {
            assert(out@ =~= old(out)@ + spec_u8_digits(n));
        }
    } else {
        out.push(n / 100 + 0x30);
        out.push((n / 10) % 10 + 0x30);
        out.push(n % 10 + 0x30);
        proof {
            assert(out@ =~= old(out)@ + spec_u8_digits(n));
        }
    }
}

/// The tag `Gray(<v>)`.
pub open spec fn spec_gray_tag(v: u8) -> Seq<u8> {
    seq![0x47, 0x72, 0x61, 0x79, 0x28] + spec_u8_digits(v) + seq![0x29]
}

/// The tag `RGB(<r>, <g>, <b>)`.
pub open spec fn spec_rgb_tag(r: u8, g: u8, b: u8) -> Seq<u8> {
    seq![0x52, 0x47, 0x42, 0x28] + spec_u8_digits(r) + seq![0x2c, 0x20] + spec_u8_digits(g)
        + seq![0x2c, 0x20] + spec_u8_digits(b) + seq![0x29]
}

/// Builds the tag `Gray(<v>)`.
pub fn gray_tag(v: u8) -> (r: Vec<u8>)
    ensures
        r@ == spec_gray_tag(v),
{
    let mut out: Vec<u8> = Vec::new();
    out.push(0x47);
    out.push(0x72);
    out.push(0x61);
    out.push(0x79);
    out.push(0x28);
    proof {
        assert(out@ =~= seq![0x47, 0x72, 0x61, 0x79, 0x28]);
    }
    push_u8_decimal(&mut out, v);
    out.push(0x29);
    proof {
        assert(out@ =~= spec_gray_tag(v));
    }
    out
}

/// Builds the tag `RGB(<r>, <g>, <b>)`.
pub fn rgb_tag(r: u8, g: u8, b: u8) -> (res: Vec<u8>)
    ensures
        res@ == spec_rgb_tag(r, g, b),
{
    let mut out: Vec<u8> = Vec::new();
    out.push(0x52);
    out.push(0x47);
    out.push(0x42);
    out.push(0x28);
    proof {
        assert(out@ =~= seq![0x52, 0x47, 0x42, 0x28]);
    }
    push_u8_decimal(&mut out, r);
    out.push(0x2c);
    out.push(0x20);
    push_u8_decimal(&mut out, g);
    out.push(0x2c);
    out.push(0x20);
    push_u8_decimal(&mut out, b);
    out.push(0x29);
    proof {
        assert(out@ =~= spec_rgb_tag(r, g, b));
    }
    out
}

/// The default gray color space name, `DeviceGray`.
pub open spec fn spec_device_gray() -> Seq<u8> {
    seq![0x44, 0x65, 0x76, 0x69, 0x63, 0x65, 0x47, 0x72, 0x61, 0x79]
}

/// The device RGB color space name, `DeviceRGB`.
pub open spec fn spec_device_rgb() -> Seq<u8> {
    seq![0x44, 0x65, 0x76, 0x69, 0x63, 0x65, 0x52, 0x47, 0x42]
}

/// The standard RGB color space name used by the upstream typesetter, `srgb`.
pub open spec fn spec_srgb() -> Seq<u8> {
    seq![0x73, 0x72, 0x67, 0x62]
}

/// The gray color space name used by the upstream typesetter, `d65gray`.
pub open spec fn spec_d65_gray() -> Seq<u8> {
    seq![0x64, 0x36, 0x35, 0x67, 0x72, 0x61, 0x79]
}

/// Builds the name `DeviceGray`.
pub fn device_gray() -> (r: Vec<u8>)
    ensures
        r@ == spec_device_gray(),
{
    let mut out: Vec<u8> = Vec::new();
    out.push(0x44);
    out.push(0x65);
    out.push(0x76);
    out.push(0x69);
    out.push(0x63);
    out.push(0x65);
    out.push(0x47);
    out.push(0x72);
    out.push(0x61);
    out.push(0x79);
    proof {
        assert(out@ =~= spec_device_gray());
    }
    out
}

/// Builds the name `DeviceRGB`.
pub fn device_rgb() -> (r: Vec<u8>)
    ensures
        r@ == spec_device_rgb(),
{
    let mut out: Vec<u8> = Vec::new();
    out.push(0x44);
    out.push(0x65);
    out.push(0x76);
    out.push(0x69);
    out.push(0x63);
    out.push(0x65);
    out.push(0x52);
    out.push(0x47);
    out.push(0x42);
    proof {
        assert(out@ =~= spec_device_rgb());
    }
    out
}

/// Whether numeric color operands under this space are read as three RGB
/// channels.
pub open spec fn spec_is_rgb_space(space: Seq<u8>) -> bool {
    space == spec_srgb() || space == spec_device_rgb()
}

/// Whether numeric color operands under this space are read as one gray
/// channel.
pub open spec fn spec_is_gray_space(space: Seq<u8>) -> bool {
    space == spec_d65_gray() || space == spec_device_gray()
}

/// Recognizes the RGB-family color spaces.
pub fn is_rgb_space(space: &Vec<u8>) -> (r: bool)
    ensures
        r == spec_is_rgb_space(space@),
{
    let srgb: [u8; 4] = [0x73, 0x72, 0x67, 0x62];
    let drgb: [u8; 9] = [0x44, 0x65, 0x76, 0x69, 0x63, 0x65, 0x52, 0x47, 0x42];
    proof {
        assert(srgb@ =~= spec_srgb());
        assert(drgb@ =~= spec_device_rgb());
    }
    crate::bytes::bytes_eq(space.as_slice(), srgb.as_slice()) || crate::bytes::bytes_eq(
        space.as_slice(),
        drgb.as_slice(),
    )
}

/// Recognizes the gray-family color spaces.
pub fn is_gray_space(space: &Vec<u8>) -> (r: bool)
    ensures
        r == spec_is_gray_space(space@),
{
    let dgray: [u8; 7] = [0x64, 0x36, 0x35, 0x67, 0x72, 0x61, 0x79];
    let devgray: [u8; 10] = [0x44, 0x65, 0x76, 0x69, 0x63, 0x65, 0x47, 0x72, 0x61, 0x79];
    proof {
        assert(dgray@ =~= spec_d65_gray());
        assert(devgray@ =~= spec_device_gray());
    }
    crate::bytes::bytes_eq(space.as_slice(), dgray.as_slice()) || crate::bytes::bytes_eq(
        space.as_slice(),
        devgray.as_slice(),
    )
}

/// A color tag joined with its color space: `<color> (<space>)`.
pub open spec fn spec_formatted_color(color: Seq<u8>, space: Seq<u8>) -> Seq<u8> {
    color + seq![0x20, 0x28] + space + seq![0x29]
}

/// Builds `<color> (<space>)`.
pub fn format_color(color: &Vec<u8>, space: &Vec<u8>) -> (r: Vec<u8>)
    ensures
        r@ == spec_formatted_color(color@, space@),
{
    let mut out = crate::bytes::clone_bytes(color);
    out.push(0x20);
    out.push(0x28);
    let mut i: usize = 0;
    while i < space.len()
        invariant
            0 <= i <= space@.len(),
            out@ == color@ + seq![0x20, 0x28] + space@.subrange(0, i as int),
        decreases space@.len() - i,
    {
        out.push(space[i]);
        proof {
            assert(out@ =~= color@ + seq![0x20, 0x28] + space@.subrange(0, i + 1));
        }
        i = i + 1;
    }
    out.push(0x29);
    proof {
        assert(space@.subrange(0, space@.len() as int) =~= space@);
        assert(out@ =~= spec_formatted_color(color@, space@));
    }
    out
}

/// The fixed target fill color of the document-level analysis, the light
/// fill tag `RGB(214, 255, 244)`.
pub fn target_fill_color() -> (r: Vec<u8>)
    ensures
        r@ == spec_rgb_tag(214, 255, 244),
{
    rgb_tag(214, 255, 244)
}

/// The fixed target stroke color of the document-level analysis, the teal
/// stroke tag `RGB(0, 184, 148)`.
pub fn target_stroke_color() -> (r: Vec<u8>)
    ensures
        r@ == spec_rgb_tag(0, 184, 148),
{
    rgb_tag(0, 184, 148)
}

} // verus!
