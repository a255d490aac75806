use vstd::prelude::*;

use crate::render::{Image, Rgba};

verus! {

/// ASCII `0`.
pub const DIGIT_ZERO: u8 = 0x30;

/// ASCII `P`, the first byte of the magic number.
pub const LETTER_P: u8 = 0x50;

/// ASCII space.
pub const SPACE: u8 = 0x20;

/// ASCII line feed.
pub const NEWLINE: u8 = 0x0a;

/// The PPM variant written, the second byte of the magic number: channels
/// as decimal text.
pub const PPM_VARIANT: u32 = 3;

/// The largest channel value, as the header states it.
pub const MAX_CHANNEL: u32 = 255;

/// The decimal digits of `n` in ASCII, without leading zeros.
pub open spec fn decimal(n: nat) -> Seq<u8>
    decreases n,
{
    if n < 10 {
        seq![(DIGIT_ZERO + n) as u8]
    } else {
        decimal(n / 10).push((DIGIT_ZERO + n % 10) as u8)
    }
}

/// The header of a plain-text PPM raster: the magic number, the size, and the
/// largest channel value 255, each on its own line.
pub open spec fn ppm_header(width: nat, height: nat) -> Seq<u8> {
    seq![LETTER_P] + decimal(PPM_VARIANT as nat) + seq![NEWLINE] + decimal(width) + seq![SPACE]
        + decimal(height) + seq![NEWLINE] + decimal(MAX_CHANNEL as nat) + seq![NEWLINE]
}

/// One pixel as a line `R G B`.
pub open spec fn pixel_line(c: Rgba) -> Seq<u8> {
    decimal(c.r as nat) + seq![SPACE] + decimal(c.g as nat) + seq![SPACE] + decimal(c.b as nat)
        + seq![NEWLINE]
}

/// The pixel lines of `px`, in order.
pub open spec fn pixel_lines(px: Seq<Rgba>) -> Seq<u8>
    decreases px.len(),
{
    if px.len() == 0 {
        Seq::empty()
    } else {
        pixel_lines(px.drop_last()) + pixel_line(px.last())
    }
}

/// The whole PPM text of an image.
pub open spec fn ppm_text(image: Image) -> Seq<u8> {
    ppm_header(image.width as nat, image.height as nat) + pixel_lines(image.data@)
}

/// Appends the decimal digits of `n`.
fn push_decimal(out: &mut Vec<u8>, n: u32)
    ensures
        final(out)@ == old(out)@ + decimal(n as nat),
    decreases n,
{
    if n >= 10 {
        push_decimal(out, n / 10);
    }
    let digit: u8 = (n % 10) as u8;
    out.push(DIGIT_ZERO + digit);
    proof {
        if n >= 10 {
            assert(old(out)@ + decimal(n as nat) =~= (old(out)@ + decimal((n / 10) as nat)).push((DIGIT_ZERO + digit) as u8));
        } else {
            assert(old(out)@ + decimal(n as nat) =~= old(out)@.push((DIGIT_ZERO + digit) as u8));
        }
    }
}

/// Encodes `image` as a plain-text PPM file: the header, then one line per
/// pixel in the order the image holds them.
pub fn encode_ppm(image: &Image) -> (out: Vec<u8>)
    ensures
        out@ == ppm_text(*image),
{
    let mut out: Vec<u8> = Vec::new();
    out.push(LETTER_P);
    push_decimal(&mut out, PPM_VARIANT);
    out.push(NEWLINE);
    push_decimal(&mut out, image.width);
    out.push(SPACE);
    push_decimal(&mut out, image.height);
    out.push(NEWLINE);
    push_decimal(&mut out, MAX_CHANNEL);
    out.push(NEWLINE);
    let ghost header = out@;
    assert(header =~= ppm_header(image.width as nat, image.height as nat));
    let mut k: usize = 0;
    while k < image.data.len()
        invariant
            k <= image.data@.len(),
            header == ppm_header(image.width as nat, image.height as nat),
            out@ == header + pixel_lines(image.data@.take(k as int)),
        decreases image.data@.len() - k,
    {
        let c = image.data[k];
        let ghost before = out@;
        push_decimal(&mut out, c.r as u32);
        out.push(SPACE);
        push_decimal(&mut out, c.g as u32);
        out.push(SPACE);
        push_decimal(&mut out, c.b as u32);
        out.push(NEWLINE);
        proof {
            let done = image.data@.take(k + 1);
            assert(done.drop_last() =~= image.data@.take(k as int));
            assert(done.last() == c);
            assert(out@ =~= before + pixel_line(c));
            assert(out@ =~= header + pixel_lines(done));
        }
        k = k + 1;
    }
    assert(image.data@.take(image.data@.len() as int) =~= image.data@);
    out
}

} // verus!
