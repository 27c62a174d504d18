use vstd::prelude::*;

verus! {

/// The ASCII code of the digit `0`; the digit `d` is written `ZERO + d`.
pub const ZERO: u8 = 48;

/// The ASCII code of the letter `P`, which opens the magic of a plain PPM file.
pub const LETTER_P: u8 = 80;

/// The ASCII code of a space, which separates numbers on a line.
pub const SPACE: u8 = 32;

/// The ASCII code of a line feed, which ends each line.
pub const NEWLINE: u8 = 10;

/// The largest channel value; the header states it.
pub const MAX_CHANNEL: u32 = 255;

/// The decimal digits of `n`, most significant first, without leading zeros
/// (zero itself is the single digit `0`).
pub open spec fn decimal(n: nat) -> Seq<u8>
    decreases n,
{
    if n < 10 {
        seq![(ZERO + n) as u8]
    } else {
        decimal(n / 10).push((ZERO + n % 10) as u8)
    }
}

/// The line that a plain PPM file holds for one pixel: the three channel
/// values in decimal, separated by spaces, and a line feed.
pub open spec fn pixel_line_bytes(r: u8, g: u8, b: u8) -> Seq<u8> {
    decimal(r as nat) + seq![SPACE] + decimal(g as nat) + seq![SPACE] + decimal(b as nat)
        + seq![NEWLINE]
}

/// The header of a plain PPM file, three lines: the magic `P3`; the width and
/// the height; the largest channel value.
pub open spec fn header_bytes(width: nat, height: nat) -> Seq<u8> {
    seq![LETTER_P, (ZERO + 3) as u8, NEWLINE] + decimal(width) + seq![SPACE] + decimal(height)
        + seq![NEWLINE] + decimal(MAX_CHANNEL as nat) + seq![NEWLINE]
}

/// The lines of the given pixels, one after another, in the order given.
pub open spec fn pixel_lines_bytes(pixels: Seq<(u8, u8, u8)>) -> Seq<u8>
    decreases pixels.len(),
{
    if pixels.len() == 0 {
        Seq::empty()
    } else {
        pixel_lines_bytes(pixels.drop_last()) + pixel_line_bytes(
            pixels.last().0,
            pixels.last().1,
            pixels.last().2,
        )
    }
}

/// A whole plain PPM image: the header, then one line per pixel in row-major
/// order starting at the top-left pixel.
pub open spec fn image_bytes(width: nat, height: nat, pixels: Seq<(u8, u8, u8)>) -> Seq<u8> {
    header_bytes(width, height) + pixel_lines_bytes(pixels)
}

/// Appends the decimal digits of `n` to `out`.
pub fn push_decimal(out: &mut Vec<u8>, n: u32)
    ensures
        final(out)@ == old(out)@ + decimal(n as nat),
    decreases n,
{
    if n >= 10 {
        push_decimal(out, n / 10);
    }
    let digit: u8 = (n % 10) as u8;
    out.push(ZERO + digit);
    assert(final(out)@ =~= old(out)@ + decimal(n as nat));
}

/// The bytes of one pixel's line: `R G B` and a line feed.
pub fn pixel_line(r: u8, g: u8, b: u8) -> (line: Vec<u8>)
    ensures
        line@ == pixel_line_bytes(r, g, b),
{
    let mut line: Vec<u8> = Vec::new();
    push_pixel_line(&mut line, r, g, b);
    assert(line@ =~= pixel_line_bytes(r, g, b));
    line
}

/// Appends one pixel's line to `out`.
fn push_pixel_line(out: &mut Vec<u8>, r: u8, g: u8, b: u8)
    ensures
        final(out)@ == old(out)@ + pixel_line_bytes(r, g, b),
{
    push_decimal(out, r as u32);
    out.push(SPACE);
    push_decimal(out, g as u32);
    out.push(SPACE);
    push_decimal(out, b as u32);
    out.push(NEWLINE);
    assert(final(out)@ =~= old(out)@ + pixel_line_bytes(r, g, b));
}

/// The bytes of the header of an image of `width` by `height` pixels.
pub fn ppm_header(width: u32, height: u32) -> (header: Vec<u8>)
    ensures
        header@ == header_bytes(width as nat, height as nat),
{
    let mut header: Vec<u8> = Vec::new();
    header.push(LETTER_P);
    header.push(ZERO + 3);
    header.push(NEWLINE);
    push_decimal(&mut header, width);
    header.push(SPACE);
    push_decimal(&mut header, height);
    header.push(NEWLINE);
    push_decimal(&mut header, MAX_CHANNEL);
    header.push(NEWLINE);
    assert(header@ =~= header_bytes(width as nat, height as nat));
    header
}

/// Encodes a whole image, its pixels given in row-major order from the
/// top-left one. It is refused (`None`) exactly when the number of pixels is
/// not `width * height`.
pub fn encode_image(width: u32, height: u32, pixels: &Vec<(u8, u8, u8)>) -> (image: Option<
    Vec<u8>,
>)
    ensures
        image is None <==> pixels@.len() != width as nat * height as nat,
        image matches Some(bytes) ==> bytes@ == image_bytes(
            width as nat,
            height as nat,
            pixels@,
        ),
{
    let w = width as u64;
    let h = height as u64;
    assert(w * h <= u64::MAX) by (nonlinear_arith)
        requires
            w <= u32::MAX,
            h <= u32::MAX,
    ;
    if pixels.len() as u64 != w * h {
        return None;
    }
    let mut bytes = ppm_header(width, height);
    let ghost header = bytes@;
    let mut i: usize = 0;
    while i < pixels.len()
        invariant
            i <= pixels@.len(),
            header == header_bytes(width as nat, height as nat),
            bytes@ == header + pixel_lines_bytes(pixels@.subrange(0, i as int)),
        decreases pixels@.len() - i,
    {
        let (r, g, b) = pixels[i];
        push_pixel_line(&mut bytes, r, g, b);
        assert(pixels@.subrange(0, i + 1).drop_last() =~= pixels@.subrange(0, i as int));
        i = i + 1;
        assert(bytes@ =~= header + pixel_lines_bytes(pixels@.subrange(0, i as int)));
    }
    assert(pixels@.subrange(0, pixels@.len() as int) =~= pixels@);
    Some(bytes)
}

} // verus!
