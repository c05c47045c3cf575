use crate::scalar::{clamp, clamped, Scalar, ZERO_BITS};
use vstd::prelude::*;

verus! {

/// The pattern of the brightest channel that is written: just below one.
pub const BRIGHTEST_BITS: u64 = 0x3fef_f7ce_d916_872b;

/// A channel held in the range that is written: from zero to just below one.
pub open spec fn held(channel: Scalar) -> Scalar {
    clamped(channel, Scalar { bits: ZERO_BITS }, Scalar { bits: BRIGHTEST_BITS })
}

/// Holds a channel in the range that is written, before it is scaled and cut
/// down to a whole number: what is below zero becomes zero, what is above
/// 0.999 becomes 0.999.
pub fn hold(channel: Scalar) -> (kept: Scalar)
    ensures
        kept == held(channel),
{
    clamp(channel, Scalar { bits: ZERO_BITS }, Scalar { bits: BRIGHTEST_BITS })
}

/// The decimal digits of `n` as ASCII bytes, most significant first, without
/// leading zeros; zero is the single digit `0`.
pub open spec fn digits(n: nat) -> Seq<u8>
    decreases n,
{
    if n < 10 {
        seq![(48 + n) as u8]
    } else {
        digits(n / 10).push((48 + n % 10) as u8)
    }
}

/// The header of a plain-text image: the magic word of plain pixmaps, the
/// width and the height separated by a space, and the largest channel value,
/// 255, each on a line of its own.
pub open spec fn header_bytes(width: u32, height: u32) -> Seq<u8> {
    seq![80u8, 51u8, 10u8] + digits(width as nat) + seq![32u8] + digits(height as nat)
        + seq![10u8, 50u8, 53u8, 53u8, 10u8]
}

/// One pixel's line: the three channels separated by spaces.
pub open spec fn line_bytes(color: (u32, u32, u32)) -> Seq<u8> {
    digits(color.0 as nat) + seq![32u8] + digits(color.1 as nat) + seq![32u8] + digits(
        color.2 as nat,
    ) + seq![10u8]
}

/// The lines of the pixels, one after the other.
pub open spec fn body_bytes(colors: Seq<(u32, u32, u32)>) -> Seq<u8>
    decreases colors.len(),
{
    if colors.len() == 0 {
        Seq::<u8>::empty()
    } else {
        body_bytes(colors.drop_last()) + line_bytes(colors.last())
    }
}

/// A whole image: the header, then the pixels' lines.
pub open spec fn image_bytes(width: u32, height: u32, colors: Seq<(u32, u32, u32)>) -> Seq<u8> {
    header_bytes(width, height) + body_bytes(colors)
}

/// Appends the decimal digits of `n` to `out`.
pub fn push_decimal(out: &mut Vec<u8>, n: u32)
    ensures
        final(out)@ == old(out)@ + digits(n as nat),
    decreases n,
{
    if n >= 10 {
        push_decimal(out, n / 10);
    }
    let digit: u8 = 48 + (n % 10) as u8;
    out.push(digit);
    assert(final(out)@ =~= old(out)@ + digits(n as nat));
}

/// The header of an image of the given size.
pub fn header(width: u32, height: u32) -> (out: Vec<u8>)
    ensures
        out@ == header_bytes(width, height),
{
    let mut out: Vec<u8> = Vec::new();
    out.push(80);
    out.push(51);
    out.push(10);
    push_decimal(&mut out, width);
    out.push(32);
    push_decimal(&mut out, height);
    out.push(10);
    out.push(50);
    out.push(53);
    out.push(53);
    out.push(10);
    assert(out@ =~= header_bytes(width, height));
    out
}

/// Appends the line of one pixel to `out`.
pub fn write_color(out: &mut Vec<u8>, color: (u32, u32, u32))
    ensures
        final(out)@ == old(out)@ + line_bytes(color),
{
    push_decimal(out, color.0);
    out.push(32);
    push_decimal(out, color.1);
    out.push(32);
    push_decimal(out, color.2);
    out.push(10);
    assert(final(out)@ =~= old(out)@ + line_bytes(color));
}

/// The line of one pixel.
pub fn color_line(color: (u32, u32, u32)) -> (out: Vec<u8>)
    ensures
        out@ == line_bytes(color),
{
    let mut out: Vec<u8> = Vec::new();
    write_color(&mut out, color);
    assert(out@ =~= line_bytes(color));
    out
}

/// Encodes an image whose pixels are given in the order of the file: row by
/// row from the top, each row from the left.
pub fn encode(width: u32, height: u32, colors: &Vec<(u32, u32, u32)>) -> (out: Vec<u8>)
    ensures
        out@ == image_bytes(width, height, colors@),
{
    let mut out = header(width, height);
    let mut i: usize = 0;
    while i < colors.len()
        invariant
            i <= colors.len(),
            out@ == header_bytes(width, height) + body_bytes(colors@.take(i as int)),
        decreases colors.len() - i,
    {
        let ghost before = out@;
        write_color(&mut out, colors[i]);
        proof {
            let front = colors@.take(i + 1);
            assert(front.drop_last() =~= colors@.take(i as int));
            assert(front.last() == colors@[i as int]);
            assert(out@ =~= header_bytes(width, height) + body_bytes(front));
        }
        i += 1;
    }
    assert(colors@.take(i as int) =~= colors@);
    out
}

/// The value that a sequence of ASCII digits spells.
pub open spec fn spelled(text: Seq<u8>) -> nat
    decreases text.len(),
{
    if text.len() == 0 {
        0
    } else {
        (spelled(text.drop_last()) * 10 + (text.last() - 48)) as nat
    }
}

/// Reading the digits of a number gives the number back: no two numbers
/// share their digits.
pub proof fn lemma_digits_spell(n: nat)
    ensures
        spelled(digits(n)) == n,
    decreases n,
{
    if n < 10 {
        assert(digits(n).drop_last() =~= Seq::<u8>::empty());
        assert(spelled(digits(n).drop_last()) == 0);
    } else {
        lemma_digits_spell(n / 10);
        assert(digits(n).drop_last() =~= digits(n / 10));
    }
}

} // verus!
