use vstd::prelude::*;

verus! {

/// The ASCII decimal digits of `n`, without leading zeros.
pub open spec fn decimal(n: nat) -> Seq<u8>
    decreases n,
{
    if n < 10 {
        seq![(48 + n) as u8]
    } else {
        decimal(n / 10).push((48 + n % 10) as u8)
    }
}

/// The header of an image `width` by `height`: `"P6 <width> <height> 255\n"`.
pub open spec fn header_of(width: nat, height: nat) -> Seq<u8> {
    seq![80u8, 54u8, 32u8] + decimal(width) + seq![32u8] + decimal(height) + seq![
        32u8,
        50u8,
        53u8,
        53u8,
        10u8,
    ]
}

/// Appends the decimal digits of `n` to `out`.
fn push_decimal(out: &mut Vec<u8>, n: u32)
    ensures
        final(out)@ == old(out)@ + decimal(n as nat),
    decreases n,
{
    if n >= 10 {
        push_decimal(out, n / 10);
    }
    out.push(48 + (n % 10) as u8);
}

fn push_all(out: &mut Vec<u8>, bytes: &Vec<u8>)
    ensures
        final(out)@ == old(out)@ + bytes@,
{
    let mut i: usize = 0;
    while i < bytes.len()
        invariant
            i <= bytes@.len(),
            out@ == old(out)@ + bytes@.take(i as int),
        decreases bytes@.len() - i,
    {
        out.push(bytes[i]);
        i = i + 1;
        assert(out@ =~= old(out)@ + bytes@.take(i as int));
    }
    assert(bytes@.take(i as int) =~= bytes@);
}

/// The header of a binary image `width` pixels wide and `height` rows tall.
pub fn image_header(width: u32, height: u32) -> (r: Vec<u8>)
    ensures
        r@ == header_of(width as nat, height as nat),
{
    let mut out: Vec<u8> = Vec::new();
    out.push(80);
    out.push(54);
    out.push(32);
    push_decimal(&mut out, width);
    out.push(32);
    push_decimal(&mut out, height);
    out.push(32);
    out.push(50);
    out.push(53);
    out.push(53);
    out.push(10);
    assert(out@ =~= header_of(width as nat, height as nat));
    out
}

/// The image file of a frame: the header, then the pixel bytes (three per
/// pixel, red, green, blue, row by row) as they are.
pub fn encode_image(width: u32, height: u32, pixels: &Vec<u8>) -> (r: Vec<u8>)
    ensures
        r@ == header_of(width as nat, height as nat) + pixels@,
{
    let mut out = image_header(width, height);
    push_all(&mut out, pixels);
    out
}

} // verus!
