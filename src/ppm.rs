//! The plain-text (ASCII) PPM image the renderer writes: the format's magic line, the size,
//! `255`, then one `R G B` line per pixel.
use vstd::prelude::*;

verus! {

/// The decimal digits of `n`, in ASCII.
pub open spec fn digits(n: nat) -> Seq<u8>
    decreases n,
{
    if n < 10 {
        seq![(48 + n) as u8]
    } else {
        digits(n / 10).push((48 + n % 10) as u8)
    }
}

/// The line of one pixel: its three channels separated by spaces.
pub open spec fn pixel_line(p: (u8, u8, u8)) -> Seq<u8> {
    digits(p.0 as nat) + seq![32u8] + digits(p.1 as nat) + seq![32u8] + digits(p.2 as nat) + seq![10u8]
}

/// The lines of all the pixels, in order.
pub open spec fn pixel_lines(pixels: Seq<(u8, u8, u8)>) -> Seq<u8>
    decreases pixels.len(),
{
    if pixels.len() == 0 {
        Seq::empty()
    } else {
        pixel_lines(pixels.drop_last()) + pixel_line(pixels.last())
    }
}

/// The header: the ASCII PPM magic line, then `<width> <height>`, then `255`, each on a line of
/// its own.
pub open spec fn header(width: nat, height: nat) -> Seq<u8> {
    seq![80u8, 51u8, 10u8] + digits(width) + seq![32u8] + digits(height) + seq![10u8, 50u8, 53u8, 53u8, 10u8]
}

pub open spec fn ppm_spec(width: nat, height: nat, pixels: Seq<(u8, u8, u8)>) -> Seq<u8> {
    header(width, height) + pixel_lines(pixels)
}

/// Appends the decimal digits of `n`.
fn push_decimal(out: &mut Vec<u8>, n: u32)
    ensures
        final(out)@ == old(out)@ + digits(n as nat),
    decreases n,
{
    if n >= 10 {
        push_decimal(out, n / 10);
    }
    out.push((48 + n % 10) as u8);
    proof {
        assert(old(out)@ + digits(n as nat) =~= final(out)@);
    }
}

fn push_bytes(out: &mut Vec<u8>, bytes: &[u8])
    ensures
        final(out)@ == old(out)@ + bytes@,
{
    let mut i: usize = 0;
    while i < bytes.len()
        invariant
            i <= bytes@.len(),
            out@ == old(out)@ + bytes@.subrange(0, i as int),
        decreases bytes@.len() - i,
    {
        out.push(bytes[i]);
        i = i + 1;
        proof {
            assert(out@ =~= old(out)@ + bytes@.subrange(0, i as int));
        }
    }
    proof {
        assert(bytes@.subrange(0, i as int) =~= bytes@);
    }
}

/// The image as text: the header, then one line per pixel in the order given.
pub fn ppm(width: u32, height: u32, pixels: &Vec<(u8, u8, u8)>) -> (r: Vec<u8>)
    ensures
        r@ == ppm_spec(width as nat, height as nat, pixels@),
{
    let mut out: Vec<u8> = Vec::new();
    push_bytes(&mut out, &[80u8, 51u8, 10u8]);
    push_decimal(&mut out, width);
    out.push(32u8);
    push_decimal(&mut out, height);
    push_bytes(&mut out, &[10u8, 50u8, 53u8, 53u8, 10u8]);
    assert(out@ =~= header(width as nat, height as nat));
    let mut i: usize = 0;
    while i < pixels.len()
        invariant
            i <= pixels@.len(),
            out@ == header(width as nat, height as nat) + pixel_lines(pixels@.subrange(0, i as int)),
        decreases pixels@.len() - i,
    {
        let p = pixels[i];
        let ghost before = out@;
        push_decimal(&mut out, p.0 as u32);
        out.push(32u8);
        push_decimal(&mut out, p.1 as u32);
        out.push(32u8);
        push_decimal(&mut out, p.2 as u32);
        out.push(10u8);
        proof {
            let s = pixels@.subrange(0, i as int + 1);
            assert(s.drop_last() =~= pixels@.subrange(0, i as int));
            assert(s.last() == p);
            assert(out@ =~= before + pixel_line(p));
            assert(out@ =~= header(width as nat, height as nat) + pixel_lines(s));
        }
        i = i + 1;
    }
    proof {
        assert(pixels@.subrange(0, i as int) =~= pixels@);
    }
    out
}

} // verus!
