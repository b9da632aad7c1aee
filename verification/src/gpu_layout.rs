//! Memory layout of the images exchanged with the GPU: row alignment of
//! readback buffers, the size check of an input image and the removal of row
//! padding from what the GPU hands back.
use vstd::prelude::*;
use vstd::string::StringExecFns;
use crate::text::push_char;

verus! {

/// Rounds `value` up to the next multiple of `alignment` (a zero alignment
/// leaves zero as it is).
pub fn align_to(value: u32, alignment: u32) -> (r: u32)
    requires
        alignment == 0 ==> value == 0,
        alignment > 0 && value % alignment != 0 ==> value + alignment <= u32::MAX,
    ensures
        alignment == 0 ==> r == 0,
        alignment > 0 ==> r % alignment == 0 && value <= r < value + alignment,
        alignment > 0 && value % alignment == 0 ==> r == value,
{
    if alignment == 0 {
        return value;
    }
    let rem = value % alignment;
    if rem == 0 {
        value
    } else {
        proof {
            assert((value + alignment - rem) % (alignment as int) == 0) by (nonlinear_arith)
                requires
                    rem == value % alignment,
                    alignment > 0,
            {
                vstd::arithmetic::div_mod::lemma_fundamental_div_mod(value as int, alignment as int);
                vstd::arithmetic::div_mod::lemma_mod_multiples_basic(
                    (value / alignment + 1) as int,
                    alignment as int,
                );
            }
        }
        value + alignment - rem
    }
}

/// The row alignment wgpu requires of buffers that textures are copied into.
pub const COPY_BYTES_PER_ROW_ALIGNMENT: u32 = 256;

/// Layout of a readback buffer for an RGBA image: bytes per row padded to the
/// copy alignment, and the buffer size.
pub struct ReadbackLayout {
    pub padded_bytes_per_row: u32,
    pub size: u64,
}

/// The readback layout of a `width` x `height` RGBA image: each row of
/// `4 * width` bytes padded up to a multiple of 256, times the rows.
pub fn readback_layout(width: u32, height: u32) -> (r: ReadbackLayout)
    requires
        4 * width + COPY_BYTES_PER_ROW_ALIGNMENT <= u32::MAX,
    ensures
        r.padded_bytes_per_row % COPY_BYTES_PER_ROW_ALIGNMENT == 0,
        4 * width <= r.padded_bytes_per_row < 4 * width + COPY_BYTES_PER_ROW_ALIGNMENT,
        r.size == r.padded_bytes_per_row * height,
{
    let bytes_per_row = width * 4;
    let padded = align_to(bytes_per_row, COPY_BYTES_PER_ROW_ALIGNMENT);
    proof {
        assert((padded as u64) * (height as u64) <= 0xFFFF_FFFF * 0xFFFF_FFFF) by (nonlinear_arith)
            requires
                padded <= 0xFFFF_FFFF,
                height <= 0xFFFF_FFFF,
        ;
    }
    ReadbackLayout { padded_bytes_per_row: padded, size: padded as u64 * height as u64 }
}

/// The decimal digits of a number.
pub open spec fn decimal(n: nat) -> Seq<char>
    decreases n,
{
    if n < 10 {
        seq![digit_char(n)]
    } else {
        decimal(n / 10).push(digit_char(n % 10))
    }
}

/// The digit character of `d < 10`.
pub open spec fn digit_char(d: nat) -> char {
    if d == 0 {
        '0'
    } else if d == 1 {
        '1'
    } else if d == 2 {
        '2'
    } else if d == 3 {
        '3'
    } else if d == 4 {
        '4'
    } else if d == 5 {
        '5'
    } else if d == 6 {
        '6'
    } else if d == 7 {
        '7'
    } else if d == 8 {
        '8'
    } else {
        '9'
    }
}

fn digit_char_exec(d: u64) -> (c: char)
    requires
        d < 10,
    ensures
        c == digit_char(d as nat),
{
    if d == 0 {
        '0'
    } else if d == 1 {
        '1'
    } else if d == 2 {
        '2'
    } else if d == 3 {
        '3'
    } else if d == 4 {
        '4'
    } else if d == 5 {
        '5'
    } else if d == 6 {
        '6'
    } else if d == 7 {
        '7'
    } else if d == 8 {
        '8'
    } else {
        '9'
    }
}

/// Appends the decimal digits of `n` to `s`.
pub fn push_decimal(s: &mut String, n: u64)
    ensures
        final(s)@ == old(s)@ + decimal(n as nat),
    decreases n,
{
    if n < 10 {
        push_char(s, digit_char_exec(n));
    } else {
        push_decimal(s, n / 10);
        push_char(s, digit_char_exec(n % 10));
    }
}

/// The message for an input whose length is not that of an RGBA image of
/// its dimensions.
pub open spec fn size_mismatch_message(len: nat, width: nat, height: nat) -> Seq<char> {
    "Input buffer length "@ + decimal(len) + " does not match "@ + decimal(width) + seq!['x']
        + decimal(height) + " RGBA image"@
}

/// Checks that an input holds exactly one RGBA image of the given
/// dimensions, answering its length, or the message that says it does not.
pub fn check_rgba_len(len: usize, width: u32, height: u32) -> (r: Result<usize, String>)
    requires
        4 * width * height <= usize::MAX,
    ensures
        len == 4 * width * height ==> r == Ok::<usize, String>(len),
        len != 4 * width * height ==> (r matches Err(m) && m@ == size_mismatch_message(
            len as nat,
            width as nat,
            height as nat,
        )),
{
    proof {
        assert((width as usize) * (height as usize) <= 4 * width * height) by (nonlinear_arith);
        assert(4 * width * height == (width as usize) * (height as usize) * 4) by (nonlinear_arith);
    }
    let expected = width as usize * height as usize * 4;
    if len == expected {
        Ok(len)
    } else {
        let mut m = String::from_str("Input buffer length ");
        push_decimal(&mut m, len as u64);
        m.append(" does not match ");
        push_decimal(&mut m, width as u64);
        push_char(&mut m, 'x');
        push_decimal(&mut m, height as u64);
        m.append(" RGBA image");
        Err(m)
    }
}

/// The byte at column `x` of row `y` of a buffer whose rows are `stride`
/// bytes apart.
pub open spec fn at(v: Seq<u8>, stride: int, y: int, x: int) -> u8 {
    v[y * stride + x]
}

/// Removes the row padding of a readback buffer: row `y` of the result is the
/// first `4 * width` bytes of row `y` of `mapped`, whose rows are
/// `padded_bytes_per_row` bytes apart.
pub fn unpad_rows(mapped: &[u8], width: u32, height: u32, padded_bytes_per_row: u32) -> (r: Vec<u8>)
    requires
        4 * width <= padded_bytes_per_row,
        padded_bytes_per_row * height <= mapped@.len(),
        mapped@.len() <= usize::MAX,
        4 * width * height <= usize::MAX,
    ensures
        r@.len() == 4 * width * height,
        forall|y: int, x: int|
            0 <= y < height && 0 <= x < 4 * width ==> #[trigger] at(r@, 4 * width, y, x) == at(
                mapped@,
                padded_bytes_per_row as int,
                y,
                x,
            ),
{
    let bpr = width as usize * 4;
    let pad = padded_bytes_per_row as usize;
    let h = height as usize;
    let mut out: Vec<u8> = Vec::new();
    let mut y: usize = 0;
    proof {
        assert(h * bpr == 4 * width * height) by (nonlinear_arith)
            requires
                bpr == width * 4,
                h == height,
        ;
    }
    while y < h
        invariant
            bpr == 4 * width,
            pad == padded_bytes_per_row,
            h == height,
            bpr <= pad,
            pad * h <= mapped@.len(),
            mapped@.len() <= usize::MAX,
            bpr * h <= usize::MAX,
            h * bpr == 4 * width * height,
            y <= h,
            out@.len() == y * bpr,
            forall|yy: int, x: int|
                0 <= yy < y && 0 <= x < bpr ==> #[trigger] at(out@, bpr as int, yy, x) == at(
                    mapped@,
                    pad as int,
                    yy,
                    x,
                ),
        decreases h - y,
    {
        proof {
            assert(y * pad + pad <= pad * h) by (nonlinear_arith)
                requires
                    y < h,
            ;
            assert(y * pad + pad <= mapped@.len());
            assert((y + 1) * bpr <= bpr * h) by (nonlinear_arith)
                requires
                    y < h,
            ;
        }
        let src = y * pad;
        let mut x: usize = 0;
        while x < bpr
            invariant
                bpr == 4 * width,
                pad == padded_bytes_per_row,
                h == height,
                bpr <= pad,
                y < h,
                src == y * pad,
                src + pad <= mapped@.len(),
                mapped@.len() <= usize::MAX,
                (y + 1) * bpr <= usize::MAX,
                x <= bpr,
                out@.len() == y * bpr + x,
                forall|yy: int, xx: int|
                    0 <= yy < y && 0 <= xx < bpr ==> #[trigger] at(out@, bpr as int, yy, xx) == at(
                        mapped@,
                        pad as int,
                        yy,
                        xx,
                    ),
                forall|xx: int|
                    0 <= xx < x ==> #[trigger] at(out@, bpr as int, y as int, xx) == at(
                        mapped@,
                        pad as int,
                        y as int,
                        xx,
                    ),
            decreases bpr - x,
        {
            let ghost before = out@;
            out.push(mapped[src + x]);
            proof {
                assert forall|yy: int, xx: int|
                    0 <= yy < y && 0 <= xx < bpr implies #[trigger] at(out@, bpr as int, yy, xx)
                        == at(mapped@, pad as int, yy, xx) by {
                    assert(yy * bpr + xx < y * bpr) by (nonlinear_arith)
                        requires
                            yy < y,
                            0 <= xx < bpr,
                    ;
                    assert(0 <= yy * bpr + xx) by (nonlinear_arith)
                        requires
                            0 <= yy,
                            0 <= xx,
                            0 <= bpr,
                    ;
                    assert(at(before, bpr as int, yy, xx) == at(mapped@, pad as int, yy, xx));
                }
                assert forall|xx: int|
                    0 <= xx < x + 1 implies #[trigger] at(out@, bpr as int, y as int, xx) == at(
                        mapped@,
                        pad as int,
                        y as int,
                        xx,
                    ) by {
                    if xx < x {
                        assert(at(before, bpr as int, y as int, xx) == at(mapped@, pad as int, y as int, xx));
                    }
                }
            }
            x = x + 1;
        }
        proof {
            assert((y + 1) * bpr == y * bpr + bpr) by (nonlinear_arith);
            assert forall|yy: int, xx: int|
                0 <= yy < y + 1 && 0 <= xx < bpr implies #[trigger] at(out@, bpr as int, yy, xx)
                    == at(mapped@, pad as int, yy, xx) by {
                if yy == y {
                    assert(at(out@, bpr as int, y as int, xx) == at(mapped@, pad as int, y as int, xx));
                }
            }
        }
        y = y + 1;
    }
    out
}

} // verus!
