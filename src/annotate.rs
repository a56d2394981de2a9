use vstd::prelude::*;

use crate::geometry::SCALE;
use crate::labels::BoundingBoxWithLabels;
use crate::text::{decimal, push_decimal};

verus! {

/// A fixed-point value (millionths) written with two decimals, rounded to the
/// nearest hundredth with halves away from zero: `0.95`, `1.00`, `-0.50`.
pub open spec fn two_decimals(c: int) -> Seq<char> {
    let m: nat = if c < 0 { (-c) as nat } else { c as nat };
    let h: nat = (m + 5000) / 10000;
    let sign: Seq<char> = if c < 0 { "-"@ } else { Seq::empty() };
    sign + decimal(h / 100) + "."@ + decimal((h % 100) / 10) + decimal(h % 10)
}

/// The text drawn beside a detection: `"<class_label>: <confidence>"`, the
/// confidence with two decimals.
pub fn box_label(b: &BoundingBoxWithLabels) -> (r: String)
    ensures
        r@ == b.class_label@ + ": "@ + two_decimals(b.confidence as int),
{
    let c = b.confidence;
    let m: u64 = if c < 0 { (-(c as i128)) as u64 } else { c as u64 };
    let h = (m + 5000) / 10000;
    let mut r = b.class_label.clone();
    r.append(": ");
    let ghost before_sign = r@;
    if c < 0 {
        r.append("-");
    }
    let ghost after_sign = r@;
    push_decimal(&mut r, h / 100);
    r.append(".");
    push_decimal(&mut r, (h % 100) / 10);
    push_decimal(&mut r, h % 10);
    proof {
        let sign: Seq<char> = if c < 0 { "-"@ } else { Seq::empty() };
        assert(after_sign =~= before_sign + sign);
        assert(r@ =~= b.class_label@ + ": "@ + two_decimals(b.confidence as int));
    }
    r
}

/// The pixel column or row of a fixed-point coordinate, rounded down.
pub open spec fn pixel_of(v: i64) -> int {
    v as int / SCALE as int
}

/// Pixel `(x, y)` lies on the two-pixel border of the box, inside its corners.
pub open spec fn on_border(b: BoundingBoxWithLabels, x: int, y: int) -> bool {
    let x1 = pixel_of(b.x1);
    let y1 = pixel_of(b.y1);
    let x2 = pixel_of(b.x2);
    let y2 = pixel_of(b.y2);
    &&& x1 <= x <= x2
    &&& y1 <= y <= y2
    &&& (x < x1 + 2 || x > x2 - 2 || y < y1 + 2 || y > y2 - 2)
}

/// A colour component as a byte, saturated at 255.
pub open spec fn channel_byte(v: u32) -> u8 {
    if v > 255 {
        255
    } else {
        v as u8
    }
}

/// Component `k` (0 red, 1 green, 2 blue) of the box's label colour.
pub open spec fn box_channel(b: BoundingBoxWithLabels, k: int) -> u8 {
    if k == 0 {
        channel_byte(b.red)
    } else if k == 1 {
        channel_byte(b.green)
    } else {
        channel_byte(b.blue)
    }
}

/// Byte `i` of an RGB image, `width` pixels a row, after drawing `b` over `before`.
pub open spec fn drawn_byte(before: Seq<u8>, width: int, b: BoundingBoxWithLabels, i: int) -> u8 {
    let p = i / 3;
    if on_border(b, p % width, p / width) {
        box_channel(b, i % 3)
    } else {
        before[i]
    }
}

fn channel(v: u32) -> (r: u8)
    ensures
        r == channel_byte(v),
{
    if v > 255 {
        255
    } else {
        v as u8
    }
}

fn pixel(v: i64) -> (r: i64)
    ensures
        r == pixel_of(v),
{
    match v.checked_div_euclid(SCALE) {
        Some(q) => q,
        None => 0,
    }
}

/// Draws the two-pixel border of `b` in its label colour over the RGB image
/// `buf` of `width` by `height` pixels (rows of `width` pixels, three bytes a
/// pixel). Pixels outside the image are skipped; every other byte is unchanged.
pub fn draw_box(buf: &mut Vec<u8>, width: u32, height: u32, b: &BoundingBoxWithLabels)
    requires
        old(buf).len() == 3 * width * height,
    ensures
        final(buf)@.len() == old(buf)@.len(),
        forall|i: int|
            0 <= i < final(buf)@.len() ==> #[trigger] final(buf)@[i] == drawn_byte(
                old(buf)@,
                width as int,
                *b,
                i,
            ),
{
    let x1 = pixel(b.x1);
    let y1 = pixel(b.y1);
    let x2 = pixel(b.x2);
    let y2 = pixel(b.y2);
    let colour = [channel(b.red), channel(b.green), channel(b.blue)];
    let w = width as usize;
    let len = buf.len();
    let mut i: usize = 0;
    while i < len
        invariant
            len == buf@.len(),
            len == old(buf)@.len(),
            i <= len,
            w == width,
            len > 0 ==> w > 0,
            x1 == pixel_of(b.x1) && y1 == pixel_of(b.y1),
            x2 == pixel_of(b.x2) && y2 == pixel_of(b.y2),
            colour@ == seq![channel_byte(b.red), channel_byte(b.green), channel_byte(b.blue)],
            forall|k: int| 0 <= k < i ==> #[trigger] buf@[k] == drawn_byte(old(buf)@, width as int, *b, k),
            forall|k: int| i <= k < len ==> #[trigger] buf@[k] == old(buf)@[k],
        decreases len - i,
    {
        let p = i / 3;
        let x = (p % w) as i64;
        let y = (p / w) as i64;
        let border = x1 <= x && x <= x2 && y1 <= y && y <= y2 && (x < x1 + 2 || x > x2 - 2 || y
            < y1 + 2 || y > y2 - 2);
        if border {
            buf[i] = colour[i % 3];
        }
        i = i + 1;
    }
}

} // verus!
