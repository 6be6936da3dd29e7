use vstd::prelude::*;

verus! {

// Clipping for a pixel buffer of `width` x `height` pixels with its origin at
// the top-left corner, x to the right and y down. Coordinates here are
// already mapped to buffer pixels.

/// Whether pixel `(x, y)` lies inside the buffer.
pub fn in_bounds(x: i32, y: i32, width: i32, height: i32) -> (inside: bool)
    ensures
        inside == (0 <= x < width && 0 <= y < height),
{
    x >= 0 && x < width && y >= 0 && y < height
}

/// Number of pixels covered from `start` to `end` along one axis: the mapped
/// corners' distance, but at least one pixel, so that shrunk cells never
/// vanish.
pub fn span_len(start: i32, end: i32) -> (len: i32)
    requires
        i32::MIN <= end - start <= i32::MAX,
    ensures
        len == (if end - start > 1 {
            end - start
        } else {
            1
        }),
        len >= 1,
{
    let d = end - start;
    if d > 1 {
        d
    } else {
        1
    }
}

/// The part of column `x` from row `y_start` to row `y_end` (both included)
/// that lies inside the buffer, as its first row and its number of rows, or
/// `None` when nothing of it is inside. Columns taller than the buffer are
/// cut off.
pub fn clip_column(x: i32, y_start: i32, y_end: i32, width: i32, height: i32) -> (span: Option<(i32, i32)>)
    requires
        height > i32::MIN,
    ensures
        ({
            let top = if y_start > 0 {
                y_start as int
            } else {
                0
            };
            let bottom = if y_end < height - 1 {
                y_end as int
            } else {
                height - 1
            };
            if x < 0 || x >= width || top > bottom {
                span is None
            } else {
                span == Some((top as i32, (bottom - top + 1) as i32))
            }
        }),
        span matches Some(s) ==> 0 <= s.0 && s.1 >= 1 && s.0 + s.1 <= height,
{
    if x < 0 || x >= width {
        return None;
    }
    let top = if y_start > 0 {
        y_start
    } else {
        0
    };
    let bottom = if y_end < height - 1 {
        y_end
    } else {
        height - 1
    };
    if top > bottom {
        return None;
    }
    Some((top, bottom - top + 1))
}

} // verus!
