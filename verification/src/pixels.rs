//! Alpha premultiplication of RGBA pixels, so that scaling a picture with transparent
//! edges does not bleed the colour of invisible pixels into visible ones.

use vstd::prelude::*;

verus! {

/// A colour channel scaled by its pixel's opacity, rounded to nearest.
pub open spec fn premultiplied(channel: u8, alpha: u8) -> u8 {
    ((channel * alpha + 127) / 255) as u8
}

/// A premultiplied channel scaled back by its pixel's opacity, rounded to nearest and
/// capped at 255; a fully transparent pixel keeps its channel.
pub open spec fn unpremultiplied(channel: u8, alpha: u8) -> u8 {
    if alpha == 0 {
        channel
    } else {
        let value = (channel * 255 + alpha / 2) / (alpha as int);
        if value > 255 {
            255
        } else {
            value as u8
        }
    }
}

/// `after` is `before` with each colour channel of every RGBA pixel replaced by `f` of
/// the channel and the pixel's alpha; alpha bytes are kept.
pub open spec fn channels_mapped(
    before: Seq<u8>,
    after: Seq<u8>,
    f: spec_fn(u8, u8) -> u8,
) -> bool {
    &&& after.len() == before.len()
    &&& forall|i: int|
        0 <= i < before.len() ==> #[trigger] after[i] == if i % 4 == 3 {
            before[i]
        } else {
            f(before[i], before[i - i % 4 + 3])
        }
}

fn premultiply(channel: u8, alpha: u8) -> (value: u8)
    ensures
        value == premultiplied(channel, alpha),
{
    assert(channel as u16 * alpha as u16 <= 65025) by (nonlinear_arith)
        requires
            channel <= 255,
            alpha <= 255,
    ;
    ((channel as u16 * alpha as u16 + 127) / 255) as u8
}

fn unpremultiply(channel: u8, alpha: u8) -> (value: u8)
    ensures
        value == unpremultiplied(channel, alpha),
{
    if alpha == 0 {
        return channel;
    }
    let value = (channel as u32 * 255 + alpha as u32 / 2) / alpha as u32;
    if value > 255 {
        255
    } else {
        value as u8
    }
}

/// Replaces the colour channels of every RGBA pixel by `premultiply` or `unpremultiply`.
fn map_channels(pixels: &mut Vec<u8>, forward: bool)
    requires
        old(pixels)@.len() % 4 == 0,
    ensures
        channels_mapped(
            old(pixels)@,
            final(pixels)@,
            if forward {
                |c: u8, a: u8| premultiplied(c, a)
            } else {
                |c: u8, a: u8| unpremultiplied(c, a)
            },
        ),
{
    let ghost f: spec_fn(u8, u8) -> u8 = if forward {
        |c: u8, a: u8| premultiplied(c, a)
    } else {
        |c: u8, a: u8| unpremultiplied(c, a)
    };
    let ghost before = pixels@;
    let len = pixels.len();
    let mut start: usize = 0;
    while start < len
        invariant
            len == pixels@.len(),
            len == before.len(),
            forall|c: u8, a: u8| #[trigger] f(c, a) == if forward {
                premultiplied(c, a)
            } else {
                unpremultiplied(c, a)
            },
            len % 4 == 0,
            start % 4 == 0,
            start <= len,
            forall|i: int|
                0 <= i < start ==> #[trigger] pixels@[i] == if i % 4 == 3 {
                    before[i]
                } else {
                    f(before[i], before[i - i % 4 + 3])
                },
            forall|i: int| start <= i < len ==> #[trigger] pixels@[i] == before[i],
        decreases len - start,
    {
        let alpha = pixels[start + 3];
        let mut k: usize = 0;
        while k < 3
            invariant
                len == pixels@.len(),
                len == before.len(),
                forall|c: u8, a: u8| #[trigger] f(c, a) == if forward {
                    premultiplied(c, a)
                } else {
                    unpremultiplied(c, a)
                },
                start % 4 == 0,
                start + 4 <= len,
                k <= 3,
                alpha == before[start + 3],
                forall|i: int|
                    0 <= i < start ==> #[trigger] pixels@[i] == if i % 4 == 3 {
                        before[i]
                    } else {
                        f(before[i], before[i - i % 4 + 3])
                    },
                forall|j: int| 0 <= j < k ==> #[trigger] pixels@[start + j] == f(before[start + j], alpha),
                forall|i: int| start + k <= i < len ==> #[trigger] pixels@[i] == before[i],
            decreases 3 - k,
        {
            let channel = pixels[start + k];
            let value = if forward {
                premultiply(channel, alpha)
            } else {
                unpremultiply(channel, alpha)
            };
            pixels.set(start + k, value);
            k = k + 1;
        }
        assert forall|i: int| 0 <= i < start + 4 implies #[trigger] pixels@[i] == if i % 4 == 3 {
            before[i]
        } else {
            f(before[i], before[i - i % 4 + 3])
        } by {
            if i >= start {
                let j = i - start;
                assert(i % 4 == j);
                assert(i - i % 4 + 3 == start + 3);
                if j < 3 {
                    assert(pixels@[start + j] == f(before[start + j], alpha));
                }
            }
        }
        start = start + 4;
    }
}

/// Scales the colour of each RGBA pixel by its opacity, in place.
pub fn premultiply_alpha(pixels: &mut Vec<u8>)
    requires
        old(pixels)@.len() % 4 == 0,
    ensures
        channels_mapped(old(pixels)@, final(pixels)@, |c: u8, a: u8| premultiplied(c, a)),
{
    map_channels(pixels, true);
}

/// Scales the premultiplied colour of each RGBA pixel back by its opacity, in place.
pub fn unpremultiply_alpha(pixels: &mut Vec<u8>)
    requires
        old(pixels)@.len() % 4 == 0,
    ensures
        channels_mapped(old(pixels)@, final(pixels)@, |c: u8, a: u8| unpremultiplied(c, a)),
{
    map_channels(pixels, false);
}

} // verus!
