//! What the picture needs worked out before it is drawn: where a sprite goes, which
//! pixels the player sees in colour, and how the screen shakes.

use vstd::prelude::*;
use crate::components::{HitBad, ScreenShake, Transform};
use crate::constants::{ARENA_HEIGHT, ARENA_WIDTH};
use crate::fixed::{clamp_i32, saturate, toward_zero};
use crate::random::random_below;
use crate::trig::{angle_of, arctangent2};
use crate::vector::Vector2;

verus! {

/// A rectangle of the picture, in whole pixels.
#[derive(Clone, Copy, Debug, PartialEq, Eq, Structural)]
pub struct DrawRect {
    pub x: i32,
    pub y: i32,
    pub width: u32,
    pub height: u32,
}

/// The length of a side of `pixels` pixels at the scale `scale`, in thousandths of a pixel.
pub open spec fn scaled_side(scale: i32, pixels: u32) -> int {
    scale * pixels
}

/// A number of thousandths as whole pixels of a side: the fraction dropped, and nothing
/// for a negative number.
pub open spec fn side_pixels(thousandths: int) -> u32 {
    if thousandths < 0 {
        0
    } else if thousandths / 1000 > u32::MAX {
        u32::MAX
    } else {
        (thousandths / 1000) as u32
    }
}

/// Where a texture of `width` by `height` pixels is drawn for an entity at `t`: scaled by
/// the entity's scale and centred on its position.
pub open spec fn placement(t: Transform, width: u32, height: u32) -> DrawRect {
    DrawRect {
        x: clamp_i32(toward_zero(t.pos.x * 2 - scaled_side(t.scale.x, width), 2000)),
        y: clamp_i32(toward_zero(t.pos.y * 2 - scaled_side(t.scale.y, height), 2000)),
        width: side_pixels(scaled_side(t.scale.x, width)),
        height: side_pixels(scaled_side(t.scale.y, height)),
    }
}

fn pixels_of(thousandths: i64) -> (p: u32)
    ensures
        p == side_pixels(thousandths as int),
{
    if thousandths < 0 {
        0
    } else if thousandths / 1000 > 0xffff_ffff {
        0xffff_ffff
    } else {
        (thousandths / 1000) as u32
    }
}

/// Where a texture of `width` by `height` pixels is drawn for an entity at `transform`.
pub fn draw_rect(transform: &Transform, width: u32, height: u32) -> (r: DrawRect)
    ensures
        r == placement(*transform, width, height),
{
    //calculating the size value
    assert(-0x8000_0000_0000_0000 <= transform.scale.x * width <= 0x7fff_ffff_ffff_ffff)
        by (nonlinear_arith)
        requires
            -0x8000_0000 <= transform.scale.x <= 0x7fff_ffff,
            0 <= width <= 0xffff_ffff,
    ;
    assert(-0x8000_0000_0000_0000 <= transform.scale.y * height <= 0x7fff_ffff_ffff_ffff)
        by (nonlinear_arith)
        requires
            -0x8000_0000 <= transform.scale.y <= 0x7fff_ffff,
            0 <= height <= 0xffff_ffff,
    ;
    let sizex: i64 = transform.scale.x as i64 * width as i64;
    let sizey: i64 = transform.scale.y as i64 * height as i64;
    DrawRect {
        x: saturate((transform.pos.x as i128 * 2 - sizex as i128) / 2000),
        y: saturate((transform.pos.y as i128 * 2 - sizey as i128) / 2000),
        width: pixels_of(sizex),
        height: pixels_of(sizey),
    }
}

/// The grey that stands for a colour: the mean of its three parts, the fraction dropped.
pub open spec fn grey_of(r: u8, g: u8, b: u8) -> u8 {
    ((r + g + b) / 3) as u8
}

/// The grey that stands for a colour.
pub fn grey(r: u8, g: u8, b: u8) -> (v: u8)
    ensures
        v == grey_of(r, g, b),
{
    ((r as u16 + g as u16 + b as u16) / 3) as u8
}

/// Whether the pixel `(x, y)` lies in the cone that an entity at `center` sees when it
/// faces along `angle`: the direction from the entity to the pixel is less than seven
/// hundredths of a turn away from `angle`.
///
/// The entity counts by its whole units. The two angles are compared as numbers; where
/// they differ by more than ninety-three hundredths of a turn, a full turn is taken off
/// the difference.
pub open spec fn in_cone(center: Vector2, x: u32, y: u32, angle: i64) -> bool {
    let dx = x - toward_zero(center.x as int, 1000);
    let dy = y - toward_zero(center.y as int, 1000);
    let pixel_angle = arctangent2(dy, dx);
    let apart = if angle - pixel_angle < 0 {
        pixel_angle - angle
    } else {
        angle - pixel_angle
    };
    let angle_diff = if apart > 5_843_361 {
        apart - 6_283_184
    } else {
        apart
    };
    angle_diff < 439_822
}

/// Whether the pixel `(x, y)` lies in the cone that an entity at `center` sees when it
/// faces along `angle`.
pub fn is_in_cone(center: Vector2, x: u32, y: u32, angle: i64) -> (b: bool)
    ensures
        b == in_cone(center, x, y, angle),
{
    //Center the pixels
    let dx: i64 = x as i64 - (center.x / 1000) as i64;
    let dy: i64 = y as i64 - (center.y / 1000) as i64;
    let pixel_angle = angle_of(dy, dx);
    let mut angle_diff: i128 = angle as i128 - pixel_angle as i128;
    if angle_diff < 0 {
        angle_diff = -angle_diff;
    }
    if angle_diff > 5_843_361 {
        angle_diff = angle_diff - 6_283_184;
    }
    angle_diff < 439_822
}

/// Where the part `channel` of the pixel `x` lies in a row of pixels of four bytes each that
/// begins at `start`.
pub open spec fn byte_at(start: int, x: int, channel: int) -> int {
    start + 4 * x + channel
}

/// What the cone pass writes for the part `channel` of the pixel `(x, y)`, whose colour
/// stands in `surface` from `from` on: the colour's own part where the pixel is in the
/// cone, and the grey of the colour where it is not.
pub open spec fn cone_byte(
    surface: Seq<u8>,
    from: int,
    center: Vector2,
    x: int,
    y: int,
    angle: i64,
    channel: int,
) -> u8 {
    if in_cone(center, x as u32, y as u32, angle) {
        surface[from + channel]
    } else {
        grey_of(surface[from], surface[from + 1], surface[from + 2])
    }
}

/// Whether the byte `i` belongs to a colour part of the row of the arena's width that
/// begins at `start`.
pub open spec fn in_row(start: int, i: int) -> bool {
    start <= i < start + 4 * ARENA_WIDTH && (i - start) % 4 != 3
}

/// The cone pass on the row `y` of the picture: the row's pixels are read from `surface`
/// from `surface_start` on and written to `buffer` from `start` on, in colour inside the
/// cone and in grey outside. Every fourth byte, and all that lies outside the row, is left
/// as it is.
pub fn desaturate_row(
    buffer: &mut [u8],
    start: usize,
    surface: &[u8],
    surface_start: usize,
    y: u32,
    center: Vector2,
    angle: i64,
)
    requires
        start + 4 * ARENA_WIDTH <= old(buffer)@.len(),
        surface_start + 4 * ARENA_WIDTH <= surface@.len(),
    ensures
        final(buffer)@.len() == old(buffer)@.len(),
        forall|x: int, c: int|
            0 <= x < ARENA_WIDTH && 0 <= c < 3 ==> final(buffer)@[#[trigger] byte_at(
                start as int,
                x,
                c,
            )] == cone_byte(surface@, surface_start + 4 * x, center, x, y as int, angle, c),
        forall|i: int|
            0 <= i < old(buffer)@.len() && !in_row(start as int, i) ==> #[trigger] final(buffer)@[i] == old(buffer)@[i],
{
    let mut x: u32 = 0;
    while x < ARENA_WIDTH
        invariant
            x <= ARENA_WIDTH,
            buffer@.len() == old(buffer)@.len(),
            start + 4 * ARENA_WIDTH <= buffer@.len(),
            surface_start + 4 * ARENA_WIDTH <= surface@.len(),
            forall|done: int, c: int|
                0 <= done < x && 0 <= c < 3 ==> buffer@[#[trigger] byte_at(start as int, done, c)]
                    == cone_byte(surface@, surface_start + 4 * done, center, done, y as int, angle, c),
            forall|i: int|
                0 <= i < buffer@.len() && !(in_row(start as int, i) && i < start + 4 * x)
                    ==> #[trigger] buffer@[i] == old(buffer)@[i],
        decreases ARENA_WIDTH - x,
    {
        assert(buffer.len() == buffer@.len() && surface.len() == surface@.len());
        let from: usize = surface_start + 4 * (x as usize);
        let to: usize = start + 4 * (x as usize);
        let raw_r = surface[from];
        let raw_g = surface[from + 1];
        let raw_b = surface[from + 2];
        let ghost before = buffer@;
        if is_in_cone(center, x, y, angle) {
            buffer[to] = raw_r;
            buffer[to + 1] = raw_g;
            buffer[to + 2] = raw_b;
        } else {
            let gray = grey(raw_r, raw_g, raw_b);
            buffer[to] = gray;
            buffer[to + 1] = gray;
            buffer[to + 2] = gray;
        }
        assert forall|done: int, c: int| 0 <= done < x + 1 && 0 <= c < 3 implies buffer@[#[trigger] byte_at(
            start as int,
            done,
            c,
        )] == cone_byte(surface@, surface_start + 4 * done, center, done, y as int, angle, c) by {
            if done < x {
                assert(buffer@[byte_at(start as int, done, c)] == before[byte_at(
                    start as int,
                    done,
                    c,
                )]);
            }
        }
        x = x + 1;
    }
}

/// Whether the byte `i` belongs to a colour part of a pixel of the arena, in a picture
/// whose rows are `pitch` bytes apart.
pub open spec fn in_picture(pitch: int, i: int) -> bool {
    exists|y: int| 0 <= y < ARENA_HEIGHT && in_row(#[trigger] row_start(pitch, y), i)
}

/// Where the row `y` begins in a picture whose rows are `pitch` bytes apart.
pub open spec fn row_start(pitch: int, y: int) -> int {
    y * pitch
}

/// The cone pass on the whole picture of the arena: every pixel is read from `surface`,
/// whose rows are `surface_pitch` bytes apart, and written to `buffer`, whose rows are
/// `pitch` bytes apart, in colour inside the cone that an entity at `center` sees along
/// `angle`, and in grey outside. Every other byte of `buffer` is left as it is.
///
/// The rows of `buffer` must not overlap, and both pictures must hold every row.
pub fn desaturate(
    buffer: &mut [u8],
    pitch: usize,
    surface: &[u8],
    surface_pitch: usize,
    center: Vector2,
    angle: i64,
)
    requires
        pitch >= 4 * ARENA_WIDTH,
        (ARENA_HEIGHT - 1) * pitch + 4 * ARENA_WIDTH <= old(buffer)@.len(),
        (ARENA_HEIGHT - 1) * surface_pitch + 4 * ARENA_WIDTH <= surface@.len(),
    ensures
        final(buffer)@.len() == old(buffer)@.len(),
        forall|x: int, y: int, c: int|
            0 <= x < ARENA_WIDTH && 0 <= y < ARENA_HEIGHT && 0 <= c < 3 ==> final(buffer)@[#[trigger] byte_at(row_start(pitch as int, y), x, c)] == cone_byte(
                surface@,
                row_start(surface_pitch as int, y) + 4 * x,
                center,
                x,
                y,
                angle,
                c,
            ),
        forall|i: int|
            0 <= i < old(buffer)@.len() && !in_picture(pitch as int, i) ==> #[trigger] final(buffer)@[i] == old(buffer)@[i],
{
    let mut y: u32 = 0;
    while y < ARENA_HEIGHT
        invariant
            y <= ARENA_HEIGHT,
            pitch >= 4 * ARENA_WIDTH,
            buffer@.len() == old(buffer)@.len(),
            (ARENA_HEIGHT - 1) * pitch + 4 * ARENA_WIDTH <= buffer@.len(),
            (ARENA_HEIGHT - 1) * surface_pitch + 4 * ARENA_WIDTH <= surface@.len(),
            forall|x: int, done: int, c: int|
                0 <= x < ARENA_WIDTH && 0 <= done < y && 0 <= c < 3 ==> buffer@[#[trigger] byte_at(
                    row_start(pitch as int, done),
                    x,
                    c,
                )] == cone_byte(
                    surface@,
                    row_start(surface_pitch as int, done) + 4 * x,
                    center,
                    x,
                    done,
                    angle,
                    c,
                ),
            forall|i: int|
                0 <= i < buffer@.len() && !(exists|done: int|
                    0 <= done < y && in_row(#[trigger] row_start(pitch as int, done), i))
                    ==> #[trigger] buffer@[i] == old(buffer)@[i],
        decreases ARENA_HEIGHT - y,
    {
        assert(0 <= y * pitch <= (ARENA_HEIGHT - 1) * pitch) by (nonlinear_arith)
            requires
                0 <= y <= ARENA_HEIGHT - 1,
                0 <= pitch,
        ;
        assert(0 <= y * surface_pitch <= (ARENA_HEIGHT - 1) * surface_pitch) by (nonlinear_arith)
            requires
                0 <= y <= ARENA_HEIGHT - 1,
                0 <= surface_pitch,
        ;
        assert(buffer.len() == buffer@.len() && surface.len() == surface@.len());
        let start: usize = (y as usize) * pitch;
        let surface_start: usize = (y as usize) * surface_pitch;
        let ghost before = buffer@;
        desaturate_row(buffer, start, surface, surface_start, y, center, angle);
        proof {
            assert(start == row_start(pitch as int, y as int));
            assert forall|x: int, done: int, c: int|
                0 <= x < ARENA_WIDTH && 0 <= done < y + 1 && 0 <= c < 3 implies buffer@[#[trigger] byte_at(
                row_start(pitch as int, done),
                x,
                c,
            )] == cone_byte(
                surface@,
                row_start(surface_pitch as int, done) + 4 * x,
                center,
                x,
                done,
                angle,
                c,
            ) by {
                if done < y {
                    let earlier = byte_at(row_start(pitch as int, done), x, c);
                    assert(done * pitch + pitch <= y * pitch) by (nonlinear_arith)
                        requires
                            0 <= done < y,
                            0 <= pitch,
                    ;
                    assert(!in_row(start as int, earlier));
                    assert(buffer@[earlier] == before[earlier]);
                }
            }
            assert forall|i: int|
                0 <= i < buffer@.len() && !(exists|done: int|
                    0 <= done < y + 1 && in_row(
                        #[trigger] row_start(pitch as int, done),
                        i,
                    )) implies #[trigger] buffer@[i] == old(buffer)@[i] by {
                assert(!in_row(row_start(pitch as int, y as int), i));
                assert(buffer@[i] == before[i]);
                assert(!(exists|done: int|
                    0 <= done < y && in_row(#[trigger] row_start(pitch as int, done), i)));
            }
        }
        y = y + 1;
    }
}

/// The shake of the screen, in thousandths of a pixel.
pub struct Shaker {
    pub shake_amount: i32,
}

/// By how many whole pixels the picture is moved along one axis, for a shake of `shake`
/// and a draw of `drawn` out of twice that many: the draw less the shake, in whole pixels,
/// the fraction dropped.
pub open spec fn shake_offset(shake: int, drawn: int) -> i32 {
    clamp_i32(toward_zero(drawn - shake, 1000))
}

/// The shake that a step starts from: ten pixels after a bad hit, else what it was.
pub open spec fn shake_start(shake: i32, hit_bad: bool) -> i32 {
    if hit_bad {
        10_000
    } else {
        shake
    }
}

/// The shake after a step that started from `start`: a fifth of a pixel less while there
/// is any, none once there is none, and in any case what was requested, if anything was.
pub open spec fn shake_next(start: i32, request: Option<i32>) -> i32 {
    match request {
        Some(amount) => amount,
        None => if start > 0 {
            (start - 200) as i32
        } else {
            0
        },
    }
}

impl Shaker {
    /// One step with the draws `dx` and `dy`. Returns by how many pixels to move the
    /// picture: nothing while there is no shake.
    pub fn step_with(&mut self, hit_bad: &HitBad, request: &ScreenShake, dx: u64, dy: u64) -> (offset:
        (i32, i32))
        ensures
            final(self).shake_amount == shake_next(
                shake_start(old(self).shake_amount, hit_bad.0),
                request.0,
            ),
            shake_start(old(self).shake_amount, hit_bad.0) > 0 ==> offset == (
                shake_offset(shake_start(old(self).shake_amount, hit_bad.0) as int, dx as int),
                shake_offset(shake_start(old(self).shake_amount, hit_bad.0) as int, dy as int),
            ),
            shake_start(old(self).shake_amount, hit_bad.0) <= 0 ==> offset == (0i32, 0i32),
    {
        let mut offset: (i32, i32) = (0, 0);
        if hit_bad.0 {
            self.shake_amount = 10_000;
        }
        if self.shake_amount > 0 {
            offset =
            (
                saturate((dx as i128 - self.shake_amount as i128) / 1000),
                saturate((dy as i128 - self.shake_amount as i128) / 1000),
            );
            self.shake_amount = self.shake_amount - 200;
        } else {
            self.shake_amount = 0;
        }
        //Add outside screenshake stimulation
        match request.0 {
            Some(amount) => {
                self.shake_amount = amount;
            },
            None => {},
        }
        offset
    }

    /// One step with random draws: the picture moves by less than the shake in either
    /// direction along each axis.
    pub fn step(&mut self, hit_bad: &HitBad, request: &ScreenShake) -> (offset: (i32, i32))
        ensures
            final(self).shake_amount == shake_next(
                shake_start(old(self).shake_amount, hit_bad.0),
                request.0,
            ),
            shake_start(old(self).shake_amount, hit_bad.0) > 0 ==> exists|dx: int, dy: int|
                0 <= dx < 2 * shake_start(old(self).shake_amount, hit_bad.0) && 0 <= dy < 2
                    * shake_start(old(self).shake_amount, hit_bad.0) && offset == (
                    #[trigger] shake_offset(
                        shake_start(old(self).shake_amount, hit_bad.0) as int,
                        dx,
                    ),
                    #[trigger] shake_offset(
                        shake_start(old(self).shake_amount, hit_bad.0) as int,
                        dy,
                    ),
                ),
            shake_start(old(self).shake_amount, hit_bad.0) <= 0 ==> offset == (0i32, 0i32),
    {
        let start: i32 = if hit_bad.0 {
            10_000
        } else {
            self.shake_amount
        };
        if start > 0 {
            let dx = random_below(2 * (start as u64));
            let dy = random_below(2 * (start as u64));
            let offset = self.step_with(hit_bad, request, dx, dy);
            assert(offset == (
                shake_offset(start as int, dx as int),
                shake_offset(start as int, dy as int),
            ));
            offset
        } else {
            self.step_with(hit_bad, request, 0, 0)
        }
    }
}

} // verus!
