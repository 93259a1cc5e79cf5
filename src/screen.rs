use vstd::prelude::*;

use crate::texture::{lemma_pixel_index_bounds, lemma_pixel_index_injective, pixel_index, Texture};
use crate::types::{Rect, Rgba, Vec2i};

verus! {

/// `d * (255 - a) / 255`, rounded to the nearest integer (a tie cannot occur).
pub open spec fn scale_by_inverse_alpha(d: int, a: int) -> int {
    (2 * d * (255 - a) + 255) / 510
}

/// Premultiplied "over" for a colour channel, saturating at 255.
pub open spec fn over_color(s: u8, d: u8, a: u8) -> int {
    let v = s + scale_by_inverse_alpha(d as int, a as int);
    if v > 255 { 255 } else { v }
}

/// Premultiplied "over" for the alpha channel.
pub open spec fn over_alpha(sa: u8, da: u8) -> int {
    sa + scale_by_inverse_alpha(da as int, sa as int)
}

/// Channel `c` of a source pixel composited over a destination byte.
pub open spec fn composite(src: &Texture, sx: int, sy: int, c: int, d: u8) -> int {
    if c < 3 {
        over_color(src.byte_at(sx, sy, c), d, src.byte_at(sx, sy, 3))
    } else {
        over_alpha(src.byte_at(sx, sy, 3), d)
    }
}

/// A framebuffer view with a scroll offset: world position `position` maps to its top-left pixel.
pub struct Screen {
    framebuffer: Vec<u8>,
    width: usize,
    height: usize,
    depth: usize,
    position: Vec2i,
}

impl Screen {
    pub closed spec fn pixels(&self) -> Seq<u8> {
        self.framebuffer@
    }

    pub closed spec fn spec_width(&self) -> nat {
        self.width as nat
    }

    pub closed spec fn spec_height(&self) -> nat {
        self.height as nat
    }

    pub closed spec fn spec_depth(&self) -> nat {
        self.depth as nat
    }

    /// The world position of the top-left pixel.
    pub closed spec fn spec_position(&self) -> Vec2i {
        self.position
    }

    /// Sizes fit a rectangle's extent and the buffer holds every pixel.
    pub open spec fn wf(&self) -> bool {
        &&& self.spec_width() <= u16::MAX
        &&& self.spec_height() <= u16::MAX
        &&& self.pixels().len() == self.spec_width() * self.spec_height() * self.spec_depth()
    }

    /// Channel `c` of screen pixel `(px, py)`.
    pub open spec fn byte_at(&self, px: int, py: int, c: int) -> u8 {
        self.pixels()[pixel_index(self.spec_width() as int, px, py, c)]
    }

    /// Takes a framebuffer of `width * height * depth` bytes for drawing one frame.
    pub fn wrap(framebuffer: Vec<u8>, width: usize, height: usize, depth: usize, position: Vec2i) -> (r:
        Screen)
        requires
            width <= u16::MAX,
            height <= u16::MAX,
            framebuffer@.len() == width * height * depth,
        ensures
            r.wf(),
            r.pixels() == framebuffer@,
            r.spec_width() == width,
            r.spec_height() == height,
            r.spec_depth() == depth,
            r.spec_position() == position,
    {
        Screen { framebuffer, width, height, depth, position }
    }

    /// Gives the framebuffer back.
    pub fn into_framebuffer(self) -> (r: Vec<u8>)
        ensures
            r@ == self.pixels(),
    {
        self.framebuffer
    }

    /// The framebuffer's bytes.
    pub fn framebuffer(&self) -> (r: &Vec<u8>)
        ensures
            r@ == self.pixels(),
    {
        &self.framebuffer
    }

    /// The world position of the top-left pixel.
    pub fn position(&self) -> (r: Vec2i)
        ensures
            r == self.spec_position(),
    {
        self.position
    }

    /// The visible viewport in world coordinates.
    pub fn bounds(&self) -> (r: Rect)
        requires
            self.wf(),
        ensures
            r.x == self.spec_position().0,
            r.y == self.spec_position().1,
            r.w == self.spec_width(),
            r.h == self.spec_height(),
    {
        Rect { x: self.position.0, y: self.position.1, w: self.width as u16, h: self.height as u16 }
    }

    /// Stamps the colour over every whole 4-byte pixel of the buffer.
    pub fn clear(&mut self, col: Rgba)
        ensures
            final(self).spec_width() == old(self).spec_width(),
            final(self).spec_height() == old(self).spec_height(),
            final(self).spec_depth() == old(self).spec_depth(),
            final(self).spec_position() == old(self).spec_position(),
            final(self).pixels().len() == old(self).pixels().len(),
            forall|i: int|
                0 <= i < old(self).pixels().len() ==> #[trigger] final(self).pixels()[i] == if i
                    + 4 - i % 4 <= old(self).pixels().len() {
                    col.channel(i % 4)
                } else {
                    old(self).pixels()[i]
                },
    {
        let len = self.framebuffer.len();
        let mut i: usize = 0;
        while len - i >= 4
            invariant
                i % 4 == 0,
                i <= len,
                len == old(self).pixels().len(),
                self.framebuffer@.len() == len,
                self.width == old(self).width,
                self.height == old(self).height,
                self.depth == old(self).depth,
                self.position == old(self).position,
                forall|k: int|
                    0 <= k < len ==> #[trigger] self.framebuffer@[k] == if k < i {
                        col.channel(k % 4)
                    } else {
                        old(self).framebuffer@[k]
                    },
            decreases len - i,
        {
            self.framebuffer.set(i, col.0);
            self.framebuffer.set(i + 1, col.1);
            self.framebuffer.set(i + 2, col.2);
            self.framebuffer.set(i + 3, col.3);
            i = i + 4;
        }
        proof {
            assert forall|k: int| 0 <= k < len implies #[trigger] self.framebuffer@[k] == if k + 4
                - k % 4 <= len {
                col.channel(k % 4)
            } else {
                old(self).framebuffer@[k]
            } by {
                assert(k < i <==> k + 4 - k % 4 <= len);
            }
        }
    }

    /// What a blit leaves in channel `c` of screen pixel `(px, py)`: the source pixel that
    /// lands there composited over the old byte, or the old byte where none lands.
    pub open spec fn blitted_byte(&self, src: &Texture, from: Rect, to: Vec2i, px: int, py: int, c: int) -> int {
        let tx = to.0 - self.spec_position().0;
        let ty = to.1 - self.spec_position().1;
        if tx <= px < tx + from.w && ty <= py < ty + from.h {
            composite(src, from.x + px - tx, from.y + py - ty, c, self.byte_at(px, py, c))
        } else {
            self.byte_at(px, py, c) as int
        }
    }

    /// Writes the four channels of one pixel and nothing else.
    fn put_pixel(&mut self, px: usize, py: usize, p: Rgba)
        requires
            old(self).wf(),
            old(self).spec_depth() == 4,
            px < old(self).spec_width(),
            py < old(self).spec_height(),
        ensures
            final(self).wf(),
            final(self).spec_width() == old(self).spec_width(),
            final(self).spec_height() == old(self).spec_height(),
            final(self).spec_depth() == old(self).spec_depth(),
            final(self).spec_position() == old(self).spec_position(),
            forall|c: int| 0 <= c < 4 ==> #[trigger] final(self).byte_at(px as int, py as int, c) == p.channel(c),
            forall|qx: int, qy: int, c: int|
                0 <= qx < old(self).spec_width() && 0 <= qy < old(self).spec_height() && 0 <= c < 4
                    && (qx != px || qy != py) ==> #[trigger] final(self).byte_at(qx, qy, c)
                    == old(self).byte_at(qx, qy, c),
    {
        let ghost w = self.width as int;
        proof {
            lemma_pixel_index_bounds(w, self.height as int, px as int, py as int, 3);
        }
        let len = self.framebuffer.len();
        proof {
            assert(0 <= py * self.width <= (py * self.width + px) * 4 + 3 < len);
        }
        let d = (py * self.width + px) * 4;
        self.framebuffer.set(d, p.0);
        self.framebuffer.set(d + 1, p.1);
        self.framebuffer.set(d + 2, p.2);
        self.framebuffer.set(d + 3, p.3);
        proof {
            assert forall|c: int| 0 <= c < 4 implies #[trigger] self.byte_at(px as int, py as int, c)
                == p.channel(c) by {
                lemma_pixel_index_bounds(w, self.height as int, px as int, py as int, c);
            }
            assert forall|qx: int, qy: int, c: int|
                0 <= qx < w && 0 <= qy < self.height && 0 <= c < 4 && (qx != px || qy != py)
                implies #[trigger] self.byte_at(qx, qy, c) == old(self).byte_at(qx, qy, c) by {
                lemma_pixel_index_bounds(w, self.height as int, qx, qy, c);
                let k = pixel_index(w, qx, qy, c);
                if d <= k < d + 4 {
                    lemma_pixel_index_injective(w, qx, qy, c, px as int, py as int, k - d);
                }
            }
        }
    }

    /// Channel `c` of screen pixel `(px, py)`.
    fn get_byte(&self, px: usize, py: usize, c: usize) -> (r: u8)
        requires
            self.wf(),
            self.spec_depth() == 4,
            px < self.spec_width(),
            py < self.spec_height(),
            c < 4,
        ensures
            r == self.byte_at(px as int, py as int, c as int),
    {
        proof {
            lemma_pixel_index_bounds(self.width as int, self.height as int, px as int, py as int, c as int);
        }
        let len = self.framebuffer.len();
        proof {
            assert(0 <= py * self.width <= (py * self.width + px) * 4 + c < len);
        }
        self.framebuffer[(py * self.width + px) * 4 + c]
    }

    /// Composites the `from` part of `src` over the screen with its top-left corner at world
    /// position `to`, clipped to the screen; a draw entirely off the screen changes nothing.
    pub fn bitblt(&mut self, src: &Texture, from: Rect, to: Vec2i)
        requires
            old(self).wf(),
            old(self).spec_depth() == 4,
            src.wf(),
            0 <= from.x,
            0 <= from.y,
            from.right() <= src.spec_width(),
            from.bottom() <= src.spec_height(),
        ensures
            final(self).wf(),
            final(self).spec_width() == old(self).spec_width(),
            final(self).spec_height() == old(self).spec_height(),
            final(self).spec_depth() == old(self).spec_depth(),
            final(self).spec_position() == old(self).spec_position(),
            forall|px: int, py: int, c: int|
                0 <= px < old(self).spec_width() && 0 <= py < old(self).spec_height() && 0 <= c < 4
                    ==> #[trigger] final(self).byte_at(px, py, c) == old(self).blitted_byte(
                    src,
                    from,
                    to,
                    px,
                    py,
                    c,
                ),
    {
        let tx: i64 = to.0 as i64 - self.position.0 as i64;
        let ty: i64 = to.1 as i64 - self.position.1 as i64;
        let w: i64 = self.width as i64;
        let h: i64 = self.height as i64;
        let x0: i64 = if tx > 0 { tx } else { 0 };
        let y0: i64 = if ty > 0 { ty } else { 0 };
        let x1: i64 = if tx + from.w as i64 <= w { tx + from.w as i64 } else { w };
        let y1: i64 = if ty + from.h as i64 <= h { ty + from.h as i64 } else { h };
        if x0 >= x1 || y0 >= y1 {
            return;
        }
        let (tw, th) = src.size();
        let ghost pre = *self;
        let mut py: usize = y0 as usize;
        while py < y1 as usize
            invariant
                self.wf(),
                self.spec_depth() == 4,
                self.spec_width() == pre.spec_width(),
                self.spec_height() == pre.spec_height(),
                self.spec_position() == pre.spec_position(),
                pre == *old(self),
                0 <= x0 < x1 <= w,
                0 <= y0 < y1 <= h,
                y0 <= py <= y1,
                w == self.spec_width(),
                h == self.spec_height(),
                tx == to.0 - pre.spec_position().0,
                ty == to.1 - pre.spec_position().1,
                x0 == if tx > 0 { tx } else { 0 },
                y0 == if ty > 0 { ty } else { 0 },
                x1 == if tx + from.w <= w { tx + from.w } else { w as int },
                y1 == if ty + from.h <= h { ty + from.h } else { h as int },
                src.wf(),
                tw == src.spec_width(),
                th == src.spec_height(),
                0 <= from.x,
                0 <= from.y,
                from.right() <= tw,
                from.bottom() <= th,
                forall|qx: int, qy: int, c: int|
                    0 <= qx < w && 0 <= qy < h && 0 <= c < 4 ==> #[trigger] self.byte_at(qx, qy, c)
                        == if x0 <= qx < x1 && y0 <= qy < py {
                        pre.blitted_byte(src, from, to, qx, qy, c)
                    } else {
                        pre.byte_at(qx, qy, c) as int
                    },
            decreases y1 - py,
        {
            let mut px: usize = x0 as usize;
            while px < x1 as usize
                invariant
                    self.wf(),
                    self.spec_depth() == 4,
                    self.spec_width() == pre.spec_width(),
                    self.spec_height() == pre.spec_height(),
                    self.spec_position() == pre.spec_position(),
                    0 <= x0 < x1 <= w,
                    0 <= y0 < y1 <= h,
                    y0 <= py < y1,
                    x0 <= px <= x1,
                    w == self.spec_width(),
                    h == self.spec_height(),
                    tx == to.0 - pre.spec_position().0,
                    ty == to.1 - pre.spec_position().1,
                    x0 == if tx > 0 { tx } else { 0 },
                    y0 == if ty > 0 { ty } else { 0 },
                    x1 == if tx + from.w <= w { tx + from.w } else { w as int },
                    y1 == if ty + from.h <= h { ty + from.h } else { h as int },
                    src.wf(),
                    tw == src.spec_width(),
                    th == src.spec_height(),
                    0 <= from.x,
                    0 <= from.y,
                    from.right() <= tw,
                    from.bottom() <= th,
                    forall|qx: int, qy: int, c: int|
                        0 <= qx < w && 0 <= qy < h && 0 <= c < 4 ==> #[trigger] self.byte_at(qx, qy, c)
                            == if x0 <= qx < x1 && (y0 <= qy < py || (qy == py && qx < px)) {
                            pre.blitted_byte(src, from, to, qx, qy, c)
                        } else {
                            pre.byte_at(qx, qy, c) as int
                        },
                decreases x1 - px,
            {
                let sx: usize = (from.x as i64 + px as i64 - tx) as usize;
                let sy: usize = (from.y as i64 + py as i64 - ty) as usize;
                let sa = src.get_byte(sx, sy, 3);
                let r = over_color_byte(src.get_byte(sx, sy, 0), self.get_byte(px, py, 0), sa);
                let g = over_color_byte(src.get_byte(sx, sy, 1), self.get_byte(px, py, 1), sa);
                let b = over_color_byte(src.get_byte(sx, sy, 2), self.get_byte(px, py, 2), sa);
                let a = over_alpha_byte(sa, self.get_byte(px, py, 3));
                let ghost before = *self;
                self.put_pixel(px, py, Rgba(r, g, b, a));
                proof {
                    assert forall|qx: int, qy: int, c: int|
                        0 <= qx < w && 0 <= qy < h && 0 <= c < 4 implies #[trigger] self.byte_at(qx, qy, c)
                            == if x0 <= qx < x1 && (y0 <= qy < py || (qy == py && qx < px + 1)) {
                            pre.blitted_byte(src, from, to, qx, qy, c)
                        } else {
                            pre.byte_at(qx, qy, c) as int
                        } by {
                        if qx == px && qy == py {
                            assert(before.byte_at(qx, qy, c) == pre.byte_at(qx, qy, c));
                            assert(Rgba(r, g, b, a).channel(c) == self.byte_at(qx, qy, c));
                        } else {
                            assert(before.byte_at(qx, qy, c) == self.byte_at(qx, qy, c));
                        }
                    }
                }
                px = px + 1;
            }
            py = py + 1;
        }
    }
}

/// Premultiplied "over" for one colour channel.
fn over_color_byte(s: u8, d: u8, a: u8) -> (r: u8)
    ensures
        r == over_color(s, d, a),
{
    assert((2 * d) * (255 - a) <= 2 * 255 * 255) by (nonlinear_arith)
        requires
            d <= 255,
            a <= 255,
    ;
    let scaled: u32 = (2 * (d as u32) * (255 - a as u32) + 255) / 510;
    let v: u32 = s as u32 + scaled;
    if v > 255 {
        255
    } else {
        v as u8
    }
}

/// Premultiplied "over" for the alpha channel; the result never exceeds 255.
fn over_alpha_byte(sa: u8, da: u8) -> (r: u8)
    ensures
        r == over_alpha(sa, da),
{
    let m: u32 = 255 - sa as u32;
    assert(2 * da * m + 255 < 510 * (m + 1)) by (nonlinear_arith)
        requires
            da <= 255,
            m <= 255,
    ;
    assert(2 * da * m <= 510 * 255) by (nonlinear_arith)
        requires
            da <= 255,
            m <= 255,
    ;
    let scaled: u32 = (2 * (da as u32) * m + 255) / 510;
    assert(scaled <= m);
    (sa as u32 + scaled) as u8
}

} // verus!
