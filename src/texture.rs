use vstd::prelude::*;

verus! {

/// Bytes per pixel of every texture and framebuffer: RGBA8.
pub const DEPTH: usize = 4;

/// Index of channel `c` of pixel `(px, py)` in a row-major RGBA8 buffer of the given width.
pub open spec fn pixel_index(width: int, px: int, py: int, c: int) -> int {
    (py * width + px) * 4 + c
}

/// A channel index lies inside a buffer of `width * height` pixels.
pub proof fn lemma_pixel_index_bounds(width: int, height: int, px: int, py: int, c: int)
    requires
        0 <= px < width,
        0 <= py < height,
        0 <= c < 4,
    ensures
        0 <= pixel_index(width, px, py, c) < width * height * 4,
        pixel_index(width, px, py, c) == pixel_index(width, px, py, 0) + c,
{
    assert(0 <= py * width) by (nonlinear_arith)
        requires
            0 <= py,
            0 <= width,
    ;
    assert(py * width + px < width * height) by (nonlinear_arith)
        requires
            0 <= px < width,
            0 <= py < height,
    ;
}

/// Distinct channels of distinct pixels sit at distinct indices.
pub proof fn lemma_pixel_index_injective(
    width: int,
    px: int,
    py: int,
    c: int,
    qx: int,
    qy: int,
    d: int,
)
    requires
        0 <= px < width,
        0 <= qx < width,
        0 <= py,
        0 <= qy,
        0 <= c < 4,
        0 <= d < 4,
        pixel_index(width, px, py, c) == pixel_index(width, qx, qy, d),
    ensures
        px == qx,
        py == qy,
        c == d,
{
    let a = py * width + px;
    let b = qy * width + qx;
    assert(a == b && c == d);
    if py < qy {
        assert(py * width + width <= qy * width) by (nonlinear_arith)
            requires
                py < qy,
                0 <= width,
        ;
    } else if qy < py {
        assert(qy * width + width <= py * width) by (nonlinear_arith)
            requires
                qy < py,
                0 <= width,
        ;
    }
}

/// A decoded RGBA8 image, row-major, four bytes per pixel.
pub struct Texture {
    buffer: Vec<u8>,
    width: usize,
    height: usize,
}

impl Texture {
    pub closed spec fn spec_width(&self) -> nat {
        self.width as nat
    }

    pub closed spec fn spec_height(&self) -> nat {
        self.height as nat
    }

    /// The pixel bytes.
    pub closed spec fn bytes(&self) -> Seq<u8> {
        self.buffer@
    }

    /// The buffer holds exactly `width * height` pixels.
    pub open spec fn wf(&self) -> bool {
        self.bytes().len() == self.spec_width() * self.spec_height() * 4
    }

    /// Channel `c` of pixel `(px, py)`.
    pub open spec fn byte_at(&self, px: int, py: int, c: int) -> u8 {
        self.bytes()[pixel_index(self.spec_width() as int, px, py, c)]
    }

    /// Wraps a decoded buffer; `None` when its length is not `width * height * 4`.
    pub fn from_rgba(buffer: Vec<u8>, width: usize, height: usize) -> (r: Option<Texture>)
        ensures
            r is Some <==> buffer@.len() == width * height * 4,
            r matches Some(t) ==> t.wf() && t.bytes() == buffer@ && t.spec_width() == width
                && t.spec_height() == height,
    {
        let _ = buffer.len();
        match width.checked_mul(height) {
            Some(n) => match n.checked_mul(DEPTH) {
                Some(len) => {
                    if buffer.len() == len {
                        Some(Texture { buffer, width, height })
                    } else {
                        None
                    }
                },
                None => {
                    proof {
                        assert(width * height * 4 > usize::MAX);
                    }
                    None
                },
            },
            None => {
                assert(width * height * 4 > usize::MAX) by (nonlinear_arith)
                    requires
                        width * height > usize::MAX,
                ;
                None
            },
        }
    }

    /// Width and height in pixels.
    pub fn size(&self) -> (r: (usize, usize))
        ensures
            r.0 == self.spec_width(),
            r.1 == self.spec_height(),
    {
        (self.width, self.height)
    }

    /// Bytes per row.
    pub fn pitch(&self) -> (r: usize)
        requires
            self.wf(),
            self.spec_height() > 0,
        ensures
            r == self.spec_width() * 4,
    {
        let _ = self.buffer.len();
        assert(self.width * 4 <= self.width * self.height * 4) by (nonlinear_arith)
            requires
                self.height > 0,
        ;
        self.width * DEPTH
    }

    /// Bytes per pixel.
    pub fn depth(&self) -> (r: usize)
        ensures
            r == 4,
    {
        DEPTH
    }

    /// Channel `c` of pixel `(px, py)`.
    pub fn get_byte(&self, px: usize, py: usize, c: usize) -> (r: u8)
        requires
            self.wf(),
            px < self.spec_width(),
            py < self.spec_height(),
            c < 4,
        ensures
            r == self.byte_at(px as int, py as int, c as int),
    {
        proof {
            lemma_pixel_index_bounds(self.width as int, self.height as int, px as int, py as int, c as int);
        }
        let len = self.buffer.len();
        proof {
            assert(0 <= py * self.width <= (py * self.width + px) * 4 + c < len);
        }
        self.buffer[(py * self.width + px) * 4 + c]
    }

    /// The pixel bytes.
    pub fn buffer(&self) -> (r: &Vec<u8>)
        ensures
            r@ == self.bytes(),
    {
        &self.buffer
    }
}

/// `c * a / 255`, rounded to the nearest integer (a tie cannot occur).
pub open spec fn scale_by_alpha(c: int, a: int) -> int {
    (2 * c * a + 255) / 510
}

/// Straight-alpha RGBA8 bytes turned premultiplied: each colour channel scaled by its pixel's
/// alpha; alpha, and any bytes past the last whole pixel, kept.
pub open spec fn premultiplied_byte(b: Seq<u8>, i: int) -> int {
    if i % 4 == 3 || i + 4 - i % 4 > b.len() {
        b[i] as int
    } else {
        scale_by_alpha(b[i] as int, b[i - i % 4 + 3] as int)
    }
}

/// One colour channel scaled by alpha.
fn scale_channel(v: u8, a: u8) -> (r: u8)
    ensures
        r == scale_by_alpha(v as int, a as int),
{
    assert((2 * v) * a <= 2 * 255 * 255) by (nonlinear_arith)
        requires
            v <= 255,
            a <= 255,
    ;
    assert((2 * v * a + 255) / 510 <= 255) by (nonlinear_arith)
        requires
            (2 * v) * a <= 2 * 255 * 255,
    ;
    ((2 * (v as u32) * (a as u32) + 255) / 510) as u8
}

/// Converts decoded straight-alpha RGBA8 pixels to the premultiplied form textures hold.
pub fn premultiply(bytes: Vec<u8>) -> (r: Vec<u8>)
    ensures
        r@.len() == bytes@.len(),
        forall|i: int| 0 <= i < bytes@.len() ==> #[trigger] r@[i] == premultiplied_byte(bytes@, i),
{
    let mut out = bytes;
    let ghost orig = out@;
    let n = out.len();
    let mut i: usize = 0;
    while n - i >= 4
        invariant
            i <= n,
            i % 4 == 0,
            n == orig.len(),
            out@.len() == n,
            forall|k: int| 0 <= k < i ==> #[trigger] out@[k] == premultiplied_byte(orig, k),
            forall|k: int| i <= k < n ==> #[trigger] out@[k] == orig[k],
        decreases n - i,
    {
        let a = out[i + 3];
        let r = scale_channel(out[i], a);
        let g = scale_channel(out[i + 1], a);
        let b = scale_channel(out[i + 2], a);
        out.set(i, r);
        out.set(i + 1, g);
        out.set(i + 2, b);
        proof {
            assert forall|k: int| 0 <= k < i + 4 implies #[trigger] out@[k] == premultiplied_byte(orig, k) by {
                if k >= i {
                    assert(k % 4 == k - i);
                    assert(k - k % 4 + 3 == i + 3);
                }
            }
        }
        i = i + 4;
    }
    proof {
        assert forall|k: int| i <= k < n implies #[trigger] out@[k] == premultiplied_byte(orig, k) by {
            assert(k + 4 - k % 4 > n);
        }
    }
    out
}

} // verus!
