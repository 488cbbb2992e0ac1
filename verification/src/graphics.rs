//! The drawing and document-layout toolkit of the standard library.

use vstd::prelude::*;

verus! {

/// An RGB color.
#[derive(Debug, Clone, Copy, PartialEq, Eq, Structural)]
pub struct Color(pub u8, pub u8, pub u8);

/// A raster of `width * height` pixels stored row by row.
#[derive(Debug, Clone)]
pub struct Canvas {
    pub width: usize,
    pub height: usize,
    pub pixels: Vec<Color>,
}

/// The pixels after painting `(x, y)`; points outside the canvas change
/// nothing.
pub open spec fn put_pixel(pixels: Seq<Color>, width: int, height: int, x: int, y: int, color: Color) -> Seq<Color> {
    if 0 <= x < width && 0 <= y < height {
        pixels.update(y * width + x, color)
    } else {
        pixels
    }
}

/// The pixels after painting each point in turn.
pub open spec fn paint_points(pixels: Seq<Color>, width: int, height: int, points: Seq<(int, int)>, color: Color) -> Seq<Color>
    decreases points.len(),
{
    if points.len() == 0 {
        pixels
    } else {
        put_pixel(
            paint_points(pixels, width, height, points.drop_last(), color),
            width,
            height,
            points.last().0,
            points.last().1,
            color,
        )
    }
}

/// The absolute value.
pub open spec fn abs(v: int) -> int {
    if v < 0 {
        -v
    } else {
        v
    }
}

/// One step of the line walk from `(x, y)` with error term `e`: `x` moves
/// when twice the error is at least `-b_len`, `y` moves when it is at most
/// `a_len`.
pub open spec fn line_step(x: int, y: int, e: int, a_len: int, b_len: int, sx: int, sy: int) -> (int, int, int) {
    let t = 2 * e;
    let (x2, e2) = if t >= -b_len {
        (x + sx, e - b_len)
    } else {
        (x, e)
    };
    let (y2, e3) = if t <= a_len {
        (y + sy, e2 + a_len)
    } else {
        (y, e2)
    };
    (x2, y2, e3)
}

/// The points the line walk visits from `(x, y)` until it reaches
/// `(x1, y1)`, taking at most `fuel` steps.
pub open spec fn line_walk(
    x: int,
    y: int,
    e: int,
    x1: int,
    y1: int,
    a_len: int,
    b_len: int,
    sx: int,
    sy: int,
    fuel: nat,
) -> Seq<(int, int)>
    decreases fuel,
{
    if (x == x1 && y == y1) || fuel == 0 {
        seq![(x, y)]
    } else {
        let (x2, y2, e2) = line_step(x, y, e, a_len, b_len, sx, sy);
        seq![(x, y)] + line_walk(x2, y2, e2, x1, y1, a_len, b_len, sx, sy, (fuel - 1) as nat)
    }
}

/// The points of the line from `(x0, y0)` to `(x1, y1)`, in drawing order
/// (Bresenham's walk).
pub open spec fn line_points(x0: int, y0: int, x1: int, y1: int) -> Seq<(int, int)> {
    let a_len = abs(x1 - x0);
    let b_len = abs(y1 - y0);
    let sx = if x0 < x1 { 1int } else { -1int };
    let sy = if y0 < y1 { 1int } else { -1int };
    line_walk(x0, y0, a_len - b_len, x1, y1, a_len, b_len, sx, sy, (a_len + b_len) as nat)
}

/// A canvas of `width` by `height` white pixels.
pub open spec fn white() -> Color {
    Color(255, 255, 255)
}

impl Canvas {
    /// The pixel vector holds exactly `width * height` pixels.
    pub open spec fn wf(&self) -> bool {
        self.pixels@.len() == self.width * self.height
    }

    /// A white canvas.
    pub fn new(width: usize, height: usize) -> (c: Self)
        requires
            width * height <= usize::MAX,
        ensures
            c.wf(),
            c.width == width,
            c.height == height,
            forall|i: int| 0 <= i < c.pixels@.len() ==> c.pixels@[i] == white(),
    {
        let n = width * height;
        let mut pixels: Vec<Color> = Vec::new();
        let mut i: usize = 0;
        while i < n
            invariant
                i <= n,
                pixels@.len() == i,
                forall|j: int| 0 <= j < i ==> pixels@[j] == white(),
            decreases n - i,
        {
            pixels.push(Color(255, 255, 255));
            i = i + 1;
        }
        Canvas { width, height, pixels }
    }

    /// Paints one pixel; points outside the canvas are ignored.
    pub fn put(&mut self, x: usize, y: usize, color: Color)
        requires
            old(self).wf(),
        ensures
            final(self).wf(),
            final(self).width == old(self).width,
            final(self).height == old(self).height,
            final(self).pixels@ == put_pixel(
                old(self).pixels@,
                old(self).width as int,
                old(self).height as int,
                x as int,
                y as int,
                color,
            ),
    {
        if x < self.width && y < self.height {
            proof {
                lemma_index_in_grid(x as int, y as int, self.width as int, self.height as int);
            }
            assert(self.pixels@.len() == self.pixels.len());
            let index = y * self.width + x;
            self.pixels.set(index, color);
        }
    }

    /// Draws the line from `(x0, y0)` to `(x1, y1)` with Bresenham's walk,
    /// painting every point it visits that lies on the canvas.
    pub fn line(&mut self, x0: usize, y0: usize, x1: usize, y1: usize, color: Color)
        requires
            old(self).wf(),
            x0 <= isize::MAX && y0 <= isize::MAX && x1 <= isize::MAX && y1 <= isize::MAX,
            3 * abs(x1 - x0) + abs(y1 - y0) <= isize::MAX,
            abs(x1 - x0) + 3 * abs(y1 - y0) <= isize::MAX,
        ensures
            final(self).wf(),
            final(self).width == old(self).width,
            final(self).height == old(self).height,
            final(self).pixels@ == paint_points(
                old(self).pixels@,
                old(self).width as int,
                old(self).height as int,
                line_points(x0 as int, y0 as int, x1 as int, y1 as int),
                color,
            ),
    {
        let mut x = x0 as isize;
        let mut y = y0 as isize;
        let dx = if x1 >= x0 { (x1 - x0) as isize } else { (x0 - x1) as isize };
        let dy = -(if y1 >= y0 { (y1 - y0) as isize } else { (y0 - y1) as isize });
        let sx: isize = if x0 < x1 { 1 } else { -1 };
        let sy: isize = if y0 < y1 { 1 } else { -1 };
        let mut err = dx + dy;
        let ghost a_len = dx as int;
        let ghost b_len = -dy as int;
        let ghost w = self.width as int;
        let ghost h = self.height as int;
        let ghost full = line_points(x0 as int, y0 as int, x1 as int, y1 as int);
        let ghost mut visited: Seq<(int, int)> = Seq::empty();
        let ghost mut fuel: nat = (a_len + b_len) as nat;
        assert(full == line_walk(x0 as int, y0 as int, a_len - b_len, x1 as int, y1 as int, a_len, b_len, sx as int, sy as int, fuel));
        assert(sx * (x - x0) == 0 && sy * (y - y0) == 0);
        assert(sx * (x - x0) * b_len == 0 && sy * (y - y0) * a_len == 0);
        loop
            invariant_except_break
                self.wf(),
                self.width == old(self).width,
                self.height == old(self).height,
                w == self.width,
                h == self.height,
                a_len == abs(x1 - x0),
                b_len == abs(y1 - y0),
                dx == a_len,
                dy == -b_len,
                sx == (if x0 < x1 { 1int } else { -1int }),
                sy == (if y0 < y1 { 1int } else { -1int }),
                x0 <= isize::MAX && y0 <= isize::MAX && x1 <= isize::MAX && y1 <= isize::MAX,
                3 * a_len + b_len <= isize::MAX,
                a_len + 3 * b_len <= isize::MAX,
                0 <= sx * (x - x0) <= a_len,
                0 <= sy * (y - y0) <= b_len,
                err == a_len - b_len - sx * (x - x0) * b_len + sy * (y - y0) * a_len,
                -3 * b_len - a_len <= 2 * err <= 3 * a_len + b_len,
                fuel >= (a_len - sx * (x - x0)) + (b_len - sy * (y - y0)),
                full == visited + line_walk(x as int, y as int, err as int, x1 as int, y1 as int, a_len, b_len, sx as int, sy as int, fuel),
                self.pixels@ == paint_points(old(self).pixels@, w, h, visited, color),
            ensures
                self.wf(),
                self.width == old(self).width,
                self.height == old(self).height,
                self.pixels@ == paint_points(old(self).pixels@, w, h, full, color),
            decreases (a_len - sx * (x - x0)) + (b_len - sy * (y - y0)),
        {
            proof {
                lemma_between(sx as int, x as int, x0 as int, x1 as int, a_len);
                lemma_between(sy as int, y as int, y0 as int, y1 as int, b_len);
            }
            self.put(x as usize, y as usize, color);
            proof {
                let rest = line_walk(x as int, y as int, err as int, x1 as int, y1 as int, a_len, b_len, sx as int, sy as int, fuel);
                assert(rest[0] == (x as int, y as int));
                let v2 = visited.push((x as int, y as int));
                assert(v2.drop_last() == visited);
                assert(self.pixels@ == paint_points(old(self).pixels@, w, h, v2, color));
                visited = v2;
            }
            if x == x1 as isize && y == y1 as isize {
                proof {
                    let rest = line_walk(x as int, y as int, err as int, x1 as int, y1 as int, a_len, b_len, sx as int, sy as int, fuel);
                    assert(rest =~= seq![(x as int, y as int)]);
                    assert(full =~= visited);
                }
                break;
            }
            proof {
                lemma_between(sx as int, x as int, x0 as int, x1 as int, a_len);
                lemma_between(sy as int, y as int, y0 as int, y1 as int, b_len);
            }
            let ghost a = sx * (x - x0);
            let ghost b = sy * (y - y0);
            let ghost old_x = x as int;
            let ghost old_y = y as int;
            let ghost old_e = err as int;
            proof {
                lemma_line_progress(a_len, b_len, a, b, old_e);
                assert(fuel > 0);
            }
            let twice = 2 * err;
            if twice >= dy {
                err = err + dy;
                x = x + sx;
            }
            if twice <= dx {
                err = err + dx;
                y = y + sy;
            }
            proof {
                lemma_sign_step(sx as int, old_x, x0 as int, x as int, twice >= dy);
                lemma_sign_step(sy as int, old_y, y0 as int, y as int, twice <= dx);
                let step = line_step(old_x, old_y, old_e, a_len, b_len, sx as int, sy as int);
                assert(step == (x as int, y as int, err as int));
                let rest = line_walk(old_x, old_y, old_e, x1 as int, y1 as int, a_len, b_len, sx as int, sy as int, fuel);
                let fuel2 = (fuel - 1) as nat;
                assert(rest == seq![(old_x, old_y)] + line_walk(x as int, y as int, err as int, x1 as int, y1 as int, a_len, b_len, sx as int, sy as int, fuel2));
                assert(full =~= visited + line_walk(x as int, y as int, err as int, x1 as int, y1 as int, a_len, b_len, sx as int, sy as int, fuel2));
                fuel = fuel2;
                lemma_line_invariant(a_len, b_len, a, b, old_e, sx * (x - x0), sy * (y - y0), err as int, twice >= dy, twice <= dx);
            }
        }
    }
}

proof fn lemma_between(s: int, v: int, v0: int, v1: int, len: int)
    requires
        s == (if v0 < v1 { 1int } else { -1int }),
        len == abs(v1 - v0),
        0 <= s * (v - v0) <= len,
        v0 >= 0,
        v1 >= 0,
    ensures
        v >= 0,
        (if v0 <= v1 { v0 <= v <= v1 } else { v1 <= v <= v0 }),
        (s * (v - v0) == len) <==> (v == v1),
{
    if s == 1 {
        assert(s * (v - v0) == v - v0) by (nonlinear_arith)
            requires
                s == 1,
        ;
    } else {
        assert(s * (v - v0) == v0 - v) by (nonlinear_arith)
            requires
                s == -1,
        ;
    }
}

proof fn lemma_sign_step(s: int, v: int, v0: int, v2: int, stepped: bool)
    requires
        s == 1 || s == -1,
        v2 == (if stepped { v + s } else { v }),
    ensures
        s * (v2 - v0) == s * (v - v0) + (if stepped { 1int } else { 0int }),
{
    if stepped {
        assert(s * (v + s - v0) == s * (v - v0) + s * s) by (nonlinear_arith);
        assert(s * s == 1) by (nonlinear_arith)
            requires
                s == 1 || s == -1,
        ;
    }
}

proof fn lemma_index_in_grid(x: int, y: int, w: int, h: int)
    requires
        0 <= x < w,
        0 <= y < h,
    ensures
        0 <= y * w + x < w * h,
{
    assert(y * w + x < w * h) by (nonlinear_arith)
        requires
            0 <= x < w,
            0 <= y < h,
    ;
    assert(0 <= y * w) by (nonlinear_arith)
        requires
            0 <= y,
            0 <= w,
    ;
}

/// Away from the end point, a step of the walk moves and stays within the
/// line's extent.
proof fn lemma_line_progress(a_len: int, b_len: int, a: int, b: int, e: int)
    requires
        0 <= a <= a_len,
        0 <= b <= b_len,
        !(a == a_len && b == b_len),
        e == a_len - b_len - a * b_len + b * a_len,
    ensures
        a == a_len ==> 2 * e < -b_len,
        b == b_len ==> 2 * e > a_len,
{
    if a == a_len {
        assert(e <= -b_len) by (nonlinear_arith)
            requires
                a == a_len,
                b <= b_len - 1,
                0 <= b,
                0 <= a_len,
                e == a_len - b_len - a * b_len + b * a_len,
        ;
    }
    if b == b_len {
        assert(e >= a_len) by (nonlinear_arith)
            requires
                b == b_len,
                a <= a_len - 1,
                0 <= a,
                0 <= b_len,
                e == a_len - b_len - a * b_len + b * a_len,
        ;
    }
}

proof fn lemma_line_invariant(
    a_len: int,
    b_len: int,
    a: int,
    b: int,
    e: int,
    a2: int,
    b2: int,
    e2: int,
    stepped_x: bool,
    stepped_y: bool,
)
    requires
        0 <= a <= a_len,
        0 <= b <= b_len,
        !(a == a_len && b == b_len),
        e == a_len - b_len - a * b_len + b * a_len,
        -3 * b_len - a_len <= 2 * e <= 3 * a_len + b_len,
        a == a_len ==> 2 * e < -b_len,
        b == b_len ==> 2 * e > a_len,
        stepped_x == (2 * e >= -b_len),
        stepped_y == (2 * e <= a_len),
        a2 == (if stepped_x { a + 1 } else { a }),
        b2 == (if stepped_y { b + 1 } else { b }),
        e2 == e + (if stepped_x { -b_len } else { 0 }) + (if stepped_y { a_len } else { 0 }),
    ensures
        0 <= a2 <= a_len,
        0 <= b2 <= b_len,
        stepped_x || stepped_y,
        e2 == a_len - b_len - a2 * b_len + b2 * a_len,
        -3 * b_len - a_len <= 2 * e2 <= 3 * a_len + b_len,
{
    if stepped_x && stepped_y {
        assert(-3 * b_len - a_len <= 2 * e2 <= 3 * a_len + b_len);
    } else if stepped_x {
        assert(-3 * b_len - a_len <= 2 * e2 <= 3 * a_len + b_len);
    } else {
        assert(-3 * b_len - a_len <= 2 * e2 <= 3 * a_len + b_len);
    }
    assert(e2 == a_len - b_len - a2 * b_len + b2 * a_len) by (nonlinear_arith)
        requires
            e == a_len - b_len - a * b_len + b * a_len,
            a2 == (if stepped_x { a + 1 } else { a }),
            b2 == (if stepped_y { b + 1 } else { b }),
            e2 == e + (if stepped_x { -b_len } else { 0 }) + (if stepped_y { a_len } else { 0 }),
    ;
}

} // verus!

verus! {

/// A pixel's line in a plain PPM image: its three channels in decimal.
pub open spec fn ppm_pixel(c: Color) -> Seq<char> {
    crate::text::decimal(c.0 as nat) + " "@ + crate::text::decimal(c.1 as nat) + " "@ + crate::text::decimal(c.2 as nat) + "\n"@
}

/// The pixel lines of the first `n` pixels.
pub open spec fn ppm_pixels(pixels: Seq<Color>) -> Seq<char>
    decreases pixels.len(),
{
    if pixels.len() == 0 {
        Seq::empty()
    } else {
        ppm_pixels(pixels.drop_last()) + ppm_pixel(pixels.last())
    }
}

/// The canvas as a plain PPM image (`P3`): the header with the size and
/// the channel maximum 255, then one line per pixel, row by row.
pub open spec fn ppm_text(width: nat, height: nat, pixels: Seq<Color>) -> Seq<char> {
    "P3\n"@ + crate::text::decimal(width) + " "@ + crate::text::decimal(height) + "\n255\n"@ + ppm_pixels(pixels)
}

impl Canvas {
    /// The canvas as the text of a plain PPM image.
    pub fn ppm_text(&self) -> (r: String)
        ensures
            r@ == ppm_text(self.width as nat, self.height as nat, self.pixels@),
    {
        let mut s = crate::text::owned("P3\n");
        crate::text::push_str(&mut s, crate::text::decimal_string(self.width).as_str());
        crate::text::push_str(&mut s, " ");
        crate::text::push_str(&mut s, crate::text::decimal_string(self.height).as_str());
        crate::text::push_str(&mut s, "\n255\n");
        let ghost head = s@;
        let mut i: usize = 0;
        while i < self.pixels.len()
            invariant
                i <= self.pixels@.len(),
                s@ == head + ppm_pixels(self.pixels@.take(i as int)),
            decreases self.pixels@.len() - i,
        {
            let p = self.pixels[i];
            assert(self.pixels@.take(i + 1).drop_last() =~= self.pixels@.take(i as int));
            assert(self.pixels@.take(i + 1).last() == p);
            crate::text::push_str(&mut s, crate::text::decimal_string(p.0 as usize).as_str());
            crate::text::push_str(&mut s, " ");
            crate::text::push_str(&mut s, crate::text::decimal_string(p.1 as usize).as_str());
            crate::text::push_str(&mut s, " ");
            crate::text::push_str(&mut s, crate::text::decimal_string(p.2 as usize).as_str());
            crate::text::push_str(&mut s, "\n");
            i = i + 1;
        }
        assert(self.pixels@.take(self.pixels@.len() as int) =~= self.pixels@);
        s
    }
}

} // verus!
