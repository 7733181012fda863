//! The waterfall: an image that scrolls by one row for each spectrum frame.

use crate::bytes::push_bytes;
use crate::tui::spectrum::FrameAxis;
use crate::ui::intensity::held;
use crate::ui::intensity::hold;
use crate::ui::intensity::FULL;
use vstd::prelude::*;
use vstd::slice::*;

verus! {

/// Colours for intensities: stops, evenly spaced from none to full.
#[derive(Debug, PartialEq, Eq)]
pub struct Palette {
    pub stops: Vec<[u8; 3]>,
}

/// The stops of the panadapter's ramp, blue through green to red.
pub open spec fn turbo_stops() -> Seq<[u8; 3]> {
    seq![
        [12u8, 12, 60],
        [16u8, 40, 140],
        [0u8, 130, 190],
        [0u8, 190, 170],
        [40u8, 220, 80],
        [170u8, 235, 40],
        [245u8, 220, 40],
        [250u8, 150, 30],
        [235u8, 70, 30],
        [220u8, 30, 30],
    ]
}

/// The stops of the quiet ramp.
pub open spec fn mono_stops() -> Seq<[u8; 3]> {
    seq![[8u8, 10, 12], [70u8, 78, 86], [140u8, 152, 162], [235u8, 240, 245]]
}

/// What lies `part` of the way from `a` to `b`, rounded to the nearest value.
pub open spec fn mixed(a: u8, b: u8, part: int) -> int {
    (2 * (a * FULL + (b - a) * part) + FULL) / (2 * FULL)
}

/// The colour of an intensity: that of a stop, or a mixture of the two beside
/// it. Without stops it is black.
pub open spec fn colour_at(stops: Seq<[u8; 3]>, t: int) -> Seq<u8> {
    if stops.len() == 0 {
        seq![0u8, 0, 0]
    } else {
        let scaled = held(t) * (stops.len() - 1);
        let i = scaled / (FULL as int);
        let part = scaled % (FULL as int);
        if i >= stops.len() - 1 {
            stops.last()@
        } else {
            Seq::new(3, |c: int| mixed(stops[i]@[c], stops[i + 1]@[c], part) as u8)
        }
    }
}

fn mix(a: u8, b: u8, part: u128) -> (r: u8)
    requires
        part < FULL,
    ensures
        r == mixed(a, b, part as int),
        mixed(a, b, part as int) <= 255,
        mixed(a, b, part as int) >= 0,
{
    let n: i64 = a as i64 * FULL;
    let d: i64 = b as i64 - a as i64;
    proof {
        assert(-255 * 16777216 <= d * part <= 255 * 16777216) by (nonlinear_arith)
            requires
                -255 <= d <= 255,
                0 <= part < 16777216,
        ;
        assert(0 <= a * 16777216 + d * part <= 255 * 16777216) by (nonlinear_arith)
            requires
                d == b - a,
                0 <= a <= 255,
                0 <= b <= 255,
                0 <= part < 16777216,
        ;
    }
    let m: i64 = 2 * (n + d * (part as i64)) + FULL;
    (m / (2 * FULL)) as u8
}

impl Palette {
    /// Blue through green to red.
    pub fn turbo() -> (r: Palette)
        ensures
            r.stops@ == turbo_stops(),
    {
        let mut stops: Vec<[u8; 3]> = Vec::new();
        stops.push([12, 12, 60]);
        stops.push([16, 40, 140]);
        stops.push([0, 130, 190]);
        stops.push([0, 190, 170]);
        stops.push([40, 220, 80]);
        stops.push([170, 235, 40]);
        stops.push([245, 220, 40]);
        stops.push([250, 150, 30]);
        stops.push([235, 70, 30]);
        stops.push([220, 30, 30]);
        assert(stops@ =~= turbo_stops());
        Palette { stops }
    }

    /// Monochrome, for a waterfall that sits quietly behind other things.
    pub fn mono() -> (r: Palette)
        ensures
            r.stops@ == mono_stops(),
    {
        let mut stops: Vec<[u8; 3]> = Vec::new();
        stops.push([8, 10, 12]);
        stops.push([70, 78, 86]);
        stops.push([140, 152, 162]);
        stops.push([235, 240, 245]);
        assert(stops@ =~= mono_stops());
        Palette { stops }
    }

    /// The colour of an intensity.
    pub fn at(&self, t: i64) -> (r: [u8; 3])
        ensures
            r@ == colour_at(self.stops@, t as int),
    {
        let len: usize = self.stops.len();
        if len == 0 {
            let black: [u8; 3] = [0, 0, 0];
            assert(black@ =~= colour_at(self.stops@, t as int));
            return black;
        }
        let t: u128 = hold(t) as u128;
        proof {
            assert(0 <= t * (len - 1) <= 16777216 * 0xffff_ffff_ffff_ffff) by (nonlinear_arith)
                requires
                    0 <= t <= 16777216,
                    1 <= len <= 0xffff_ffff_ffff_ffff,
            ;
        }
        let scaled: u128 = t * (len as u128 - 1);
        let i: u128 = scaled / (FULL as u128);
        let part: u128 = scaled % (FULL as u128);
        if i >= len as u128 - 1 {
            return self.stops[len - 1];
        }
        let a: [u8; 3] = self.stops[i as usize];
        let b: [u8; 3] = self.stops[i as usize + 1];
        let colour: [u8; 3] = [mix(a[0], b[0], part), mix(a[1], b[1], part), mix(a[2], b[2], part)];
        assert(colour@ =~= colour_at(self.stops@, t as int));
        colour
    }
}

impl Default for Palette {
    fn default() -> (r: Self)
        ensures
            r.stops@ == turbo_stops(),
    {
        Palette::turbo()
    }
}

/// No intensity and less is the first stop's colour, full intensity and more
/// the last stop's, and in between no channel leaves the range of the two stops
/// beside it.
pub proof fn a_palette_spans_its_stops(stops: Seq<[u8; 3]>, t: int, c: int)
    requires
        stops.len() > 0,
        0 <= c < 3,
    ensures
        t <= 0 ==> colour_at(stops, t) == stops.first()@,
        t >= FULL ==> colour_at(stops, t) == stops.last()@,
        exists|i: int|
            0 <= i < stops.len() && between(
                colour_at(stops, t)[c],
                #[trigger] stops[i]@[c],
                stops[if i + 1 < stops.len() {
                    i + 1
                } else {
                    i
                }]@[c],
            ),
{
    assert(FULL == 16777216);
    let n = stops.len() - 1;
    let scaled = held(t) * n;
    let i = scaled / 16777216;
    let part = scaled % 16777216;
    assert(0 * n == 0 && 16777216 * n / 16777216 == n && 0 <= scaled) by (nonlinear_arith)
        requires
            scaled == held(t) * n,
            held(t) >= 0,
            n >= 0,
    ;
    if i >= n {
        assert(between(colour_at(stops, t)[c], stops[n]@[c], stops[n]@[c]));
    } else {
        let a = stops[i]@[c];
        let b = stops[i + 1]@[c];
        let d = b - a;
        assert(a <= b ==> 0 <= d * part <= d * 16777216) by (nonlinear_arith)
            requires
                d == b - a,
                0 <= part < 16777216,
        ;
        assert(a > b ==> d * 16777216 <= d * part <= 0) by (nonlinear_arith)
            requires
                d == b - a,
                0 <= part < 16777216,
        ;
        assert(between(colour_at(stops, t)[c], a, b));
        if t <= 0 {
            assert(part == 0 && i == 0);
            assert forall|k: int| 0 <= k < 3 implies colour_at(stops, t)[k] == stops[0]@[k] by {
                assert((stops[1]@[k] - stops[0]@[k]) * 0 == 0) by (nonlinear_arith);
            }
        }
    }
    if t <= 0 {
        assert(colour_at(stops, t) =~= stops.first()@);
    }
}

/// Whether a value lies between two others, whichever is the larger.
pub open spec fn between(v: u8, a: u8, b: u8) -> bool {
    a <= v <= b || b <= v <= a
}

/// What a column of a row shows: a measured intensity, or that nothing was
/// measured there.
#[derive(Debug, Clone, Copy, PartialEq, Eq, Structural)]
pub enum Shade {
    Signal(i64),
    NoData,
}

/// The colour of a column.
pub open spec fn shade_colour(shade: Shade, stops: Seq<[u8; 3]>, no_data: [u8; 3]) -> Seq<u8> {
    match shade {
        Shade::Signal(t) => colour_at(stops, t as int),
        Shade::NoData => no_data@,
    }
}

/// The bytes of a row: red, green, blue and full opacity for each column.
pub open spec fn row_bytes(row: Seq<Shade>, stops: Seq<[u8; 3]>, no_data: [u8; 3]) -> Seq<u8> {
    Seq::new(
        row.len() * 4,
        |i: int|
            if i % 4 == 3 {
                255
            } else {
                shade_colour(row[i / 4], stops, no_data)[i % 4]
            },
    )
}

/// The bytes of rows, one after another.
pub open spec fn joined(rows: Seq<Seq<u8>>) -> Seq<u8>
    decreases rows.len(),
{
    if rows.len() == 0 {
        Seq::empty()
    } else {
        joined(rows.drop_last()) + rows.last()
    }
}

/// A scrolling image. Its rows form a ring, so that a new frame costs one row
/// of writes and an index.
#[derive(Debug, PartialEq, Eq)]
pub struct WaterfallImage {
    pub width: u32,
    pub height: u32,
    /// Four bytes per pixel, rows in the order of the ring.
    pub pixels: Vec<u8>,
    /// The row that holds the newest frame.
    pub head: u32,
    pub rows_filled: u32,
    pub palette: Palette,
    /// The colour of a column nobody measured. It is not that of a measured
    /// silence.
    pub no_data: [u8; 3],
    /// The axis the newest row was drawn on.
    pub reference: Option<FrameAxis>,
    /// Counts the changes of the image.
    pub generation: u64,
    /// Counts how often the whole image was drawn anew.
    pub rebuilds: u64,
}

impl WaterfallImage {
    pub open spec fn stride(self) -> int {
        self.width * 4
    }

    /// A row of the ring.
    pub open spec fn ring_row(self, row: int) -> Seq<u8> {
        self.pixels@.subrange(row * self.stride(), row * self.stride() + self.stride())
    }

    /// A row as it is shown, the newest being the first.
    pub open spec fn shown_row(self, n: int) -> Seq<u8> {
        self.ring_row((self.head + n) % (self.height as int))
    }

    /// The rows as they are shown, newest first.
    pub open spec fn shown(self) -> Seq<Seq<u8>> {
        Seq::new(self.height as nat, |n: int| self.shown_row(n))
    }

    /// The rows in the order of the ring.
    pub open spec fn ring(self) -> Seq<Seq<u8>> {
        Seq::new(self.height as nat, |r: int| self.ring_row(r))
    }

    /// How many rows below the newest a row of the ring is shown.
    pub open spec fn age(self, row: int) -> int {
        (row - self.head) % (self.height as int)
    }

    /// The bytes of a row nothing was written to.
    pub open spec fn blank(self) -> Seq<u8> {
        Seq::new(self.stride() as nat, |i: int| 0u8)
    }

    /// The bytes this image gives a row.
    pub open spec fn drawn(self, row: Seq<Shade>) -> Seq<u8> {
        row_bytes(row, self.palette.stops@, self.no_data)
    }

    /// The image has pixels, the head is one of its rows, and the rows that
    /// hold no frame are blank.
    pub open spec fn wf(self) -> bool {
        &&& self.width > 0
        &&& self.height > 0
        &&& self.height * self.stride() <= u32::MAX
        &&& self.pixels@.len() == self.height * self.stride()
        &&& self.head < self.height
        &&& self.rows_filled <= self.height
        &&& forall|n: int|
            self.rows_filled <= n < self.height ==> #[trigger] self.shown_row(n) == self.blank()
    }

    /// What no drawing changes.
    pub open spec fn same_frame(self, other: Self) -> bool {
        &&& self.width == other.width
        &&& self.height == other.height
        &&& self.palette == other.palette
        &&& self.no_data == other.no_data
    }

    /// Where the next row goes: one row up the ring, and to its first row in
    /// an image that holds none.
    pub open spec fn next_head(self) -> int {
        if self.rows_filled == 0 {
            0
        } else {
            (self.head + self.height - 1) % (self.height as int)
        }
    }

    /// How many rows hold frames after `count` more.
    pub open spec fn filled_after(self, count: int) -> int {
        if self.rows_filled + count < self.height {
            self.rows_filled + count
        } else {
            self.height as int
        }
    }

    /// Whether this is the image `before` after one more row. What is shown
    /// scrolled down by one, and one row of the ring was written: the head.
    pub open spec fn scrolled_by(self, before: Self, row: Seq<Shade>, axis: FrameAxis) -> bool {
        &&& self.same_frame(before)
        &&& self.shown() == seq![before.drawn(row)] + before.shown().drop_last()
        &&& self.head == before.next_head()
        &&& forall|r: int|
            0 <= r < before.height && r != self.head ==> #[trigger] self.ring_row(r)
                == before.ring_row(r)
        &&& self.rows_filled == before.filled_after(1)
        &&& self.reference == Some(axis)
        &&& self.generation == before.generation.wrapping_add(1)
        &&& self.rebuilds == before.rebuilds
    }
}

/// Where a row of the ring comes after going round once.
proof fn going_round(head: int, n: int, height: int)
    requires
        0 <= head < height,
        0 <= n < height,
    ensures
        (head + n) % height == (if head + n < height {
            head + n
        } else {
            head + n - height
        }),
{
    if head + n < height {
        vstd::arithmetic::div_mod::lemma_small_mod((head + n) as nat, height as nat);
    } else {
        vstd::arithmetic::div_mod::lemma_mod_add_multiples_vanish(head + n - height, height);
        vstd::arithmetic::div_mod::lemma_small_mod((head + n - height) as nat, height as nat);
    }
}

/// Rows do not overlap, and every row lies inside the image.
proof fn rows_are_apart(a: int, b: int, stride: int, height: int)
    requires
        0 <= a < height,
        0 <= b < height,
        a != b,
        0 <= stride,
    ensures
        0 <= a * stride,
        a * stride + stride <= height * stride,
        a * stride + stride <= b * stride || b * stride + stride <= a * stride,
{
    assert(0 <= a * stride && a * stride + stride <= height * stride) by (nonlinear_arith)
        requires
            0 <= a,
            a + 1 <= height,
            0 <= stride,
    ;
    if a < b {
        assert(a * stride + stride <= b * stride) by (nonlinear_arith)
            requires
                a + 1 <= b,
                0 <= stride,
        ;
    } else {
        assert(b * stride + stride <= a * stride) by (nonlinear_arith)
            requires
                b + 1 <= a,
                0 <= stride,
        ;
    }
}

proof fn row_is_inside(a: int, stride: int, height: int)
    requires
        0 <= a < height,
        0 <= stride,
    ensures
        0 <= a * stride,
        a * stride + stride <= height * stride,
{
    assert(0 <= a * stride && a * stride + stride <= height * stride) by (nonlinear_arith)
        requires
            0 <= a,
            a + 1 <= height,
            0 <= stride,
    ;
}

impl WaterfallImage {
    /// An empty image, one pixel wide and high at least. Its sides must leave
    /// room for its bytes in 32 bits.
    pub fn new(width: u32, height: u32, palette: Palette) -> (r: WaterfallImage)
        requires
            (if height == 0 {
                1
            } else {
                height as int
            }) * ((if width == 0 {
                1
            } else {
                width as int
            }) * 4) <= u32::MAX,
        ensures
            r.wf(),
            r.width == (if width == 0 {
                1
            } else {
                width
            }),
            r.height == (if height == 0 {
                1
            } else {
                height
            }),
            r.head == 0,
            r.rows_filled == 0,
            r.palette == palette,
            r.no_data@ == seq![26u8, 30, 34],
            r.reference is None,
            r.generation == 0,
            r.rebuilds == 0,
    {
        let width: u32 = if width == 0 {
            1
        } else {
            width
        };
        let height: u32 = if height == 0 {
            1
        } else {
            height
        };
        let size: usize = (height as u64 * (width as u64 * 4)) as usize;
        let mut pixels: Vec<u8> = Vec::new();
        let mut i: usize = 0;
        while i < size
            invariant
                i <= size,
                pixels@.len() == i,
                forall|j: int| 0 <= j < i ==> pixels@[j] == 0,
            decreases size - i,
        {
            pixels.push(0);
            i += 1;
        }
        let image = WaterfallImage {
            width,
            height,
            pixels,
            head: 0,
            rows_filled: 0,
            palette,
            no_data: [26, 30, 34],
            reference: None,
            generation: 0,
            rebuilds: 0,
        };
        assert(image.no_data@ =~= seq![26u8, 30, 34]);
        proof {
            assert forall|n: int| 0 <= n < image.height implies #[trigger] image.shown_row(n)
                == image.blank() by {
                going_round(0, n, image.height as int);
                row_is_inside(n, image.stride(), image.height as int);
                assert(image.shown_row(n) =~= image.blank());
            }
        }
        image
    }

    pub fn width(&self) -> (r: u32)
        ensures
            r == self.width,
    {
        self.width
    }

    pub fn height(&self) -> (r: u32)
        ensures
            r == self.height,
    {
        self.height
    }

    /// How many rows hold frames. The rest is blank.
    pub fn rows_filled(&self) -> (r: u32)
        ensures
            r == self.rows_filled,
    {
        self.rows_filled
    }

    /// Give columns that nobody measures from now on another colour.
    pub fn set_no_data_color(&mut self, rgb: [u8; 3])
        requires
            old(self).wf(),
        ensures
            final(self).wf(),
            *final(self) == (WaterfallImage { no_data: rgb, ..*old(self) }),
            final(self).shown() == old(self).shown(),
    {
        self.no_data = rgb;
        proof {
            assert forall|n: int| 0 <= n < self.height implies self.shown_row(n) == old(
                self,
            ).shown_row(n) by {}
            assert(self.blank() =~= old(self).blank());
            assert(self.shown() =~= old(self).shown());
        }
    }

    /// The axis the image belongs to, if it has one.
    pub fn reference(&self) -> (r: Option<&FrameAxis>)
        ensures
            match self.reference {
                Some(axis) => r matches Some(a) && *a == axis,
                None => r is None,
            },
    {
        self.reference.as_ref()
    }

    /// Write the bytes of a row into the ring.
    fn write_row(&mut self, ring: u32, row: &Vec<Shade>)
        requires
            old(self).width > 0,
            old(self).height * old(self).stride() <= u32::MAX,
            old(self).pixels@.len() == old(self).height * old(self).stride(),
            ring < old(self).height,
            row@.len() == old(self).width,
        ensures
            *final(self) == (WaterfallImage { pixels: final(self).pixels, ..*old(self) }),
            final(self).pixels@.len() == old(self).pixels@.len(),
            final(self).ring_row(ring as int) == old(self).drawn(row@),
            forall|r: int|
                0 <= r < old(self).height && r != ring ==> #[trigger] final(self).ring_row(r)
                    == old(self).ring_row(r),
    {
        let ghost before = *self;
        proof {
            row_is_inside(ring as int, self.stride(), self.height as int);
        }
        let start: usize = (ring as u64 * (self.width as u64 * 4)) as usize;
        let mut col: u32 = 0;
        while col < self.width
            invariant
                col <= self.width,
                self.width > 0,
                *self == (WaterfallImage { pixels: self.pixels, ..before }),
                self.pixels@.len() == before.pixels@.len(),
                before.pixels@.len() == before.height * before.stride(),
                before.pixels@.len() <= u32::MAX,
                start == ring * before.stride(),
                start + before.stride() <= before.pixels@.len(),
                row@.len() == self.width,
                forall|i: int|
                    0 <= i < self.pixels@.len() ==> #[trigger] self.pixels@[i] == (if start <= i
                        < start + col * 4 {
                        before.drawn(row@)[i - start]
                    } else {
                        before.pixels@[i]
                    }),
            decreases self.width - col,
        {
            let rgb: [u8; 3] = match row[col as usize] {
                Shade::Signal(t) => self.palette.at(t),
                Shade::NoData => self.no_data,
            };
            let i: usize = start + col as usize * 4;
            assert(rgb@ == shade_colour(row@[col as int], before.palette.stops@, before.no_data));
            self.pixels.set(i, rgb[0]);
            self.pixels.set(i + 1, rgb[1]);
            self.pixels.set(i + 2, rgb[2]);
            self.pixels.set(i + 3, 255);
            col += 1;
        }
        proof {
            let stride = before.stride();
            assert(self.ring_row(ring as int) =~= before.drawn(row@));
            assert forall|r: int| 0 <= r < before.height && r != ring implies #[trigger] self.ring_row(
                r,
            ) == before.ring_row(r) by {
                rows_are_apart(r, ring as int, stride, before.height as int);
                assert(self.ring_row(r) =~= before.ring_row(r));
            }
        }
    }

    /// Add a frame as the newest row; what is shown scrolls down by one, and
    /// the oldest row leaves. Rows that are already there keep their pixels.
    pub fn push(&mut self, row: &Vec<Shade>, axis: FrameAxis)
        requires
            old(self).wf(),
            row@.len() == old(self).width,
        ensures
            final(self).wf(),
            final(self).scrolled_by(*old(self), row@, axis),
    {
        let ghost before = *self;
        let ghost h = self.height as int;
        let head: u32 = if self.rows_filled == 0 {
            0
        } else if self.head == 0 {
            self.height - 1
        } else {
            self.head - 1
        };
        self.head = head;
        let ghost moved = *self;
        self.write_row(head, row);
        let ghost written = *self;
        if self.rows_filled < self.height {
            self.rows_filled = self.rows_filled + 1;
        }
        self.reference = Some(axis);
        self.generation = self.generation.wrapping_add(1);
        proof {
            let after = *self;
            going_round(before.head as int, h - 1, h);
            going_round(head as int, 0, h);
            assert(after.shown_row(0) == before.drawn(row@));
            assert forall|n: int| 1 <= n < h implies #[trigger] after.shown_row(n)
                == before.shown_row(n - 1) by {
                going_round(head as int, n, h);
                let r = (head + n) % h;
                assert(r != head);
                assert(written.ring_row(r) == moved.ring_row(r));
                going_round(before.head as int, n - 1, h);
                if before.rows_filled == 0 {
                    let m = if r >= before.head {
                        r - before.head
                    } else {
                        r - before.head + h
                    };
                    going_round(before.head as int, m, h);
                    assert(before.shown_row(m) == before.blank());
                    assert(before.shown_row(n - 1) == before.blank());
                }
            }
            assert(after.blank() =~= before.blank());
            assert forall|n: int| after.rows_filled <= n < after.height implies
                #[trigger] after.shown_row(n) == after.blank() by {
                assert(before.shown_row(n - 1) == before.blank());
            }
            let want = seq![before.drawn(row@)] + before.shown().drop_last();
            assert(after.shown().len() == want.len());
            assert forall|n: int| 0 <= n < h implies after.shown()[n] == want[n] by {
                if n > 0 {
                    assert(after.shown_row(n) == before.shown_row(n - 1));
                }
            }
            assert(after.shown() =~= want);
            assert forall|r: int| 0 <= r < h && r != after.head implies #[trigger] after.ring_row(r)
                == before.ring_row(r) by {
                assert(written.ring_row(r) == moved.ring_row(r));
            }
        }
    }

    /// Draw the whole image anew from rows, newest first, all of them drawn on
    /// the same axis. Rows beyond the image's height are left out; without
    /// rows the image is blank.
    pub fn rebuild(&mut self, rows: &Vec<Vec<Shade>>, axis: Option<FrameAxis>)
        requires
            old(self).wf(),
            forall|i: int| 0 <= i < rows@.len() ==> #[trigger] rows@[i]@.len() == old(self).width,
        ensures
            final(self).wf(),
            final(self).same_frame(*old(self)),
            final(self).head == 0,
            final(self).rows_filled == (if rows@.len() < old(self).height {
                rows@.len() as int
            } else {
                old(self).height as int
            }),
            final(self).shown() == Seq::new(
                old(self).height as nat,
                |n: int|
                    if n < rows@.len() {
                        old(self).drawn(rows@[n]@)
                    } else {
                        old(self).blank()
                    },
            ),
            final(self).reference == (if rows@.len() == 0 {
                None
            } else {
                axis
            }),
            final(self).generation == old(self).generation.wrapping_add(1),
            final(self).rebuilds == old(self).rebuilds.wrapping_add(1),
    {
        let ghost before = *self;
        let ghost h = self.height as int;
        let size: usize = self.pixels.len();
        let mut i: usize = 0;
        while i < size
            invariant
                i <= size,
                size == before.pixels@.len(),
                self.pixels@.len() == size,
                *self == (WaterfallImage { pixels: self.pixels, ..before }),
                forall|j: int| 0 <= j < i ==> #[trigger] self.pixels@[j] == 0,
            decreases size - i,
        {
            self.pixels.set(i, 0);
            i += 1;
        }
        self.head = 0;
        let count: u32 = if rows.len() < self.height as usize {
            rows.len() as u32
        } else {
            self.height
        };
        proof {
            assert(self.blank() =~= before.blank());
            assert forall|r: int| 0 <= r < h implies #[trigger] self.ring_row(r) == before.blank() by {
                row_is_inside(r, self.stride(), h);
                assert(self.ring_row(r) =~= before.blank());
            }
        }
        let mut n: u32 = 0;
        while n < count
            invariant
                n <= count,
                count <= rows@.len(),
                count <= self.height,
                before.wf(),
                h == before.height,
                self.width == before.width,
                self.height == before.height,
                self.palette == before.palette,
                self.no_data == before.no_data,
                self.head == 0,
                self.generation == before.generation,
                self.rebuilds == before.rebuilds,
                self.pixels@.len() == before.pixels@.len(),
                forall|i: int| 0 <= i < rows@.len() ==> #[trigger] rows@[i]@.len() == before.width,
                forall|r: int|
                    0 <= r < h ==> #[trigger] self.ring_row(r) == (if r < n {
                        before.drawn(rows@[r]@)
                    } else {
                        before.blank()
                    }),
            decreases count - n,
        {
            assert(rows@[n as int]@.len() == before.width);
            self.write_row(n, &rows[n as usize]);
            n += 1;
        }
        let ghost written = *self;
        self.rows_filled = count;
        self.reference = if rows.len() == 0 {
            None
        } else {
            axis
        };
        self.generation = self.generation.wrapping_add(1);
        self.rebuilds = self.rebuilds.wrapping_add(1);
        proof {
            let after = *self;
            assert(after.blank() =~= before.blank());
            assert forall|n: int| 0 <= n < h implies #[trigger] after.shown_row(n) == (if n
                < rows@.len() {
                before.drawn(rows@[n]@)
            } else {
                before.blank()
            }) by {
                going_round(0, n, h);
                assert(written.ring_row(n) == (if n < count {
                    before.drawn(rows@[n]@)
                } else {
                    before.blank()
                }));
            }
            assert(after.shown() =~= Seq::new(
                before.height as nat,
                |n: int|
                    if n < rows@.len() {
                        before.drawn(rows@[n]@)
                    } else {
                        before.blank()
                    },
            ));
        }
    }

    /// All bytes, newest row first.
    pub fn rgba(&self) -> (r: Vec<u8>)
        requires
            self.wf(),
        ensures
            r@ == joined(self.shown()),
            r@.len() == self.pixels@.len(),
    {
        let mut out: Vec<u8> = Vec::new();
        let mut n: u32 = 0;
        assert(self.shown().take(0) =~= Seq::empty());
        while n < self.height
            invariant
                n <= self.height,
                self.wf(),
                out@ == joined(self.shown().take(n as int)),
                out@.len() == n * self.stride(),
            decreases self.height - n,
        {
            let row = self.row_rgba(n);
            proof {
                row_is_inside(n as int, self.stride(), self.height as int);
                assert(self.shown().take(n + 1).drop_last() =~= self.shown().take(n as int));
                assert(self.shown().take(n + 1).last() == self.shown_row(n as int));
                assert((n + 1) * self.stride() == n * self.stride() + self.stride())
                    by (nonlinear_arith);
            }
            push_bytes(&mut out, row);
            n += 1;
        }
        assert(self.shown().take(self.height as int) =~= self.shown());
        out
    }

    /// The bytes of one row, the newest being row zero. A row past the last
    /// is the last.
    pub fn row_rgba(&self, row: u32) -> (r: &[u8])
        requires
            self.wf(),
        ensures
            r@ == self.shown_row(
                if row < self.height {
                    row as int
                } else {
                    self.height - 1
                },
            ),
            r@.len() == self.stride(),
    {
        let n: u32 = if row < self.height {
            row
        } else {
            self.height - 1
        };
        proof {
            going_round(self.head as int, n as int, self.height as int);
        }
        let below: u32 = self.height - self.head;
        let ring: u32 = if n < below {
            self.head + n
        } else {
            n - below
        };
        proof {
            row_is_inside(ring as int, self.stride(), self.height as int);
        }
        let stride: usize = self.width as usize * 4;
        let start: usize = ring as usize * stride;
        slice_subrange(self.pixels.as_slice(), start, start + stride)
    }
}

/// A row that was just added is the first one shown, and every other row is
/// one further down than it was, until it has scrolled out.
pub proof fn a_pushed_row_scrolls_down(
    before: WaterfallImage,
    after: WaterfallImage,
    row: Seq<Shade>,
    n: int,
)
    requires
        before.wf(),
        after.shown() == seq![before.drawn(row)] + before.shown().drop_last(),
        0 < n < before.height,
    ensures
        after.shown()[0] == before.drawn(row),
        after.shown()[n] == before.shown()[n - 1],
        after.shown().len() == before.shown().len(),
{
}

proof fn age_of(image: WaterfallImage, row: int)
    requires
        image.wf(),
        0 <= row < image.height,
    ensures
        image.age(row) == (if row >= image.head {
            row - image.head
        } else {
            row - image.head + image.height
        }),
{
    let h = image.height as int;
    let d = row - image.head;
    if d >= 0 {
        vstd::arithmetic::div_mod::lemma_small_mod(d as nat, h as nat);
    } else {
        vstd::arithmetic::div_mod::lemma_mod_add_multiples_vanish(d, h);
        vstd::arithmetic::div_mod::lemma_small_mod((d + h) as nat, h as nat);
    }
}

/// However often an image scrolls, of the ring only as many rows change as
/// there were scrolls, and these are the newest; the image counts every scroll
/// as a change and none as a rebuild.
pub proof fn scrolls_change_the_newest_rows_only(
    images: Seq<WaterfallImage>,
    rows: Seq<Seq<Shade>>,
    axes: Seq<FrameAxis>,
    row: int,
)
    requires
        images.len() == rows.len() + 1,
        axes.len() == rows.len(),
        rows.len() <= u64::MAX,
        forall|i: int| 0 <= i < images.len() ==> (#[trigger] images[i]).wf(),
        forall|i: int|
            0 <= i < rows.len() ==> images[i + 1].scrolled_by(
                images[i],
                #[trigger] rows[i],
                axes[i],
            ),
        0 <= row < images[0].height,
    ensures
        images.last().same_frame(images[0]),
        images.last().age(row) >= rows.len() ==> images.last().ring_row(row) == images[0].ring_row(
            row,
        ),
        images.last().generation == images[0].generation.wrapping_add(rows.len() as u64),
        images.last().rebuilds == images[0].rebuilds,
    decreases rows.len(),
{
    if rows.len() > 0 {
        let n = rows.len() - 1;
        let a = images[n];
        let b = images[n + 1];
        let earlier = images.drop_last();
        assert forall|i: int| 0 <= i < n implies earlier[i + 1].scrolled_by(
            earlier[i],
            #[trigger] rows.drop_last()[i],
            axes.drop_last()[i],
        ) by {
            assert(images[i + 1].scrolled_by(images[i], rows[i], axes[i]));
        }
        scrolls_change_the_newest_rows_only(earlier, rows.drop_last(), axes.drop_last(), row);
        assert(b.scrolled_by(a, rows[n], axes[n]));
        if n > 0 {
            assert(images[n].scrolled_by(images[n - 1], rows[n - 1], axes[n - 1]));
        }
        age_of(a, row);
        age_of(b, row);
        going_round(a.head as int, a.height - 1, a.height as int);
    }
}

/// Measured silence and no measurement look different: in either ramp the
/// colour of no intensity is not the colour an image gives to columns nobody
/// measured.
pub proof fn silence_is_not_missing_data(no_data: [u8; 3])
    requires
        no_data@ == seq![26u8, 30, 34],
    ensures
        shade_colour(Shade::Signal(0), turbo_stops(), no_data) != shade_colour(
            Shade::NoData,
            turbo_stops(),
            no_data,
        ),
        shade_colour(Shade::Signal(0), mono_stops(), no_data) != shade_colour(
            Shade::NoData,
            mono_stops(),
            no_data,
        ),
{
    assert(held(0) * 9 == 0);
    assert(held(0) * 3 == 0);
    let t = colour_at(turbo_stops(), 0);
    let m = colour_at(mono_stops(), 0);
    assert(t[0] == 12);
    assert(m[0] == 8);
}

/// A mixture of two values is the nearest one to its place between them: `part`
/// of the whole way from the first to the second.
pub proof fn a_mixture_is_the_nearest(a: u8, b: u8, part: int)
    requires
        0 <= part <= 16777216,
    ensures
        ({
            let exact = a * (16777216 - part) + b * part;
            -16777216 <= 2 * (mixed(a, b, part) * 16777216 - exact) <= 16777216
        }),
{
    let exact = a * (16777216 - part) + b * part;
    assert(a * 16777216 + (b - a) * part == exact) by (nonlinear_arith)
        requires
            exact == a * (16777216 - part) + b * part,
    ;
    assert(FULL == 16777216);
    assert(mixed(a, b, part) == (2 * exact + 16777216) / 33554432);
}

/// An intensity between two stops of a palette has a colour between theirs, in
/// proportion: stop `i` of `n + 1` stands at `i` of `n` parts of full.
pub proof fn a_colour_lies_in_proportion(stops: Seq<[u8; 3]>, t: int, i: int, c: int)
    requires
        0 <= t < 16777216,
        0 <= i < stops.len() - 1,
        i * 16777216 <= t * (stops.len() - 1) < (i + 1) * 16777216,
        0 <= c < 3,
    ensures
        ({
            let part = t * (stops.len() - 1) - i * 16777216;
            let exact = stops[i]@[c] * (16777216 - part) + stops[i + 1]@[c] * part;
            &&& colour_at(stops, t).len() == 3
            &&& -16777216 <= 2 * (colour_at(stops, t)[c] * 16777216 - exact) <= 16777216
        }),
{
    let scaled = t * (stops.len() - 1);
    let part = scaled - i * 16777216;
    assert(held(t) == t);
    assert(scaled / 16777216 == i && scaled % 16777216 == part) by {
        vstd::arithmetic::div_mod::lemma_fundamental_div_mod_converse(scaled, 16777216, i, part);
    }
    a_mixture_is_the_nearest(stops[i]@[c], stops[i + 1]@[c], part);
    let a = stops[i]@[c] as int;
    let b = stops[i + 1]@[c] as int;
    let exact = a * (16777216 - part) + b * part;
    assert(0 <= exact <= 255 * 16777216) by (nonlinear_arith)
        requires
            exact == a * (16777216 - part) + b * part,
            0 <= part < 16777216,
            0 <= a <= 255,
            0 <= b <= 255,
    ;
}

/// A pixel is four bytes: red, green and blue of what its column shows, and
/// full opacity. A column nobody measured has the colour for that.
pub proof fn a_pixel_has_the_colour_of_its_column(
    row: Seq<Shade>,
    stops: Seq<[u8; 3]>,
    no_data: [u8; 3],
    col: int,
)
    requires
        0 <= col < row.len(),
    ensures
        ({
            let bytes = row_bytes(row, stops, no_data);
            let colour = match row[col] {
                Shade::Signal(t) => colour_at(stops, t as int),
                Shade::NoData => no_data@,
            };
            &&& bytes.len() == 4 * row.len()
            &&& bytes[4 * col] == colour[0]
            &&& bytes[4 * col + 1] == colour[1]
            &&& bytes[4 * col + 2] == colour[2]
            &&& bytes[4 * col + 3] == 255
        }),
{
}

/// Rows of one length stand one after another: byte `k` of row `n` has `n` rows
/// and `k` bytes before it.
pub proof fn rows_stand_one_after_another(rows: Seq<Seq<u8>>, stride: nat, n: int, k: int)
    requires
        forall|i: int| 0 <= i < rows.len() ==> (#[trigger] rows[i]).len() == stride,
        0 <= n < rows.len(),
        0 <= k < stride,
    ensures
        joined(rows).len() == rows.len() * stride,
        0 <= n * stride + k < joined(rows).len(),
        joined(rows)[n * stride + k] == rows[n][k],
    decreases rows.len(),
{
    let less = rows.drop_last();
    rows_joined_len(rows, stride);
    rows_joined_len(less, stride);
    assert(0 <= n * stride + k < rows.len() * stride) by (nonlinear_arith)
        requires
            0 <= n < rows.len(),
            0 <= k < stride,
    ;
    if n < rows.len() - 1 {
        rows_stand_one_after_another(less, stride, n, k);
    } else {
        assert(rows.last() == rows[n]);
    }
}

/// The length of rows of one length.
proof fn rows_joined_len(rows: Seq<Seq<u8>>, stride: nat)
    requires
        forall|i: int| 0 <= i < rows.len() ==> (#[trigger] rows[i]).len() == stride,
    ensures
        joined(rows).len() == rows.len() * stride,
    decreases rows.len(),
{
    if rows.len() > 0 {
        rows_joined_len(rows.drop_last(), stride);
        assert(rows.last() == rows[rows.len() - 1]);
        assert((rows.len() - 1) * stride + stride == rows.len() * stride) by (nonlinear_arith);
    } else {
        assert(rows.len() * stride == 0) by (nonlinear_arith)
            requires
                rows.len() == 0,
        ;
    }
}

/// The row that is shown `n` rows below the newest is the row of the ring `n`
/// places behind the head, going round at the end; its bytes are that part of
/// the image's.
pub proof fn a_shown_row_is_a_part_of_the_image(image: WaterfallImage, n: int, k: int)
    requires
        image.wf(),
        0 <= n < image.height,
        0 <= k < 4 * image.width,
    ensures
        ({
            let row = if image.head + n < image.height {
                image.head + n
            } else {
                image.head + n - image.height
            };
            &&& 0 <= row < image.height
            &&& image.shown().len() == image.height
            &&& image.shown()[n].len() == 4 * image.width
            &&& image.shown()[n][k] == image.pixels@[row * (4 * image.width) + k]
        }),
{
    going_round(image.head as int, n, image.height as int);
    let row = if image.head + n < image.height {
        image.head + n
    } else {
        image.head + n - image.height
    };
    row_is_inside(row, image.stride(), image.height as int);
}

/// The ramps run as they should: one from blue to red, the other from dark to
/// light in every channel.
pub proof fn the_ramps_run_from_weak_to_strong(c: int, i: int)
    requires
        0 <= c < 3,
        0 <= i < 3,
    ensures
        turbo_stops()[0]@[2] > turbo_stops()[0]@[0],
        turbo_stops()[0]@[2] > turbo_stops()[0]@[1],
        turbo_stops().last()@[0] > turbo_stops().last()@[1],
        turbo_stops().last()@[0] > turbo_stops().last()@[2],
        mono_stops().len() == 4,
        mono_stops()[i]@[c] < mono_stops()[i + 1]@[c],
{
}

/// Every frame that is pushed fills one more row, until all are.
pub proof fn every_frame_fills_a_row(image: WaterfallImage, count: int)
    requires
        image.wf(),
        0 <= count,
    ensures
        image.rows_filled + count <= image.height ==> image.filled_after(count)
            == image.rows_filled + count,
        image.rows_filled + count > image.height ==> image.filled_after(count) == image.height,
{
}

} // verus!
