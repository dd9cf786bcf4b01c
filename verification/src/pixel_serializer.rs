//! Serialization of a pixel/color sequence into frame buffer chunks.
//!
//! Given a rectangle already clipped to the panel and one 4-bit gray value
//! per covered point (row-major), the serializer emits `(AreaImgInfo,
//! buffer)` chunks, top to bottom, each covering as many whole rows as fit
//! into the configured staging buffer size.
//!
//! Packing: two pixels per byte (low nibble first), two bytes per 16-bit
//! word; within each word the two bytes are swapped relative to naive index
//! order to match the controller's little-endian word layout (byte index =
//! word-relative index XOR 1). Every row starts at the word boundary obtained
//! by rounding the rectangle's left edge down to a multiple of four pixels;
//! padding pixels inside such an edge word are left zero.
//!
//! If the source sequence covers fewer points than the rectangle, the
//! serializer stops early: complete rows are emitted as usual, and a last,
//! partially covered row is emitted as a final chunk whose area width is
//! reduced to the number of pixels actually supplied for that row.

use vstd::prelude::*;

use crate::area_serializer::{chunk_heights, spec_bytes_per_row};
use crate::geometry::Rect;
use crate::serialization_helper::{get_entires_per_row, spec_entries_per_row};
use crate::{AreaImgInfo, Error};

verus! {

/// One drawable pixel: its panel position and its 4-bit gray value.
#[derive(Clone, Copy, PartialEq, Eq, Structural, Debug)]
pub struct Px {
    /// x position on the panel
    pub x: u16,
    /// y position on the panel
    pub y: u16,
    /// 4-bit gray value
    pub color: u8,
}

/// The pixel sequence covers the rectangle at `(x, y)` of width `w` in
/// row-major order, one entry per point, possibly stopping early; all colors
/// are 4-bit values.
pub open spec fn px_wf(x: int, y: int, w: int, h: int, pixels: Seq<Px>) -> bool {
    &&& pixels.len() <= w * h
    &&& forall|i: int|
        0 <= i < pixels.len() ==> {
            &&& (#[trigger] pixels[i]).x == x + i % w
            &&& pixels[i].y == y + i / w
            &&& pixels[i].color < 16
        }
}

/// The 4-bit gray value serialized for panel column `px` of (area-relative)
/// row `row`: the supplied color if the pixel sequence covers that point,
/// zero for alignment padding and for points past the end of the sequence.
pub open spec fn spec_nibble(pixels: Seq<Px>, x: int, w: int, row: int, px: int) -> u8 {
    if x <= px < x + w && 0 <= row * w + (px - x) < pixels.len() {
        pixels[row * w + (px - x)].color
    } else {
        0
    }
}

/// Byte `j` of a chunk that starts at (area-relative) row `row0` and packs
/// `bpr` bytes per row: the byte holds two horizontally adjacent pixels of
/// row `row0 + j / bpr`, low nibble the even column, and sits at an offset
/// whose word-relative byte index is swapped (XOR 1) against naive order.
pub open spec fn spec_chunk_byte(
    pixels: Seq<Px>,
    x: int,
    w: int,
    row0: int,
    bpr: int,
    j: int,
) -> u8 {
    let row = row0 + j / bpr;
    let b = j % bpr;
    let n = if b % 2 == 0 {
        b + 1
    } else {
        b - 1
    };
    let x0 = (x - x % 4) + 2 * n;
    (spec_nibble(pixels, x, w, row, x0) + 16 * spec_nibble(pixels, x, w, row, x0 + 1)) as u8
}

/// Serializer turning a sequence of pixel colors over a rectangle into
/// packed frame buffer chunks. Construct with [`PixelSerializer::new`], then
/// call [`PixelSerializer::next_chunk`] until it returns `None`.
#[derive(Debug)]
pub struct PixelSerializer {
    /// left edge of the (clipped) target rectangle, panel coordinates
    pub area_x: u16,
    /// top edge of the target rectangle
    pub area_y: u16,
    /// width of the target rectangle
    pub area_w: u16,
    /// height of the target rectangle
    pub area_h: u16,
    /// the supplied pixels, row-major over the rectangle
    pub pixels: Vec<Px>,
    /// full rows emitted per chunk, except for a shorter final chunk
    pub rows_per_step: u16,
    /// bytes of one packed full-width row, including alignment padding
    pub bytes_per_row: usize,
    /// number of rows already emitted
    pub row: u16,
}

impl PixelSerializer {
    /// Number of rows fully covered by the pixel sequence.
    pub open spec fn full_rows(&self) -> int {
        self.pixels@.len() as int / self.area_w as int
    }

    /// Number of pixels supplied for the last, partially covered row.
    pub open spec fn partial(&self) -> int {
        self.pixels@.len() as int % self.area_w as int
    }

    /// Total number of rows that will be emitted: all full rows, plus one
    /// narrower row if the sequence stops mid-row.
    pub open spec fn rows_limit(&self) -> int {
        self.full_rows() + if self.partial() > 0 {
            1int
        } else {
            0int
        }
    }

    /// Internal consistency of the serializer state.
    pub open spec fn wf(&self) -> bool {
        &&& self.area_w >= 1
        &&& self.area_h >= 1
        &&& self.rows_per_step >= 1
        &&& self.area_y + self.area_h <= u16::MAX
        &&& self.bytes_per_row == spec_bytes_per_row(self.area_x as int, self.area_w as int)
        &&& px_wf(
            self.area_x as int,
            self.area_y as int,
            self.area_w as int,
            self.area_h as int,
            self.pixels@,
        )
        &&& self.row as int <= self.rows_limit()
    }

    /// Create a serializer for `area` and the given row-major pixel
    /// sequence, staging at most `size` bytes per chunk.
    ///
    /// Fails with [`Error::InsufficientBufferCapacity`] exactly when the
    /// buffer cannot hold even one packed full-width row.
    pub fn new(area: &Rect, pixels: Vec<Px>, size: usize) -> (r: Result<PixelSerializer, Error>)
        requires
            size % 2 == 0,
            area.x >= 0,
            area.y >= 0,
            area.width >= 1,
            area.height >= 1,
            area.right() <= u16::MAX,
            area.bottom() <= u16::MAX,
            px_wf(area.x as int, area.y as int, area.width as int, area.height as int, pixels@),
        ensures
            r is Ok <==> size >= spec_bytes_per_row(area.x as int, area.width as int),
            r is Err ==> r == Err::<PixelSerializer, Error>(Error::InsufficientBufferCapacity),
            r is Ok ==> {
                let s = r.unwrap();
                &&& s.wf()
                &&& s.area_x == area.x
                &&& s.area_y == area.y
                &&& s.area_w == area.width
                &&& s.area_h == area.height
                &&& s.pixels@ == pixels@
                &&& s.row == 0
                &&& s.rows_per_step as int == if size as int / spec_bytes_per_row(
                    area.x as int,
                    area.width as int,
                ) <= area.height as int {
                    size as int / spec_bytes_per_row(area.x as int, area.width as int)
                } else {
                    area.height as int
                }
            },
    {
        let entries_per_row: usize = get_entires_per_row(area) as usize * 2;
        proof {
            assert(entries_per_row >= 2);
        }
        let quotient: usize = size / entries_per_row;
        proof {
            assert(quotient == 0 <==> size < entries_per_row) by (nonlinear_arith)
                requires
                    entries_per_row >= 1,
                    quotient == size as int / entries_per_row as int,
                    size >= 0,
            ;
        }
        if quotient == 0 {
            return Err(Error::InsufficientBufferCapacity);
        }
        let rows_per_step: u16 = if quotient <= area.height as usize {
            quotient as u16
        } else {
            area.height as u16
        };
        let s = PixelSerializer {
            area_x: area.x as u16,
            area_y: area.y as u16,
            area_w: area.width as u16,
            area_h: area.height as u16,
            pixels,
            rows_per_step,
            bytes_per_row: entries_per_row,
            row: 0,
        };
        proof {
            assert(s.rows_limit() >= 0) by (nonlinear_arith)
                requires
                    s.area_w >= 1,
                    s.pixels@.len() >= 0,
                    s.full_rows() == s.pixels@.len() as int / s.area_w as int,
                    s.partial() == s.pixels@.len() as int % s.area_w as int,
                    s.rows_limit() == s.full_rows() + if s.partial() > 0 {
                        1int
                    } else {
                        0int
                    },
            ;
        }
        Ok(s)
    }

    /// The supplied color for column `px` of (area-relative) row `row_abs`,
    /// or zero where the sequence does not cover that point.
    fn nibble(&self, row_abs: usize, px: usize) -> (r: u8)
        requires
            px_wf(
                self.area_x as int,
                self.area_y as int,
                self.area_w as int,
                self.area_h as int,
                self.pixels@,
            ),
            self.area_w >= 1,
            row_abs <= u16::MAX,
        ensures
            r == spec_nibble(
                self.pixels@,
                self.area_x as int,
                self.area_w as int,
                row_abs as int,
                px as int,
            ),
            r < 16,
    {
        let x = self.area_x as usize;
        let w = self.area_w as usize;
        if px >= x && px < x + w {
            proof {
                assert(row_abs * w + (px - x) < 0x1_0000_0000) by (nonlinear_arith)
                    requires
                        0 <= row_abs <= 0xFFFF,
                        1 <= w <= 0xFFFF,
                        x <= px < x + w,
                ;
            }
            let idx: usize = row_abs * w + (px - x);
            if idx < self.pixels.len() {
                self.pixels[idx].color
            } else {
                0
            }
        } else {
            0
        }
    }

    /// Pack `height` rows starting at (area-relative) row `row0` into a
    /// fresh buffer of `bpr` bytes per row.
    fn pack_rows(&self, row0: u16, height: u16, bpr: usize) -> (buf: Vec<u8>)
        requires
            px_wf(
                self.area_x as int,
                self.area_y as int,
                self.area_w as int,
                self.area_h as int,
                self.pixels@,
            ),
            self.area_w >= 1,
            height >= 1,
            row0 + height <= u16::MAX,
            2 <= bpr <= 40000,
            bpr % 2 == 0,
        ensures
            buf@.len() == bpr * height,
            buf@.len() % 2 == 0,
            forall|j: int|
                0 <= j < buf@.len() ==> buf@[j] == spec_chunk_byte(
                    self.pixels@,
                    self.area_x as int,
                    self.area_w as int,
                    row0 as int,
                    bpr as int,
                    j,
                ),
    {
        proof {
            assert(bpr * height <= 40000 * 65535) by (nonlinear_arith)
                requires
                    0 <= bpr <= 40000,
                    0 <= height <= 65535,
            ;
            let e = bpr as int / 2;
            assert(bpr * (height as int) == (e * height) * 2) by (nonlinear_arith)
                requires
                    bpr == 2 * e,
            ;
            vstd::arithmetic::div_mod::lemma_mod_multiples_basic(e * (height as int), 2);
        }
        let total: usize = bpr * height as usize;
        let al: usize = (self.area_x as usize / 4) * 4;
        let mut buf: Vec<u8> = Vec::new();
        let mut j: usize = 0;
        while j < total
            invariant
                buf@.len() == j,
                j <= total,
                total == bpr * height,
                al == self.area_x as int - self.area_x as int % 4,
                px_wf(
                    self.area_x as int,
                    self.area_y as int,
                    self.area_w as int,
                    self.area_h as int,
                    self.pixels@,
                ),
                self.area_w >= 1,
                height >= 1,
                row0 + height <= u16::MAX,
                2 <= bpr <= 40000,
                bpr % 2 == 0,
                forall|jj: int|
                    0 <= jj < j ==> buf@[jj] == spec_chunk_byte(
                        self.pixels@,
                        self.area_x as int,
                        self.area_w as int,
                        row0 as int,
                        bpr as int,
                        jj,
                    ),
            decreases total - j,
        {
            let r_rel: usize = j / bpr;
            let b: usize = j % bpr;
            proof {
                assert(r_rel < height && b < bpr) by (nonlinear_arith)
                    requires
                        0 <= j < bpr * height,
                        bpr >= 1,
                        r_rel == j as int / bpr as int,
                        b == j as int % bpr as int,
                ;
            }
            let n: usize = if b % 2 == 0 {
                b + 1
            } else {
                b - 1
            };
            let x0: usize = al + 2 * n;
            let row_abs: usize = row0 as usize + r_rel;
            let lo = self.nibble(row_abs, x0);
            let hi = self.nibble(row_abs, x0 + 1);
            buf.push(lo + 16 * hi);
            j = j + 1;
        }
        buf
    }

    /// Emit the next chunk: the area it covers and the packed buffer, or
    /// `None` once every supplied pixel has been emitted.
    ///
    /// While full rows remain, a chunk covers `min(rows_per_step,
    /// remaining full rows)` rows at the full area width, starting at the
    /// row where the previous chunk ended. If the pixel sequence stops
    /// mid-row, one final chunk follows covering that single row, with its
    /// area width reduced to the number of supplied pixels and its buffer
    /// sized for that narrower row.
    pub fn next_chunk(&mut self) -> (r: Option<(AreaImgInfo, Vec<u8>)>)
        requires
            old(self).wf(),
        ensures
            final(self).wf(),
            final(self).area_x == old(self).area_x,
            final(self).area_y == old(self).area_y,
            final(self).area_w == old(self).area_w,
            final(self).area_h == old(self).area_h,
            final(self).pixels@ == old(self).pixels@,
            final(self).rows_per_step == old(self).rows_per_step,
            final(self).bytes_per_row == old(self).bytes_per_row,
            r is None <==> old(self).row as int == old(self).rows_limit(),
            r is None ==> final(self).row == old(self).row,
            r is Some ==> final(self).row > old(self).row,
            r is Some ==> r.unwrap().1@.len() % 2 == 0,
            (r is Some && old(self).row < old(self).full_rows()) ==> {
                let (info, buf) = r.unwrap();
                &&& info.area_x == old(self).area_x
                &&& info.area_y == old(self).area_y + old(self).row
                &&& info.area_w == old(self).area_w
                &&& info.area_h as int == chunk_heights(
                    old(self).full_rows() - old(self).row,
                    old(self).rows_per_step as int,
                )[0]
                &&& final(self).row == old(self).row + info.area_h
                &&& buf@.len() == old(self).bytes_per_row * info.area_h
                &&& forall|j: int|
                    0 <= j < buf@.len() ==> buf@[j] == spec_chunk_byte(
                        old(self).pixels@,
                        old(self).area_x as int,
                        old(self).area_w as int,
                        old(self).row as int,
                        old(self).bytes_per_row as int,
                        j,
                    )
            },
            (r is Some && old(self).row >= old(self).full_rows()) ==> {
                let (info, buf) = r.unwrap();
                &&& info.area_x == old(self).area_x
                &&& info.area_y == old(self).area_y + old(self).row
                &&& info.area_w as int == old(self).partial()
                &&& info.area_h == 1
                &&& final(self).row == old(self).row + 1
                &&& buf@.len() == 2 * spec_entries_per_row(
                    old(self).area_x as int,
                    old(self).partial(),
                )
                &&& forall|j: int|
                    0 <= j < buf@.len() ==> buf@[j] == spec_chunk_byte(
                        old(self).pixels@,
                        old(self).area_x as int,
                        old(self).area_w as int,
                        old(self).row as int,
                        buf@.len() as int,
                        j,
                    )
            },
    {
        let k: usize = self.pixels.len();
        let w: usize = self.area_w as usize;
        let full_rows: usize = k / w;
        let partial: usize = k % w;
        proof {
            assert(full_rows <= self.area_h && (partial > 0 ==> full_rows < self.area_h))
                by (nonlinear_arith)
                requires
                    1 <= w <= 0xFFFF,
                    0 <= k <= w * self.area_h,
                    0 <= self.area_h <= 0xFFFF,
                    full_rows == k as int / w as int,
                    partial == k as int % w as int,
            ;
        }
        let limit: usize = full_rows + if partial > 0 {
            1
        } else {
            0
        };
        if self.row as usize >= limit {
            return None;
        }
        if (self.row as usize) < full_rows {
            let remaining: usize = full_rows - self.row as usize;
            let height: u16 = if self.rows_per_step as usize <= remaining {
                self.rows_per_step
            } else {
                remaining as u16
            };
            let buf = self.pack_rows(self.row, height, self.bytes_per_row);
            let info = AreaImgInfo {
                area_x: self.area_x,
                area_y: self.area_y + self.row,
                area_w: self.area_w,
                area_h: height,
            };
            self.row = self.row + height;
            Some((info, buf))
        } else {
            let entries: usize = ((partial + (self.area_x as usize % 4)) + 3) / 4;
            let bpr_p: usize = entries * 2;
            let buf = self.pack_rows(self.row, 1, bpr_p);
            let info = AreaImgInfo {
                area_x: self.area_x,
                area_y: self.area_y + self.row,
                area_w: partial as u16,
                area_h: 1,
            };
            self.row = self.row + 1;
            Some((info, buf))
        }
    }
}

/// Index into the color sequence of the point of the *clipped* rectangle
/// `clip` with row-major index `t`: the colors are supplied row-major over
/// the *requested* rectangle `area`, so clipped-off points consume color
/// entries without producing pixels.
pub open spec fn spec_src_index(area: Rect, clip: Rect, t: int) -> int {
    (clip.y - area.y + t / clip.width as int) * area.width + (clip.x - area.x) + t
        % clip.width as int
}

/// The color index grows strictly along the clipped rectangle's row-major
/// order, since the clipped rectangle is a sub-grid of the requested one.
proof fn lemma_src_index_increases(area: Rect, clip: Rect, s: int, t: int)
    requires
        1 <= clip.width,
        clip.width <= area.width,
        0 <= s < t,
    ensures
        spec_src_index(area, clip, s) < spec_src_index(area, clip, t),
{
    let cw = clip.width as int;
    let aw = area.width as int;
    assert((clip.y - area.y + s / cw) * aw + (clip.x - area.x) + s % cw < (clip.y - area.y + t
        / cw) * aw + (clip.x - area.x) + t % cw) by (nonlinear_arith)
        requires
            1 <= cw <= aw,
            0 <= s < t,
            cw == clip.width as int,
            aw == area.width as int,
    ;
}

/// What [`convert_color_to_pixel_iterator`] returns: exactly the points of
/// `area ∩ bounding_box` in row-major order, truncated where the color
/// sequence runs out, each point carrying the color of its row-major index
/// in the *requested* rectangle `area`.
pub open spec fn convert_post(area: Rect, bounding_box: Rect, colors: Seq<u8>, r: Seq<Px>) -> bool {
    let clip = Rect::spec_intersection(area, bounding_box);
    &&& px_wf(clip.x as int, clip.y as int, clip.width as int, clip.height as int, r)
    &&& forall|t: int|
        0 <= t < r.len() ==> (#[trigger] r[t]).color == colors[spec_src_index(area, clip, t)]
    &&& forall|t: int|
        0 <= t < clip.width * clip.height ==> ((t < r.len()) <==> #[trigger] spec_src_index(
            area,
            clip,
            t,
        ) < colors.len())
}

/// Combine the color for each pixel of `area` (row-major, one color per
/// point) with its position, dropping every point that lies outside the
/// drawable region `area ∩ bounding_box`.
///
/// The result is exactly the clipped rectangle's points in row-major order,
/// truncated where the color sequence runs out, each carrying the color of
/// its *requested-area* index.
pub fn convert_color_to_pixel_iterator(area: &Rect, bounding_box: &Rect, colors: &Vec<u8>) -> (r:
    Vec<Px>)
    requires
        area.width <= i32::MAX,
        area.height <= i32::MAX,
        area.right() <= i32::MAX,
        area.bottom() <= i32::MAX,
        bounding_box.x >= 0,
        bounding_box.y >= 0,
        bounding_box.width <= i32::MAX,
        bounding_box.height <= i32::MAX,
        bounding_box.right() <= u16::MAX,
        bounding_box.bottom() <= u16::MAX,
        colors@.len() <= u32::MAX,
        forall|i: int| 0 <= i < colors@.len() ==> colors@[i] < 16,
    ensures
        convert_post(*area, *bounding_box, colors@, r@),
{
    let clip = area.intersection(bounding_box);
    let mut out: Vec<Px> = Vec::new();
    if clip.width == 0 || clip.height == 0 {
        return out;
    }
    let cw: usize = clip.width as usize;
    let ch: usize = clip.height as usize;
    proof {
        assert(cw * ch <= 0xFFFF * 0xFFFF) by (nonlinear_arith)
            requires
                0 <= cw <= 0xFFFF,
                0 <= ch <= 0xFFFF,
        ;
    }
    let total: usize = cw * ch;
    let mut t: usize = 0;
    while t < total
        invariant
            clip == Rect::spec_intersection(*area, *bounding_box),
            !clip.spec_is_empty(),
            cw == clip.width,
            ch == clip.height,
            total == cw * ch,
            1 <= cw <= 0xFFFF,
            1 <= ch <= 0xFFFF,
            clip.x >= area.x,
            clip.y >= area.y,
            clip.x >= 0,
            clip.y >= 0,
            clip.right() <= area.right(),
            clip.bottom() <= area.bottom(),
            clip.right() <= u16::MAX,
            clip.bottom() <= u16::MAX,
            clip.width <= area.width,
            area.width <= i32::MAX,
            area.height <= i32::MAX,
            colors@.len() <= u32::MAX,
            forall|i: int| 0 <= i < colors@.len() ==> colors@[i] < 16,
            t <= total,
            out@.len() <= t,
            forall|s: int|
                0 <= s < t ==> ((s < out@.len()) <==> #[trigger] spec_src_index(*area, clip, s)
                    < colors@.len()),
            forall|u: int|
                0 <= u < out@.len() ==> {
                    &&& (#[trigger] out@[u]).x == clip.x + u % clip.width as int
                    &&& out@[u].y == clip.y + u / clip.width as int
                    &&& out@[u].color == colors@[spec_src_index(*area, clip, u)]
                    &&& out@[u].color < 16
                },
        decreases total - t,
    {
        let trow: usize = t / cw;
        let tcol: usize = t % cw;
        proof {
            assert(trow < ch && tcol < cw) by (nonlinear_arith)
                requires
                    0 <= t < cw * ch,
                    cw >= 1,
                    trow == t as int / cw as int,
                    tcol == t as int % cw as int,
            ;
        }
        let py: usize = clip.y as usize + trow;
        let px: usize = clip.x as usize + tcol;
        proof {
            assert(py < 0x10000 && px < 0x10000);
            assert(0 <= (py as int - area.y as int) * (area.width as int) + (px as int
                - area.x as int) < 0x7000_0000_0000_0000) by (nonlinear_arith)
                requires
                    area.y <= py < 0x10000,
                    area.x <= px < 0x10000,
                    area.y >= i32::MIN,
                    area.x >= i32::MIN,
                    0 <= area.width <= i32::MAX,
            ;
        }
        let src_i: i64 = (py as i64 - area.y as i64) * area.width as i64 + (px as i64
            - area.x as i64);
        proof {
            assert(src_i == spec_src_index(*area, clip, t as int));
        }
        if src_i < colors.len() as i64 {
            proof {
                if out@.len() < t {
                    let u = out@.len() as int;
                    lemma_src_index_increases(*area, clip, u, t as int);
                    assert(false);
                }
            }
            out.push(Px { x: px as u16, y: py as u16, color: colors[src_i as usize] });
        }
        t = t + 1;
    }
    out
}

} // verus!
