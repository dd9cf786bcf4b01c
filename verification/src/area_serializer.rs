//! Serialization of a uniform-color rectangle into frame buffer chunks.
//!
//! Given a rectangle already clipped to the panel and a single 4-bit gray
//! value, the serializer emits a sequence of `(AreaImgInfo, buffer)` chunks,
//! top to bottom, each covering as many whole rows as fit into the configured
//! staging buffer size. The buffer bytes all carry the fill color in both
//! nibbles: pixels of the enclosing alignment words outside the rectangle are
//! not independently addressable, and a fill writes the whole word anyway.

use vstd::prelude::*;

use crate::geometry::Rect;
use crate::serialization_helper::{get_entires_per_row, spec_entries_per_row};
use crate::{AreaImgInfo, Error};

verus! {

/// Bytes per packed row: two bytes per 16-bit word entry.
pub open spec fn spec_bytes_per_row(x: int, w: int) -> int {
    2 * spec_entries_per_row(x, w)
}

/// The chunk heights a serializer emits for a rectangle of height `h` when at
/// most `step` rows fit one staging buffer: `step` rows at a time, the last
/// chunk taking whatever remains.
pub open spec fn chunk_heights(h: int, step: int) -> Seq<int>
    decreases h,
{
    if h <= 0 || step < 1 {
        Seq::empty()
    } else if h <= step {
        seq![h]
    } else {
        seq![step] + chunk_heights(h - step, step)
    }
}

/// Sum of a sequence of integers.
pub open spec fn sum_of(s: Seq<int>) -> int
    decreases s.len(),
{
    if s.len() == 0 {
        0
    } else {
        s[0] + sum_of(s.drop_first())
    }
}

/// Law: for any rectangle height and any buffer cap, the emitted chunk
/// heights are all positive, none exceeds the per-chunk row budget, and they
/// sum exactly to the rectangle's height. Together with the serializers'
/// contracts (each chunk starts at the row where the previous one ended) this
/// says the chunks are disjoint, ordered top to bottom, and cover the whole
/// rectangle.
pub proof fn lemma_chunk_heights_cover(h: int, step: int)
    requires
        step >= 1,
        h >= 0,
    ensures
        sum_of(chunk_heights(h, step)) == h,
        forall|i: int|
            0 <= i < chunk_heights(h, step).len() ==> 0 < #[trigger] chunk_heights(h, step)[i]
                <= step,
    decreases h,
{
    assert(sum_of(Seq::<int>::empty()) == 0);
    if h <= 0 {
    } else if h <= step {
        let s = chunk_heights(h, step);
        assert(s == seq![h]);
        assert(s.drop_first() =~= Seq::<int>::empty());
        assert(sum_of(s) == s[0] + sum_of(s.drop_first()));
    } else {
        lemma_chunk_heights_cover(h - step, step);
        let s = chunk_heights(h, step);
        assert(s == seq![step] + chunk_heights(h - step, step));
        assert(s[0] == step);
        assert(s.drop_first() =~= chunk_heights(h - step, step));
        assert(sum_of(s) == s[0] + sum_of(s.drop_first()));
        assert(forall|i: int|
            0 <= i < s.len() ==> #[trigger] s[i] == if i == 0 {
                step
            } else {
                chunk_heights(h - step, step)[i - 1]
            });
    }
}

/// Serializer turning a rectangle of a uniform color into frame buffer
/// chunks. Construct with [`AreaSerializer::new`], then call
/// [`AreaSerializer::next_chunk`] until it returns `None`.
#[derive(Debug)]
pub struct AreaSerializer {
    /// left edge of the (clipped) target rectangle, panel coordinates
    pub area_x: u16,
    /// top edge of the target rectangle
    pub area_y: u16,
    /// width of the target rectangle
    pub area_w: u16,
    /// height of the target rectangle
    pub area_h: u16,
    /// rows emitted per chunk, except for a shorter final chunk
    pub rows_per_step: u16,
    /// bytes of one packed row, including alignment padding
    pub bytes_per_row: usize,
    /// fill value: the 4-bit color in both nibbles
    pub fill: u8,
    /// number of rows already emitted
    pub row: u16,
}

impl AreaSerializer {
    /// Internal consistency of the serializer state.
    pub open spec fn wf(&self) -> bool {
        &&& self.area_w >= 1
        &&& self.area_h >= 1
        &&& self.rows_per_step >= 1
        &&& self.row <= self.area_h
        &&& self.area_y + self.area_h <= u16::MAX
        &&& self.bytes_per_row == spec_bytes_per_row(self.area_x as int, self.area_w as int)
    }

    /// The heights of the chunks still to be emitted.
    pub open spec fn remaining_heights(&self) -> Seq<int> {
        chunk_heights(self.area_h - self.row, self.rows_per_step as int)
    }

    /// Create a serializer for `area`, filled with the 4-bit gray value
    /// `color`, staging at most `buffer_size` bytes per chunk.
    ///
    /// Fails with [`Error::InsufficientBufferCapacity`] exactly when the
    /// buffer cannot hold even one packed row.
    pub fn new(area: &Rect, color: u8, buffer_size: usize) -> (r: Result<AreaSerializer, Error>)
        requires
            color < 16,
            buffer_size % 2 == 0,
            area.x >= 0,
            area.y >= 0,
            area.width >= 1,
            area.height >= 1,
            area.right() <= u16::MAX,
            area.bottom() <= u16::MAX,
        ensures
            r is Ok <==> buffer_size >= spec_bytes_per_row(area.x as int, area.width as int),
            r is Err ==> r == Err::<AreaSerializer, Error>(Error::InsufficientBufferCapacity),
            r is Ok ==> {
                let s = r.unwrap();
                &&& s.wf()
                &&& s.area_x == area.x
                &&& s.area_y == area.y
                &&& s.area_w == area.width
                &&& s.area_h == area.height
                &&& s.fill == color * 16 + color
                &&& s.row == 0
                &&& s.rows_per_step as int == if buffer_size as int / spec_bytes_per_row(
                    area.x as int,
                    area.width as int,
                ) <= area.height as int {
                    buffer_size as int / spec_bytes_per_row(area.x as int, area.width as int)
                } else {
                    area.height as int
                }
            },
    {
        let entries_per_row: usize = get_entires_per_row(area) as usize * 2;
        proof {
            assert(entries_per_row >= 2);
        }
        let quotient: usize = buffer_size / entries_per_row;
        proof {
            assert(quotient == 0 <==> buffer_size < entries_per_row) by (nonlinear_arith)
                requires
                    entries_per_row >= 1,
                    quotient == buffer_size as int / entries_per_row as int,
                    buffer_size >= 0,
            ;
        }
        if quotient == 0 {
            return Err(Error::InsufficientBufferCapacity);
        }
        let rows_per_step: u16 = if quotient <= area.height as usize {
            quotient as u16
        } else {
            area.height as u16
        };
        Ok(
            AreaSerializer {
                area_x: area.x as u16,
                area_y: area.y as u16,
                area_w: area.width as u16,
                area_h: area.height as u16,
                rows_per_step,
                bytes_per_row: entries_per_row,
                fill: color * 16 + color,
                row: 0,
            },
        )
    }

    /// Emit the next chunk: the area it covers and the packed buffer, or
    /// `None` once the whole rectangle has been emitted.
    ///
    /// Each chunk starts at the row where the previous one ended, covers
    /// `remaining_heights()[0]` rows, and its buffer holds exactly
    /// `bytes_per_row` bytes per covered row, every byte the fill value.
    pub fn next_chunk(&mut self) -> (r: Option<(AreaImgInfo, Vec<u8>)>)
        requires
            old(self).wf(),
        ensures
            final(self).wf(),
            final(self).area_x == old(self).area_x,
            final(self).area_y == old(self).area_y,
            final(self).area_w == old(self).area_w,
            final(self).area_h == old(self).area_h,
            final(self).rows_per_step == old(self).rows_per_step,
            final(self).bytes_per_row == old(self).bytes_per_row,
            final(self).fill == old(self).fill,
            r is None <==> old(self).row == old(self).area_h,
            r is None ==> final(self).row == old(self).row,
            r is Some ==> {
                let (info, buf) = r.unwrap();
                &&& info.area_x == old(self).area_x
                &&& info.area_y == old(self).area_y + old(self).row
                &&& info.area_w == old(self).area_w
                &&& info.area_h as int == old(self).remaining_heights()[0]
                &&& final(self).row == old(self).row + info.area_h
                &&& final(self).remaining_heights() == old(self).remaining_heights().drop_first()
                &&& buf@.len() == old(self).bytes_per_row * info.area_h
                &&& buf@.len() % 2 == 0
                &&& forall|i: int| 0 <= i < buf@.len() ==> buf@[i] == old(self).fill
            },
    {
        if self.row == self.area_h {
            return None;
        }
        let remaining: u16 = self.area_h - self.row;
        let height: u16 = if self.rows_per_step <= remaining {
            self.rows_per_step
        } else {
            remaining
        };
        proof {
            assert(self.bytes_per_row <= 2 * ((u16::MAX + 3 + 3) / 4));
            assert(self.bytes_per_row * height <= 32770 * 65535) by (nonlinear_arith)
                requires
                    0 <= self.bytes_per_row <= 32770,
                    0 <= height <= 65535,
            ;
            let e = spec_entries_per_row(self.area_x as int, self.area_w as int);
            assert(self.bytes_per_row * (height as int) == (e * height) * 2) by (nonlinear_arith)
                requires
                    self.bytes_per_row == 2 * e,
            ;
            vstd::arithmetic::div_mod::lemma_mod_multiples_basic(e * (height as int), 2);
        }
        let total: usize = self.bytes_per_row * height as usize;
        let mut buf: Vec<u8> = Vec::new();
        while buf.len() < total
            invariant
                buf@.len() <= total,
                forall|i: int| 0 <= i < buf@.len() ==> buf@[i] == self.fill,
            decreases total - buf@.len(),
        {
            buf.push(self.fill);
        }
        let info = AreaImgInfo {
            area_x: self.area_x,
            area_y: self.area_y + self.row,
            area_w: self.area_w,
            area_h: height,
        };
        self.row = self.row + height;
        proof {
            let h0 = old(self).area_h - old(self).row;
            let step = old(self).rows_per_step as int;
            if h0 > step {
                assert(old(self).remaining_heights().drop_first() =~= chunk_heights(
                    h0 - step,
                    step,
                ));
            } else {
                assert(old(self).remaining_heights().drop_first() =~= Seq::<int>::empty());
            }
        }
        Some((info, buf))
    }
}

} // verus!
