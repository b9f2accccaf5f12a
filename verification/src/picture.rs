//! A decoded planar YUV 4:2:0 picture and its conversion to packed RGB.

use crate::color::{blue, green, red, yuv_to_rgb};
use vstd::arithmetic::div_mod::{
    lemma_div_by_multiple, lemma_div_by_multiple_is_strongly_ordered, lemma_div_pos_is_pos,
    lemma_fundamental_div_mod_converse, lemma_mod_bound,
};
use vstd::prelude::*;

verus! {

/// Geometry of a picture held in system memory, as the engine reports it.
#[allow(non_snake_case)]
#[derive(Debug, Clone, Copy)]
pub struct SSysMEMBuffer {
    /// Width of the visible picture in pixels.
    pub iWidth: i32,
    /// Height of the visible picture in pixels.
    pub iHeight: i32,
    /// Pixel format tag.
    pub iFormat: i32,
    /// Bytes from one row to the next: first of the luma plane, then of each chroma plane.
    pub iStride: [i32; 2],
}

impl SSysMEMBuffer {
    /// Size of the luma plane: one row stride for each row.
    pub open spec fn luma_len(&self) -> int {
        self.iHeight * self.iStride[0]
    }

    /// Size of either chroma plane: one row stride for every two rows.
    pub open spec fn chroma_len(&self) -> int {
        self.iHeight * self.iStride[1] / 2
    }

    /// Neither product of the height and a stride is negative or exceeds what the
    /// engine can count.
    pub open spec fn lengths_in_range(&self) -> bool {
        &&& 0 <= self.iHeight * self.iStride[0] <= i32::MAX
        &&& 0 <= self.iHeight * self.iStride[1] <= i32::MAX
    }

    /// Sizes of the luma plane and of either chroma plane, where the geometry
    /// allows to name them.
    pub fn plane_lengths(&self) -> (r: Option<(usize, usize)>)
        ensures
            match r {
                Some((y_len, uv_len)) => {
                    &&& self.lengths_in_range()
                    &&& y_len == self.luma_len()
                    &&& uv_len == self.chroma_len()
                },
                None => !self.lengths_in_range(),
            },
    {
        let h: i64 = self.iHeight as i64;
        let stride_y: i64 = self.iStride[0] as i64;
        let stride_uv: i64 = self.iStride[1] as i64;
        assert(-0x4000_0000_0000_0000 <= h * stride_y <= 0x4000_0000_0000_0000
            && -0x4000_0000_0000_0000 <= h * stride_uv <= 0x4000_0000_0000_0000)
            by (nonlinear_arith)
            requires
                -0x8000_0000 <= h <= 0x7fff_ffff,
                -0x8000_0000 <= stride_y <= 0x7fff_ffff,
                -0x8000_0000 <= stride_uv <= 0x7fff_ffff,
        ;
        let luma: i64 = h * stride_y;
        let chroma: i64 = h * stride_uv;
        if luma < 0 || luma > 0x7fff_ffff || chroma < 0 || chroma > 0x7fff_ffff {
            None
        } else {
            Some((luma as usize, (chroma / 2) as usize))
        }
    }
}

/// One decoded picture: three planes borrowed from the engine, valid until the
/// session is used again.
pub struct DecodedYUV<'a> {
    /// Geometry of the planes.
    pub info: SSysMEMBuffer,
    /// Luma plane, one sample per pixel.
    pub y: &'a [u8],
    /// First chroma plane, one sample per block of two by two pixels.
    pub u: &'a [u8],
    /// Second chroma plane, laid out like the first.
    pub v: &'a [u8],
}

impl<'a> DecodedYUV<'a> {
    /// Width of the visible picture.
    pub open spec fn width(&self) -> int {
        self.info.iWidth as int
    }

    /// Height of the visible picture.
    pub open spec fn height(&self) -> int {
        self.info.iHeight as int
    }

    /// Bytes from one luma row to the next.
    pub open spec fn stride_y(&self) -> int {
        self.info.iStride[0] as int
    }

    /// Bytes from one chroma row to the next.
    pub open spec fn stride_uv(&self) -> int {
        self.info.iStride[1] as int
    }

    /// Where the luma sample of pixel `(i, j)` lies in the luma plane.
    pub open spec fn luma_index(&self, i: int, j: int) -> int {
        j * self.stride_y() + i
    }

    /// Where the chroma samples of pixel `(i, j)` lie in either chroma plane.
    pub open spec fn chroma_index(&self, i: int, j: int) -> int {
        (j / 2) * self.stride_uv() + i / 2
    }

    /// `(i, j)` names a pixel of the visible picture.
    pub open spec fn visible(&self, i: int, j: int) -> bool {
        0 <= i < self.width() && 0 <= j < self.height()
    }

    /// The planes have the sizes that the geometry calls for, and every sample
    /// of a visible pixel lies inside them.
    pub open spec fn wf(&self) -> bool {
        &&& 0 <= self.width() <= self.stride_y()
        &&& 0 <= self.height()
        &&& 0 <= self.stride_uv()
        &&& self.y@.len() == self.height() * self.stride_y()
        &&& self.u@.len() == self.height() * self.stride_uv() / 2
        &&& self.v@.len() == self.u@.len()
        &&& forall|i: int, j: int|
            self.visible(i, j) ==> #[trigger] self.chroma_index(i, j) < self.u@.len()
    }

    /// The colour of pixel `(i, j)` as `(R, G, B)`.
    pub open spec fn pixel(&self, i: int, j: int) -> (u8, u8, u8) {
        let y = self.y@[self.luma_index(i, j)] as int;
        let u = self.u@[self.chroma_index(i, j)] as int;
        let v = self.v@[self.chroma_index(i, j)] as int;
        (red(y, v) as u8, green(y, u, v) as u8, blue(y, u) as u8)
    }

    /// The packed raster of the visible picture: rows from top to bottom, pixels
    /// from left to right, three bytes `R G B` for each.
    pub open spec fn rgb8(&self) -> Seq<u8> {
        Seq::new(
            (self.width() * self.height() * 3) as nat,
            |k: int|
                {
                    let px = self.pixel((k / 3) % self.width(), (k / 3) / self.width());
                    if k % 3 == 0 {
                        px.0
                    } else if k % 3 == 1 {
                        px.1
                    } else {
                        px.2
                    }
                },
        )
    }

    /// Both pictures show the same samples at every visible pixel, whatever their
    /// strides and whatever lies in their padding.
    pub open spec fn same_visible_samples(&self, other: &DecodedYUV) -> bool {
        &&& self.width() == other.width()
        &&& self.height() == other.height()
        &&& forall|i: int, j: int|
            #![trigger self.visible(i, j)]
            self.visible(i, j) ==> {
                &&& self.y@[self.luma_index(i, j)] == other.y@[other.luma_index(i, j)]
                &&& self.u@[self.chroma_index(i, j)] == other.u@[other.chroma_index(i, j)]
                &&& self.v@[self.chroma_index(i, j)] == other.v@[other.chroma_index(i, j)]
            }
    }

    /// Tells whether the planes fit the geometry.
    pub fn is_well_formed(&self) -> (ok: bool)
        ensures
            ok == self.wf(),
    {
        let w: i32 = self.info.iWidth;
        let h: i32 = self.info.iHeight;
        let stride_y: i32 = self.info.iStride[0];
        let stride_uv: i32 = self.info.iStride[1];
        if w < 0 || h < 0 || stride_uv < 0 || stride_y < w {
            return false;
        }
        assert(h * stride_y <= 0x4000_0000_0000_0000 && h * stride_uv <= 0x4000_0000_0000_0000
            && 0 <= h * stride_y && 0 <= h * stride_uv) by (nonlinear_arith)
            requires
                0 <= h <= 0x7fff_ffff,
                0 <= stride_y <= 0x7fff_ffff,
                0 <= stride_uv <= 0x7fff_ffff,
        ;
        let y_len: u64 = (h as u64) * (stride_y as u64);
        let uv_len: u64 = (h as u64) * (stride_uv as u64) / 2;
        if self.y.len() as u64 != y_len || self.u.len() as u64 != uv_len || self.v.len()
            != self.u.len() {
            return false;
        }
        if w > 0 && h > 0 {
            let last_row: u64 = ((h - 1) / 2) as u64;
            let last_column: u64 = ((w - 1) / 2) as u64;
            assert(last_row * stride_uv <= h * stride_uv) by (nonlinear_arith)
                requires
                    0 <= last_row <= h,
                    0 <= stride_uv,
            ;
            let last: u64 = last_row * (stride_uv as u64) + last_column;
            assert(self.visible(w - 1, h - 1));
            assert(self.chroma_index(w - 1, h - 1) == last);
            if last >= uv_len {
                return false;
            }
            assert forall|i: int, j: int| self.visible(i, j) implies #[trigger] self.chroma_index(
                i,
                j,
            ) < self.u@.len() by {
                assert((j / 2) * stride_uv <= last_row * stride_uv) by (nonlinear_arith)
                    requires
                        0 <= j / 2 <= last_row,
                        0 <= stride_uv,
                ;
            }
        }
        true
    }

    /// Width and height of the visible picture.
    pub fn dimensions(&self) -> (d: (usize, usize))
        requires
            0 <= self.width(),
            0 <= self.height(),
        ensures
            d.0 == self.width(),
            d.1 == self.height(),
    {
        (self.info.iWidth as usize, self.info.iHeight as usize)
    }

    /// Writes the packed RGB raster of the picture to the front of `target` and
    /// leaves the rest of `target` as it was.
    pub fn write_rgb8(&self, target: &mut [u8])
        requires
            self.wf(),
            self.width() * self.height() * 3 <= old(target)@.len(),
        ensures
            final(target)@.len() == old(target)@.len(),
            final(target)@.subrange(0, self.rgb8().len() as int) == self.rgb8(),
            final(target)@.subrange(self.rgb8().len() as int, old(target)@.len() as int) == old(
                target,
            )@.subrange(self.rgb8().len() as int, old(target)@.len() as int),
    {
        let (w, h) = self.dimensions();
        let stride_y: usize = self.info.iStride[0] as usize;
        let stride_uv: usize = self.info.iStride[1] as usize;
        let ghost before = target@;
        let ghost raster = self.rgb8();
        assert(0 * w * 3 == 0) by (nonlinear_arith);
        for j in 0..h
            invariant
                self.wf(),
                w == self.width(),
                h == self.height(),
                stride_y == self.stride_y(),
                stride_uv == self.stride_uv(),
                raster == self.rgb8(),
                raster.len() == w * h * 3,
                target@.len() == before.len(),
                raster.len() <= before.len(),
                forall|k: int| 0 <= k < j * w * 3 ==> target@[k] == raster[k],
                forall|k: int| raster.len() <= k < before.len() ==> target@[k] == before[k],
        {
            for i in 0..w
                invariant
                    self.wf(),
                    j < h,
                    w == self.width(),
                    h == self.height(),
                    stride_y == self.stride_y(),
                    stride_uv == self.stride_uv(),
                    raster == self.rgb8(),
                    raster.len() == w * h * 3,
                    target@.len() == before.len(),
                    raster.len() <= before.len(),
                    forall|k: int| 0 <= k < (j * w + i) * 3 ==> target@[k] == raster[k],
                    forall|k: int| raster.len() <= k < before.len() ==> target@[k] == before[k],
            {
                proof {
                    self.lemma_samples_in_range(i as int, j as int);
                    lemma_raster_position(i as int, j as int, w as int, h as int);
                    assert(self.y.len() == self.y@.len() && self.u.len() == self.u@.len());
                    assert(target.len() == target@.len());
                }
                let yv: u8 = self.y[j * stride_y + i];
                let uv_index: usize = (j / 2) * stride_uv + (i / 2);
                let u: u8 = self.u[uv_index];
                let v: u8 = self.v[uv_index];
                let (r, g, b) = yuv_to_rgb(yv, u, v);
                let idx: usize = (j * w + i) * 3;
                target[idx] = r;
                target[idx + 1] = g;
                target[idx + 2] = b;
            }
            assert((j * w + w) * 3 == (j + 1) * w * 3 && (j * w + 0) * 3 == j * w * 3)
                by (nonlinear_arith);
        }
        assert(h * w * 3 == w * h * 3) by (nonlinear_arith);
        assert(target@.subrange(0, raster.len() as int) =~= raster);
        assert(target@.subrange(raster.len() as int, before.len() as int) =~= before.subrange(
            raster.len() as int,
            before.len() as int,
        ));
    }

    /// The samples of a visible pixel lie inside the three planes.
    pub proof fn lemma_samples_in_range(&self, i: int, j: int)
        requires
            self.wf(),
            self.visible(i, j),
        ensures
            0 <= j * self.stride_y(),
            0 <= self.luma_index(i, j) < self.y@.len(),
            0 <= (j / 2) * self.stride_uv(),
            0 <= self.chroma_index(i, j) < self.u@.len(),
            self.chroma_index(i, j) < self.v@.len(),
    {
        let s = self.stride_y();
        let h = self.height();
        assert(0 <= j * s && (j + 1) * s <= h * s && (j + 1) * s == j * s + s)
            by (nonlinear_arith)
            requires
                0 <= j < h,
                0 <= s,
        ;
        let c = self.stride_uv();
        assert(0 <= (j / 2) * c) by (nonlinear_arith)
            requires
                0 <= j / 2,
                0 <= c,
        ;
        assert(self.chroma_index(i, j) < self.u@.len());
    }
}

/// Converts a picture to a fresh packed RGB raster of `width * height * 3` bytes.
pub fn convert(picture: &DecodedYUV) -> (rgb: Vec<u8>)
    requires
        picture.wf(),
        picture.width() * picture.height() * 3 <= usize::MAX,
    ensures
        rgb@ == picture.rgb8(),
{
    let (w, h) = picture.dimensions();
    assert(0 <= w * h <= w * h * 3) by (nonlinear_arith)
        requires
            0 <= w,
            0 <= h,
    ;
    let mut rgb: Vec<u8> = vec![0u8; w * h * 3];
    picture.write_rgb8(rgb.as_mut_slice());
    assert(rgb@ =~= rgb@.subrange(0, rgb@.len() as int));
    rgb
}

/// Padding never shows: two well-formed pictures with the same samples at every
/// visible pixel have the same raster, however their rows are padded.
pub proof fn lemma_rgb8_ignores_padding(p: &DecodedYUV, q: &DecodedYUV)
    requires
        p.wf(),
        q.wf(),
        p.same_visible_samples(q),
    ensures
        p.rgb8() == q.rgb8(),
{
    let w = p.width();
    let h = p.height();
    assert forall|k: int| 0 <= k < p.rgb8().len() implies p.rgb8()[k] == q.rgb8()[k] by {
        lemma_raster_pixel(k, w, h);
        assert(p.visible((k / 3) % w, (k / 3) / w));
    }
    assert(p.rgb8() =~= q.rgb8());
}

/// Byte `k` of a raster `w` wide and `h` high belongs to a pixel inside it.
pub proof fn lemma_raster_pixel(k: int, w: int, h: int)
    requires
        0 <= w,
        0 <= h,
        0 <= k < w * h * 3,
    ensures
        0 <= (k / 3) % w < w,
        0 <= (k / 3) / w < h,
{
    let p = k / 3;
    assert(w > 0) by (nonlinear_arith)
        requires
            0 <= w,
            0 <= h,
            0 < w * h * 3,
    ;
    assert(p < h * w) by (nonlinear_arith)
        requires
            p * 3 <= k,
            k < w * h * 3,
    ;
    lemma_mod_bound(p, w);
    lemma_div_pos_is_pos(p, w);
    lemma_div_by_multiple_is_strongly_ordered(p, h * w, h, w);
    lemma_div_by_multiple(h, w);
}

/// Pixel `(i, j)` of a raster `w` wide and `h` high occupies the three bytes
/// from `(j * w + i) * 3` on, and those positions lead back to `(i, j)`.
pub proof fn lemma_raster_position(i: int, j: int, w: int, h: int)
    requires
        0 <= i < w,
        0 <= j < h,
    ensures
        0 <= j * w,
        0 <= (j * w + i) * 3,
        (j * w + i) * 3 + 3 <= w * h * 3,
        (j * w + i) % w == i,
        (j * w + i) / w == j,
{
    assert(0 <= j * w && (j + 1) * w <= h * w && (j + 1) * w == j * w + w && h * w == w * h
        && w * j == j * w) by (nonlinear_arith)
        requires
            0 <= j < h,
            0 <= w,
    ;
    lemma_fundamental_div_mod_converse(j * w + i, w, j, i);
}

} // verus!
