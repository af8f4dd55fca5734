//! The pixel compositor: palette resolution and merging a frame onto the
//! persistent canvas.

use vstd::prelude::*;
use crate::color::Color;
use crate::color::spec_pack_rgb;
use crate::error::PlaybackError;
use crate::frame::Frame;

verus! {

/// The persistent RGB pixel buffer that accumulates composited frames.
#[derive(Debug, Clone, PartialEq, Eq)]
pub struct Canvas {
    /// Width in pixels.
    pub width: u16,
    /// Height in pixels.
    pub height: u16,
    /// Packed `0x00RRGGBB` pixels, row-major, `width * height` entries.
    pub buffer: Vec<u32>,
}

impl Canvas {
    /// The buffer holds exactly one word per pixel.
    pub open spec fn wf(&self) -> bool {
        self.buffer@.len() == self.width * self.height
    }

    /// A fresh canvas with every pixel set to `fill`.
    pub fn new(width: u16, height: u16, fill: u32) -> (c: Canvas)
        ensures
            c.wf(),
            c.width == width,
            c.height == height,
            forall|i: int| 0 <= i < c.buffer@.len() ==> c.buffer@[i] == fill,
    {
        proof {
            assert((width as int) * (height as int) <= 0xFFFF * 0xFFFF) by (nonlinear_arith)
                requires
                    width <= 0xFFFF,
                    height <= 0xFFFF,
            ;
        }
        let total: usize = (width as usize) * (height as usize);
        let mut buffer: Vec<u32> = Vec::new();
        let mut i: usize = 0;
        while i < total
            invariant
                i <= total,
                buffer@.len() == i,
                forall|j: int| 0 <= j < i ==> buffer@[j] == fill,
            decreases total - i,
        {
            buffer.push(fill);
            i = i + 1;
        }
        Canvas { width, height, buffer }
    }
}

/// The 256-entry color table resolved from raw byte triples: entry `i`
/// packs the `i`-th triple, and every slot past the raw triples holds the
/// default background color.
pub open spec fn spec_palette(raw: Seq<u8>, default_bg: u32) -> Seq<u32> {
    Seq::new(
        256,
        |i: int|
            if i < raw.len() / 3 {
                spec_pack_rgb(raw[3 * i] as int, raw[3 * i + 1] as int, raw[3 * i + 2] as int)
                    as u32
            } else {
                default_bg
            },
    )
}

/// Unpacks a flat sequence of `(r, g, b)` byte triples into the full
/// 256-entry color table, filling the unspecified trailing slots with the
/// caller's default background color.
pub fn fill_palette(raw: &Vec<u8>, default_bg: u32) -> (pal: Vec<u32>)
    requires
        raw@.len() % 3 == 0,
        raw@.len() <= 768,
    ensures
        pal@ == spec_palette(raw@, default_bg),
        pal@.len() == 256,
{
    let colors: usize = raw.len() / 3;
    let mut pal: Vec<u32> = Vec::new();
    let mut i: usize = 0;
    while i < colors
        invariant
            i <= colors,
            colors == raw@.len() / 3,
            raw@.len() % 3 == 0,
            raw@.len() <= 768,
            pal@.len() == i,
            forall|j: int| 0 <= j < i ==> pal@[j] == spec_palette(raw@, default_bg)[j],
        decreases colors - i,
    {
        let r = raw[3 * i];
        let g = raw[3 * i + 1];
        let b = raw[3 * i + 2];
        pal.push(Color::as_u32(r, g, b));
        i = i + 1;
    }
    while i < 256
        invariant
            colors <= i <= 256,
            colors == raw@.len() / 3,
            raw@.len() % 3 == 0,
            raw@.len() <= 768,
            pal@.len() == i,
            forall|j: int| 0 <= j < i ==> pal@[j] == spec_palette(raw@, default_bg)[j],
        decreases 256 - i,
    {
        pal.push(default_bg);
        i = i + 1;
    }
    proof {
        assert(pal@ =~= spec_palette(raw@, default_bg));
    }
    pal
}

/// Whether canvas coordinate `(cx, cy)` falls inside the frame's
/// rectangle.
pub open spec fn spec_in_frame(f: Frame, cx: int, cy: int) -> bool {
    &&& f.left <= cx < f.left + f.width
    &&& f.top <= cy < f.top + f.height
}

/// The palette index the frame holds for canvas coordinate `(cx, cy)`.
pub open spec fn spec_frame_index(f: Frame, cx: int, cy: int) -> u8 {
    f.buffer@[(cy - f.top) * (f.width as int) + (cx - f.left)]
}

/// The overwrite policy: a destination pixel is written when the frame
/// covers it and either this is the first frame or the palette index is
/// not the transparency sentinel `0`.
pub open spec fn spec_writes_pixel(f: Frame, is_first_frame: bool, cx: int, cy: int) -> bool {
    spec_in_frame(f, cx, cy) && (is_first_frame || spec_frame_index(f, cx, cy) != 0)
}

/// The value of canvas pixel `i` after merging the frame: the palette
/// color of the frame's pixel where the policy writes, the old canvas
/// value everywhere else.
pub open spec fn spec_merged_pixel(
    c: Canvas,
    f: Frame,
    pal: Seq<u32>,
    is_first_frame: bool,
    i: int,
) -> u32 {
    let cx = i % (c.width as int);
    let cy = i / (c.width as int);
    if spec_writes_pixel(f, is_first_frame, cx, cy) {
        pal[spec_frame_index(f, cx, cy) as int]
    } else {
        c.buffer@[i]
    }
}

/// The whole canvas buffer after merging the frame.
pub open spec fn spec_merged(c: Canvas, f: Frame, pal: Seq<u32>, is_first_frame: bool) -> Seq<
    u32,
> {
    Seq::new(c.buffer@.len(), |i: int| spec_merged_pixel(c, f, pal, is_first_frame, i))
}

/// Whether the frame's rectangle reaches outside the canvas.
pub open spec fn spec_out_of_bounds(c: Canvas, f: Frame) -> bool {
    f.left + f.width > c.width || f.top + f.height > c.height
}

/// Whether some pixel of the frame references a palette slot beyond the
/// palette's length.
pub open spec fn spec_bad_palette_index(f: Frame, pal: Seq<u32>) -> bool {
    exists|k: int| 0 <= k < f.buffer@.len() && f.buffer@[k] >= pal.len()
}

/// Partial-merge value used by the merge loops: pixels of frame rows
/// before `rows`, and of row `rows` before column `cols`, are already
/// merged; all others still hold the old canvas value.
spec fn spec_merged_upto(
    c: Canvas,
    f: Frame,
    pal: Seq<u32>,
    is_first_frame: bool,
    rows: int,
    cols: int,
    i: int,
) -> u32 {
    let cx = i % (c.width as int);
    let cy = i / (c.width as int);
    if spec_writes_pixel(f, is_first_frame, cx, cy) && (cy - f.top < rows || (cy - f.top == rows
        && cx - f.left < cols)) {
        pal[spec_frame_index(f, cx, cy) as int]
    } else {
        c.buffer@[i]
    }
}

/// Merges one frame onto the canvas in place.
///
/// Every pixel the frame covers is resolved through `palette` and written
/// according to the overwrite policy; a frame that would write outside
/// the canvas, or whose pixels reference palette slots that do not exist,
/// is rejected whole and the canvas is left untouched.
#[verifier::loop_isolation(false)]
pub fn merge_frame(
    canvas: &mut Canvas,
    frame: &Frame,
    palette: &Vec<u32>,
    is_first_frame: bool,
) -> (r: Result<(), PlaybackError>)
    requires
        old(canvas).wf(),
        frame.wf(),
    ensures
        final(canvas).wf(),
        final(canvas).width == old(canvas).width,
        final(canvas).height == old(canvas).height,
        spec_out_of_bounds(*old(canvas), *frame) ==> {
            &&& r == Err::<(), PlaybackError>(PlaybackError::CompositeBoundsViolation)
            &&& *final(canvas) == *old(canvas)
        },
        !spec_out_of_bounds(*old(canvas), *frame) && spec_bad_palette_index(*frame, palette@)
            ==> {
            &&& r == Err::<(), PlaybackError>(PlaybackError::PaletteIndexOutOfRange)
            &&& *final(canvas) == *old(canvas)
        },
        !spec_out_of_bounds(*old(canvas), *frame) && !spec_bad_palette_index(*frame, palette@)
            ==> {
            &&& r == Ok::<(), PlaybackError>(())
            &&& final(canvas).buffer@ == spec_merged(*old(canvas), *frame, palette@, is_first_frame)
        },
{
    if (frame.left as u32) + (frame.width as u32) > (canvas.width as u32) || (frame.top as u32)
        + (frame.height as u32) > (canvas.height as u32) {
        return Err(PlaybackError::CompositeBoundsViolation);
    }
    let mut k: usize = 0;
    while k < frame.buffer.len()
        invariant
            k <= frame.buffer@.len(),
            forall|j: int| 0 <= j < k ==> (frame.buffer@[j] as int) < palette@.len(),
        decreases frame.buffer@.len() - k,
    {
        if (frame.buffer[k] as usize) >= palette.len() {
            return Err(PlaybackError::PaletteIndexOutOfRange);
        }
        k = k + 1;
    }
    let fw = frame.width as usize;
    let fh = frame.height as usize;
    let cw = canvas.width as usize;
    let ghost c0 = *canvas;
    let mut y: usize = 0;
    while y < fh
        invariant
            y <= fh,
            canvas.width == c0.width,
            canvas.height == c0.height,
            canvas.buffer@.len() == c0.buffer@.len(),
            forall|i: int|
                0 <= i < canvas.buffer@.len() ==> canvas.buffer@[i] == spec_merged_upto(
                    c0,
                    *frame,
                    palette@,
                    is_first_frame,
                    y as int,
                    0,
                    i,
                ),
        decreases fh - y,
    {
        let mut x: usize = 0;
        while x < fw
            invariant
                y < fh,
                x <= fw,
                canvas.width == c0.width,
                canvas.height == c0.height,
                canvas.buffer@.len() == c0.buffer@.len(),
                forall|i: int|
                    0 <= i < canvas.buffer@.len() ==> canvas.buffer@[i] == spec_merged_upto(
                        c0,
                        *frame,
                        palette@,
                        is_first_frame,
                        y as int,
                        x as int,
                        i,
                    ),
            decreases fw - x,
        {
            proof {
                lemma_frame_pixel_in_range(*frame, x as int, y as int);
                lemma_dest_in_range(c0, *frame, x as int, y as int);
            }
            let base_i: usize = y * fw + x;
            let idx = frame.buffer[base_i];
            if is_first_frame || idx != 0 {
                let core_i: usize = (y + frame.top as usize) * cw + x + frame.left as usize;
                let ghost before = canvas.buffer@;
                canvas.buffer[core_i] = palette[idx as usize];
                proof {
                    lemma_merge_step(
                        c0,
                        *frame,
                        palette@,
                        is_first_frame,
                        x as int,
                        y as int,
                        before,
                        canvas.buffer@,
                    );
                }
            } else {
                proof {
                    lemma_skip_step(
                        c0,
                        *frame,
                        palette@,
                        is_first_frame,
                        x as int,
                        y as int,
                        canvas.buffer@,
                    );
                }
            }
            x = x + 1;
        }
        proof {
            assert forall|i: int| 0 <= i < canvas.buffer@.len() implies spec_merged_upto(
                c0,
                *frame,
                palette@,
                is_first_frame,
                y as int,
                fw as int,
                i,
            ) == spec_merged_upto(c0, *frame, palette@, is_first_frame, y + 1, 0, i) by {
                lemma_row_done(c0, *frame, palette@, is_first_frame, y as int, i);
            }
        }
        y = y + 1;
    }
    proof {
        assert forall|i: int| 0 <= i < canvas.buffer@.len() implies canvas.buffer@[i]
            == spec_merged_pixel(c0, *frame, palette@, is_first_frame, i) by {
            assert(canvas.buffer@[i] == spec_merged_upto(
                c0,
                *frame,
                palette@,
                is_first_frame,
                fh as int,
                0,
                i,
            ));
        }
        assert(canvas.buffer@ =~= spec_merged(c0, *frame, palette@, is_first_frame));
    }
    Ok(())
}

/// A frame-local pixel index stays inside the frame's buffer.
proof fn lemma_frame_pixel_in_range(f: Frame, x: int, y: int)
    requires
        f.wf(),
        0 <= x < f.width,
        0 <= y < f.height,
    ensures
        0 <= y * (f.width as int) + x < f.buffer@.len(),
{
    assert(y * (f.width as int) + x < (f.height as int) * (f.width as int)) by (nonlinear_arith)
        requires
            0 <= x < f.width,
            0 <= y < f.height,
    ;
    assert((f.height as int) * (f.width as int) == (f.width as int) * (f.height as int))
        by (nonlinear_arith);
    assert((f.height as int) * (f.width as int) == f.buffer@.len());
    assert(y * (f.width as int) + x >= 0) by (nonlinear_arith)
        requires
            x >= 0,
            y >= 0,
            f.width >= 0,
    ;
}

/// A destination index stays inside the canvas buffer.
proof fn lemma_dest_in_range(c: Canvas, f: Frame, x: int, y: int)
    requires
        c.wf(),
        f.wf(),
        !spec_out_of_bounds(c, f),
        0 <= x < f.width,
        0 <= y < f.height,
    ensures
        0 <= (y + f.top) * (c.width as int) + x + f.left < c.buffer@.len(),
        (y + f.top) * (c.width as int) + x + f.left < 0xFFFF * 0xFFFF,
{
    let cw = c.width as int;
    let cy = y + f.top;
    let cx = x + f.left;
    assert(cy < c.height);
    assert(cx < cw);
    assert(cy * cw + cx < (c.height as int) * cw && cy * cw + cx >= 0) by (nonlinear_arith)
        requires
            0 <= cx < cw,
            0 <= cy < c.height,
    ;
    assert((c.height as int) * cw <= 0xFFFF * 0xFFFF) by (nonlinear_arith)
        requires
            0 <= c.height <= 0xFFFF,
            0 <= cw <= 0xFFFF,
    ;
}

/// The destination index of frame-local `(x, y)` decomposes back into its
/// canvas coordinates.
proof fn lemma_dest_coords(c: Canvas, f: Frame, x: int, y: int)
    requires
        c.wf(),
        f.wf(),
        !spec_out_of_bounds(c, f),
        0 <= x < f.width,
        0 <= y < f.height,
    ensures
        ((y + f.top) * (c.width as int) + x + f.left) % (c.width as int) == x + f.left,
        ((y + f.top) * (c.width as int) + x + f.left) / (c.width as int) == y + f.top,
{
    let cw = c.width as int;
    vstd::arithmetic::div_mod::lemma_fundamental_div_mod_converse(
        (y + f.top) * cw + x + f.left,
        cw,
        y + f.top,
        x + f.left,
    );
}

/// Writing the destination pixel of frame-local `(x, y)` advances the
/// partial merge by one column.
proof fn lemma_merge_step(
    c0: Canvas,
    f: Frame,
    pal: Seq<u32>,
    first: bool,
    x: int,
    y: int,
    before: Seq<u32>,
    after: Seq<u32>,
)
    requires
        c0.wf(),
        f.wf(),
        !spec_out_of_bounds(c0, f),
        0 <= x < f.width,
        0 <= y < f.height,
        before.len() == c0.buffer@.len(),
        forall|i: int|
            0 <= i < before.len() ==> before[i] == spec_merged_upto(c0, f, pal, first, y, x, i),
        0 <= y * (f.width as int) + x < f.buffer@.len(),
        f.buffer@[y * (f.width as int) + x] < pal.len(),
        first || f.buffer@[y * (f.width as int) + x] != 0,
        after == before.update(
            (y + f.top) * (c0.width as int) + x + f.left,
            pal[f.buffer@[y * (f.width as int) + x] as int],
        ),
    ensures
        forall|i: int|
            0 <= i < after.len() ==> after[i] == spec_merged_upto(c0, f, pal, first, y, x + 1, i),
{
    let cw = c0.width as int;
    let core_i = (y + f.top) * cw + x + f.left;
    lemma_dest_coords(c0, f, x, y);
    lemma_dest_in_range(c0, f, x, y);
    assert forall|i: int| 0 <= i < after.len() implies after[i] == spec_merged_upto(
        c0,
        f,
        pal,
        first,
        y,
        x + 1,
        i,
    ) by {
        vstd::arithmetic::div_mod::lemma_fundamental_div_mod(i, cw);
        vstd::arithmetic::div_mod::lemma_mod_bound(i, cw);
        if i == core_i {
            assert(spec_in_frame(f, x + f.left, y + f.top));
            assert(spec_frame_index(f, x + f.left, y + f.top) == f.buffer@[y * (f.width as int)
                + x]);
        } else {
            let cx = i % cw;
            let cy = i / cw;
            assert(i == cw * cy + cx);
            if cx == x + f.left && cy == y + f.top {
                assert(i == core_i) by (nonlinear_arith)
                    requires
                        i == cw * cy + cx,
                        cx == x + f.left,
                        cy == y + f.top,
                        core_i == (y + f.top) * cw + x + f.left,
                ;
            }
            assert(!(cx == x + f.left && cy == y + f.top));
        }
    }
}

/// A transparent pixel on a non-first frame advances the partial merge
/// without a write.
proof fn lemma_skip_step(
    c0: Canvas,
    f: Frame,
    pal: Seq<u32>,
    first: bool,
    x: int,
    y: int,
    buf: Seq<u32>,
)
    requires
        c0.wf(),
        f.wf(),
        !spec_out_of_bounds(c0, f),
        0 <= x < f.width,
        0 <= y < f.height,
        buf.len() == c0.buffer@.len(),
        forall|i: int|
            0 <= i < buf.len() ==> buf[i] == spec_merged_upto(c0, f, pal, first, y, x, i),
        0 <= y * (f.width as int) + x < f.buffer@.len(),
        !first,
        f.buffer@[y * (f.width as int) + x] == 0,
    ensures
        forall|i: int|
            0 <= i < buf.len() ==> buf[i] == spec_merged_upto(c0, f, pal, first, y, x + 1, i),
{
    let cw = c0.width as int;
    let core_i = (y + f.top) * cw + x + f.left;
    lemma_dest_coords(c0, f, x, y);
    lemma_dest_in_range(c0, f, x, y);
    assert forall|i: int| 0 <= i < buf.len() implies buf[i] == spec_merged_upto(
        c0,
        f,
        pal,
        first,
        y,
        x + 1,
        i,
    ) by {
        vstd::arithmetic::div_mod::lemma_fundamental_div_mod(i, cw);
        vstd::arithmetic::div_mod::lemma_mod_bound(i, cw);
        if i == core_i {
            assert(spec_frame_index(f, x + f.left, y + f.top) == 0);
        } else {
            let cx = i % cw;
            let cy = i / cw;
            assert(i == cw * cy + cx);
            if cx == x + f.left && cy == y + f.top {
                assert(i == core_i) by (nonlinear_arith)
                    requires
                        i == cw * cy + cx,
                        cx == x + f.left,
                        cy == y + f.top,
                        core_i == (y + f.top) * cw + x + f.left,
                ;
            }
            assert(!(cx == x + f.left && cy == y + f.top));
        }
    }
}

/// Finishing the last column of a row is the same as starting the next
/// row.
proof fn lemma_row_done(c0: Canvas, f: Frame, pal: Seq<u32>, first: bool, y: int, i: int)
    requires
        c0.wf(),
        f.wf(),
        !spec_out_of_bounds(c0, f),
        0 <= y < f.height,
        0 <= i < c0.buffer@.len(),
    ensures
        spec_merged_upto(c0, f, pal, first, y, f.width as int, i) == spec_merged_upto(
            c0,
            f,
            pal,
            first,
            y + 1,
            0,
            i,
        ),
{
    let cw = c0.width as int;
    vstd::arithmetic::div_mod::lemma_fundamental_div_mod(i, cw);
    vstd::arithmetic::div_mod::lemma_mod_bound(i, cw);
}

/// Law: merging a first frame writes every destination pixel the frame
/// covers — the transparency sentinel is ignored — and each one receives
/// the palette color of that pixel's index.
pub proof fn lemma_merge_first_frame_writes_all(
    c: Canvas,
    f: Frame,
    pal: Seq<u32>,
    x: int,
    y: int,
)
    requires
        c.wf(),
        f.wf(),
        !spec_out_of_bounds(c, f),
        0 <= x < f.width,
        0 <= y < f.height,
    ensures
        spec_merged(c, f, pal, true)[(y + f.top) * (c.width as int) + x + f.left] == pal[
            f.buffer@[y * (f.width as int) + x] as int],
{
    lemma_dest_in_range(c, f, x, y);
    lemma_dest_coords(c, f, x, y);
}

/// Law: each frame pixel owns a distinct destination, so every
/// destination pixel is written exactly once.
pub proof fn lemma_dest_unique(c: Canvas, f: Frame, x1: int, y1: int, x2: int, y2: int)
    requires
        c.wf(),
        f.wf(),
        !spec_out_of_bounds(c, f),
        0 <= x1 < f.width,
        0 <= y1 < f.height,
        0 <= x2 < f.width,
        0 <= y2 < f.height,
        (x1, y1) != (x2, y2),
    ensures
        (y1 + f.top) * (c.width as int) + x1 + f.left != (y2 + f.top) * (c.width as int) + x2
            + f.left,
{
    lemma_dest_coords(c, f, x1, y1);
    lemma_dest_coords(c, f, x2, y2);
}

/// Law: merging a non-first frame leaves a destination pixel unchanged
/// exactly where the frame's palette index is the transparency sentinel
/// `0`, and overwrites it with the palette color otherwise; pixels the
/// frame does not cover are never touched.
pub proof fn lemma_merge_transparency(c: Canvas, f: Frame, pal: Seq<u32>, i: int)
    requires
        c.wf(),
        f.wf(),
        !spec_out_of_bounds(c, f),
        0 <= i < c.buffer@.len(),
    ensures
        spec_in_frame(f, i % (c.width as int), i / (c.width as int)) && spec_frame_index(
            f,
            i % (c.width as int),
            i / (c.width as int),
        ) == 0 ==> spec_merged(c, f, pal, false)[i] == c.buffer@[i],
        spec_in_frame(f, i % (c.width as int), i / (c.width as int)) && spec_frame_index(
            f,
            i % (c.width as int),
            i / (c.width as int),
        ) != 0 ==> spec_merged(c, f, pal, false)[i] == pal[spec_frame_index(
            f,
            i % (c.width as int),
            i / (c.width as int),
        ) as int],
        !spec_in_frame(f, i % (c.width as int), i / (c.width as int)) ==> spec_merged(
            c,
            f,
            pal,
            false,
        )[i] == c.buffer@[i],
{
}

} // verus!
