//! Cover art: decoding the picture embedded in a track's tags, and laying it
//! out as half-block cells. A text cell is about twice as tall as it is wide,
//! and a half block ("▀") with the top pixel as foreground and the bottom
//! pixel as background shows two stacked pixels, so a cover renders in any
//! terminal.

use vstd::prelude::*;

use crate::ui::square_crop;

verus! {

/// A decoded picture: `width` × `height` pixels, row by row, four bytes each
/// (red, green, blue, alpha).
pub struct Cover {
    pub width: u32,
    pub height: u32,
    pub rgba: Vec<u8>,
}

impl Cover {
    /// The pixel bytes are exactly the picture's size.
    pub open spec fn wf(&self) -> bool {
        self.rgba@.len() == self.width * self.height * 4
    }
}

/// A colour as red, green and blue.
pub type Rgb = (u8, u8, u8);

/// What a cell of the cover shows: the colour of its top pixel and that of
/// its bottom pixel.
pub type Cell = (Rgb, Rgb);

/// Where pixel (`x`, `y`) starts in the bytes of a picture `width` pixels wide.
pub open spec fn pixel_offset(width: int, x: int, y: int) -> int {
    (y * width + x) * 4
}

/// The colour of pixel (`x`, `y`).
pub open spec fn pixel_rgb(rgba: Seq<u8>, width: int, x: int, y: int) -> Rgb {
    let o = pixel_offset(width, x, y);
    (rgba[o], rgba[o + 1], rgba[o + 2])
}

/// The bytes of `n` pixels of row `y`, from column `x` on.
pub open spec fn row_run(rgba: Seq<u8>, width: int, x: int, y: int, n: int) -> Seq<u8> {
    rgba.subrange(pixel_offset(width, x, y), pixel_offset(width, x, y) + n * 4)
}

/// The first `k` rows of the `side` × `side` square whose top left pixel is
/// (`x`, `y`).
pub open spec fn square_rows(rgba: Seq<u8>, width: int, x: int, y: int, side: int, k: nat) -> Seq<
    u8,
>
    decreases k,
{
    if k == 0 {
        Seq::empty()
    } else {
        square_rows(rgba, width, x, y, side, (k - 1) as nat) + row_run(
            rgba,
            width,
            x,
            y + k - 1,
            side,
        )
    }
}

/// The bytes of the `side` × `side` square whose top left pixel is (`x`, `y`).
pub open spec fn cropped(rgba: Seq<u8>, width: int, x: int, y: int, side: int) -> Seq<u8> {
    square_rows(rgba, width, x, y, side, side as nat)
}

/// The cells of a picture `width` pixels wide, shown in `cols` × `rows`
/// cells: cell (`cx`, `ry`) shows pixels (`cx`, `2 ry`) and (`cx`, `2 ry + 1`).
pub open spec fn half_block_cells(rgba: Seq<u8>, width: int, cols: int, rows: int) -> Seq<
    Seq<Cell>,
> {
    Seq::new(
        rows as nat,
        |ry: int|
            Seq::new(
                cols as nat,
                |cx: int| (pixel_rgb(rgba, width, cx, 2 * ry), pixel_rgb(rgba, width, cx, 2 * ry + 1)),
            ),
    )
}

/// The centred square of a `w` × `h` picture: left and top offsets, and side.
pub open spec fn centred_square(w: u32, h: u32) -> (u32, u32, u32) {
    let side = if w <= h {
        w
    } else {
        h
    };
    (((w - side) / 2) as u32, ((h - side) / 2) as u32, side)
}

/// The cells a cover fills in a region of `cols` × `rows` cells, when the
/// scaled picture's bytes are `scaled` (`cols` pixels wide).
pub open spec fn cover_layout(scaled: Seq<u8>, cols: u16, rows: u16) -> Seq<Seq<Cell>> {
    if cols == 0 || rows == 0 {
        Seq::empty()
    } else {
        half_block_cells(scaled, cols as int, cols as int, rows as int)
    }
}

/// The bytes of a cover cut to its centred square and scaled to `cols` ×
/// `2 rows` pixels.
pub open spec fn scaled_square(c: Cover, cols: u16, rows: u16) -> Seq<u8> {
    let (x, y, side) = centred_square(c.width, c.height);
    scaled_rgba(
        cropped(c.rgba@, c.width as int, x as int, y as int, side as int),
        side,
        side,
        cols as u32,
        (2 * rows) as u32,
    )
}

/// The rows of a grid of cells, as sequences.
pub open spec fn grid_view(cells: Seq<Vec<Cell>>) -> Seq<Seq<Cell>> {
    cells.map_values(|row: Vec<Cell>| row@)
}

// ---- calls into the image crate -------------------------------------------

/// What `image::load_from_memory` followed by `to_rgba8` makes of a picture's
/// bytes: its width, height and RGBA pixel bytes, or nothing when the bytes
/// are not a picture it can read.
pub uninterp spec fn decoded_cover(data: Seq<u8>) -> Option<(u32, u32, Seq<u8>)>;

/// What `image::imageops::resize` with the triangle filter makes of an RGBA
/// picture of `width` × `height` pixels, scaled to `new_width` ×
/// `new_height` pixels.
pub uninterp spec fn scaled_rgba(
    rgba: Seq<u8>,
    width: u32,
    height: u32,
    new_width: u32,
    new_height: u32,
) -> Seq<u8>;

/// Calls `image::load_from_memory` and converts the picture to RGBA with
/// `to_rgba8`. The result is named `decoded_cover` of the bytes; what is
/// stated of it is that a decoded picture's bytes are exactly its size, as
/// `ImageBuffer` allocates them.
#[verifier::external_body]
pub(crate) fn decode_cover(data: &[u8]) -> (r: Option<Cover>)
    ensures
        match r {
            Some(c) => decoded_cover(data@) == Some((c.width, c.height, c.rgba@)) && c.wf(),
            None => decoded_cover(data@) is None,
        },
{
    match image::load_from_memory(data) {
        Ok(img) => {
            let rgba = img.to_rgba8();
            Some(Cover { width: rgba.width(), height: rgba.height(), rgba: rgba.into_raw() })
        },
        Err(_) => None,
    }
}

/// Calls `image::imageops::resize` with the triangle filter on the cover.
/// The pixels that come out are named `scaled_rgba`; what is stated of them is
/// the new size, as `ImageBuffer::new` allocates them (the call panics when
/// that size overflows `usize`, hence the bound).
#[verifier::external_body]
fn resize_cover(c: Cover, new_width: u32, new_height: u32) -> (r: Cover)
    requires
        c.wf(),
        new_width * new_height * 4 <= usize::MAX,
    ensures
        r.width == new_width,
        r.height == new_height,
        r.rgba@ == scaled_rgba(c.rgba@, c.width, c.height, new_width, new_height),
        r.wf(),
{
    match image::RgbaImage::from_raw(c.width, c.height, c.rgba) {
        Some(src) => {
            let out = image::imageops::resize(
                &src,
                new_width,
                new_height,
                image::imageops::FilterType::Triangle,
            );
            Cover { width: out.width(), height: out.height(), rgba: out.into_raw() }
        },
        None => Cover { width: 0, height: 0, rgba: Vec::new() },
    }
}

// ---- cutting and laying out -------------------------------------------------

proof fn lemma_run_in_bounds(w: int, h: int, x: int, y: int, n: int)
    requires
        0 <= x,
        0 <= n,
        x + n <= w,
        0 <= y < h,
    ensures
        0 <= pixel_offset(w, x, y),
        pixel_offset(w, x, y) + n * 4 <= w * h * 4,
{
    assert(0 <= y * w) by (nonlinear_arith)
        requires
            0 <= y,
            0 <= w,
    ;
    assert(y * w + x + n <= h * w) by (nonlinear_arith)
        requires
            x + n <= w,
            y + 1 <= h,
            0 <= w,
    ;
    assert(h * w * 4 == w * h * 4) by (nonlinear_arith);
}

proof fn lemma_square_rows_len(rgba: Seq<u8>, w: int, h: int, x: int, y: int, side: int, k: nat)
    requires
        rgba.len() == w * h * 4,
        0 <= x,
        0 <= y,
        0 <= side,
        x + side <= w,
        y + k <= h,
    ensures
        square_rows(rgba, w, x, y, side, k).len() == k * side * 4,
    decreases k,
{
    if k > 0 {
        lemma_square_rows_len(rgba, w, h, x, y, side, (k - 1) as nat);
        lemma_run_in_bounds(w, h, x, y + k - 1, side);
        assert((k - 1) * side * 4 + side * 4 == k * side * 4) by (nonlinear_arith);
    } else {
        assert(k * side * 4 == 0) by (nonlinear_arith)
            requires
                k == 0,
        ;
    }
}

/// The `side` × `side` square of `c` whose top left pixel is (`x`, `y`).
fn crop_square(c: &Cover, x: u32, y: u32, side: u32) -> (r: Cover)
    requires
        c.wf(),
        x + side <= c.width,
        y + side <= c.height,
    ensures
        r.width == side,
        r.height == side,
        r.rgba@ == cropped(c.rgba@, c.width as int, x as int, y as int, side as int),
        r.wf(),
{
    let ghost w = c.width as int;
    let ghost h = c.height as int;
    let mut out: Vec<u8> = Vec::new();
    let mut k: u32 = 0;
    while k < side
        invariant
            c.wf(),
            x + side <= c.width,
            y + side <= c.height,
            w == c.width,
            h == c.height,
            k <= side,
            out@ == square_rows(c.rgba@, w, x as int, y as int, side as int, k as nat),
        decreases side - k,
    {
        let row: usize = (y + k) as usize;
        let total: usize = c.rgba.len();
        proof {
            lemma_run_in_bounds(w, h, x as int, row as int, side as int);
            assert((row as int) * w <= w * h * 4) by (nonlinear_arith)
                requires
                    (row as int) < h,
                    0 <= w,
            ;
        }
        let start: usize = (row * c.width as usize + x as usize) * 4;
        let len: usize = side as usize * 4;
        let ghost before = out@;
        let mut j: usize = 0;
        while j < len
            invariant
                c.wf(),
                start + len <= c.rgba@.len(),
                total == c.rgba@.len(),
                j <= len,
                out@ == before + c.rgba@.subrange(start as int, start + j),
            decreases len - j,
        {
            out.push(c.rgba[start + j]);
            proof {
                assert(c.rgba@.subrange(start as int, start + j).push(c.rgba@[start + j])
                    =~= c.rgba@.subrange(start as int, start + j + 1));
            }
            j = j + 1;
        }
        proof {
            assert(start == pixel_offset(w, x as int, row as int));
        }
        k = k + 1;
    }
    proof {
        lemma_square_rows_len(c.rgba@, w, h, x as int, y as int, side as int, side as nat);
        assert(side * side * 4 == (side as int) * (side as int) * 4) by (nonlinear_arith);
    }
    Cover { width: side, height: side, rgba: out }
}

proof fn lemma_pixel_in_bounds(w: int, h: int, x: int, y: int)
    requires
        0 <= x < w,
        0 <= y < h,
    ensures
        0 <= pixel_offset(w, x, y),
        pixel_offset(w, x, y) + 4 <= w * h * 4,
{
    lemma_run_in_bounds(w, h, x, y, 1);
}

/// The colour of pixel (`x`, `y`) of `c`.
fn pixel_of(c: &Cover, x: u32, y: u32) -> (p: Rgb)
    requires
        c.wf(),
        x < c.width,
        y < c.height,
    ensures
        p == pixel_rgb(c.rgba@, c.width as int, x as int, y as int),
{
    proof {
        lemma_pixel_in_bounds(c.width as int, c.height as int, x as int, y as int);
        assert((y as int) * (c.width as int) <= (c.width as int) * (c.height as int) * 4) by (
        nonlinear_arith)
            requires
                (y as int) < c.height,
        ;
    }
    let total: usize = c.rgba.len();
    let o: usize = (y as usize * c.width as usize + x as usize) * 4;
    (c.rgba[o], c.rgba[o + 1], c.rgba[o + 2])
}

/// The picture shown in `cols` × `rows` cells, two stacked pixels per cell:
/// cell (`cx`, `ry`) shows pixels (`cx`, `2 ry`) and (`cx`, `2 ry + 1`).
pub fn half_blocks(c: &Cover, cols: u16, rows: u16) -> (cells: Vec<Vec<Cell>>)
    requires
        c.wf(),
        cols <= c.width,
        2 * rows <= c.height,
    ensures
        grid_view(cells@) == half_block_cells(c.rgba@, c.width as int, cols as int, rows as int),
{
    let ghost want = half_block_cells(c.rgba@, c.width as int, cols as int, rows as int);
    let mut cells: Vec<Vec<Cell>> = Vec::new();
    let mut ry: u16 = 0;
    while ry < rows
        invariant
            c.wf(),
            cols <= c.width,
            2 * rows <= c.height,
            ry <= rows,
            want == half_block_cells(c.rgba@, c.width as int, cols as int, rows as int),
            grid_view(cells@) == want.take(ry as int),
        decreases rows - ry,
    {
        let mut line: Vec<Cell> = Vec::new();
        let mut cx: u16 = 0;
        while cx < cols
            invariant
                c.wf(),
                cols <= c.width,
                2 * rows <= c.height,
                ry < rows,
                cx <= cols,
                want == half_block_cells(c.rgba@, c.width as int, cols as int, rows as int),
                line@ == want[ry as int].take(cx as int),
            decreases cols - cx,
        {
            let top = pixel_of(c, cx as u32, 2 * ry as u32);
            let bottom = pixel_of(c, cx as u32, 2 * ry as u32 + 1);
            line.push((top, bottom));
            proof {
                assert(line@ =~= want[ry as int].take(cx + 1));
            }
            cx = cx + 1;
        }
        let ghost prev = cells@;
        cells.push(line);
        proof {
            assert(line@ =~= want[ry as int]);
            assert(grid_view(prev.push(line)) =~= grid_view(prev).push(line@));
            assert(want.take(ry as int).push(want[ry as int]) =~= want.take(ry + 1));
        }
        ry = ry + 1;
    }
    proof {
        assert(want.take(rows as int) =~= want);
    }
    cells
}

/// The cells a cover fills in a region of `cols` × `rows` cells: nothing
/// when the region is empty; otherwise the cover is cut to its centred
/// square, scaled to `cols` × `2 rows` pixels, and shown in half blocks.
pub fn cover_cells(c: &Cover, cols: u16, rows: u16) -> (cells: Vec<Vec<Cell>>)
    requires
        c.wf(),
        cols * rows * 8 <= usize::MAX,
    ensures
        grid_view(cells@) == cover_layout(scaled_square(*c, cols, rows), cols, rows),
{
    if cols == 0 || rows == 0 {
        let cells: Vec<Vec<Cell>> = Vec::new();
        proof {
            assert(grid_view(cells@) =~= Seq::<Seq<Cell>>::empty());
        }
        return cells;
    }
    let (x, y, side) = square_crop(c.width, c.height);
    let square = crop_square(c, x, y, side);
    proof {
        assert((cols as u32) * ((2 * rows) as u32) * 4 == cols * rows * 8) by (nonlinear_arith);
    }
    let small = resize_cover(square, cols as u32, 2 * rows as u32);
    half_blocks(&small, cols, rows)
}

} // verus!
