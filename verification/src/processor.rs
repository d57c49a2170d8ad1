//! Output assembly: turning a stream of colorized regions into raster
//! artifacts, either one PNG tile per region or one stitched canvas.

use vstd::prelude::*;
use vstd::pervasive::VecAdditionalExecFns;
use vstd::arithmetic::div_mod::lemma_fundamental_div_mod;
use vstd::arithmetic::div_mod::lemma_fundamental_div_mod_converse;
use crate::pattern::replace_seq;
use crate::pattern::replace_all;
use crate::pattern::dec_digits;
use crate::pattern::tile_path;
use crate::pattern::resolve_tile_path;
use crate::pattern::tok_t;
use crate::pattern::tok_x;
use crate::pattern::tok_z;
use crate::pattern::tok_tile;
use crate::pattern::token_t;
use crate::pattern::token_x;
use crate::pattern::token_z;
use crate::pattern::token_tile;
use crate::pattern::u64_to_dec;
use crate::pattern::contains_seq;
use crate::pattern::contains_bytes;

verus! {

/// Columns per region row in the reference sizing.
pub const REGION_WIDTH: usize = 256;

/// Region rows in the reference sizing.
pub const REGION_HEIGHT: usize = 256;

/// Single-image window span, in regions, in the reference sizing.
pub const WINDOW_REGIONS: usize = 40;

/// A region's location on the infinite 2D grid, `(x, z)`.
pub type RegionPos = (i32, i32);

/// The sizing of the single-image canvas: region dimensions in columns, and
/// the window's span in regions along each axis. The window is centered so
/// that region `(0, 0)` starts at the region just past the canvas middle.
#[derive(Clone, Copy, PartialEq, Eq, Structural, Debug)]
pub struct CanvasWindow {
    /// Columns per region row.
    pub region_width: usize,
    /// Rows per region.
    pub region_height: usize,
    /// Window span in regions along x.
    pub regions_x: usize,
    /// Window span in regions along z.
    pub regions_z: usize,
}

impl CanvasWindow {
    /// Dimensions are positive and the whole canvas stays comfortably under
    /// the index range, so offset arithmetic cannot overflow.
    pub open spec fn wf(self) -> bool {
        1 <= self.region_width && 1 <= self.region_height && 1 <= self.regions_x && 1
            <= self.regions_z && self.regions_x * self.region_width * self.regions_z
            * self.region_height < 0x2000_0000
    }

    /// Pixels per region.
    pub open spec fn region_blocks(self) -> int {
        self.region_width * self.region_height
    }

    /// Canvas width in pixels.
    pub open spec fn canvas_width(self) -> int {
        self.regions_x * self.region_width
    }

    /// Canvas height in pixels.
    pub open spec fn canvas_height(self) -> int {
        self.regions_z * self.region_height
    }

    /// Total canvas pixels.
    pub open spec fn canvas_len(self) -> int {
        self.canvas_width() * self.canvas_height()
    }

    /// Region x of the window's west edge.
    pub open spec fn west_region(self) -> int {
        -(self.regions_x as int / 2)
    }

    /// Region z of the window's north edge.
    pub open spec fn north_region(self) -> int {
        -(self.regions_z as int / 2)
    }

    /// True when the region lies inside the canvas window.
    pub open spec fn in_window(self, pos: RegionPos) -> bool {
        self.west_region() <= pos.0 < self.west_region() + self.regions_x
            && self.north_region() <= pos.1 < self.north_region() + self.regions_z
    }

    /// Pixel column of the region's west edge on the canvas.
    pub open spec fn x_off(self, pos: RegionPos) -> int {
        (pos.0 - self.west_region()) * self.region_width
    }

    /// Pixel row of the region's north edge on the canvas.
    pub open spec fn z_off(self, pos: RegionPos) -> int {
        (pos.1 - self.north_region()) * self.region_height
    }

    /// True when canvas index `i` lies inside the rectangle that the region
    /// at `pos` covers.
    pub open spec fn covers(self, pos: RegionPos, i: int) -> bool {
        self.in_window(pos) && self.x_off(pos) <= i % self.canvas_width() < self.x_off(pos)
            + self.region_width && self.z_off(pos) <= i / self.canvas_width() < self.z_off(pos)
            + self.region_height
    }

    /// The row-major index inside the region's own pixel buffer that canvas
    /// index `i` corresponds to.
    pub open spec fn local_index(self, pos: RegionPos, i: int) -> int {
        (i / self.canvas_width() - self.z_off(pos)) * self.region_width + (i % self.canvas_width()
            - self.x_off(pos))
    }

    /// The canvas index of the region's cell `k` (row-major inside the
    /// region).
    pub open spec fn cell_global(self, pos: RegionPos, k: int) -> int {
        (self.z_off(pos) + k / self.region_width as int) * self.canvas_width() + self.x_off(pos) + k
            % self.region_width as int
    }

    /// Pixels per region, as a machine integer.
    pub fn region_blocks_u(&self) -> (r: usize)
        requires
            self.wf(),
        ensures
            r == self.region_blocks(),
    {
        proof {
            lemma_window_bounds(*self);
        }
        self.region_width * self.region_height
    }

    /// Canvas width in pixels, as a machine integer.
    pub fn canvas_width_u(&self) -> (r: usize)
        requires
            self.wf(),
        ensures
            r == self.canvas_width(),
    {
        proof {
            lemma_window_bounds(*self);
        }
        self.regions_x * self.region_width
    }

    /// Canvas height in pixels, as a machine integer.
    pub fn canvas_height_u(&self) -> (r: usize)
        requires
            self.wf(),
        ensures
            r == self.canvas_height(),
    {
        proof {
            lemma_window_bounds(*self);
        }
        self.regions_z * self.region_height
    }

    /// Total canvas pixels, as a machine integer.
    pub fn canvas_len_u(&self) -> (r: usize)
        requires
            self.wf(),
        ensures
            r == self.canvas_len(),
    {
        proof {
            lemma_window_bounds(*self);
        }
        self.canvas_width_u() * self.canvas_height_u()
    }

    /// The reference sizing: 40 x 40 regions of 256 x 256 columns.
    pub fn reference_sizing() -> (w: CanvasWindow)
        ensures
            w == (CanvasWindow {
                region_width: REGION_WIDTH,
                region_height: REGION_HEIGHT,
                regions_x: WINDOW_REGIONS,
                regions_z: WINDOW_REGIONS,
            }),
            w.wf(),
    {
        let w = CanvasWindow {
            region_width: REGION_WIDTH,
            region_height: REGION_HEIGHT,
            regions_x: WINDOW_REGIONS,
            regions_z: WINDOW_REGIONS,
        };
        proof {
            assert(w.region_width == 256 && w.region_height == 256 && w.regions_x == 40
                && w.regions_z == 40);
            assert(w.regions_x * w.region_width * w.regions_z * w.region_height < 0x2000_0000)
                by (nonlinear_arith)
                requires
                    w.region_width == 256 && w.region_height == 256 && w.regions_x == 40
                        && w.regions_z == 40,
            ;
        }
        w
    }
}

/// Size bounds that follow from a well-formed window; the products are
/// nonlinear, so they are discharged here once.
pub proof fn lemma_window_bounds(win: CanvasWindow)
    requires
        win.wf(),
    ensures
        1 <= win.region_blocks(),
        1 <= win.canvas_width(),
        1 <= win.canvas_height(),
        win.region_blocks() <= win.canvas_len(),
        win.canvas_width() <= win.canvas_len(),
        win.canvas_height() <= win.canvas_len(),
        win.canvas_len() < 0x2000_0000,
        win.canvas_len() == win.regions_x * win.region_width * win.regions_z * win.region_height,
        win.regions_x < 0x2000_0000,
        win.regions_z < 0x2000_0000,
        win.region_width < 0x2000_0000,
        win.region_height < 0x2000_0000,
{
    assert(1 <= win.region_blocks() && 1 <= win.canvas_width() && 1 <= win.canvas_height()
        && win.region_blocks() <= win.canvas_len() && win.canvas_width() <= win.canvas_len()
        && win.canvas_height() <= win.canvas_len() && win.canvas_len() == win.regions_x
        * win.region_width * win.regions_z * win.region_height && win.canvas_len() < 0x2000_0000
        && win.regions_x < 0x2000_0000 && win.regions_z < 0x2000_0000 && win.region_width
        < 0x2000_0000 && win.region_height < 0x2000_0000) by (nonlinear_arith)
        requires
            win.wf(),
    ;
}

/// The canvas after one region's pixels are blended in: inside the window the
/// covered rectangle takes the region's pixels and every other index keeps its
/// value; outside the window the canvas is unchanged.
pub open spec fn canvas_write(c: Seq<u32>, win: CanvasWindow, pos: RegionPos, px: Seq<u32>) -> Seq<
    u32,
> {
    if win.in_window(pos) {
        Seq::new(
            c.len(),
            |i: int|
                if win.covers(pos, i) {
                    px[win.local_index(pos, i)]
                } else {
                    c[i]
                },
        )
    } else {
        c
    }
}

/// The canvas while a blend is in progress: only the first `k` cells of the
/// region (in its own row-major order) have been copied.
pub open spec fn canvas_write_prefix(
    c: Seq<u32>,
    win: CanvasWindow,
    pos: RegionPos,
    px: Seq<u32>,
    k: int,
) -> Seq<u32> {
    Seq::new(
        c.len(),
        |i: int|
            if win.covers(pos, i) && win.local_index(pos, i) < k {
                px[win.local_index(pos, i)]
            } else {
                c[i]
            },
    )
}

/// A covered canvas index maps to a local index inside the region's buffer.
pub proof fn lemma_local_index_bounds(win: CanvasWindow, pos: RegionPos, i: int)
    requires
        win.wf(),
        win.covers(pos, i),
    ensures
        0 <= win.local_index(pos, i) < win.region_blocks(),
{
    let cw = win.canvas_width();
    let ri = i / cw - win.z_off(pos);
    let ci = i % cw - win.x_off(pos);
    assert(0 <= ri < win.region_height && 0 <= ci < win.region_width);
    assert(0 <= ri * win.region_width + ci < win.region_height * win.region_width)
        by (nonlinear_arith)
        requires
            0 <= ri < win.region_height && 0 <= ci < win.region_width,
    ;
    assert(win.region_height * win.region_width == win.region_blocks()) by (nonlinear_arith);
}

/// Cell `k` of the region at `pos` lands on a valid canvas index that the
/// region covers, and that index maps back to `k`.
pub proof fn lemma_cell_index(win: CanvasWindow, pos: RegionPos, k: int)
    requires
        win.wf(),
        win.in_window(pos),
        0 <= k < win.region_blocks(),
    ensures
        0 <= win.cell_global(pos, k) < win.canvas_len(),
        win.covers(pos, win.cell_global(pos, k)),
        win.local_index(pos, win.cell_global(pos, k)) == k,
{
    lemma_window_bounds(win);
    let rw = win.region_width as int;
    let rh = win.region_height as int;
    let cw = win.canvas_width();
    let ch = win.canvas_height();
    let row = k / rw;
    let col = k % rw;
    lemma_fundamental_div_mod(k, rw);
    assert(0 <= col < rw);
    assert(0 <= row < rh) by (nonlinear_arith)
        requires
            k == rw * row + col,
            0 <= col < rw,
            0 <= k < rw * rh,
            1 <= rw,
    ;
    let gx = pos.0 - win.west_region();
    let gz = pos.1 - win.north_region();
    assert(0 <= gx < win.regions_x && 0 <= gz < win.regions_z);
    assert(win.x_off(pos) == gx * rw && win.z_off(pos) == gz * rh);
    assert(0 <= gx * rw && gx * rw + rw <= cw) by (nonlinear_arith)
        requires
            0 <= gx < win.regions_x,
            1 <= rw,
            cw == win.regions_x * rw,
    ;
    assert(0 <= gz * rh && gz * rh + rh <= ch) by (nonlinear_arith)
        requires
            0 <= gz < win.regions_z,
            1 <= rh,
            ch == win.regions_z * rh,
    ;
    let gi = win.cell_global(pos, k);
    let grow = win.z_off(pos) + row;
    let gcol = win.x_off(pos) + col;
    assert(gi == grow * cw + gcol);
    assert(0 <= gcol < cw);
    assert(0 <= grow < ch);
    assert(0 <= grow * cw + gcol < ch * cw) by (nonlinear_arith)
        requires
            0 <= gcol < cw,
            0 <= grow < ch,
    ;
    assert(ch * cw == cw * ch) by (nonlinear_arith);
    assert(win.canvas_len() == cw * ch);
    lemma_fundamental_div_mod_converse(gi, cw, grow, gcol);
    assert(gi % cw == gcol && gi / cw == grow);
    assert(win.covers(pos, gi));
    assert(win.local_index(pos, gi) == row * rw + col);
    assert(row * rw + col == k) by {
        lemma_fundamental_div_mod(k, rw);
        assert(rw * row == row * rw) by (nonlinear_arith);
    }
}

/// A covered canvas index is the global index of its own local cell: covering
/// is injective, two distinct canvas indices never share a local cell.
pub proof fn lemma_covers_unique(win: CanvasWindow, pos: RegionPos, i: int)
    requires
        win.wf(),
        win.covers(pos, i),
        0 <= i < win.canvas_len(),
    ensures
        win.cell_global(pos, win.local_index(pos, i)) == i,
{
    lemma_window_bounds(win);
    let rw = win.region_width as int;
    let cw = win.canvas_width();
    let ri = i / cw - win.z_off(pos);
    let ci = i % cw - win.x_off(pos);
    assert(0 <= ri && 0 <= ci < rw);
    let local = win.local_index(pos, i);
    assert(local == ri * rw + ci);
    lemma_fundamental_div_mod_converse(local, rw, ri, ci);
    assert(local / rw == ri && local % rw == ci);
    lemma_fundamental_div_mod(i, cw);
    assert(win.cell_global(pos, local) == (i / cw) * cw + i % cw);
    assert(cw * (i / cw) == (i / cw) * cw) by (nonlinear_arith);
}

/// Two regions at distinct positions cover disjoint canvas rectangles.
pub proof fn lemma_covers_disjoint(win: CanvasWindow, p1: RegionPos, p2: RegionPos, i: int)
    requires
        win.wf(),
        win.covers(p1, i),
        win.covers(p2, i),
    ensures
        p1 == p2,
{
    lemma_window_bounds(win);
    let rw = win.region_width as int;
    let rh = win.region_height as int;
    let cw = win.canvas_width();
    let g1x = p1.0 - win.west_region();
    let g2x = p2.0 - win.west_region();
    let g1z = p1.1 - win.north_region();
    let g2z = p2.1 - win.north_region();
    lemma_fundamental_div_mod_converse(i % cw, rw, g1x, i % cw - g1x * rw);
    lemma_fundamental_div_mod_converse(i % cw, rw, g2x, i % cw - g2x * rw);
    assert(g1x == (i % cw) / rw && g2x == (i % cw) / rw);
    lemma_fundamental_div_mod_converse(i / cw, rh, g1z, i / cw - g1z * rh);
    lemma_fundamental_div_mod_converse(i / cw, rh, g2z, i / cw - g2z * rh);
    assert(g1z == (i / cw) / rh && g2z == (i / cw) / rh);
    assert(p1.0 == p2.0 && p1.1 == p2.1);
}

/// Blending the same two regions in either order leaves the same canvas, as
/// long as the regions sit at distinct positions: distinct regions cover
/// disjoint canvas rectangles, so the delivery order of finished regions
/// cannot change the final image.
pub proof fn lemma_canvas_write_commutes(
    c: Seq<u32>,
    win: CanvasWindow,
    p1: RegionPos,
    px1: Seq<u32>,
    p2: RegionPos,
    px2: Seq<u32>,
)
    requires
        win.wf(),
        p1 != p2,
        c.len() == win.canvas_len(),
    ensures
        canvas_write(canvas_write(c, win, p1, px1), win, p2, px2) == canvas_write(
            canvas_write(c, win, p2, px2),
            win,
            p1,
            px1,
        ),
{
    let lhs = canvas_write(canvas_write(c, win, p1, px1), win, p2, px2);
    let rhs = canvas_write(canvas_write(c, win, p2, px2), win, p1, px1);
    assert(lhs.len() == c.len() && rhs.len() == c.len());
    assert forall|i: int| 0 <= i < c.len() implies lhs[i] == rhs[i] by {
        if win.covers(p1, i) && win.covers(p2, i) {
            lemma_covers_disjoint(win, p1, p2, i);
        }
    }
    assert(lhs =~= rhs);
}

/// Writing region `(0, 0)` filled with one constant color onto an all-zero
/// canvas sets exactly the window's center block to that color and leaves
/// every other pixel zero. The center block spans one region starting at
/// column `(regions_x / 2) * region_width` and row
/// `(regions_z / 2) * region_height`.
pub proof fn lemma_center_region_write(win: CanvasWindow, c0: Seq<u32>, px: Seq<u32>, v: u32)
    requires
        win.wf(),
        c0.len() == win.canvas_len(),
        forall|i: int| 0 <= i < c0.len() ==> c0[i] == 0u32,
        px.len() == win.region_blocks(),
        forall|k: int| 0 <= k < px.len() ==> px[k] == v,
    ensures
        win.in_window((0i32, 0i32)),
        canvas_write(c0, win, (0i32, 0i32), px).len() == win.canvas_len(),
        forall|i: int|
            0 <= i < win.canvas_len() ==> canvas_write(c0, win, (0i32, 0i32), px)[i] == (
            if win.covers((0i32, 0i32), i) {
                v
            } else {
                0u32
            }),
        forall|i: int|
            0 <= i < win.canvas_len() ==> (win.covers((0i32, 0i32), i) <==> ((win.regions_x as int
                / 2) * win.region_width <= i % win.canvas_width() < (win.regions_x as int / 2)
                * win.region_width + win.region_width && (win.regions_z as int / 2)
                * win.region_height <= i / win.canvas_width() < (win.regions_z as int / 2)
                * win.region_height + win.region_height)),
{
    lemma_window_bounds(win);
    let pos = (0i32, 0i32);
    assert(win.in_window(pos));
    assert(win.x_off(pos) == (win.regions_x as int / 2) * win.region_width);
    assert(win.z_off(pos) == (win.regions_z as int / 2) * win.region_height);
    assert forall|i: int| 0 <= i < win.canvas_len() implies canvas_write(c0, win, pos, px)[i] == (
    if win.covers(pos, i) {
        v
    } else {
        0u32
    }) by {
        if win.covers(pos, i) {
            lemma_local_index_bounds(win, pos, i);
        }
    }
}

/// PNG encoding failed for one image; the artifact it concerns is dropped.
#[derive(Clone, Copy, PartialEq, Eq, Structural, Debug)]
pub struct PngError;

/// The PNG stream that encodes a pixel buffer of the given dimensions as
/// 32-bit RGBA. The encoder is deterministic: the bytes are a function of the
/// pixels and dimensions alone.
pub uninterp spec fn png_bytes_of(pixels: Seq<u32>, w: int, h: int) -> Seq<u8>;

/// Relies on `lodepng::encode32`: deterministic in-memory PNG encoding of a
/// 32-bit RGBA pixel buffer. The length precondition matches the encoder's
/// own size check, so the call cannot hit its debug assertion.
#[verifier::external_body]
fn encode_png32(pixels: &Vec<u32>, w: usize, h: usize) -> (r: Result<Vec<u8>, PngError>)
    requires
        pixels@.len() == w * h,
    ensures
        r matches Ok(b) ==> b@ == png_bytes_of(pixels@, w as int, h as int),
{
    match lodepng::encode32(pixels.as_slice(), w, h) {
        Ok(b) => Ok(b),
        Err(_) => Err(PngError),
    }
}

/// One finished raster artifact, ready to be written to disk at `path`.
#[derive(Debug)]
pub struct ImageWrite {
    /// Output path, a byte string.
    pub path: Vec<u8>,
    /// Image width in pixels.
    pub width: usize,
    /// Image height in pixels.
    pub height: usize,
    /// The encoded PNG stream.
    pub png: Vec<u8>,
}

/// What one `process_region` call did with the region it consumed.
#[derive(Debug)]
pub enum RegionOutcome {
    /// Tile mode: the region's own PNG tile, ready to write.
    Tile(ImageWrite),
    /// Tile mode: encoding this region's tile failed; only this tile is lost.
    TileFailed,
    /// Single-image mode: the region was copied into the shared canvas.
    Blended,
    /// Single-image mode: the region lies outside the canvas window and was
    /// skipped; the canvas is untouched.
    OutOfWindow,
}

/// Copies a byte vector.
fn clone_bytes(v: &Vec<u8>) -> (out: Vec<u8>)
    ensures
        out@ == v@,
{
    let mut out: Vec<u8> = Vec::new();
    let mut i: usize = 0;
    while i < v.len()
        invariant
            0 <= i <= v@.len(),
            out@ == v@.subrange(0, i as int),
        decreases v@.len() - i,
    {
        out.push(v[i]);
        i += 1;
        assert(out@ =~= v@.subrange(0, i as int));
    }
    assert(v@.subrange(0, v@.len() as int) =~= v@);
    out
}

/// Tile-mode sink: every region becomes one standalone PNG file whose path is
/// the pattern with the region's coordinates substituted. No state is shared
/// between regions.
pub struct TilesProcessor {
    /// Path pattern holding `{tile}`, `{x}` or `{z}` tokens.
    pub tiles_pattern: Vec<u8>,
    /// Columns per region row.
    pub region_width: usize,
    /// Rows per region.
    pub region_height: usize,
    pre_done: bool,
    post_done: bool,
}

impl TilesProcessor {
    /// Region dimensions are positive and small enough to index.
    pub closed spec fn wf(self) -> bool {
        1 <= self.region_width && 1 <= self.region_height && self.region_width
            * self.region_height < 0x2000_0000
    }

    /// Whether `pre_process` has run.
    pub closed spec fn pre_done_spec(self) -> bool {
        self.pre_done
    }

    /// Whether `post_process` has run.
    pub closed spec fn post_done_spec(self) -> bool {
        self.post_done
    }

    /// The path pattern.
    pub closed spec fn pattern_spec(self) -> Seq<u8> {
        self.tiles_pattern@
    }

    /// Columns per region row.
    pub closed spec fn width_spec(self) -> int {
        self.region_width as int
    }

    /// Rows per region.
    pub closed spec fn height_spec(self) -> int {
        self.region_height as int
    }

    /// Builds a tile sink over a path pattern.
    pub fn new(tiles_pattern: &Vec<u8>, region_width: usize, region_height: usize) -> (p:
        TilesProcessor)
        requires
            1 <= region_width,
            1 <= region_height,
            region_width * region_height < 0x2000_0000,
        ensures
            p.wf(),
            !p.pre_done_spec(),
            !p.post_done_spec(),
            p.pattern_spec() == tiles_pattern@,
            p.width_spec() == region_width,
            p.height_spec() == region_height,
    {
        TilesProcessor {
            tiles_pattern: clone_bytes(tiles_pattern),
            region_width,
            region_height,
            pre_done: false,
            post_done: false,
        }
    }
}

/// Single-image sink: one shared canvas covering a fixed window of the world,
/// encoded as one PNG when processing finishes.
pub struct SingleImageProcessor {
    pixbuf: Vec<u32>,
    img_path: Vec<u8>,
    window: CanvasWindow,
    pre_done: bool,
    post_done: bool,
}

impl SingleImageProcessor {
    /// The window is well formed and the canvas has exactly its pixel count.
    pub closed spec fn wf(self) -> bool {
        self.window.wf() && self.pixbuf@.len() == self.window.canvas_len()
    }

    /// The canvas contents.
    pub closed spec fn canvas(self) -> Seq<u32> {
        self.pixbuf@
    }

    /// The resolved output path.
    pub closed spec fn img_path_spec(self) -> Seq<u8> {
        self.img_path@
    }

    /// The canvas sizing.
    pub closed spec fn window_spec(self) -> CanvasWindow {
        self.window
    }

    /// Whether `pre_process` has run.
    pub closed spec fn pre_done_spec(self) -> bool {
        self.pre_done
    }

    /// Whether `post_process` has run.
    pub closed spec fn post_done_spec(self) -> bool {
        self.post_done
    }

    /// Substitutes the `{t}` token in the pattern with the given Unix
    /// timestamp in decimal. Done once, at construction.
    pub fn replace_timestamp(img_pattern: &Vec<u8>, unix_time: u64) -> (out: Vec<u8>)
        ensures
            out@ == replace_seq(img_pattern@, tok_t(), dec_digits(unix_time as nat)),
    {
        replace_all(img_pattern, &token_t(), &u64_to_dec(unix_time))
    }

    /// Builds a single-image sink: a zero-filled canvas sized by `window` and
    /// an output path resolved once from the pattern and the timestamp.
    pub fn new(img_pattern: &Vec<u8>, unix_time: u64, window: CanvasWindow) -> (p:
        SingleImageProcessor)
        requires
            window.wf(),
        ensures
            p.wf(),
            !p.pre_done_spec(),
            !p.post_done_spec(),
            p.window_spec() == window,
            p.img_path_spec() == replace_seq(img_pattern@, tok_t(), dec_digits(unix_time as nat)),
            p.canvas().len() == window.canvas_len(),
            forall|i: int| 0 <= i < p.canvas().len() ==> p.canvas()[i] == 0u32,
    {
        let len: usize = window.canvas_len_u();
        let mut pixbuf: Vec<u32> = Vec::new();
        while pixbuf.len() < len
            invariant
                pixbuf@.len() <= len,
                forall|i: int| 0 <= i < pixbuf@.len() ==> pixbuf@[i] == 0u32,
            decreases len - pixbuf@.len(),
        {
            pixbuf.push(0u32);
        }
        SingleImageProcessor {
            pixbuf,
            img_path: SingleImageProcessor::replace_timestamp(img_pattern, unix_time),
            window,
            pre_done: false,
            post_done: false,
        }
    }

    /// The canvas pixels, row-major at the canvas width.
    pub fn canvas_pixels(&self) -> (r: &Vec<u32>)
        ensures
            r@ == self.canvas(),
    {
        &self.pixbuf
    }

    /// Copies one colorized region into the canvas at the offset its position
    /// gives, one region row at a time. A region outside the window is
    /// skipped whole: no canvas byte changes, and the caller is told.
    fn blend_region(&mut self, region_pos: RegionPos, region_pixels: Vec<u32>) -> (blended: bool)
        requires
            old(self).wf(),
            region_pixels@.len() == old(self).window_spec().region_blocks(),
        ensures
            final(self).wf(),
            final(self).window_spec() == old(self).window_spec(),
            final(self).img_path_spec() == old(self).img_path_spec(),
            final(self).pre_done_spec() == old(self).pre_done_spec(),
            final(self).post_done_spec() == old(self).post_done_spec(),
            final(self).canvas() == canvas_write(
                old(self).canvas(),
                old(self).window_spec(),
                region_pos,
                region_pixels@,
            ),
            blended == old(self).window_spec().in_window(region_pos),
            !blended ==> final(self).canvas() == old(self).canvas(),
    {
        let win: CanvasWindow = self.window;
        proof {
            lemma_window_bounds(win);
        }
        let rx: i32 = region_pos.0;
        let rz: i32 = region_pos.1;
        let gx: i64 = rx as i64 + (win.regions_x / 2) as i64;
        let gz: i64 = rz as i64 + (win.regions_z / 2) as i64;
        if gx < 0 || gx >= win.regions_x as i64 || gz < 0 || gz >= win.regions_z as i64 {
            proof {
                assert(!win.in_window(region_pos));
            }
            return false;
        }
        assert(win.in_window(region_pos));
        let rw: usize = win.region_width;
        let rh: usize = win.region_height;
        let cw: usize = win.canvas_width_u();
        let blocks: usize = win.region_blocks_u();
        let gxu: usize = gx as usize;
        let gzu: usize = gz as usize;
        proof {
            assert(gxu * rw == win.x_off(region_pos) && gxu * rw + rw <= cw) by (nonlinear_arith)
                requires
                    gxu == region_pos.0 - win.west_region(),
                    0 <= gxu < win.regions_x,
                    1 <= rw,
                    rw == win.region_width,
                    cw == win.regions_x * rw,
                    win.x_off(region_pos) == (region_pos.0 - win.west_region()) * rw,
            ;
            assert(gzu * rh == win.z_off(region_pos) && gzu * rh + rh <= win.canvas_height())
                by (nonlinear_arith)
                requires
                    gzu == region_pos.1 - win.north_region(),
                    0 <= gzu < win.regions_z,
                    1 <= rh,
                    rh == win.region_height,
                    win.canvas_height() == win.regions_z * rh,
                    win.z_off(region_pos) == (region_pos.1 - win.north_region()) * rh,
            ;
        }
        let x_off: usize = gxu * rw;
        let z_off: usize = gzu * rh;
        let ghost c0: Seq<u32> = self.pixbuf@;
        let mut k: usize = 0;
        proof {
            assert(self.pixbuf@ =~= canvas_write_prefix(c0, win, region_pos, region_pixels@, 0));
        }
        while k < blocks
            invariant
                win.wf(),
                win.in_window(region_pos),
                win == self.window,
                self.img_path == old(self).img_path,
                self.pre_done == old(self).pre_done,
                self.post_done == old(self).post_done,
                rw == win.region_width,
                rh == win.region_height,
                cw == win.canvas_width(),
                blocks == win.region_blocks(),
                x_off == win.x_off(region_pos),
                z_off == win.z_off(region_pos),
                region_pixels@.len() == blocks,
                c0.len() == win.canvas_len(),
                0 <= k <= blocks,
                self.pixbuf@.len() == c0.len(),
                self.pixbuf@ == canvas_write_prefix(c0, win, region_pos, region_pixels@, k as int),
            decreases blocks - k,
        {
            let row: usize = k / rw;
            let col: usize = k % rw;
            proof {
                lemma_cell_index(win, region_pos, k as int);
                lemma_window_bounds(win);
                assert(win.cell_global(region_pos, k as int) == (z_off + row) * cw + (x_off + col));
            }
            let gi: usize = (z_off + row) * cw + (x_off + col);
            let v: u32 = region_pixels[k];
            let ghost prev: Seq<u32> = self.pixbuf@;
            self.pixbuf.set(gi, v);
            proof {
                let ghost gii = gi as int;
                assert(win.covers(region_pos, gii) && win.local_index(region_pos, gii) == k as int);
                assert forall|i: int| 0 <= i < prev.len() implies self.pixbuf@[i]
                    == canvas_write_prefix(
                    c0,
                    win,
                    region_pos,
                    region_pixels@,
                    k as int + 1,
                )[i] by {
                    if i != gii {
                        if win.covers(region_pos, i) && win.local_index(region_pos, i)
                            == k as int {
                            lemma_covers_unique(win, region_pos, i);
                            assert(i == gii);
                        }
                    }
                }
                assert(self.pixbuf@ =~= canvas_write_prefix(
                    c0,
                    win,
                    region_pos,
                    region_pixels@,
                    k as int + 1,
                ));
            }
            k += 1;
        }
        proof {
            assert forall|i: int| 0 <= i < c0.len() implies canvas_write_prefix(
                c0,
                win,
                region_pos,
                region_pixels@,
                blocks as int,
            )[i] == canvas_write(c0, win, region_pos, region_pixels@)[i] by {
                if win.covers(region_pos, i) {
                    lemma_local_index_bounds(win, region_pos, i);
                }
            }
            assert(self.pixbuf@ =~= canvas_write(c0, win, region_pos, region_pixels@));
        }
        true
    }
}

/// The output sink: one of the two assembly strategies. Callers pick a
/// variant value; the rendering loop drives it through `pre_process`, one
/// `process_region` per region, and `post_process`, in that order.
pub enum Processor {
    /// One PNG file per region.
    Tiles(TilesProcessor),
    /// One stitched canvas for a fixed world window.
    SingleImage(SingleImageProcessor),
}

impl Processor {
    /// The sink's own invariant.
    pub closed spec fn wf(self) -> bool {
        match self {
            Processor::Tiles(t) => t.wf(),
            Processor::SingleImage(s) => s.wf(),
        }
    }

    /// True for the tile sink.
    pub closed spec fn is_tiles(self) -> bool {
        self matches Processor::Tiles(_)
    }

    /// Whether `pre_process` has run.
    pub closed spec fn pre_done(self) -> bool {
        match self {
            Processor::Tiles(t) => t.pre_done,
            Processor::SingleImage(s) => s.pre_done,
        }
    }

    /// Whether `post_process` has run.
    pub closed spec fn post_done(self) -> bool {
        match self {
            Processor::Tiles(t) => t.post_done,
            Processor::SingleImage(s) => s.post_done,
        }
    }

    /// Columns per region row that this sink expects.
    pub closed spec fn region_width_spec(self) -> int {
        match self {
            Processor::Tiles(t) => t.region_width as int,
            Processor::SingleImage(s) => s.window.region_width as int,
        }
    }

    /// Rows per region that this sink expects.
    pub closed spec fn region_height_spec(self) -> int {
        match self {
            Processor::Tiles(t) => t.region_height as int,
            Processor::SingleImage(s) => s.window.region_height as int,
        }
    }

    /// Pixels per region that this sink expects.
    pub open spec fn region_blocks(self) -> int {
        self.region_width_spec() * self.region_height_spec()
    }

    /// The tile sink's path pattern; empty for the single-image sink.
    pub closed spec fn tiles_pattern_spec(self) -> Seq<u8> {
        match self {
            Processor::Tiles(t) => t.tiles_pattern@,
            Processor::SingleImage(_) => Seq::empty(),
        }
    }

    /// The single-image sink's output path; empty for the tile sink.
    pub closed spec fn img_path_spec(self) -> Seq<u8> {
        match self {
            Processor::Tiles(_) => Seq::empty(),
            Processor::SingleImage(s) => s.img_path@,
        }
    }

    /// The single-image sink's window; the tile sink has region dimensions
    /// only, padded to a unit window here.
    pub closed spec fn window_spec(self) -> CanvasWindow {
        match self {
            Processor::Tiles(t) => CanvasWindow {
                region_width: t.region_width,
                region_height: t.region_height,
                regions_x: 1,
                regions_z: 1,
            },
            Processor::SingleImage(s) => s.window,
        }
    }

    /// The single-image sink's canvas; empty for the tile sink.
    pub closed spec fn canvas(self) -> Seq<u32> {
        match self {
            Processor::Tiles(_) => Seq::empty(),
            Processor::SingleImage(s) => s.pixbuf@,
        }
    }

    /// True for the tile sink, as a machine value.
    pub fn tiles_mode(&self) -> (r: bool)
        ensures
            r == self.is_tiles(),
    {
        match self {
            Processor::Tiles(_) => true,
            Processor::SingleImage(_) => false,
        }
    }

    /// Pixels per region, as a machine integer.
    pub fn region_pixel_count(&self) -> (r: usize)
        requires
            self.wf(),
        ensures
            r == self.region_blocks(),
    {
        match self {
            Processor::Tiles(t) => t.region_width * t.region_height,
            Processor::SingleImage(s) => s.window.region_blocks_u(),
        }
    }

    /// Runs once before any region: reports which output path's directory
    /// must exist before anything is written (the single image's resolved
    /// path; tiles resolve their directories per region).
    pub fn pre_process(&mut self) -> (dir_for: Option<Vec<u8>>)
        requires
            old(self).wf(),
            !old(self).pre_done(),
            !old(self).post_done(),
        ensures
            final(self).wf(),
            final(self).pre_done(),
            !final(self).post_done(),
            final(self).is_tiles() == old(self).is_tiles(),
            final(self).region_width_spec() == old(self).region_width_spec(),
            final(self).region_height_spec() == old(self).region_height_spec(),
            final(self).tiles_pattern_spec() == old(self).tiles_pattern_spec(),
            final(self).img_path_spec() == old(self).img_path_spec(),
            final(self).window_spec() == old(self).window_spec(),
            final(self).canvas() == old(self).canvas(),
            old(self).is_tiles() ==> dir_for is None,
            !old(self).is_tiles() ==> (dir_for matches Some(p) && p@ == old(self).img_path_spec()),
    {
        match self {
            Processor::Tiles(t) => {
                t.pre_done = true;
                None
            },
            Processor::SingleImage(s) => {
                s.pre_done = true;
                Some(clone_bytes(&s.img_path))
            },
        }
    }

    /// Consumes one colorized region. In tile mode the region becomes its own
    /// PNG tile (or is reported failed, losing only that tile); in
    /// single-image mode it is blended into the canvas, or skipped whole when
    /// it lies outside the window.
    pub fn process_region(&mut self, region_pos: RegionPos, region_pixels: Vec<u32>) -> (outcome:
        RegionOutcome)
        requires
            old(self).wf(),
            old(self).pre_done(),
            !old(self).post_done(),
            region_pixels@.len() == old(self).region_blocks(),
        ensures
            final(self).wf(),
            final(self).pre_done(),
            !final(self).post_done(),
            final(self).is_tiles() == old(self).is_tiles(),
            final(self).region_width_spec() == old(self).region_width_spec(),
            final(self).region_height_spec() == old(self).region_height_spec(),
            final(self).tiles_pattern_spec() == old(self).tiles_pattern_spec(),
            final(self).img_path_spec() == old(self).img_path_spec(),
            final(self).window_spec() == old(self).window_spec(),
            final(self).canvas() == (if old(self).is_tiles() {
                old(self).canvas()
            } else {
                canvas_write(
                    old(self).canvas(),
                    old(self).window_spec(),
                    region_pos,
                    region_pixels@,
                )
            }),
            old(self).is_tiles() ==> (outcome matches RegionOutcome::Tile(_) || outcome
                matches RegionOutcome::TileFailed),
            outcome matches RegionOutcome::Tile(w) ==> old(self).is_tiles() && w.path@
                == tile_path(
                old(self).tiles_pattern_spec(),
                region_pos.0 as int,
                region_pos.1 as int,
            ) && w.width == old(self).region_width_spec() && w.height == old(
                self,
            ).region_height_spec() && w.png@ == png_bytes_of(
                region_pixels@,
                old(self).region_width_spec(),
                old(self).region_height_spec(),
            ),
            !old(self).is_tiles() ==> ((outcome matches RegionOutcome::Blended <==> old(
                self,
            ).window_spec().in_window(region_pos)) && (outcome matches RegionOutcome::OutOfWindow
                <==> !old(self).window_spec().in_window(region_pos))),
            !old(self).window_spec().in_window(region_pos) ==> final(self).canvas() == old(self).canvas(),
    {
        match self {
            Processor::Tiles(t) => {
                let path: Vec<u8> = resolve_tile_path(&t.tiles_pattern, region_pos.0, region_pos.1);
                match encode_png32(&region_pixels, t.region_width, t.region_height) {
                    Ok(png) => RegionOutcome::Tile(
                        ImageWrite { path, width: t.region_width, height: t.region_height, png },
                    ),
                    Err(_) => RegionOutcome::TileFailed,
                }
            },
            Processor::SingleImage(s) => {
                if s.blend_region(region_pos, region_pixels) {
                    RegionOutcome::Blended
                } else {
                    RegionOutcome::OutOfWindow
                }
            },
        }
    }

    /// Runs once after every region has been handled. The single-image sink
    /// encodes its whole canvas as the one final artifact; encoding failure
    /// there aborts the run's output. The tile sink has nothing left to do.
    pub fn post_process(&mut self) -> (finale: Result<Option<ImageWrite>, PngError>)
        requires
            old(self).wf(),
            old(self).pre_done(),
            !old(self).post_done(),
        ensures
            final(self).wf(),
            final(self).pre_done(),
            final(self).post_done(),
            final(self).is_tiles() == old(self).is_tiles(),
            final(self).region_width_spec() == old(self).region_width_spec(),
            final(self).region_height_spec() == old(self).region_height_spec(),
            final(self).tiles_pattern_spec() == old(self).tiles_pattern_spec(),
            final(self).img_path_spec() == old(self).img_path_spec(),
            final(self).window_spec() == old(self).window_spec(),
            final(self).canvas() == old(self).canvas(),
            old(self).is_tiles() ==> (finale matches Ok(w) && w is None),
            !old(self).is_tiles() ==> (finale matches Ok(w) ==> w matches Some(img) && img.path@
                == old(self).img_path_spec() && img.width == old(self).window_spec().canvas_width()
                && img.height == old(self).window_spec().canvas_height() && img.png@
                == png_bytes_of(
                old(self).canvas(),
                old(self).window_spec().canvas_width(),
                old(self).window_spec().canvas_height(),
            )),
    {
        match self {
            Processor::Tiles(t) => {
                t.post_done = true;
                Ok(None)
            },
            Processor::SingleImage(s) => {
                s.post_done = true;
                let cw: usize = s.window.canvas_width_u();
                let ch: usize = s.window.canvas_height_u();
                proof {
                    lemma_window_bounds(s.window);
                }
                match encode_png32(&s.pixbuf, cw, ch) {
                    Ok(png) => Ok(
                        Some(
                            ImageWrite {
                                path: clone_bytes(&s.img_path),
                                width: cw,
                                height: ch,
                                png,
                            },
                        ),
                    ),
                    Err(e) => Err(e),
                }
            },
        }
    }
}

/// Chooses the sink a path pattern selects: a pattern with both `{x}` and
/// `{z}`, or with `{tile}`, selects tile mode; any other pattern selects
/// single-image mode with a `{t}` timestamp substituted once.
pub fn get_processor(arg_output: &Vec<u8>, unix_time: u64, window: CanvasWindow) -> (p: Processor)
    requires
        window.wf(),
    ensures
        p.wf(),
        !p.pre_done(),
        !p.post_done(),
        p.region_width_spec() == window.region_width,
        p.region_height_spec() == window.region_height,
        p.is_tiles() == ((contains_seq(arg_output@, tok_x()) && contains_seq(arg_output@, tok_z()))
            || contains_seq(arg_output@, tok_tile())),
        p.is_tiles() ==> p.tiles_pattern_spec() == arg_output@,
        !p.is_tiles() ==> p.img_path_spec() == replace_seq(
            arg_output@,
            tok_t(),
            dec_digits(unix_time as nat),
        ) && p.window_spec() == window && p.canvas().len() == window.canvas_len() && (forall|i: int|
            0 <= i < p.canvas().len() ==> p.canvas()[i] == 0u32),
{
    proof {
        lemma_window_bounds(window);
    }
    let tiles_mode: bool = (contains_bytes(arg_output, &token_x()) && contains_bytes(
        arg_output,
        &token_z(),
    )) || contains_bytes(arg_output, &token_tile());
    if tiles_mode {
        Processor::Tiles(
            TilesProcessor::new(arg_output, window.region_width, window.region_height),
        )
    } else {
        Processor::SingleImage(SingleImageProcessor::new(arg_output, unix_time, window))
    }
}

} // verus!
