//! The render run: validate the configuration, then drive the sink through
//! its lifecycle — `pre_process` once, `process_region` once per region,
//! `post_process` once — colorizing each region on the way.
//!
//! This is the sequential delivery order; because blends of distinct regions
//! commute (see `lemma_canvas_write_commutes`), concurrent workers that
//! serialize their `process_region` calls produce the same artifacts.

use vstd::prelude::*;
use crate::colorizer::Colorizer;
use crate::colorizer::Column;
use crate::colorizer::colorize_region;
use crate::colorizer::spec_colorize_region;
use crate::processor::Processor;
use crate::processor::RegionOutcome;
use crate::processor::ImageWrite;
use crate::processor::RegionPos;
use crate::processor::CanvasWindow;
use crate::processor::canvas_write;
use crate::processor::lemma_canvas_write_commutes;
use crate::processor::png_bytes_of;
use crate::pattern::tile_path;

verus! {

/// Why a run could not be configured.
#[derive(Clone, Copy, PartialEq, Eq, Structural, Debug)]
pub enum ConfigError {
    /// No concrete colorization strategy was selected.
    UnknownColorizer,
    /// A worker pool needs at least one worker.
    NoWorkers,
}

/// Why a run aborted.
#[derive(Clone, Copy, PartialEq, Eq, Structural, Debug)]
pub enum RenderError {
    /// No concrete colorization strategy was selected; nothing was processed.
    UnknownColorizer,
    /// Single-image mode: the region at `(x, z)` carried column data of the
    /// wrong size, which aborts the run to protect the shared canvas.
    MalformedRegion { x: i32, z: i32 },
    /// Single-image mode: encoding the final canvas failed, so the run's one
    /// artifact is lost.
    Encode,
}

/// What a finished run produced and counted.
pub struct RenderReport {
    /// The artifacts to write to disk: one per surviving tile, or exactly one
    /// stitched image.
    pub writes: Vec<ImageWrite>,
    /// The path whose parent directory must exist before the writes (the
    /// single image's path); tiles carry their directories in their own paths.
    pub dir_for: Option<Vec<u8>>,
    /// Regions consumed from the input.
    pub regions_processed: usize,
    /// Regions blended into the canvas (single-image mode).
    pub blended: usize,
    /// Regions skipped because they lie outside the canvas window.
    pub out_of_window: usize,
    /// Tiles lost to a PNG encoding failure (tile mode).
    pub failed_tiles: usize,
    /// Regions skipped because their column data had the wrong size (tile
    /// mode; in single-image mode such a region aborts the run instead).
    pub malformed_regions: usize,
}

/// Rejects a configuration that must never start rendering: the `Unknown`
/// colorizer sentinel, or an empty worker pool.
pub fn validate_config(colorizer: Colorizer, threads: usize) -> (r: Result<(), ConfigError>)
    ensures
        r is Ok <==> (colorizer != Colorizer::Unknown && threads >= 1),
        r == Err::<(), ConfigError>(ConfigError::UnknownColorizer) <==> colorizer
            == Colorizer::Unknown,
        r == Err::<(), ConfigError>(ConfigError::NoWorkers) <==> (colorizer != Colorizer::Unknown
            && threads == 0),
{
    if colorizer == Colorizer::Unknown {
        Err(ConfigError::UnknownColorizer)
    } else if threads == 0 {
        Err(ConfigError::NoWorkers)
    } else {
        Ok(())
    }
}

/// The canvas after a sequence of regions is colorized and blended in input
/// order.
pub open spec fn canvas_after(
    c0: Seq<u32>,
    win: CanvasWindow,
    cz: Colorizer,
    regions: Seq<(RegionPos, Vec<Column>)>,
) -> Seq<u32>
    decreases regions.len(),
{
    if regions.len() == 0 {
        c0
    } else {
        canvas_write(
            canvas_after(c0, win, cz, regions.drop_last()),
            win,
            regions.last().0,
            spec_colorize_region(cz, regions.last().1@),
        )
    }
}

/// Blending never changes the canvas size.
pub proof fn lemma_canvas_after_len(
    c0: Seq<u32>,
    win: CanvasWindow,
    cz: Colorizer,
    regions: Seq<(RegionPos, Vec<Column>)>,
)
    ensures
        canvas_after(c0, win, cz, regions).len() == c0.len(),
    decreases regions.len(),
{
    if regions.len() > 0 {
        lemma_canvas_after_len(c0, win, cz, regions.drop_last());
    }
}

/// Delivery order does not matter: swapping two neighbouring regions at
/// distinct positions in the delivery sequence leaves the final canvas
/// unchanged. Adjacent swaps generate every reordering, so any schedule of
/// workers that serializes its `process_region` calls paints the same image
/// as the sequential run.
pub proof fn lemma_canvas_after_swap_adjacent(
    c0: Seq<u32>,
    win: CanvasWindow,
    cz: Colorizer,
    regions: Seq<(RegionPos, Vec<Column>)>,
    i: int,
)
    requires
        win.wf(),
        c0.len() == win.canvas_len(),
        0 <= i && i + 1 < regions.len(),
        regions[i].0 != regions[i + 1].0,
    ensures
        canvas_after(c0, win, cz, regions) == canvas_after(
            c0,
            win,
            cz,
            regions.update(i, regions[i + 1]).update(i + 1, regions[i]),
        ),
    decreases regions.len(),
{
    let swapped = regions.update(i, regions[i + 1]).update(i + 1, regions[i]);
    if i + 2 == regions.len() {
        let base = regions.drop_last().drop_last();
        assert(swapped.drop_last().drop_last() =~= base);
        assert(swapped.last() == regions[i]);
        assert(swapped.drop_last().last() == regions[i + 1]);
        assert(regions.drop_last().last() == regions[i]);
        assert(regions.last() == regions[i + 1]);
        let c = canvas_after(c0, win, cz, base);
        lemma_canvas_after_len(c0, win, cz, base);
        let pxi = spec_colorize_region(cz, regions[i].1@);
        let pxj = spec_colorize_region(cz, regions[i + 1].1@);
        assert(canvas_after(c0, win, cz, regions.drop_last()) == canvas_write(
            c,
            win,
            regions[i].0,
            pxi,
        ));
        assert(canvas_after(c0, win, cz, regions) == canvas_write(
            canvas_write(c, win, regions[i].0, pxi),
            win,
            regions[i + 1].0,
            pxj,
        ));
        assert(canvas_after(c0, win, cz, swapped.drop_last()) == canvas_write(
            c,
            win,
            regions[i + 1].0,
            pxj,
        ));
        assert(canvas_after(c0, win, cz, swapped) == canvas_write(
            canvas_write(c, win, regions[i + 1].0, pxj),
            win,
            regions[i].0,
            pxi,
        ));
        lemma_canvas_write_commutes(c, win, regions[i].0, pxi, regions[i + 1].0, pxj);
    } else {
        assert(swapped.last() == regions.last());
        assert(swapped.drop_last() =~= regions.drop_last().update(i, regions[i + 1]).update(
            i + 1,
            regions[i],
        ));
        lemma_canvas_after_swap_adjacent(c0, win, cz, regions.drop_last(), i);
        assert(canvas_after(c0, win, cz, regions) == canvas_write(
            canvas_after(c0, win, cz, regions.drop_last()),
            win,
            regions.last().0,
            spec_colorize_region(cz, regions.last().1@),
        ));
        assert(canvas_after(c0, win, cz, swapped) == canvas_write(
            canvas_after(c0, win, cz, swapped.drop_last()),
            win,
            regions.last().0,
            spec_colorize_region(cz, regions.last().1@),
        ));
    }
}

/// How many of the regions lie outside the canvas window.
pub open spec fn count_out_of_window(
    win: CanvasWindow,
    regions: Seq<(RegionPos, Vec<Column>)>,
) -> int
    decreases regions.len(),
{
    if regions.len() == 0 {
        0
    } else {
        count_out_of_window(win, regions.drop_last()) + (if win.in_window(regions.last().0) {
            0int
        } else {
            1int
        })
    }
}

/// Every region's column data has exactly `blocks` entries.
pub open spec fn all_well_sized(regions: Seq<(RegionPos, Vec<Column>)>, blocks: int) -> bool {
    forall|k: int| 0 <= k < regions.len() ==> regions[k].1@.len() == blocks
}

/// One tile artifact belongs to the region at index `k`: its path comes from
/// the pattern and that region's coordinates, its bytes encode that region's
/// colorized pixels.
pub open spec fn tile_write_for(
    w: ImageWrite,
    pattern: Seq<u8>,
    cz: Colorizer,
    rw: int,
    rh: int,
    regions: Seq<(RegionPos, Vec<Column>)>,
    k: int,
) -> bool {
    &&& 0 <= k < regions.len()
    &&& w.path@ == tile_path(pattern, regions[k].0.0 as int, regions[k].0.1 as int)
    &&& w.png@ == png_bytes_of(spec_colorize_region(cz, regions[k].1@), rw, rh)
}

/// Every artifact in `ws` is the tile of some input region.
pub open spec fn writes_correspond(
    ws: Seq<ImageWrite>,
    pattern: Seq<u8>,
    cz: Colorizer,
    rw: int,
    rh: int,
    regions: Seq<(RegionPos, Vec<Column>)>,
) -> bool
    decreases ws.len(),
{
    if ws.len() == 0 {
        true
    } else {
        (exists|k: int| tile_write_for(ws.last(), pattern, cz, rw, rh, regions, k))
            && writes_correspond(ws.drop_last(), pattern, cz, rw, rh, regions)
    }
}

/// Appending one artifact that belongs to region `k` preserves the
/// correspondence.
proof fn lemma_writes_correspond_push(
    ws: Seq<ImageWrite>,
    w: ImageWrite,
    pattern: Seq<u8>,
    cz: Colorizer,
    rw: int,
    rh: int,
    regions: Seq<(RegionPos, Vec<Column>)>,
    k: int,
)
    requires
        writes_correspond(ws, pattern, cz, rw, rh, regions),
        tile_write_for(w, pattern, cz, rw, rh, regions, k),
    ensures
        writes_correspond(ws.push(w), pattern, cz, rw, rh, regions),
{
    let ws2 = ws.push(w);
    assert(ws2.drop_last() =~= ws);
    assert(ws2.last() == w);
    assert(tile_write_for(ws2.last(), pattern, cz, rw, rh, regions, k));
}

/// Runs the whole pipeline over a region set, sequentially: validates the
/// colorizer, calls `pre_process` exactly once, feeds every region through
/// the colorizer into `process_region`, then calls `post_process` exactly
/// once after the last region.
#[verifier::loop_isolation(false)]
pub fn render_regions(
    processor: &mut Processor,
    colorizer: Colorizer,
    regions: &Vec<(RegionPos, Vec<Column>)>,
) -> (res: Result<RenderReport, RenderError>)
    requires
        old(processor).wf(),
        !old(processor).pre_done(),
        !old(processor).post_done(),
    ensures
        final(processor).wf(),
        final(processor).is_tiles() == old(processor).is_tiles(),
        final(processor).region_width_spec() == old(processor).region_width_spec(),
        final(processor).region_height_spec() == old(processor).region_height_spec(),
        final(processor).tiles_pattern_spec() == old(processor).tiles_pattern_spec(),
        final(processor).img_path_spec() == old(processor).img_path_spec(),
        final(processor).window_spec() == old(processor).window_spec(),
        res == Err::<RenderReport, RenderError>(RenderError::UnknownColorizer) <==> colorizer
            == Colorizer::Unknown,
        colorizer == Colorizer::Unknown ==> *final(processor) == *old(processor),
        colorizer != Colorizer::Unknown && old(processor).is_tiles() ==> res is Ok,
        colorizer != Colorizer::Unknown && !old(processor).is_tiles() && all_well_sized(
            regions@,
            old(processor).region_blocks(),
        ) ==> (res is Ok || res == Err::<RenderReport, RenderError>(RenderError::Encode)),
        res is Ok ==> final(processor).pre_done() && final(processor).post_done(),
        res matches Err(RenderError::MalformedRegion { x, z }) ==> !old(processor).is_tiles()
            && exists|k: int|
            0 <= k < regions@.len() && regions@[k].0 == (x, z) && regions@[k].1@.len() != old(
                processor,
            ).region_blocks(),
        res matches Ok(rep) ==> {
            &&& rep.regions_processed == regions@.len()
            &&& (old(processor).is_tiles() ==> rep.writes@.len() + rep.failed_tiles
                + rep.malformed_regions == regions@.len() && rep.dir_for is None)
            &&& (old(processor).is_tiles() ==> writes_correspond(
                rep.writes@,
                old(processor).tiles_pattern_spec(),
                colorizer,
                old(processor).region_width_spec(),
                old(processor).region_height_spec(),
                regions@,
            ))
            &&& (!old(processor).is_tiles() ==> {
                &&& final(processor).canvas() == canvas_after(
                    old(processor).canvas(),
                    old(processor).window_spec(),
                    colorizer,
                    regions@,
                )
                &&& rep.writes@.len() == 1
                &&& rep.writes@[0].path@ == old(processor).img_path_spec()
                &&& rep.writes@[0].png@ == png_bytes_of(
                    final(processor).canvas(),
                    old(processor).window_spec().canvas_width(),
                    old(processor).window_spec().canvas_height(),
                )
                &&& rep.out_of_window == count_out_of_window(
                    old(processor).window_spec(),
                    regions@,
                )
                &&& rep.blended + rep.out_of_window == regions@.len()
                &&& all_well_sized(regions@, old(processor).region_blocks())
                &&& (rep.dir_for matches Some(p) && p@ == old(processor).img_path_spec())
                &&& rep.failed_tiles == 0 && rep.malformed_regions == 0
            })
        },
{
    if colorizer == Colorizer::Unknown {
        return Err(RenderError::UnknownColorizer);
    }
    let tiles_mode: bool = processor.tiles_mode();
    let blocks: usize = processor.region_pixel_count();
    let dir_for: Option<Vec<u8>> = processor.pre_process();
    let ghost c0: Seq<u32> = processor.canvas();
    let ghost win0: CanvasWindow = processor.window_spec();
    let mut writes: Vec<ImageWrite> = Vec::new();
    let mut blended: usize = 0;
    let mut oow: usize = 0;
    let mut failed: usize = 0;
    let mut malformed: usize = 0;
    let mut i: usize = 0;
    proof {
        assert(regions@.take(0) =~= Seq::<(RegionPos, Vec<Column>)>::empty());
    }
    while i < regions.len()
        invariant
            0 <= i <= regions@.len(),
            processor.wf(),
            processor.pre_done(),
            !processor.post_done(),
            processor.is_tiles() == old(processor).is_tiles(),
            processor.region_width_spec() == old(processor).region_width_spec(),
            processor.region_height_spec() == old(processor).region_height_spec(),
            processor.tiles_pattern_spec() == old(processor).tiles_pattern_spec(),
            processor.img_path_spec() == old(processor).img_path_spec(),
            processor.window_spec() == old(processor).window_spec(),
            !tiles_mode ==> processor.canvas() == canvas_after(
                c0,
                win0,
                colorizer,
                regions@.take(i as int),
            ),
            !tiles_mode ==> all_well_sized(regions@.take(i as int), blocks as int),
            !tiles_mode ==> blended + oow == i && oow == count_out_of_window(
                win0,
                regions@.take(i as int),
            ) && failed == 0 && malformed == 0 && writes@.len() == 0,
            tiles_mode ==> writes@.len() + failed + malformed == i,
            tiles_mode ==> writes_correspond(
                writes@,
                old(processor).tiles_pattern_spec(),
                colorizer,
                old(processor).region_width_spec(),
                old(processor).region_height_spec(),
                regions@,
            ),
        decreases regions@.len() - i,
    {
        let pair: &(RegionPos, Vec<Column>) = &regions[i];
        let pos: RegionPos = pair.0;
        let ghost prefix = regions@.take(i as int);
        if pair.1.len() != blocks {
            if tiles_mode {
                malformed += 1;
            } else {
                proof {
                    assert(regions@[i as int].0 == (pos.0, pos.1));
                    assert(regions@[i as int].1@.len() != blocks as int);
                }
                return Err(RenderError::MalformedRegion { x: pos.0, z: pos.1 });
            }
        } else {
            let px: Vec<u32> = colorize_region(colorizer, &pair.1);
            let outcome: RegionOutcome = processor.process_region(pos, px);
            let ghost prev_writes = writes@;
            match outcome {
                RegionOutcome::Tile(w) => {
                    writes.push(w);
                    proof {
                        if tiles_mode {
                            lemma_writes_correspond_push(
                                prev_writes,
                                writes@[writes@.len() - 1],
                                old(processor).tiles_pattern_spec(),
                                colorizer,
                                old(processor).region_width_spec(),
                                old(processor).region_height_spec(),
                                regions@,
                                i as int,
                            );
                            assert(writes@ =~= prev_writes.push(writes@[writes@.len() - 1]));
                        }
                    }
                },
                RegionOutcome::TileFailed => {
                    failed += 1;
                },
                RegionOutcome::Blended => {
                    blended += 1;
                },
                RegionOutcome::OutOfWindow => {
                    oow += 1;
                },
            }
        }
        i += 1;
        proof {
            assert(regions@.take(i as int).drop_last() =~= prefix);
            assert(regions@.take(i as int).last() == regions@[i - 1]);
        }
    }
    proof {
        assert(regions@.take(regions@.len() as int) =~= regions@);
    }
    match processor.post_process() {
        Ok(finale) => {
            match finale {
                Some(w) => {
                    writes.push(w);
                },
                None => {},
            }
            Ok(
                RenderReport {
                    writes,
                    dir_for,
                    regions_processed: regions.len(),
                    blended,
                    out_of_window: oow,
                    failed_tiles: failed,
                    malformed_regions: malformed,
                },
            )
        },
        Err(_) => Err(RenderError::Encode),
    }
}

} // verus!
