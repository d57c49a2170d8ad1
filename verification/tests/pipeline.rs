use voxelmap_render::colorizer::colorize;
use voxelmap_render::colorizer::colorize_region;
use voxelmap_render::colorizer::select_colorizer;
use voxelmap_render::colorizer::Column;
use voxelmap_render::colorizer::Colorizer;
use voxelmap_render::pattern::i32_to_dec;
use voxelmap_render::pattern::replace_all;
use voxelmap_render::pattern::resolve_tile_path;
use voxelmap_render::pattern::u64_to_dec;
use voxelmap_render::processor::get_processor;
use voxelmap_render::processor::CanvasWindow;
use voxelmap_render::processor::Processor;
use voxelmap_render::processor::RegionOutcome;
use voxelmap_render::processor::SingleImageProcessor;
use voxelmap_render::processor::TilesProcessor;
use voxelmap_render::render::render_regions;
use voxelmap_render::render::validate_config;
use voxelmap_render::render::ConfigError;
use voxelmap_render::render::RenderError;

fn small_window() -> CanvasWindow {
    CanvasWindow { region_width: 4, region_height: 4, regions_x: 2, regions_z: 2 }
}

fn sample_columns(n: usize) -> Vec<Column> {
    (0..n)
        .map(|i| Column {
            height: (i % 251) as u8,
            block: (i * 7 % 1021) as u16,
            light: (i % 16) as u8,
            biome: (i % 53) as u8,
        })
        .collect()
}

fn canvas_of(p: &Processor) -> Vec<u32> {
    match p {
        Processor::SingleImage(s) => s.canvas_pixels().clone(),
        Processor::Tiles(_) => panic!("expected the single-image sink"),
    }
}

#[test]
fn colorize_same_input_twice_is_identical() {
    let cols = sample_columns(64);
    for cz in [
        Colorizer::Simple,
        Colorizer::Light,
        Colorizer::Biome,
        Colorizer::Height,
        Colorizer::Terrain,
    ] {
        let a = colorize_region(cz, &cols);
        let b = colorize_region(cz, &cols);
        assert_eq!(a, b);
        assert_eq!(a.len(), 64);
    }
}

#[test]
fn colorize_exact_values() {
    let c = Column { height: 2, block: 1, light: 15, biome: 1 };
    // Simple: channels (1*31, 1*97, 1*61) under opaque alpha
    assert_eq!(colorize(Colorizer::Simple, c), 0xFF1F_613D);
    // Light at the maximum level scales every channel by 31/31
    assert_eq!(colorize(Colorizer::Light, c), 0xFF1F_613D);
    // Biome: channels (1*37, 1*73, 1*17)
    assert_eq!(colorize(Colorizer::Biome, c), 0xFF25_4911);
    // Height 2: channels (2, 253, 4)
    assert_eq!(colorize(Colorizer::Height, c), 0xFF02_FD04);
    // Terrain on a zeroed column at full light: only the inverted-height
    // channel survives the blend, (0+255)/2 = 127
    let z = Column { height: 0, block: 0, light: 15, biome: 0 };
    assert_eq!(colorize(Colorizer::Terrain, z), 0xFF00_7F00);
}

#[test]
fn colorize_variants_disagree_somewhere() {
    let cols = sample_columns(64);
    let simple = colorize_region(Colorizer::Simple, &cols);
    let biome = colorize_region(Colorizer::Biome, &cols);
    assert_ne!(simple, biome);
}

#[test]
fn tile_path_substitutes_x_and_z() {
    let out = resolve_tile_path(&b"out/{x}_{z}.png".to_vec(), 3, -2);
    assert_eq!(out, b"out/3_-2.png".to_vec());
}

#[test]
fn tile_path_substitutes_tile_token() {
    let out = resolve_tile_path(&b"out/{tile}.png".to_vec(), 3, -2);
    assert_eq!(out, b"out/3,-2.png".to_vec());
}

#[test]
fn tile_path_handles_extreme_coordinates() {
    let out = resolve_tile_path(&b"t/{x},{z}".to_vec(), i32::MIN, i32::MAX);
    assert_eq!(out, b"t/-2147483648,2147483647".to_vec());
}

#[test]
fn decimal_rendering_edge_values() {
    assert_eq!(u64_to_dec(0), b"0".to_vec());
    assert_eq!(u64_to_dec(18446744073709551615), b"18446744073709551615".to_vec());
    assert_eq!(i32_to_dec(0), b"0".to_vec());
    assert_eq!(i32_to_dec(-1), b"-1".to_vec());
}

#[test]
fn replace_all_replaces_every_occurrence() {
    let out = replace_all(&b"{x}a{x}{x}".to_vec(), &b"{x}".to_vec(), &b"Z".to_vec());
    assert_eq!(out, b"ZaZZ".to_vec());
}

#[test]
fn replace_timestamp_substitutes_once_pattern() {
    let out = SingleImageProcessor::replace_timestamp(&b"map_{t}.png".to_vec(), 12345);
    assert_eq!(out, b"map_12345.png".to_vec());
}

#[test]
fn pattern_with_x_and_z_selects_tile_mode() {
    let p = get_processor(&b"out/{x}_{z}.png".to_vec(), 0, small_window());
    assert!(matches!(p, Processor::Tiles(_)));
}

#[test]
fn pattern_with_tile_selects_tile_mode() {
    let p = get_processor(&b"out/{tile}.png".to_vec(), 0, small_window());
    assert!(matches!(p, Processor::Tiles(_)));
}

#[test]
fn pattern_with_only_x_selects_single_image_mode() {
    let p = get_processor(&b"out/{x}.png".to_vec(), 0, small_window());
    assert!(matches!(p, Processor::SingleImage(_)));
}

#[test]
fn plain_pattern_selects_single_image_mode() {
    let p = get_processor(&b"out/map.png".to_vec(), 77, small_window());
    assert!(matches!(p, Processor::SingleImage(_)));
}

#[test]
fn unknown_colorizer_fails_validation() {
    assert_eq!(validate_config(Colorizer::Unknown, 4), Err(ConfigError::UnknownColorizer));
    assert_eq!(validate_config(Colorizer::Simple, 4), Ok(()));
}

#[test]
fn zero_threads_fails_validation() {
    assert_eq!(validate_config(Colorizer::Simple, 0), Err(ConfigError::NoWorkers));
}

#[test]
fn unknown_colorizer_aborts_before_any_region() {
    let mut p = get_processor(&b"out/map.png".to_vec(), 0, small_window());
    let regions = vec![((0i32, 0i32), sample_columns(16))];
    let res = render_regions(&mut p, Colorizer::Unknown, &regions);
    assert!(matches!(res, Err(RenderError::UnknownColorizer)));
    // no partial output: the canvas is still in its zero-filled initial state
    assert!(canvas_of(&p).iter().all(|&v| v == 0));
}

#[test]
fn selecting_no_strategy_yields_unknown() {
    assert_eq!(select_colorizer(false, false, false, false, false), Colorizer::Unknown);
    assert_eq!(select_colorizer(true, false, false, false, false), Colorizer::Simple);
    assert_eq!(select_colorizer(false, true, true, false, false), Colorizer::Light);
    assert_eq!(select_colorizer(false, false, false, false, true), Colorizer::Terrain);
}

#[test]
fn center_region_fills_exactly_the_center_block() {
    // window: 2x2 regions of 4x4, canvas 8x8; region (0,0) starts at (4,4)
    let win = small_window();
    let mut p = get_processor(&b"out/map.png".to_vec(), 0, win);
    match &mut p {
        Processor::SingleImage(_) => {}
        _ => panic!("expected the single-image sink"),
    }
    p.pre_process();
    let pixels = vec![0xFFFF_FFFFu32; 16];
    let outcome = p.process_region((0, 0), pixels);
    assert!(matches!(outcome, RegionOutcome::Blended));
    let canvas = canvas_of(&p);
    assert_eq!(canvas.len(), 64);
    for row in 0..8usize {
        for col in 0..8usize {
            let expected = if (4..8).contains(&row) && (4..8).contains(&col) {
                0xFFFF_FFFFu32
            } else {
                0u32
            };
            assert_eq!(canvas[row * 8 + col], expected, "at row {row} col {col}");
        }
    }
}

#[test]
fn out_of_window_region_leaves_canvas_untouched() {
    let win = small_window();
    let mut p = get_processor(&b"out/map.png".to_vec(), 0, win);
    p.pre_process();
    // lay down a sentinel pattern first
    let sentinel = vec![0xDEAD_BEEFu32; 16];
    assert!(matches!(p.process_region((-1, -1), sentinel), RegionOutcome::Blended));
    let before = canvas_of(&p);
    // a region far outside the 2x2 window must change nothing
    let outcome = p.process_region((100, -100), vec![0x1234_5678u32; 16]);
    assert!(matches!(outcome, RegionOutcome::OutOfWindow));
    assert_eq!(canvas_of(&p), before);
}

#[test]
fn worker_order_does_not_change_the_canvas() {
    let win = small_window();
    let a = ((0i32, 0i32), sample_columns(16));
    let b = ((-1i32, -1i32), sample_columns(16).into_iter().rev().collect::<Vec<_>>());
    let c = ((0i32, -1i32), sample_columns(16));

    let mut p1 = get_processor(&b"out/map.png".to_vec(), 0, win);
    let r1 = render_regions(
        &mut p1,
        Colorizer::Terrain,
        &vec![a.clone(), b.clone(), c.clone()],
    );
    let mut p2 = get_processor(&b"out/map.png".to_vec(), 0, win);
    let r2 = render_regions(&mut p2, Colorizer::Terrain, &vec![c, b, a]);

    let rep1 = r1.expect("first order renders");
    let rep2 = r2.expect("second order renders");
    assert_eq!(canvas_of(&p1), canvas_of(&p2));
    assert_eq!(rep1.writes.len(), 1);
    assert_eq!(rep2.writes.len(), 1);
    assert_eq!(rep1.writes[0].png, rep2.writes[0].png);
    assert_eq!(rep1.blended, 3);
    assert_eq!(rep1.out_of_window, 0);
}

#[test]
fn tile_order_does_not_change_the_tiles() {
    let a = ((3i32, -2i32), sample_columns(16));
    let b = ((0i32, 5i32), sample_columns(16));
    let mut p1 = get_processor(&b"out/{x}_{z}.png".to_vec(), 0, small_window());
    let rep1 = render_regions(&mut p1, Colorizer::Simple, &vec![a.clone(), b.clone()])
        .expect("tile runs always finish");
    let mut p2 = get_processor(&b"out/{x}_{z}.png".to_vec(), 0, small_window());
    let rep2 = render_regions(&mut p2, Colorizer::Simple, &vec![b, a]).expect("tile run");
    let mut t1: Vec<(Vec<u8>, Vec<u8>)> =
        rep1.writes.into_iter().map(|w| (w.path, w.png)).collect();
    let mut t2: Vec<(Vec<u8>, Vec<u8>)> =
        rep2.writes.into_iter().map(|w| (w.path, w.png)).collect();
    t1.sort();
    t2.sort();
    assert_eq!(t1, t2);
    assert_eq!(t1.len(), 2);
    assert_eq!(t1[1].0, b"out/3_-2.png".to_vec());
}

#[test]
fn single_image_run_produces_one_artifact_after_post_process() {
    let mut p = get_processor(&b"shot_{t}.png".to_vec(), 99, small_window());
    let regions = vec![((0i32, 0i32), sample_columns(16)), ((7i32, 7i32), sample_columns(16))];
    let rep = render_regions(&mut p, Colorizer::Height, &regions).expect("run finishes");
    assert_eq!(rep.regions_processed, 2);
    assert_eq!(rep.blended, 1);
    assert_eq!(rep.out_of_window, 1);
    assert_eq!(rep.writes.len(), 1);
    assert_eq!(rep.writes[0].path, b"shot_99.png".to_vec());
    assert_eq!(rep.writes[0].width, 8);
    assert_eq!(rep.writes[0].height, 8);
    assert_eq!(rep.dir_for, Some(b"shot_99.png".to_vec()));
}

#[test]
fn malformed_region_aborts_single_image_run() {
    let mut p = get_processor(&b"out/map.png".to_vec(), 0, small_window());
    let regions = vec![((1i32, -1i32), sample_columns(9))];
    let res = render_regions(&mut p, Colorizer::Simple, &regions);
    assert!(matches!(res, Err(RenderError::MalformedRegion { x: 1, z: -1 })));
}

#[test]
fn malformed_region_is_skipped_in_tile_mode() {
    let mut p = get_processor(&b"out/{tile}.png".to_vec(), 0, small_window());
    let regions = vec![((1i32, 1i32), sample_columns(9)), ((2i32, 2i32), sample_columns(16))];
    let rep = render_regions(&mut p, Colorizer::Simple, &regions).expect("tile run finishes");
    assert_eq!(rep.malformed_regions, 1);
    assert_eq!(rep.writes.len(), 1);
    assert_eq!(rep.writes[0].path, b"out/2,2.png".to_vec());
}

#[test]
fn tile_png_bytes_really_encode_the_pixels() {
    let mut p = Processor::Tiles(TilesProcessor::new(&b"{tile}.png".to_vec(), 4, 4));
    p.pre_process();
    let pixels: Vec<u32> = (0..16u32).map(|i| 0xFF00_0000 | (i * 0x0101)).collect();
    let outcome = p.process_region((0, 0), pixels.clone());
    let w = match outcome {
        RegionOutcome::Tile(w) => w,
        _ => panic!("expected a tile artifact"),
    };
    // a PNG stream, not the raw buffer handed back
    assert_eq!(&w.png[..8], &[137u8, 80, 78, 71, 13, 10, 26, 10]);
    // and it decodes back to exactly the pixels that went in
    let bitmap = lodepng::decode32(&w.png).expect("the tile decodes");
    assert_eq!(bitmap.width, 4);
    assert_eq!(bitmap.height, 4);
    for (i, rgba) in bitmap.buffer.iter().enumerate() {
        let v = pixels[i];
        assert_eq!(rgba.r, (v & 0xFF) as u8);
        assert_eq!(rgba.g, ((v >> 8) & 0xFF) as u8);
        assert_eq!(rgba.b, ((v >> 16) & 0xFF) as u8);
        assert_eq!(rgba.a, ((v >> 24) & 0xFF) as u8);
    }
}

#[test]
fn reference_sizing_matches_the_default_world_window() {
    let w = CanvasWindow::reference_sizing();
    assert_eq!(w.region_width, 256);
    assert_eq!(w.region_height, 256);
    assert_eq!(w.regions_x, 40);
    assert_eq!(w.regions_z, 40);
}
