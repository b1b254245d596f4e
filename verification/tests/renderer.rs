use racer_tracer::config::RenderConfig;
use racer_tracer::data_bus::DataBus;
use racer_tracer::error::TracerError;
use racer_tracer::image::{Image, SubImage};
use racer_tracer::image_buffer::ImageBufferEvent;
use racer_tracer::image_buffer::tile_fits;
use racer_tracer::renderer::{
    do_cancel, get_highest_divdable, tile_event, CpuRenderer, CpuRendererScaled, RenderData,
};
use std::cell::Cell;
use synchronoise::SignalEvent;

fn config(across: usize, down: usize, scale: usize) -> RenderConfig {
    RenderConfig {
        samples: 1,
        max_depth: 1,
        num_threads_width: across,
        num_threads_height: down,
        scale,
    }
}

fn tiles(width: usize, height: usize, across: usize, down: usize) -> Vec<SubImage<u8>> {
    let bus: DataBus<u8> = DataBus::new("tiles");
    let image = Image::new(width, height);
    let rd = RenderData { image: &image, cancel_event: None };
    CpuRenderer::prepare_threads(&rd, &config(across, down, 1), &bus.get_writer()).unwrap()
}

fn covers_exactly_once(width: usize, height: usize, tiles: &[SubImage<u8>]) {
    let mut seen = vec![0u32; width * height];
    for tile in tiles {
        assert_eq!(tile.screen_width, width);
        assert_eq!(tile.screen_height, height);
        for y in tile.y..tile.y + tile.height {
            for x in tile.x..tile.x + tile.width {
                assert!(x < width && y < height);
                seen[y * width + x] += 1;
            }
        }
    }
    assert!(seen.iter().all(|&n| n == 1));
}

#[test]
fn an_even_grid_of_tiles() {
    let tiles = tiles(1024, 768, 8, 4);
    assert_eq!(tiles.len(), 32);
    // Tiles come column of tiles after column of tiles.
    for ws in 0..8 {
        for hs in 0..4 {
            let tile = &tiles[ws * 4 + hs];
            assert_eq!((tile.x, tile.y), (128 * ws, 192 * hs));
            assert_eq!((tile.width, tile.height), (128, 192));
        }
    }
    // The widths along a row of tiles add up to the screen's width, the
    // heights along a column of tiles to its height.
    for hs in 0..4 {
        let row: usize = (0..8).map(|ws| tiles[ws * 4 + hs].width).sum();
        assert_eq!(row, 1024);
    }
    for ws in 0..8 {
        let column: usize = (0..4).map(|hs| tiles[ws * 4 + hs].height).sum();
        assert_eq!(column, 768);
    }
    covers_exactly_once(1024, 768, &tiles);
}

#[test]
fn the_last_tiles_take_the_remainder() {
    let tiles = tiles(10, 7, 3, 2);
    assert_eq!(tiles.len(), 6);
    let widths: Vec<usize> = (0..3).map(|ws| tiles[ws * 2].width).collect();
    let heights: Vec<usize> = (0..2).map(|hs| tiles[hs].height).collect();
    assert_eq!(widths, vec![3, 3, 4]);
    assert_eq!(heights, vec![3, 4]);
    assert_eq!((tiles[5].x, tiles[5].y), (6, 3));
    covers_exactly_once(10, 7, &tiles);
}

#[test]
fn more_tiles_than_pixels() {
    let tiles = tiles(2, 1, 5, 3);
    assert_eq!(tiles.len(), 15);
    // Every tile but those of the last column and row is empty.
    assert_eq!((tiles[14].x, tiles[14].y, tiles[14].width, tiles[14].height), (0, 0, 2, 1));
    covers_exactly_once(2, 1, &tiles);
}

#[test]
fn every_rendered_tile_fits_the_screen() {
    for (width, height, across, down) in [(10, 7, 3, 2), (2, 1, 5, 3), (1024, 768, 8, 4)] {
        for tile in tiles(width, height, across, down) {
            let pixels = vec![0u16; tile.width * tile.height];
            let ImageBufferEvent::BufferUpdate { rgb, r, c, width: w, height: h } =
                tile_event(&tile, pixels);
            assert_eq!((r, c, w, h), (tile.y, tile.x, tile.width, tile.height));
            assert!(tile_fits(width * height, width, rgb.len(), r, c, w, h));
        }
    }
}

#[test]
fn a_single_tile_is_the_screen() {
    let tiles = tiles(640, 480, 1, 1);
    assert_eq!(tiles.len(), 1);
    assert_eq!((tiles[0].x, tiles[0].y, tiles[0].width, tiles[0].height), (0, 0, 640, 480));
}

#[test]
fn a_cancelled_render_gets_no_tiles() {
    let bus: DataBus<u8> = DataBus::new("tiles");
    let image = Image::new(64, 64);
    let cancel = SignalEvent::manual(true);
    let rd = RenderData { image: &image, cancel_event: Some(&cancel) };
    let res = CpuRenderer::prepare_threads(&rd, &config(2, 2, 1), &bus.get_writer());
    assert!(matches!(res, Err(TracerError::CancelEvent)));

    cancel.reset();
    let res = CpuRenderer::prepare_threads(&rd, &config(2, 2, 1), &bus.get_writer());
    assert_eq!(res.unwrap().len(), 4);
}

#[test]
fn the_cancel_signal_is_polled() {
    let signal = SignalEvent::manual(false);
    assert!(!do_cancel(None));
    assert!(!do_cancel(Some(&signal)));
    signal.signal();
    assert!(do_cancel(Some(&signal)));
    signal.reset();
    assert!(!do_cancel(Some(&signal)));
}

#[test]
fn highest_divisor() {
    assert_eq!(get_highest_divdable(128, 4), 4);
    assert_eq!(get_highest_divdable(128, 5), 4);
    assert_eq!(get_highest_divdable(127, 5), 1);
    assert_eq!(get_highest_divdable(90, 8), 6);
    assert_eq!(get_highest_divdable(12, 100), 12);
    assert_eq!(get_highest_divdable(0, 7), 7);
    assert_eq!(get_highest_divdable(9, 1), 1);
}

#[test]
fn a_tile_is_shaded_in_reading_order() {
    let shade = |x: usize, y: usize| (x, y);
    let tile = CpuRenderer::shade_tile(10, 20, 3, 2, &|| false, &shade).unwrap();
    assert_eq!(tile, vec![(10, 20), (11, 20), (12, 20), (10, 21), (11, 21), (12, 21)]);
    let empty = CpuRenderer::shade_tile(10, 20, 0, 2, &|| false, &shade).unwrap();
    assert_eq!(empty, vec![]);
}

#[test]
fn a_cancelled_tile_stops_after_one_row() {
    let shaded = Cell::new(0usize);
    let shade = |x: usize, y: usize| {
        shaded.set(shaded.get() + 1);
        x + y
    };
    assert_eq!(CpuRenderer::shade_tile(0, 0, 5, 4, &|| true, &shade), Err(1));
    assert_eq!(shaded.get(), 5);

    shaded.set(0);
    assert_eq!(CpuRendererScaled::shade_blocks(0, 0, 6, 4, 2, 2, &|| true, 0, &shade), Err(1));
    assert_eq!(shaded.get(), 3);

    // A tile without rows is dropped at the last poll.
    assert_eq!(CpuRenderer::shade_tile(0, 0, 5, 0, &|| true, &shade), Err(0));
}

#[test]
fn a_tile_is_dropped_at_the_first_poll_that_says_yes() {
    let polls = Cell::new(0usize);
    let on_third = || {
        polls.set(polls.get() + 1);
        polls.get() == 3
    };
    let shade = |x: usize, y: usize| x + y;
    assert_eq!(CpuRenderer::shade_tile(0, 0, 4, 8, &on_third, &shade), Err(3));

    // The poll after the last row counts too.
    polls.set(0);
    assert_eq!(CpuRenderer::shade_tile(0, 0, 4, 2, &on_third, &shade), Err(2));

    polls.set(0);
    assert!(CpuRenderer::shade_tile(0, 0, 4, 1, &on_third, &shade).is_ok());
}

#[test]
fn a_preview_repeats_the_first_pixel_of_each_block() {
    let shade = |x: usize, y: usize| 100 * y + x;
    let tile = CpuRendererScaled::shade_blocks(10, 20, 4, 4, 2, 2, &|| false, 0, &shade).unwrap();
    let expected = vec![
        2010, 2010, 2012, 2012,
        2010, 2010, 2012, 2012,
        2210, 2210, 2212, 2212,
        2210, 2210, 2212, 2212,
    ];
    assert_eq!(tile, expected);
}

#[test]
fn a_preview_leaves_what_no_whole_block_covers_blank() {
    let shade = |x: usize, y: usize| 10 * y + x + 1;
    let tile = CpuRendererScaled::shade_blocks(0, 0, 5, 3, 2, 2, &|| false, 0, &shade).unwrap();
    let expected = vec![
        1, 1, 3, 3, 0,
        1, 1, 3, 3, 0,
        0, 0, 0, 0, 0,
    ];
    assert_eq!(tile, expected);
}

#[test]
fn a_preview_with_blocks_of_one_is_the_full_tile() {
    let shade = |x: usize, y: usize| (x, y);
    let preview =
        CpuRendererScaled::shade_blocks(3, 4, 3, 2, 1, 1, &|| false, (0, 0), &shade).unwrap();
    let full = CpuRenderer::shade_tile(3, 4, 3, 2, &|| false, &shade).unwrap();
    assert_eq!(preview, full);
}

#[test]
fn every_block_of_a_preview_is_one_colour() {
    let shade = |x: usize, y: usize| 1000 * y + x;
    let (width, height, sw, sh) = (12usize, 9usize, 4usize, 3usize);
    let tile = CpuRendererScaled::shade_blocks(0, 0, width, height, sw, sh, &|| false, 0, &shade)
        .unwrap();
    for y in 0..height {
        for x in 0..width {
            let first = (y / sh * sh) * width + x / sw * sw;
            assert_eq!(tile[y * width + x], tile[first]);
        }
    }
}

#[test]
fn a_rendered_tile_is_published_at_its_place() {
    let mut bus: DataBus<ImageBufferEvent<usize>> = DataBus::new("tiles");
    let mut reader = bus.get_reader();
    let image = Image::new(8, 8);
    let rd = RenderData { image: &image, cancel_event: None };
    let renderer = CpuRenderer::new(config(2, 2, 1));
    let tile = SubImage {
        x: 4,
        y: 2,
        screen_width: 8,
        screen_height: 8,
        width: 2,
        height: 2,
        writer: bus.get_writer(),
    };
    renderer.raytrace(&rd, tile, &|x: usize, y: usize| 10 * y + x).unwrap();
    bus.update().unwrap();
    let events = reader.get_messages().unwrap();
    assert_eq!(events.len(), 1);
    let ImageBufferEvent::BufferUpdate { rgb, r, c, width, height } = &events[0];
    assert_eq!((*r, *c, *width, *height), (2, 4, 2, 2));
    assert_eq!(rgb, &vec![24, 25, 34, 35]);
}

#[test]
fn the_preview_renderer_chooses_blocks_that_fill_a_tile() {
    let mut bus: DataBus<ImageBufferEvent<usize>> = DataBus::new("tiles");
    let mut reader = bus.get_reader();
    let image = Image::new(12, 8);
    let rd = RenderData { image: &image, cancel_event: None };
    // Tiles are 6 by 4; with blocks up to 4 the largest that fit are 3 by 4.
    let renderer = CpuRendererScaled::new(config(2, 2, 4), &image);
    let tile = SubImage {
        x: 6,
        y: 0,
        screen_width: 12,
        screen_height: 8,
        width: 6,
        height: 4,
        writer: bus.get_writer(),
    };
    renderer.raytrace(&rd, tile, 0, &|x: usize, y: usize| 100 * y + x).unwrap();
    bus.update().unwrap();
    let events = reader.get_messages().unwrap();
    let ImageBufferEvent::BufferUpdate { rgb, r, c, width, height } = &events[0];
    assert_eq!((*r, *c, *width, *height), (0, 6, 6, 4));
    let row = vec![6, 6, 6, 9, 9, 9];
    let expected: Vec<usize> = (0..4).flat_map(|_| row.clone()).collect();
    assert_eq!(rgb, &expected);
}

#[test]
fn a_cancelled_render_publishes_nothing() {
    let mut bus: DataBus<ImageBufferEvent<usize>> = DataBus::new("tiles");
    let mut reader = bus.get_reader();
    let image = Image::new(8, 8);
    let cancel = SignalEvent::manual(true);
    let rd = RenderData { image: &image, cancel_event: Some(&cancel) };
    let renderer = CpuRenderer::new(config(1, 1, 1));
    let tile = SubImage {
        x: 0,
        y: 0,
        screen_width: 8,
        screen_height: 8,
        width: 8,
        height: 8,
        writer: bus.get_writer(),
    };
    assert_eq!(renderer.raytrace(&rd, tile, &|x: usize, y: usize| x + y), Ok(()));
    bus.update().unwrap();
    assert_eq!(reader.get_messages().unwrap().len(), 0);
}

#[test]
fn a_render_without_its_buffer_names_the_channel() {
    let bus: DataBus<ImageBufferEvent<usize>> = DataBus::new("tiles");
    let writer = bus.get_writer();
    drop(bus);
    let image = Image::new(4, 4);
    let rd = RenderData { image: &image, cancel_event: None };
    let tile = |writer| SubImage {
        x: 0,
        y: 0,
        screen_width: 4,
        screen_height: 4,
        width: 2,
        height: 2,
        writer,
    };
    let shade = |x: usize, y: usize| x + y;
    let full = CpuRenderer::new(config(2, 2, 2)).raytrace(&rd, tile(writer.clone()), &shade);
    assert!(matches!(full, Err(TracerError::BusWriteError(name, _)) if name == "tiles"));
    let preview =
        CpuRendererScaled::new(config(2, 2, 2), &image).raytrace(&rd, tile(writer), 0, &shade);
    assert!(matches!(preview, Err(TracerError::BusWriteError(name, _)) if name == "tiles"));
}
