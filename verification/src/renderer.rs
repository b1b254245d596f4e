//! The tile-parallel renderers: how the screen is cut into tiles, in which
//! order the pixels of a tile are shaded and laid out, how a preview is
//! shaded on a coarse grid and blown up by repeating blocks, and where a
//! render stops when it is cancelled.
//!
//! What a pixel's colour is, is not decided here. A renderer is handed a
//! shading function from screen coordinates to colours and calls it once
//! for every pixel, or once for every block of a preview.

use crate::config::RenderConfig;
use crate::data_bus::DataWriter;
use crate::error::TracerError;
use crate::grid::{
    cell,
    fill_rect,
    filled_at,
    lemma_cell_bound,
    lemma_cell_index,
    lemma_index_cell,
    rect_fits,
};
use crate::image::{Image, SubImage};
use crate::image_buffer::{blank_grid, ImageBufferEvent};
use crate::tiling::{
    lemma_run_bounds,
    lemma_run_inside,
    lemma_runs_tile,
    run_contains,
    run_length,
    run_of,
    run_start,
    run_step,
};
use synchronoise::SignalEvent;
use vstd::prelude::*;

verus! {

/// The manual-reset signal of the `synchronoise` crate, carried through as
/// it is.
#[verifier::external_type_specification]
#[verifier::external_body]
pub struct ExSignalEvent(SignalEvent);

/// `SignalEvent::wait_timeout` with a zero wait: whether the signal is set
/// at the moment of the call. Other threads set and reset it, so nothing is
/// claimed of the answer.
#[verifier::external_body]
fn signal_is_set(event: &SignalEvent) -> (set: bool) {
    event.wait_timeout(std::time::Duration::from_secs(0))
}

/// Polls the cancel signal of a render. A render without a signal is never
/// cancelled.
pub fn do_cancel(cancel_event: Option<&SignalEvent>) -> (cancelled: bool)
    ensures
        cancel_event is None ==> !cancelled,
{
    match cancel_event {
        Some(event) => signal_is_set(event),
        None => false,
    }
}

/// What a render works on: the screen and, for a render that can be
/// cancelled, the signal that cancels it.
pub struct RenderData<'a> {
    pub image: &'a Image,
    pub cancel_event: Option<&'a SignalEvent>,
}

/// Whether `d` is the largest number from 1 to `bound` that divides `value`.
pub open spec fn is_highest_divisor(value: int, bound: int, d: int) -> bool {
    &&& 0 < d <= bound
    &&& value % d == 0
    &&& forall|e: int| d < e <= bound ==> #[trigger] (value % e) != 0
}

/// The largest number from 1 to `div` that divides `value`. It is `div`
/// itself when `value` is zero, and 1 when nothing larger divides.
pub fn get_highest_divdable(value: usize, div: usize) -> (res: usize)
    requires
        div > 0,
    ensures
        is_highest_divisor(value as int, div as int, res as int),
{
    let mut d = div;
    while value % d != 0
        invariant
            0 < d <= div,
            forall|e: int| d < e <= div ==> #[trigger] (value as int % e) != 0,
        decreases d,
    {
        assert(d != 1) by {
            assert(value as int % 1 == 0);
        }
        d = d - 1;
    }
    d
}

/// Whether `tiles` is the grid of tiles that cuts a screen of `width` by
/// `height` pixels into `across` columns and `down` rows of tiles.
///
/// The tiles come column of tiles after column of tiles: the tile in column
/// `ws` and row `hs` of the grid of tiles is element `ws * down + hs`. Along
/// each axis the tiles are the runs of [`crate::tiling`]: equal steps, the
/// last tile taking what is left.
pub open spec fn is_tile_grid<T>(
    tiles: Seq<SubImage<T>>,
    width: int,
    height: int,
    across: int,
    down: int,
) -> bool {
    &&& tiles.len() == across * down
    &&& forall|ws: int, hs: int|
        0 <= ws < across && 0 <= hs < down ==> {
            let tile = #[trigger] tiles[cell(down, ws, hs)];
            &&& tile.x == run_start(width, across, ws)
            &&& tile.width == run_length(width, across, ws)
            &&& tile.y == run_start(height, down, hs)
            &&& tile.height == run_length(height, down, hs)
            &&& tile.screen_width == width
            &&& tile.screen_height == height
        }
}

/// The event that publishes the pixels `rgb` of a tile at the tile's place.
pub fn tile_event<T, C>(image: &SubImage<T>, rgb: Vec<C>) -> (event: ImageBufferEvent<C>)
    ensures
        event->rgb == rgb,
        event->r == image.y,
        event->c == image.x,
        event->width == image.width,
        event->height == image.height,
{
    ImageBufferEvent::BufferUpdate {
        rgb,
        r: image.y,
        c: image.x,
        width: image.width,
        height: image.height,
    }
}

/// The renderer of finished images: every pixel is shaded.
#[derive(Clone, Copy, Debug)]
pub struct CpuRenderer {
    config: RenderConfig,
}

/// Whether `rgb` is a tile of `width` by `height` pixels with its first
/// pixel at column `x`, row `y` of the screen, shaded by `shade`: pixel `i`
/// of the tile, in row-major order, is a colour that `shade` gave for the
/// screen pixel it stands for.
pub open spec fn is_shaded<C, F: Fn(usize, usize) -> C>(
    shade: F,
    x: int,
    y: int,
    width: int,
    height: int,
    rgb: Seq<C>,
) -> bool {
    &&& rgb.len() == height * width
    &&& forall|i: int|
        0 <= i < rgb.len() ==> call_ensures(
            shade,
            ((x + i % width) as usize, (y + i / width) as usize),
            #[trigger] rgb[i],
        )
}

/// Whether a poll of `cancelled` may be made and never says yes.
pub open spec fn never_cancelled<P: Fn() -> bool>(cancelled: P) -> bool {
    &&& call_requires(cancelled, ())
    &&& forall|yes: bool| #[trigger] call_ensures(cancelled, (), yes) ==> !yes
}

/// Whether a poll of `cancelled` may be made and always says yes.
pub open spec fn always_cancelled<P: Fn() -> bool>(cancelled: P) -> bool {
    &&& call_requires(cancelled, ())
    &&& forall|yes: bool| #[trigger] call_ensures(cancelled, (), yes) ==> yes
}

/// Whether `shade` may be called on every pixel of the rectangle.
pub open spec fn can_shade<C, F: Fn(usize, usize) -> C>(
    shade: F,
    x: int,
    y: int,
    width: int,
    height: int,
) -> bool {
    forall|px: usize, py: usize|
        x <= px < x + width && y <= py < y + height ==> call_requires(shade, (px, py))
}

impl CpuRenderer {
    pub fn new(config: RenderConfig) -> (renderer: Self)
        ensures
            renderer.config() == config,
    {
        Self { config }
    }

    pub closed spec fn config(&self) -> RenderConfig {
        self.config
    }

    /// The settings of this renderer.
    pub fn settings(&self) -> (config: &RenderConfig)
        ensures
            *config == self.config(),
    {
        &self.config
    }

    /// Shades a tile, row by row from the top, each row from the left, and
    /// lays the colours out in that order.
    ///
    /// `cancelled` is polled after every row and once more at the end. The
    /// first poll that says yes ends the work: the tile is dropped whole,
    /// and `Err` says how many rows had been shaded. So a render that is
    /// cancelled throughout stops after one row at most, and one that is
    /// never cancelled is finished.
    pub fn shade_tile<C, F: Fn(usize, usize) -> C, P: Fn() -> bool>(
        x: usize,
        y: usize,
        width: usize,
        height: usize,
        cancelled: &P,
        shade: &F,
    ) -> (tile: Result<Vec<C>, usize>)
        requires
            x + width <= usize::MAX,
            y + height <= usize::MAX,
            call_requires(*cancelled, ()),
            can_shade(*shade, x as int, y as int, width as int, height as int),
        ensures
            tile matches Ok(rgb) ==> is_shaded(
                *shade,
                x as int,
                y as int,
                width as int,
                height as int,
                rgb@,
            ),
            tile matches Err(rows) ==> rows <= height && call_ensures(*cancelled, (), true),
            never_cancelled(*cancelled) ==> tile is Ok,
            always_cancelled(*cancelled) ==> (tile matches Err(rows) && rows <= 1),
    {
        let mut buffer: Vec<C> = Vec::new();
        let mut row: usize = 0;
        while row < height
            invariant
                x + width <= usize::MAX,
                y + height <= usize::MAX,
                call_requires(*cancelled, ()),
                can_shade(*shade, x as int, y as int, width as int, height as int),
                row <= height,
                row > 0 ==> !always_cancelled(*cancelled),
                buffer@.len() == row * width,
                forall|i: int|
                    0 <= i < buffer@.len() ==> call_ensures(
                        *shade,
                        ((x + i % (width as int)) as usize, (y + i / (width as int)) as usize),
                        #[trigger] buffer@[i],
                    ),
            decreases height - row,
        {
            let mut column: usize = 0;
            while column < width
                invariant
                    x + width <= usize::MAX,
                    y + height <= usize::MAX,
                    can_shade(*shade, x as int, y as int, width as int, height as int),
                    row < height,
                    column <= width,
                    buffer@.len() == cell(width as int, row as int, column as int),
                    forall|i: int|
                        0 <= i < buffer@.len() ==> call_ensures(
                            *shade,
                            ((x + i % (width as int)) as usize, (y + i / (width as int)) as usize),
                            #[trigger] buffer@[i],
                        ),
                decreases width - column,
            {
                proof {
                    lemma_cell_index(width as int, row as int, column as int);
                }
                let color = shade(x + column, y + row);
                buffer.push(color);
                column = column + 1;
            }
            assert(row * width + width == (row + 1) * width) by (nonlinear_arith);
            row = row + 1;
            if cancelled() {
                return Err(row);
            }
        }
        if cancelled() {
            return Err(row);
        }
        Ok(buffer)
    }

    /// Renders one tile and publishes it through the tile's writer, as one
    /// event at the tile's place. A cancelled render publishes nothing and
    /// is no failure. Fails only as [`DataWriter::write`] does, with a
    /// write failure that names the channel of the tile's writer.
    pub fn raytrace<C, F: Fn(usize, usize) -> C>(
        &self,
        rd: &RenderData,
        image: SubImage<ImageBufferEvent<C>>,
        shade: &F,
    ) -> (res: Result<(), TracerError>)
        requires
            image.x + image.width <= usize::MAX,
            image.y + image.height <= usize::MAX,
            can_shade(
                *shade,
                image.x as int,
                image.y as int,
                image.width as int,
                image.height as int,
            ),
        ensures
            res matches Err(e) ==> (e matches TracerError::BusWriteError(name, _) && name@
                == image.writer.name()),
    {
        let cancel_event = rd.cancel_event;
        let cancelled = || -> (yes: bool) { do_cancel(cancel_event) };
        match Self::shade_tile(image.x, image.y, image.width, image.height, &cancelled, shade) {
            Err(_) => Ok(()),
            Ok(buffer) => {
                let event = tile_event(&image, buffer);
                image.writer.write(event)
            },
        }
    }

    /// Cuts the screen into `conf.num_threads_width` columns and
    /// `conf.num_threads_height` rows of tiles, each with its own copy of
    /// `writer`. A render that is already cancelled gets no tiles but the
    /// cancel outcome.
    pub fn prepare_threads<T>(rd: &RenderData, conf: &RenderConfig, writer: &DataWriter<T>) -> (res:
        Result<Vec<SubImage<T>>, TracerError>)
        requires
            conf.num_threads_width > 0,
            conf.num_threads_height > 0,
        ensures
            rd.cancel_event is None ==> res is Ok,
            res matches Err(e) ==> e is CancelEvent,
            res matches Ok(tiles) ==> is_tile_grid(
                tiles@,
                rd.image.width as int,
                rd.image.height as int,
                conf.num_threads_width as int,
                conf.num_threads_height as int,
            ) && forall|k: int| 0 <= k < tiles@.len() ==> (#[trigger] tiles@[k]).writer.name()
                == writer.name(),
    {
        let width_step = rd.image.width / conf.num_threads_width;
        let height_step = rd.image.height / conf.num_threads_height;
        if do_cancel(rd.cancel_event) {
            return Err(TracerError::CancelEvent);
        }
        let ghost width = rd.image.width as int;
        let ghost height = rd.image.height as int;
        let ghost across = conf.num_threads_width as int;
        let ghost down = conf.num_threads_height as int;
        let mut tiles: Vec<SubImage<T>> = Vec::new();
        let mut ws: usize = 0;
        while ws < conf.num_threads_width
            invariant
                conf.num_threads_width > 0,
                conf.num_threads_height > 0,
                width == rd.image.width,
                height == rd.image.height,
                across == conf.num_threads_width,
                down == conf.num_threads_height,
                width_step == run_step(width, across),
                height_step == run_step(height, down),
                ws <= across,
                tiles@.len() == ws * down,
                forall|k: int| 0 <= k < tiles@.len() ==> (#[trigger] tiles@[k]).writer.name()
                    == writer.name(),
                forall|a: int, b: int|
                    0 <= a < ws && 0 <= b < down ==> {
                        let tile = #[trigger] tiles@[cell(down, a, b)];
                        &&& tile.x == run_start(width, across, a)
                        &&& tile.width == run_length(width, across, a)
                        &&& tile.y == run_start(height, down, b)
                        &&& tile.height == run_length(height, down, b)
                        &&& tile.screen_width == width
                        &&& tile.screen_height == height
                    },
            decreases across - ws,
        {
            let mut hs: usize = 0;
            while hs < conf.num_threads_height
                invariant
                    conf.num_threads_width > 0,
                    conf.num_threads_height > 0,
                    width == rd.image.width,
                    height == rd.image.height,
                    across == conf.num_threads_width,
                    down == conf.num_threads_height,
                    width_step == run_step(width, across),
                    height_step == run_step(height, down),
                    ws < across,
                    hs <= down,
                    tiles@.len() == cell(down, ws as int, hs as int),
                    forall|k: int| 0 <= k < tiles@.len() ==> (#[trigger] tiles@[k]).writer.name()
                        == writer.name(),
                    forall|a: int, b: int|
                        (0 <= a < ws && 0 <= b < down) || (a == ws && 0 <= b < hs) ==> {
                            let tile = #[trigger] tiles@[cell(down, a, b)];
                            &&& tile.x == run_start(width, across, a)
                            &&& tile.width == run_length(width, across, a)
                            &&& tile.y == run_start(height, down, b)
                            &&& tile.height == run_length(height, down, b)
                            &&& tile.screen_width == width
                            &&& tile.screen_height == height
                        },
                decreases down - hs,
            {
                proof {
                    lemma_run_bounds(width, across, ws as int);
                    lemma_run_bounds(height, down, hs as int);
                }
                let tile = SubImage {
                    writer: writer.clone(),
                    x: width_step * ws,
                    y: height_step * hs,
                    screen_width: rd.image.width,
                    screen_height: rd.image.height,
                    width: if ws == conf.num_threads_width - 1 {
                        rd.image.width - width_step * ws
                    } else {
                        width_step
                    },
                    height: if hs == conf.num_threads_height - 1 {
                        rd.image.height - height_step * hs
                    } else {
                        height_step
                    },
                };
                let ghost before = tiles@;
                tiles.push(tile);
                proof {
                    assert forall|a: int, b: int|
                        (0 <= a < ws && 0 <= b < down) || (a == ws && 0 <= b < hs + 1) implies {
                        let tile = #[trigger] tiles@[cell(down, a, b)];
                        &&& tile.x == run_start(width, across, a)
                        &&& tile.width == run_length(width, across, a)
                        &&& tile.y == run_start(height, down, b)
                        &&& tile.height == run_length(height, down, b)
                        &&& tile.screen_width == width
                        &&& tile.screen_height == height
                    } by {
                        if a < ws || b < hs {
                            lemma_cell_bound(down, ws + 1, a, b);
                            assert(cell(down, a, b) < cell(down, ws as int, hs as int)) by {
                                if a < ws {
                                    assert((a + 1) * down <= ws * down) by (nonlinear_arith)
                                        requires
                                            a + 1 <= ws,
                                            0 <= down,
                                    ;
                                }
                            }
                            assert(tiles@[cell(down, a, b)] == before[cell(down, a, b)]);
                        }
                    }
                }
                hs = hs + 1;
            }
            assert(ws * down + down == (ws + 1) * down) by (nonlinear_arith);
            ws = ws + 1;
        }
        Ok(tiles)
    }
}

/// Every pixel of the screen lies in exactly one tile of the grid of
/// tiles, and no tile holds a pixel that is not on the screen: the tiles
/// cover the screen without gap or overlap.
///
/// The one tile that holds the pixel in column `px` of row `py` is the tile
/// in column `run_of(width, across, px)` and row `run_of(height, down, py)`
/// of the grid of tiles.
pub proof fn lemma_tiles_partition_screen<T>(
    tiles: Seq<SubImage<T>>,
    width: int,
    height: int,
    across: int,
    down: int,
    px: int,
    py: int,
)
    requires
        0 < across,
        0 < down,
        0 <= width,
        0 <= height,
        is_tile_grid(tiles, width, height, across, down),
    ensures
        0 <= px < width && 0 <= py < height ==> {
            let owner = cell(down, run_of(width, across, px), run_of(height, down, py));
            &&& 0 <= owner < tiles.len()
            &&& tiles[owner].contains(px, py)
            &&& forall|k: int|
                0 <= k < tiles.len() && (#[trigger] tiles[k]).contains(px, py) ==> k == owner
        },
        forall|k: int|
            0 <= k < tiles.len() && (#[trigger] tiles[k]).contains(px, py) ==> 0 <= px < width && 0
                <= py < height,
{
    assert forall|k: int| 0 <= k < tiles.len() implies {
        let ws = k / down;
        let hs = k % down;
        &&& 0 <= ws < across
        &&& 0 <= hs < down
        &&& k == cell(down, ws, hs)
        &&& ((#[trigger] tiles[k]).contains(px, py) <==> run_contains(width, across, ws, px)
            && run_contains(height, down, hs, py))
    } by {
        lemma_index_cell(down, k);
        let ws = k / down;
        if ws >= across {
            assert(ws * down >= across * down) by (nonlinear_arith)
                requires
                    ws >= across,
                    down > 0,
            ;
        }
        assert(tiles[cell(down, ws, k % down)] == tiles[k]);
    }
    assert forall|k: int|
        0 <= k < tiles.len() && (#[trigger] tiles[k]).contains(px, py) implies 0 <= px < width && 0
        <= py < height by {
        lemma_run_inside(width, across, k / down, px);
        lemma_run_inside(height, down, k % down, py);
    }
    if 0 <= px < width && 0 <= py < height {
        let ws = run_of(width, across, px);
        let hs = run_of(height, down, py);
        lemma_runs_tile(width, across, 0, px);
        lemma_runs_tile(height, down, 0, py);
        lemma_runs_tile(width, across, ws, px);
        lemma_runs_tile(height, down, hs, py);
        let owner = cell(down, ws, hs);
        lemma_cell_bound(down, across, ws, hs);
        lemma_cell_index(down, ws, hs);
        assert(across * down == tiles.len());
        assert(tiles[owner].contains(px, py));
        assert forall|k: int|
            0 <= k < tiles.len() && (#[trigger] tiles[k]).contains(px, py) implies k == owner by {
            lemma_runs_tile(width, across, k / down, px);
            lemma_runs_tile(height, down, k % down, py);
        }
    }
}

/// Every tile of the grid of tiles lies inside the screen: a tile that is
/// published with a pixel for each of its cells fits the buffers of the
/// screen and is never refused.
pub proof fn lemma_tiles_fit_the_screen<T>(
    tiles: Seq<SubImage<T>>,
    width: int,
    height: int,
    across: int,
    down: int,
    k: int,
)
    requires
        0 < across,
        0 < down,
        0 <= width,
        0 <= height,
        is_tile_grid(tiles, width, height, across, down),
        0 <= k < tiles.len(),
    ensures
        rect_fits(
            height * width,
            width,
            tiles[k].y as int,
            tiles[k].x as int,
            tiles[k].height as int,
            tiles[k].width as int,
        ),
{
    lemma_index_cell(down, k);
    let ws = k / down;
    let hs = k % down;
    if ws >= across {
        assert(ws * down >= across * down) by (nonlinear_arith)
            requires
                ws >= across,
                down > 0,
        ;
    }
    assert(tiles[cell(down, ws, hs)] == tiles[k]);
    lemma_run_bounds(width, across, ws);
    lemma_run_bounds(height, down, hs);
    let bottom = tiles[k].y + tiles[k].height;
    assert(bottom * width <= height * width) by (nonlinear_arith)
        requires
            0 <= bottom <= height,
            0 <= width,
    ;
}

/// A tile of the grid of tiles that is published with a pixel for each of
/// its cells is accepted by the buffers of the screen.
pub proof fn lemma_rendered_tiles_are_accepted<T, C>(
    tiles: Seq<SubImage<T>>,
    width: int,
    height: int,
    across: int,
    down: int,
    k: int,
    event: ImageBufferEvent<C>,
)
    requires
        0 < across,
        0 < down,
        0 <= width,
        0 <= height,
        is_tile_grid(tiles, width, height, across, down),
        0 <= k < tiles.len(),
        event->r == tiles[k].y,
        event->c == tiles[k].x,
        event->width == tiles[k].width,
        event->height == tiles[k].height,
        event->rgb@.len() == tiles[k].height * tiles[k].width,
    ensures
        event.fits(height * width, width),
{
    lemma_tiles_fit_the_screen(tiles, width, height, across, down, k);
}

/// The renderer of previews: one pixel of every block is shaded, and the
/// block is filled with its colour.
#[derive(Clone, Copy, Debug)]
pub struct CpuRendererScaled {
    config: RenderConfig,
    scale_width: usize,
    scale_height: usize,
}

/// Whether `rgb` is a preview of a tile of `width` by `height` pixels in
/// blocks of `scale_width` by `scale_height` pixels.
///
/// The blocks are counted from the tile's first pixel. Every pixel of a
/// whole block is a colour that `shade` gave for the screen pixel of the
/// block's first cell, and is the same as that first cell. The pixels to
/// the right of the last whole block of a row, and those below the last
/// whole row of blocks, are `blank`.
pub open spec fn is_preview<C, F: Fn(usize, usize) -> C>(
    shade: F,
    x: int,
    y: int,
    width: int,
    height: int,
    scale_width: int,
    scale_height: int,
    blank: C,
    rgb: Seq<C>,
) -> bool {
    &&& rgb.len() == height * width
    &&& forall|i: int|
        0 <= i < rgb.len() ==> #[trigger] finished_pixel(
            shade,
            x,
            y,
            width,
            height,
            scale_width,
            scale_height,
            blank,
            rgb,
            i,
        )
}

/// What holds of pixel `i` of a finished preview.
pub open spec fn finished_pixel<C, F: Fn(usize, usize) -> C>(
    shade: F,
    x: int,
    y: int,
    width: int,
    height: int,
    scale_width: int,
    scale_height: int,
    blank: C,
    rgb: Seq<C>,
    i: int,
) -> bool {
    preview_pixel(
        shade,
        x,
        y,
        width,
        scale_width,
        scale_height,
        width / scale_width,
        height / scale_height,
        0,
        blank,
        rgb,
        i,
    )
}

/// What holds of pixel `i` of a preview while it is being made: the blocks
/// are made row of blocks after row of blocks, `across` to a row;
/// `rows_done` rows are made and `done` blocks of the next.
pub open spec fn preview_pixel<C, F: Fn(usize, usize) -> C>(
    shade: F,
    x: int,
    y: int,
    width: int,
    scale_width: int,
    scale_height: int,
    across: int,
    rows_done: int,
    done: int,
    blank: C,
    rgb: Seq<C>,
    i: int,
) -> bool {
    let block_row = (i / width) / scale_height;
    let block_col = (i % width) / scale_width;
    if block_col < across && (block_row < rows_done || (block_row == rows_done && block_col
        < done)) {
        &&& call_ensures(
            shade,
            ((x + block_col * scale_width) as usize, (y + block_row * scale_height) as usize),
            rgb[i],
        )
        &&& rgb[i] == rgb[cell(width, block_row * scale_height, block_col * scale_width)]
    } else {
        rgb[i] == blank
    }
}

/// A position lies in block number `block` of blocks of length `scale`
/// exactly when its quotient by `scale` is `block`.
pub proof fn lemma_block_of(scale: int, block: int, p: int)
    requires
        0 < scale,
    ensures
        block * scale <= p < block * scale + scale <==> p / scale == block,
        (block * scale) / scale == block,
{
    let q = p / scale;
    lemma_index_cell(scale, p);
    assert(block * scale <= p < block * scale + scale <==> q == block) by (nonlinear_arith)
        requires
            0 < scale,
            q * scale <= p < q * scale + scale,
    ;
    lemma_cell_index(scale, block, 0);
}

/// As many whole blocks of length `scale` as fit into `extent` end inside
/// `extent`.
pub proof fn lemma_blocks_inside(extent: int, scale: int, block: int)
    requires
        0 < scale,
        0 <= extent,
        0 <= block < extent / scale,
    ensures
        0 <= block * scale,
        block * scale + scale <= extent,
{
    lemma_index_cell(scale, extent);
    let q = extent / scale;
    assert(0 <= block * scale && block * scale + scale <= q * scale) by (nonlinear_arith)
        requires
            0 <= block < q,
            0 < scale,
    ;
}

/// In a preview, two pixels of the same whole block have the same colour.
pub proof fn lemma_preview_block_is_constant<C, F: Fn(usize, usize) -> C>(
    shade: F,
    x: int,
    y: int,
    width: int,
    height: int,
    scale_width: int,
    scale_height: int,
    blank: C,
    rgb: Seq<C>,
    i: int,
    j: int,
)
    requires
        0 < scale_width,
        0 < scale_height,
        0 < width,
        is_preview(shade, x, y, width, height, scale_width, scale_height, blank, rgb),
        0 <= i < rgb.len(),
        0 <= j < rgb.len(),
        (i / width) / scale_height == (j / width) / scale_height,
        (i % width) / scale_width == (j % width) / scale_width,
        (i % width) / scale_width < width / scale_width,
        (i / width) / scale_height < height / scale_height,
    ensures
        rgb[i] == rgb[j],
{
    assert(finished_pixel(shade, x, y, width, height, scale_width, scale_height, blank, rgb, i));
    assert(finished_pixel(shade, x, y, width, height, scale_width, scale_height, blank, rgb, j));
}

impl CpuRendererScaled {
    /// The preview renderer for a screen of the size of `image`. Its blocks
    /// are as large as `config.scale` allows under the condition that whole
    /// blocks fill a tile of the common size: the block's width is the
    /// largest number up to `config.scale` that divides that tile's width,
    /// and likewise its height.
    pub fn new(config: RenderConfig, image: &Image) -> (renderer: Self)
        requires
            config.num_threads_width > 0,
            config.num_threads_height > 0,
            config.scale > 0,
        ensures
            renderer.config() == config,
            is_highest_divisor(
                run_step(image.width as int, config.num_threads_width as int),
                config.scale as int,
                renderer.scale_width() as int,
            ),
            is_highest_divisor(
                run_step(image.height as int, config.num_threads_height as int),
                config.scale as int,
                renderer.scale_height() as int,
            ),
    {
        let scale_width = get_highest_divdable(
            image.width / config.num_threads_width,
            config.scale,
        );
        let scale_height = get_highest_divdable(
            image.height / config.num_threads_height,
            config.scale,
        );
        Self { config, scale_width, scale_height }
    }

    /// A block has pixels.
    #[verifier::type_invariant]
    spec fn blocks_have_pixels(self) -> bool {
        0 < self.scale_width && 0 < self.scale_height
    }

    pub closed spec fn config(&self) -> RenderConfig {
        self.config
    }

    /// The width of a block of this renderer's previews.
    pub closed spec fn scale_width(&self) -> usize {
        self.scale_width
    }

    /// The height of a block of this renderer's previews.
    pub closed spec fn scale_height(&self) -> usize {
        self.scale_height
    }

    /// The settings of this renderer.
    pub fn settings(&self) -> (config: &RenderConfig)
        ensures
            *config == self.config(),
    {
        &self.config
    }

    /// The width and the height of a block of this renderer's previews.
    pub fn scale(&self) -> (scale: (usize, usize))
        ensures
            scale.0 == self.scale_width(),
            scale.1 == self.scale_height(),
            0 < scale.0,
            0 < scale.1,
    {
        proof {
            use_type_invariant(self);
        }
        (self.scale_width, self.scale_height)
    }

    /// Makes the preview of a tile: block by block, row of blocks after row
    /// of blocks, the first pixel of the block is shaded and the block is
    /// filled with its colour.
    ///
    /// `cancelled` is polled after every row of blocks. The first poll that
    /// says yes ends the work: the tile is dropped whole, and `Err` says
    /// how many rows of blocks had been made. So a preview that is
    /// cancelled throughout stops after one row of blocks, and one that is
    /// never cancelled is finished.
    pub fn shade_blocks<C: Copy, F: Fn(usize, usize) -> C, P: Fn() -> bool>(
        x: usize,
        y: usize,
        width: usize,
        height: usize,
        scale_width: usize,
        scale_height: usize,
        cancelled: &P,
        blank: C,
        shade: &F,
    ) -> (tile: Result<Vec<C>, usize>)
        requires
            0 < scale_width,
            0 < scale_height,
            x + width <= usize::MAX,
            y + height <= usize::MAX,
            width * height <= usize::MAX,
            call_requires(*cancelled, ()),
            can_shade(*shade, x as int, y as int, width as int, height as int),
        ensures
            tile matches Err(rows) ==> rows <= height / scale_height && call_ensures(
                *cancelled,
                (),
                true,
            ),
            never_cancelled(*cancelled) ==> tile is Ok,
            always_cancelled(*cancelled) && scale_height <= height ==> (tile matches Err(rows)
                && rows == 1),
            tile matches Ok(rgb) ==> is_preview(
                *shade,
                x as int,
                y as int,
                width as int,
                height as int,
                scale_width as int,
                scale_height as int,
                blank,
                rgb@,
            ),
    {
        let scaled_width = width / scale_width;
        let scaled_height = height / scale_height;
        let mut buffer = blank_grid(width, height, blank);
        let ghost cells = buffer@.len();
        assert(width * height == height * width) by (nonlinear_arith);
        let mut row: usize = 0;
        while row < scaled_height
            invariant
                0 < scale_width,
                0 < scale_height,
                x + width <= usize::MAX,
                y + height <= usize::MAX,
                can_shade(*shade, x as int, y as int, width as int, height as int),
                scaled_width == width as int / scale_width as int,
                scaled_height == height as int / scale_height as int,
                row <= scaled_height,
                call_requires(*cancelled, ()),
                row > 0 ==> !always_cancelled(*cancelled),
                cells == height * width,
                buffer@.len() == cells,
                forall|i: int|
                    0 <= i < cells ==> preview_pixel(
                        *shade,
                        x as int,
                        y as int,
                        width as int,
                        scale_width as int,
                        scale_height as int,
                        scaled_width as int,
                        row as int,
                        0,
                        blank,
                        buffer@,
                        i,
                    ),
            decreases scaled_height - row,
        {
            let mut column: usize = 0;
            while column < scaled_width
                invariant
                    0 < scale_width,
                    0 < scale_height,
                    x + width <= usize::MAX,
                    y + height <= usize::MAX,
                    can_shade(*shade, x as int, y as int, width as int, height as int),
                    scaled_width == width as int / scale_width as int,
                    scaled_height == height as int / scale_height as int,
                    row < scaled_height,
                    column <= scaled_width,
                    cells == height * width,
                    buffer@.len() == cells,
                    forall|i: int|
                        0 <= i < cells ==> preview_pixel(
                            *shade,
                            x as int,
                            y as int,
                            width as int,
                            scale_width as int,
                            scale_height as int,
                            scaled_width as int,
                            row as int,
                            column as int,
                            blank,
                            buffer@,
                            i,
                        ),
                decreases scaled_width - column,
            {
                proof {
                    lemma_blocks_inside(width as int, scale_width as int, column as int);
                    lemma_blocks_inside(height as int, scale_height as int, row as int);
                    assert((row * scale_height + scale_height) * width <= height * width)
                        by (nonlinear_arith)
                        requires
                            row * scale_height + scale_height <= height,
                            0 <= width,
                    ;
                }
                let top = row * scale_height;
                let left = column * scale_width;
                let color = shade(x + left, y + top);
                let ghost before = buffer@;
                fill_rect(&mut buffer, width, top, left, scale_height, scale_width, color);
                proof {
                    let w = width as int;
                    let sw = scale_width as int;
                    let sh = scale_height as int;
                    let next = column + 1;
                    assert forall|i: int| 0 <= i < cells implies preview_pixel(
                        *shade,
                        x as int,
                        y as int,
                        w,
                        sw,
                        sh,
                        scaled_width as int,
                        row as int,
                        next,
                        blank,
                        buffer@,
                        i,
                    ) by {
                        lemma_index_cell(w, i);
                        let block_row = (i / w) / sh;
                        let block_col = (i % w) / sw;
                        lemma_block_of(sh, row as int, i / w);
                        lemma_block_of(sw, column as int, i % w);
                        lemma_index_cell(sh, i / w);
                        lemma_index_cell(sw, i % w);
                        assert(preview_pixel(
                            *shade,
                            x as int,
                            y as int,
                            w,
                            sw,
                            sh,
                            scaled_width as int,
                            row as int,
                            column as int,
                            blank,
                            before,
                            i,
                        ));
                        if block_col < scaled_width && (block_row < row || (block_row == row
                            && block_col < column + 1)) {
                            // The first cell of the pixel's block is a cell
                            // of the grid, in the same block as the pixel.
                            lemma_blocks_inside(w, sw, block_col);
                            lemma_block_of(sh, block_row, block_row * sh);
                            lemma_block_of(sw, block_col, block_col * sw);
                            lemma_block_of(sh, row as int, block_row * sh);
                            lemma_block_of(sw, column as int, block_col * sw);
                            let first = cell(w, block_row * sh, block_col * sw);
                            lemma_cell_index(w, block_row * sh, block_col * sw);
                            assert(block_row * sh <= i / w) by (nonlinear_arith)
                                requires
                                    i / w == cell(sh, block_row, (i / w) % sh),
                                    0 <= (i / w) % sh,
                            ;
                            assert(0 <= block_row * sh) by (nonlinear_arith)
                                requires
                                    0 <= block_row,
                                    0 < sh,
                            ;
                            assert(first <= i) by (nonlinear_arith)
                                requires
                                    first == (block_row * sh) * w + block_col * sw,
                                    i == (i / w) * w + i % w,
                                    block_row * sh <= i / w,
                                    block_col * sw <= i % w,
                                    0 < w,
                            ;
                            assert(0 <= first) by (nonlinear_arith)
                                requires
                                    first == (block_row * sh) * w + block_col * sw,
                                    0 <= block_row * sh,
                                    0 <= block_col * sw,
                                    0 < w,
                            ;
                            assert(buffer@[first] == filled_at(
                                before,
                                w,
                                top as int,
                                left as int,
                                sh,
                                sw,
                                color,
                                first,
                            ));
                        }
                    }
                }
                column = column + 1;
            }
            proof {
                let next = row + 1;
                assert forall|i: int| 0 <= i < cells implies preview_pixel(
                    *shade,
                    x as int,
                    y as int,
                    width as int,
                    scale_width as int,
                    scale_height as int,
                    scaled_width as int,
                    next,
                    0,
                    blank,
                    buffer@,
                    i,
                ) by {
                    assert(0 < width) by (nonlinear_arith)
                        requires
                            0 <= i < height * width,
                            0 <= width,
                    ;
                    lemma_index_cell(width as int, i);
                    lemma_index_cell(scale_width as int, i % (width as int));
                    assert(preview_pixel(
                        *shade,
                        x as int,
                        y as int,
                        width as int,
                        scale_width as int,
                        scale_height as int,
                        scaled_width as int,
                        row as int,
                        column as int,
                        blank,
                        buffer@,
                        i,
                    ));
                }
            }
            row = row + 1;
            if cancelled() {
                return Err(row);
            }
        }
        proof {
            if scale_height <= height {
                crate::grid::lemma_index_cell(scale_height as int, height as int);
                assert(scaled_height >= 1) by (nonlinear_arith)
                    requires
                        0 < scale_height <= height,
                        height == scaled_height * scale_height + (height as int) % (
                        scale_height as int),
                        0 <= (height as int) % (scale_height as int) < scale_height,
                ;
            }
            assert forall|i: int| 0 <= i < buffer@.len() implies #[trigger] finished_pixel(
                *shade,
                x as int,
                y as int,
                width as int,
                height as int,
                scale_width as int,
                scale_height as int,
                blank,
                buffer@,
                i,
            ) by {
                assert(preview_pixel(
                    *shade,
                    x as int,
                    y as int,
                    width as int,
                    scale_width as int,
                    scale_height as int,
                    scaled_width as int,
                    row as int,
                    0,
                    blank,
                    buffer@,
                    i,
                ));
            }
        }
        Ok(buffer)
    }

    /// Renders the preview of one tile and publishes it through the tile's
    /// writer, as one event at the tile's place. A cancelled render
    /// publishes nothing and is no failure. Fails only as
    /// [`DataWriter::write`] does, with a write failure that names the
    /// channel of the tile's writer.
    pub fn raytrace<C: Copy, F: Fn(usize, usize) -> C>(
        &self,
        rd: &RenderData,
        image: SubImage<ImageBufferEvent<C>>,
        blank: C,
        shade: &F,
    ) -> (res: Result<(), TracerError>)
        requires
            image.x + image.width <= usize::MAX,
            image.y + image.height <= usize::MAX,
            image.width * image.height <= usize::MAX,
            can_shade(
                *shade,
                image.x as int,
                image.y as int,
                image.width as int,
                image.height as int,
            ),
        ensures
            res matches Err(e) ==> (e matches TracerError::BusWriteError(name, _) && name@
                == image.writer.name()),
    {
        let (scale_width, scale_height) = self.scale();
        let cancel_event = rd.cancel_event;
        let cancelled = || -> (yes: bool) { do_cancel(cancel_event) };
        match Self::shade_blocks(
            image.x,
            image.y,
            image.width,
            image.height,
            scale_width,
            scale_height,
            &cancelled,
            blank,
            shade,
        ) {
            Err(_) => Ok(()),
            Ok(buffer) => {
                let event = tile_event(&image, buffer);
                image.writer.write(event)
            },
        }
    }
}

} // verus!
