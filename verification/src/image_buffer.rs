//! The two stages between a renderer and the display.
//!
//! Renderers publish tiles of radiance. An [`ImageBufferReader`] assembles
//! the tiles it receives into one grid, each at its own place. A
//! [`ScreenBuffer`] does the same after tone-mapping every pixel of a tile,
//! and republishes the mapped tile for the display.
//!
//! A tile is accepted when its rectangle lies inside the grid and it
//! carries a pixel for every cell of the rectangle. A tile that does not is
//! refused with an error, and nothing of it is written.

use crate::data_bus::{update_failure, DataBus, DataReader, DataWriter};
use crate::error::TracerError;
use crate::grid::{copied_at, copy_rect, in_rect, rect_fits};
use crate::image::Image;
use crate::tone_map::ToneMap;
use vstd::prelude::*;
use vstd::string::StringExecFns;

verus! {

/// What travels from a renderer to the buffers: one tile, as its pixels in
/// row-major order, the row `r` and column `c` of its first pixel on the
/// screen, and its size.
pub enum ImageBufferEvent<C> {
    BufferUpdate { rgb: Vec<C>, r: usize, c: usize, width: usize, height: usize },
}

impl<C: Clone> Clone for ImageBufferEvent<C> {
    fn clone(&self) -> (copy: Self) {
        match self {
            ImageBufferEvent::BufferUpdate { rgb, r, c, width, height } => {
                ImageBufferEvent::BufferUpdate {
                    rgb: rgb.clone(),
                    r: *r,
                    c: *c,
                    width: *width,
                    height: *height,
                }
            },
        }
    }
}

impl<C> ImageBufferEvent<C> {
    /// Whether this tile can be written into a grid of `grid_width` columns
    /// stored in `grid_len` cells: its rectangle lies inside the grid, and
    /// it has a pixel for each of its cells.
    pub open spec fn fits(self, grid_len: int, grid_width: int) -> bool {
        rect_fits(
            grid_len,
            grid_width,
            self->r as int,
            self->c as int,
            self->height as int,
            self->width as int,
        ) && self->height * self->width <= self->rgb@.len()
    }

    /// The grid after this tile was written into it.
    pub open spec fn written_into(self, grid: Seq<C>, grid_width: int) -> Seq<C> {
        Seq::new(
            grid.len(),
            |i: int|
                copied_at(
                    grid,
                    grid_width,
                    self->rgb@,
                    self->r as int,
                    self->c as int,
                    self->height as int,
                    self->width as int,
                    i,
                ),
        )
    }
}

/// Whether a tile can be written into a grid. See [`ImageBufferEvent::fits`].
pub fn tile_fits(
    grid_len: usize,
    grid_width: usize,
    tile_len: usize,
    r: usize,
    c: usize,
    width: usize,
    height: usize,
) -> (ok: bool)
    ensures
        ok == (rect_fits(
            grid_len as int,
            grid_width as int,
            r as int,
            c as int,
            height as int,
            width as int,
        ) && height * width <= tile_len),
{
    if grid_width == 0 {
        assert((r + height) * 0 == 0);
        assert(height * 0 == 0);
        return c == 0 && width == 0;
    }
    let right = match c.checked_add(width) {
        Some(right) => right,
        None => {
            return false;
        },
    };
    if right > grid_width {
        return false;
    }
    let bottom = match r.checked_add(height) {
        Some(bottom) => bottom,
        None => {
            assert((r + height) * grid_width >= r + height) by (nonlinear_arith)
                requires
                    grid_width > 0,
                    r + height >= 0,
            ;
            return false;
        },
    };
    let end = match bottom.checked_mul(grid_width) {
        Some(end) => end,
        None => {
            return false;
        },
    };
    if end > grid_len {
        return false;
    }
    match height.checked_mul(width) {
        Some(cells) => cells <= tile_len,
        None => false,
    }
}

/// The grid after each tile of `events` was written into it, first tile
/// first, up to the first tile that does not fit.
pub open spec fn assembled<C>(grid: Seq<C>, grid_width: int, events: Seq<ImageBufferEvent<C>>) -> Seq<
    C,
>
    decreases events.len(),
{
    if events.len() == 0 {
        grid
    } else if !events[0].fits(grid.len() as int, grid_width) {
        grid
    } else {
        assembled(events[0].written_into(grid, grid_width), grid_width, events.drop_first())
    }
}

/// Whether every tile of `events` fits a grid of `grid_width` columns and
/// `grid_len` cells.
pub open spec fn all_fit<C>(grid_len: int, grid_width: int, events: Seq<ImageBufferEvent<C>>) -> bool {
    forall|k: int| 0 <= k < events.len() ==> (#[trigger] events[k]).fits(grid_len, grid_width)
}

/// Whether two tiles share no cell of the grid.
pub open spec fn are_disjoint<C>(one: ImageBufferEvent<C>, other: ImageBufferEvent<C>) -> bool {
    forall|row: int, col: int|
        !(#[trigger] in_rect(
            one->r as int,
            one->c as int,
            one->height as int,
            one->width as int,
            row,
            col,
        ) && in_rect(
            other->r as int,
            other->c as int,
            other->height as int,
            other->width as int,
            row,
            col,
        ))
}

/// Tiles that share no cell can be written in either order: the grid ends
/// up the same. So the image does not depend on the order in which the
/// tiles of a render arrive.
pub proof fn lemma_disjoint_tiles_commute<C>(
    grid: Seq<C>,
    grid_width: int,
    one: ImageBufferEvent<C>,
    other: ImageBufferEvent<C>,
)
    requires
        are_disjoint(one, other),
    ensures
        other.written_into(one.written_into(grid, grid_width), grid_width) == one.written_into(
            other.written_into(grid, grid_width),
            grid_width,
        ),
{
    let first = other.written_into(one.written_into(grid, grid_width), grid_width);
    let second = one.written_into(other.written_into(grid, grid_width), grid_width);
    assert forall|i: int| 0 <= i < grid.len() implies first[i] == second[i] by {
        let row = i / grid_width;
        let col = i % grid_width;
        assert(!(in_rect(
            one->r as int,
            one->c as int,
            one->height as int,
            one->width as int,
            row,
            col,
        ) && in_rect(
            other->r as int,
            other->c as int,
            other->height as int,
            other->width as int,
            row,
            col,
        )));
    }
    assert(first =~= second);
}

/// The error that reports a tile that does not fit, raised by `who`.
pub open spec fn is_misfit(e: TracerError, who: Seq<char>) -> bool {
    e matches TracerError::ActionProtocolError(text) && text@ == who
}

/// The assembled radiance of the screen, on the reading side of a channel of
/// tiles.
#[verifier::reject_recursive_types(C)]
pub struct ImageBufferReader<C: Copy + Sync> {
    reader: DataReader<ImageBufferEvent<C>>,
    changed: bool,
    image_width: usize,
    rgb: Vec<C>,
}

impl<C: Copy + Sync> ImageBufferReader<C> {
    /// The grid, row after row.
    pub closed spec fn view(&self) -> Seq<C> {
        self.rgb@
    }

    /// The number of columns of the grid.
    pub closed spec fn columns(&self) -> int {
        self.image_width as int
    }

    /// Whether tiles have arrived since the flag was last taken.
    pub closed spec fn is_changed(&self) -> bool {
        self.changed
    }

    /// A reader for a screen of the size of `image`, with every pixel
    /// `blank`.
    pub fn new(image: &Image, reader: DataReader<ImageBufferEvent<C>>, blank: C) -> (buffer: Self)
        requires
            image.width * image.height <= usize::MAX,
        ensures
            buffer@.len() == image.width * image.height,
            buffer.columns() == image.width,
            !buffer.is_changed(),
            forall|i: int| 0 <= i < buffer@.len() ==> buffer@[i] == blank,
    {
        Self {
            image_width: image.width,
            rgb: blank_grid(image.width, image.height, blank),
            reader,
            changed: false,
        }
    }

    /// Writes the tiles of `messages` into the grid, first tile first. A
    /// tile that does not fit stops the work: the tiles before it are
    /// written, it and the tiles after it are not, and an error reports it.
    /// The change flag is raised when `messages` holds anything.
    pub fn assemble(&mut self, messages: &Vec<ImageBufferEvent<C>>) -> (res: Result<(), TracerError>)
        ensures
            final(self).columns() == old(self).columns(),
            final(self)@.len() == old(self)@.len(),
            final(self)@ == assembled(old(self)@, old(self).columns(), messages@),
            final(self).is_changed() == (messages@.len() > 0),
            res is Ok <==> all_fit(old(self)@.len() as int, old(self).columns(), messages@),
            res matches Err(e) ==> is_misfit(e, "ImageBufferReader"@),
    {
        self.changed = messages.len() > 0;
        let ghost start = self.rgb@;
        assert(messages@.skip(0) =~= messages@);
        let mut k: usize = 0;
        while k < messages.len()
            invariant
                k <= messages@.len(),
                self.image_width == old(self).image_width,
                self.changed == (messages@.len() > 0),
                self.rgb@.len() == start.len(),
                start == old(self).rgb@,
                assembled(start, self.image_width as int, messages@) == assembled(
                    self.rgb@,
                    self.image_width as int,
                    messages@.skip(k as int),
                ),
                forall|j: int|
                    0 <= j < k ==> (#[trigger] messages@[j]).fits(
                        start.len() as int,
                        self.image_width as int,
                    ),
            decreases messages@.len() - k,
        {
            let ghost rest = messages@.skip(k as int);
            assert(rest.len() > 0 && rest[0] == messages@[k as int]);
            assert(rest.drop_first() =~= messages@.skip(k + 1));
            match &messages[k] {
                ImageBufferEvent::BufferUpdate { rgb, r, c, width, height } => {
                    if !tile_fits(
                        self.rgb.len(),
                        self.image_width,
                        rgb.len(),
                        *r,
                        *c,
                        *width,
                        *height,
                    ) {
                        return Err(
                            TracerError::ActionProtocolError(String::from_str("ImageBufferReader")),
                        );
                    }
                    let ghost before = self.rgb@;
                    copy_rect(&mut self.rgb, self.image_width, rgb, *r, *c, *height, *width);
                    assert(self.rgb@ =~= messages@[k as int].written_into(
                        before,
                        self.image_width as int,
                    ));
                },
            }
            k = k + 1;
        }
        assert(messages@.skip(k as int).len() == 0);
        Ok(())
    }

    /// Takes the tiles that are waiting on the channel and writes them into
    /// the grid. Fails when the channel does, and then changes nothing; or
    /// on a tile that does not fit, as [`Self::assemble`] does.
    ///
    /// Where the channel did not fail, the grid and the change flag are
    /// what [`Self::assemble`] makes of the tiles that were waiting, and
    /// the result is success exactly when all of those fit.
    pub fn update(&mut self) -> (res: Result<(), TracerError>)
        ensures
            final(self).columns() == old(self).columns(),
            final(self)@.len() == old(self)@.len(),
            res matches Err(e) ==> (e is BusReadError && final(self)@ == old(self)@
                && final(self).is_changed() == old(self).is_changed()) || is_misfit(
                e,
                "ImageBufferReader"@,
            ),
            !(res matches Err(e) && e is BusReadError) ==> exists|waiting: Seq<ImageBufferEvent<C>>|
                final(self)@ == #[trigger] assembled(old(self)@, old(self).columns(), waiting)
                    && final(self).is_changed() == (waiting.len() > 0) && (res is Ok <==> all_fit(
                    old(self)@.len() as int,
                    old(self).columns(),
                    waiting,
                )),
    {
        match self.reader.get_messages() {
            Ok(messages) => {
                let res = self.assemble(&messages);
                proof {
                    let waiting = messages@;
                    assert(self@ == assembled(old(self)@, old(self).columns(), waiting)
                        && self.is_changed() == (waiting.len() > 0) && (res is Ok <==> all_fit(
                        old(self)@.len() as int,
                        old(self).columns(),
                        waiting,
                    )));
                }
                res
            },
            Err(e) => Err(e),
        }
    }

    /// Says whether tiles have arrived since the last call, and lowers the
    /// flag.
    pub fn changed(&mut self) -> (res: bool)
        ensures
            res == old(self).is_changed(),
            !final(self).is_changed(),
            final(self)@ == old(self)@,
            final(self).columns() == old(self).columns(),
    {
        let res = self.changed;
        self.changed = false;
        res
    }

    /// The grid, row after row.
    pub fn rgb(&self) -> (pixels: &[C])
        ensures
            pixels@ == self@,
    {
        self.rgb.as_slice()
    }
}

/// The hub of the channel of tiles between the renderers and the screen.
#[verifier::reject_recursive_types(C)]
pub struct ImageBuffer<C: Copy + Sync> {
    bus: DataBus<ImageBufferEvent<C>>,
    image: Image,
}

impl<C: Copy + Sync> ImageBuffer<C> {
    /// The size of the screen the tiles belong to.
    pub closed spec fn image(&self) -> Image {
        self.image
    }

    /// The name of the channel of this buffer.
    pub closed spec fn channel(&self) -> Seq<char> {
        self.bus.name()
    }

    pub fn new(image: Image) -> (buffer: Self)
        ensures
            buffer.image() == image,
            buffer.channel() == "ImageBuffer"@,
    {
        Self { image, bus: DataBus::new("ImageBuffer") }
    }

    /// A writer through which a renderer publishes tiles: a writer on the
    /// channel of this buffer.
    pub fn get_writer(&self) -> (writer: ImageBufferWriter<C>)
        ensures
            writer.name() == self.channel(),
    {
        ImageBufferWriter::new(self.bus.get_writer())
    }

    /// A reader that assembles the published tiles, starting from a grid
    /// in which every pixel is `blank`.
    pub fn get_reader(&mut self, blank: C) -> (reader: ImageBufferReader<C>)
        requires
            old(self).image().width * old(self).image().height <= usize::MAX,
        ensures
            final(self).image() == old(self).image(),
            final(self).channel() == old(self).channel(),
            reader@.len() == old(self).image().width * old(self).image().height,
            reader.columns() == old(self).image().width,
            !reader.is_changed(),
            forall|i: int| 0 <= i < reader@.len() ==> reader@[i] == blank,
    {
        let image = self.image;
        ImageBufferReader::new(&image, self.bus.get_reader(), blank)
    }

    /// A reader of the published tiles themselves: a reader on the channel
    /// of this buffer.
    pub fn get_data_reader(&mut self) -> (reader: DataReader<ImageBufferEvent<C>>)
        ensures
            final(self).image() == old(self).image(),
            final(self).channel() == old(self).channel(),
            reader.name() == old(self).channel(),
    {
        self.bus.get_reader()
    }

    /// A bare writer on the channel of this buffer.
    pub fn get_data_writer(&self) -> (writer: DataWriter<ImageBufferEvent<C>>)
        ensures
            writer.name() == self.channel(),
    {
        self.bus.get_writer()
    }

    /// Broadcasts the tiles that were published since the last call. The
    /// buffer stays on its screen and channel. Fails as
    /// [`DataBus::update`] does, with a receive failure whose text is that
    /// of a failed update.
    pub fn update(&mut self) -> (res: Result<(), TracerError>)
        ensures
            final(self).image() == old(self).image(),
            final(self).channel() == old(self).channel(),
            res matches Err(e) ==> (e matches TracerError::RecieveError(text) && exists|
                blamed: Seq<char>,
            | text@ == #[trigger] update_failure(blamed)),
    {
        self.bus.update()
    }
}

/// The writing end of a channel of tiles.
#[verifier::reject_recursive_types(C)]
pub struct ImageBufferWriter<C> {
    writer: DataWriter<ImageBufferEvent<C>>,
}

impl<C> Clone for ImageBufferWriter<C> {
    fn clone(&self) -> (copy: Self)
        ensures
            copy.name() == self.name(),
    {
        Self { writer: self.writer.clone() }
    }
}

impl<C> ImageBufferWriter<C> {
    /// The writer on the channel that this writer publishes through.
    pub closed spec fn inner(&self) -> DataWriter<ImageBufferEvent<C>> {
        self.writer
    }

    /// The name of the channel this writer feeds.
    pub open spec fn name(&self) -> Seq<char> {
        self.inner().name()
    }

    /// A writer of tiles that publishes through `writer`.
    pub fn new(writer: DataWriter<ImageBufferEvent<C>>) -> (w: Self)
        ensures
            w.inner() == writer,
    {
        Self { writer }
    }

    /// Publishes one tile: `rgb` are its pixels in row-major order, `r` and
    /// `c` the row and column of its first pixel on the screen. Fails as
    /// [`DataWriter::write`] does, with a write failure that names this
    /// writer's channel. The writer stays on its channel.
    pub fn write(&mut self, rgb: Vec<C>, r: usize, c: usize, width: usize, height: usize) -> (res:
        Result<(), TracerError>)
        ensures
            final(self).inner() == old(self).inner(),
            res matches Err(e) ==> (e matches TracerError::BusWriteError(name, _) && name@
                == old(self).name()),
    {
        self.writer.write(ImageBufferEvent::BufferUpdate { rgb, r, c, width, height })
    }
}

/// Whether `after` is `before` with the first `cells` pixels tone-mapped by
/// `tone_map` and the rest untouched.
pub open spec fn tone_mapped<C, M: ToneMap<C>>(
    tone_map: &M,
    before: Seq<C>,
    cells: int,
    after: Seq<C>,
) -> bool {
    &&& after.len() == before.len()
    &&& forall|i: int|
        0 <= i < cells && i < before.len() ==> call_ensures(
            M::tone_map,
            (tone_map, before[i]),
            #[trigger] after[i],
        )
    &&& forall|i: int| cells <= i < before.len() ==> #[trigger] after[i] == before[i]
}

/// Whether the tile `event`, taken into the grid `before`, leaves the grid
/// `after` and the tile `mapped`: the tile fits, `mapped` is the tile at
/// the same place with its pixels tone-mapped by `tone_map`, and `after` is
/// `before` with `mapped` written into it.
pub open spec fn is_taken_in<C, M: ToneMap<C>>(
    tone_map: &M,
    grid_width: int,
    before: Seq<C>,
    event: ImageBufferEvent<C>,
    mapped: ImageBufferEvent<C>,
    after: Seq<C>,
) -> bool {
    &&& event.fits(before.len() as int, grid_width)
    &&& mapped->r == event->r
    &&& mapped->c == event->c
    &&& mapped->width == event->width
    &&& mapped->height == event->height
    &&& tone_mapped(tone_map, event->rgb@, event->height * event->width, mapped->rgb@)
    &&& after == mapped.written_into(before, grid_width)
}

/// Whether `after` is what the tiles `events` make of the grid `before`
/// when they are taken in one after another, each tone-mapped by
/// `tone_map`.
pub open spec fn is_screened<C, M: ToneMap<C>>(
    tone_map: &M,
    grid_width: int,
    before: Seq<C>,
    events: Seq<ImageBufferEvent<C>>,
    after: Seq<C>,
) -> bool
    decreases events.len(),
{
    if events.len() == 0 {
        after == before
    } else {
        exists|between: Seq<C>, mapped: ImageBufferEvent<C>|
            is_screened(tone_map, grid_width, before, events.drop_last(), between)
                && #[trigger] is_taken_in(
                tone_map,
                grid_width,
                between,
                events.last(),
                mapped,
                after,
            )
    }
}

/// One more tile after a run of tiles makes a run of tiles.
proof fn lemma_screened_one_more<C, M: ToneMap<C>>(
    tone_map: &M,
    grid_width: int,
    before: Seq<C>,
    events: Seq<ImageBufferEvent<C>>,
    between: Seq<C>,
    mapped: ImageBufferEvent<C>,
    after: Seq<C>,
)
    requires
        events.len() > 0,
        is_screened(tone_map, grid_width, before, events.drop_last(), between),
        is_taken_in(tone_map, grid_width, between, events.last(), mapped, after),
    ensures
        is_screened(tone_map, grid_width, before, events, after),
{
}

/// The displayable image of the screen. It takes tiles of radiance from its
/// own channel, tone-maps them, keeps the result in a grid, and republishes
/// each mapped tile.
#[verifier::reject_recursive_types(C)]
#[verifier::reject_recursive_types(M)]
pub struct ScreenBuffer<C: Copy + Sync, M: ToneMap<C>> {
    buffer: Vec<C>,
    out: DataWriter<ImageBufferEvent<C>>,
    reader: DataReader<ImageBufferEvent<C>>,
    bus: DataBus<ImageBufferEvent<C>>,
    image: Image,
    tone_map: M,
}

impl<C: Copy + Sync, M: ToneMap<C>> ScreenBuffer<C, M> {
    /// The grid of mapped pixels, row after row.
    pub closed spec fn view(&self) -> Seq<C> {
        self.buffer@
    }

    /// The size of the screen.
    pub closed spec fn image(&self) -> Image {
        self.image
    }

    /// The operator that maps the tiles.
    pub closed spec fn operator(&self) -> &M {
        &self.tone_map
    }

    /// The name of the channel on which radiance reaches this screen.
    pub closed spec fn channel(&self) -> Seq<char> {
        self.bus.name()
    }

    /// The name of the channel on which mapped tiles leave this screen.
    pub closed spec fn display(&self) -> Seq<char> {
        self.out.name()
    }

    /// A screen of the size of `image` with every pixel `blank`. Mapped
    /// tiles leave through `out`.
    pub fn new(image: Image, out: DataWriter<ImageBufferEvent<C>>, tone_map: M, blank: C) -> (screen:
        Self)
        requires
            image.width * image.height <= usize::MAX,
        ensures
            screen.image() == image,
            screen.operator() == tone_map,
            screen.channel() == "ScreenBuffer"@,
            screen.display() == out.name(),
            screen@.len() == image.width * image.height,
            forall|i: int| 0 <= i < screen@.len() ==> screen@[i] == blank,
    {
        let mut bus = DataBus::new("ScreenBuffer");
        let reader = bus.get_reader();
        Self {
            buffer: blank_grid(image.width, image.height, blank),
            out,
            image,
            reader,
            bus,
            tone_map,
        }
    }

    /// Tone-maps the first `cells` pixels of `rgb`.
    fn map_pixels(&self, rgb: &Vec<C>, cells: usize) -> (mapped: Vec<C>)
        requires
            cells <= rgb@.len(),
        ensures
            tone_mapped(self.operator(), rgb@, cells as int, mapped@),
    {
        let mut mapped: Vec<C> = Vec::new();
        let mut i: usize = 0;
        while i < rgb.len()
            invariant
                i <= rgb@.len(),
                cells <= rgb@.len(),
                mapped@.len() == i,
                forall|j: int|
                    0 <= j < cells && j < i ==> call_ensures(
                        M::tone_map,
                        (self.operator(), rgb@[j]),
                        #[trigger] mapped@[j],
                    ),
                forall|j: int| cells <= j < i ==> #[trigger] mapped@[j] == rgb@[j],
            decreases rgb@.len() - i,
        {
            let color = rgb[i];
            if i < cells {
                mapped.push(self.tone_map.tone_map(color));
            } else {
                mapped.push(color);
            }
            i = i + 1;
        }
        mapped
    }

    /// Takes in one tile: maps its pixels, writes the mapped tile into the
    /// grid at the tile's place, and hands back the mapped tile as an event
    /// at that same place. A tile that does not fit is refused, and the grid
    /// stays as it was.
    pub fn absorb(&mut self, event: &ImageBufferEvent<C>) -> (res: Result<
        ImageBufferEvent<C>,
        TracerError,
    >)
        ensures
            final(self).image() == old(self).image(),
            final(self).operator() == old(self).operator(),
            final(self).channel() == old(self).channel(),
            final(self).display() == old(self).display(),
            final(self)@.len() == old(self)@.len(),
            res is Ok <==> event.fits(old(self)@.len() as int, old(self).image().width as int),
            res matches Ok(mapped) ==> is_taken_in(
                old(self).operator(),
                old(self).image().width as int,
                old(self)@,
                *event,
                mapped,
                final(self)@,
            ),
            res matches Ok(mapped) ==> {
                &&& mapped->r == event->r
                &&& mapped->c == event->c
                &&& mapped->width == event->width
                &&& mapped->height == event->height
                &&& tone_mapped(
                    old(self).operator(),
                    event->rgb@,
                    event->height * event->width,
                    mapped->rgb@,
                )
                &&& final(self)@ == mapped.written_into(
                    old(self)@,
                    old(self).image().width as int,
                )
            },
            res matches Err(e) ==> is_misfit(e, "ScreenBuffer"@) && final(self)@ == old(self)@,
    {
        match event {
            ImageBufferEvent::BufferUpdate { rgb, r, c, width, height } => {
                if !tile_fits(
                    self.buffer.len(),
                    self.image.width,
                    rgb.len(),
                    *r,
                    *c,
                    *width,
                    *height,
                ) {
                    return Err(TracerError::ActionProtocolError(String::from_str("ScreenBuffer")));
                }
                let mapped = self.map_pixels(rgb, *height * *width);
                let ghost before = self.buffer@;
                copy_rect(&mut self.buffer, self.image.width, &mapped, *r, *c, *height, *width);
                let out = ImageBufferEvent::BufferUpdate {
                    rgb: mapped,
                    r: *r,
                    c: *c,
                    width: *width,
                    height: *height,
                };
                assert(self.buffer@ =~= out.written_into(before, self.image.width as int));
                Ok(out)
            },
        }
    }

    /// Broadcasts what was published to this screen since the last call,
    /// then takes in every tile that is waiting, in order, and republishes
    /// each mapped tile. Stops at the first failure: of a channel, or of a
    /// tile that does not fit.
    ///
    /// The grid is left as the tiles that were taken in have made it, each
    /// tone-mapped and written at its place, in the order in which they
    /// came. A failure to broadcast or to read leaves it as it was. A
    /// failure to republish names the channel of the display.
    pub fn update(&mut self) -> (res: Result<(), TracerError>)
        ensures
            final(self).image() == old(self).image(),
            final(self).operator() == old(self).operator(),
            final(self).channel() == old(self).channel(),
            final(self).display() == old(self).display(),
            final(self)@.len() == old(self)@.len(),
            res matches Err(e) ==> e is RecieveError || e is BusReadError || e is BusWriteError
                || is_misfit(e, "ScreenBuffer"@),
            res matches Err(e) ==> (e is RecieveError || e is BusReadError ==> final(self)@ == old(self)@),
            res matches Err(e) ==> (e matches TracerError::BusWriteError(name, _) ==> name@ == old(self).display()),
            res matches Err(e) ==> (e matches TracerError::RecieveError(text) ==> exists|
                blamed: Seq<char>,
            | text@ == #[trigger] update_failure(blamed)),
            exists|taken: Seq<ImageBufferEvent<C>>| #[trigger]
                is_screened(
                    old(self).operator(),
                    old(self).image().width as int,
                    old(self)@,
                    taken,
                    final(self)@,
                ),
    {
        let ghost none = Seq::<ImageBufferEvent<C>>::empty();
        proof {
            assert(is_screened(
                self.operator(),
                self.image().width as int,
                self@,
                none,
                self@,
            ));
        }
        match self.bus.update() {
            Ok(()) => {},
            Err(e) => {
                return Err(e);
            },
        }
        let messages = match self.reader.get_messages() {
            Ok(messages) => messages,
            Err(e) => {
                return Err(e);
            },
        };
        let mut k: usize = 0;
        proof {
            assert(messages@.take(0) =~= none);
        }
        while k < messages.len()
            invariant
                k <= messages@.len(),
                self.image() == old(self).image(),
                self.operator() == old(self).operator(),
                self.channel() == old(self).channel(),
                self.display() == old(self).display(),
                self@.len() == old(self)@.len(),
                is_screened(
                    old(self).operator(),
                    old(self).image().width as int,
                    old(self)@,
                    messages@.take(k as int),
                    self@,
                ),
            decreases messages@.len() - k,
        {
            let ghost between = self@;
            match self.absorb(&messages[k]) {
                Ok(mapped) => {
                    proof {
                        let taken = messages@.take(k + 1);
                        assert(taken.drop_last() =~= messages@.take(k as int));
                        assert(taken.last() == messages@[k as int]);
                        lemma_screened_one_more(
                            old(self).operator(),
                            old(self).image().width as int,
                            old(self)@,
                            taken,
                            between,
                            mapped,
                            self@,
                        );
                    }
                    match self.out.write(mapped) {
                        Ok(()) => {},
                        Err(e) => {
                            return Err(e);
                        },
                    }
                },
                Err(e) => {
                    return Err(e);
                },
            }
            k = k + 1;
        }
        Ok(())
    }

    /// A writer through which radiance tiles reach this screen: a writer
    /// on this screen's channel.
    pub fn get_writer(&self) -> (writer: ImageBufferWriter<C>)
        ensures
            writer.name() == self.channel(),
    {
        ImageBufferWriter::new(self.bus.get_writer())
    }

    /// A bare writer on this screen's channel.
    pub fn get_data_writer(&self) -> (writer: DataWriter<ImageBufferEvent<C>>)
        ensures
            writer.name() == self.channel(),
    {
        self.bus.get_writer()
    }

    /// The grid of mapped pixels, row after row.
    pub fn rgb(&self) -> (pixels: &[C])
        ensures
            pixels@ == self@,
    {
        self.buffer.as_slice()
    }
}

/// A grid of `width` columns and `height` rows with every cell `blank`.
pub fn blank_grid<C: Copy>(width: usize, height: usize, blank: C) -> (grid: Vec<C>)
    requires
        width * height <= usize::MAX,
    ensures
        grid@.len() == width * height,
        forall|i: int| 0 <= i < grid@.len() ==> grid@[i] == blank,
{
    let cells = width * height;
    let mut grid: Vec<C> = Vec::new();
    let mut i: usize = 0;
    while i < cells
        invariant
            i <= cells,
            grid@.len() == i,
            forall|j: int| 0 <= j < i ==> grid@[j] == blank,
        decreases cells - i,
    {
        grid.push(blank);
        i = i + 1;
    }
    grid
}

} // verus!
