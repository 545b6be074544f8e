//! The game grid: selection and navigation, the drawing plan of a frame,
//! and the launcher's reaction to input actions.
use vstd::prelude::*;
use vstd::arithmetic::div_mod::lemma_fundamental_div_mod_converse;
use crate::config::{GameEntry, State};
use crate::framebuf::{
    paint_frame, paint_image, paint_rect, dim_region, Color, Framebuffer,
};
use crate::input::Action;
use crate::text::concat3;

verus! {

pub const TILE_WIDTH: u32 = 280;
pub const TILE_HEIGHT: u32 = 340;
pub const ART_HEIGHT: u32 = 280;
pub const TILE_PAD: u32 = 20;
pub const TOP_MARGIN: u32 = 80;
pub const LEFT_MARGIN: u32 = 60;
pub const HIGHLIGHT_BORDER: u32 = 4;
/// Height of the banner at the bottom of the screen.
pub const BANNER_HEIGHT: u32 = 80;

/// Box art decoded to RGBA, four bytes per pixel, rows without padding.
pub struct ArtImage {
    pub width: u32,
    pub height: u32,
    pub rgba: Vec<u8>,
}

/// Whether `image::load_from_memory_with_format` decodes `bytes` in the
/// format that `ImageFormat::from_extension` gives for `ext` (false if
/// there is no such format).
pub uninterp spec fn image_decodes(bytes: Seq<u8>, ext: Option<Seq<char>>) -> bool;

/// The image that `DynamicImage::resize` with the triangle filter makes of
/// the image decoded from `bytes` (in the format named by `ext`), for the
/// bounds `nwidth x nheight`, as width, height and the RGBA bytes that
/// `DynamicImage::to_rgba8` gives.
pub uninterp spec fn scaled_image(bytes: Seq<u8>, ext: Option<Seq<char>>, nwidth: u32, nheight: u32) -> (u32, u32, Seq<u8>);

/// The characters of an optional string slice.
pub open spec fn opt_str_view(s: Option<&str>) -> Option<Seq<char>> {
    match s {
        Some(x) => Some(x@),
        None => None,
    }
}

/// `image::load_from_memory_with_format`, in the format that
/// `ImageFormat::from_extension` gives for `ext` (as `image::open` picks it
/// from a file's extension); the decoded image scaled by
/// `DynamicImage::resize` with the triangle filter, in its own pixel type,
/// then turned into RGBA bytes by `DynamicImage::to_rgba8`.  Whether it
/// decodes is the named `image_decodes`, the result the named
/// `scaled_image`.  As the documentation of `resize` says, the aspect ratio
/// is kept and the image scaled to the largest size that fits in
/// `width x height`, so one side fills its bound: the only decoder built,
/// PNG, refuses empty images.  The source never scales below one pixel,
/// and the result holds exactly four bytes per pixel.
#[verifier::external_body]
fn decode_scaled_rgba8(bytes: &[u8], ext: Option<&str>, width: u32, height: u32) -> (r: Option<ArtImage>)
    requires
        width >= 1,
        height >= 1,
    ensures
        (r is Some) == image_decodes(bytes@, opt_str_view(ext)),
        r matches Some(a) ==> (a.width, a.height, a.rgba@) == scaled_image(
            bytes@,
            opt_str_view(ext),
            width,
            height,
        ) && 1 <= a.width <= width && 1 <= a.height <= height && (a.width == width || a.height
            == height) && a.rgba@.len() == 4 * a.width * a.height,
{
    let format = image::ImageFormat::from_extension(ext?)?;
    let decoded = image::load_from_memory_with_format(bytes, format).ok()?;
    let rgba = decoded.resize(width, height, image::imageops::FilterType::Triangle).to_rgba8();
    Some(ArtImage { width: rgba.width(), height: rgba.height(), rgba: rgba.into_raw() })
}

/// The tile art that an art file yields: its decoded image scaled to fit
/// the art area of a tile, or `None` if it does not decode.
pub open spec fn tile_image_of(bytes: Seq<u8>, ext: Option<Seq<char>>) -> Option<(u32, u32, Seq<u8>)> {
    if image_decodes(bytes, ext) {
        Some(scaled_image(bytes, ext, TILE_WIDTH, ART_HEIGHT))
    } else {
        None
    }
}

/// Decode an art file's bytes (`ext` is the file's extension, which names
/// its format) and scale the image to fit the art area of a tile.
pub fn decode_tile_art(bytes: &[u8], ext: Option<&str>) -> (a: Option<ArtImage>)
    ensures
        (a is Some) == image_decodes(bytes@, opt_str_view(ext)),
        match a {
            Some(t) => tile_image_of(bytes@, opt_str_view(ext)) == Some((t.width, t.height, t.rgba@))
                && 1 <= t.width <= TILE_WIDTH && 1 <= t.height <= ART_HEIGHT && (t.width
                == TILE_WIDTH || t.height == ART_HEIGHT) && t.rgba@.len() == 4 * t.width
                * t.height,
            None => true,
        },
{
    decode_scaled_rgba8(bytes, ext, TILE_WIDTH, ART_HEIGHT)
}

/// The tile art of the file at `path` holding `bytes`: its format is named
/// by the path's extension.
pub fn art_from_file(path: &str, bytes: &[u8]) -> (a: Option<ArtImage>)
    ensures
        (a is Some) == image_decodes(bytes@, crate::validate::file_extension(path@)),
        match a {
            Some(t) => tile_image_of(bytes@, crate::validate::file_extension(path@)) == Some(
                (t.width, t.height, t.rgba@),
            ) && 1 <= t.width <= TILE_WIDTH && 1 <= t.height <= ART_HEIGHT && (t.width
                == TILE_WIDTH || t.height == ART_HEIGHT) && t.rgba@.len() == 4 * t.width
                * t.height,
            None => true,
        },
{
    let ext = crate::validate::path_extension(path);
    match ext {
        Some(e) => decode_tile_art(bytes, Some(e.as_str())),
        None => decode_tile_art(bytes, None),
    }
}

/// An image's width, height and bytes.
pub open spec fn art_view(a: ArtImage) -> (u32, u32, Seq<u8>) {
    (a.width, a.height, a.rgba@)
}

/// The last of the games before `k` that has ID `id` and whose art loaded.
pub open spec fn last_loaded(
    games: Seq<GameEntry>,
    loaded: Seq<Option<ArtImage>>,
    id: Seq<char>,
    k: int,
) -> Option<int>
    decreases k,
{
    if k <= 0 {
        None
    } else if games[k - 1].id@ == id && k - 1 < loaded.len() && loaded[k - 1] is Some {
        Some(k - 1)
    } else {
        last_loaded(games, loaded, id, k - 1)
    }
}

/// A copy of an image.
fn copy_art(a: &ArtImage) -> (b: ArtImage)
    ensures
        art_view(b) == art_view(*a),
{
    let mut rgba: Vec<u8> = Vec::new();
    let n = a.rgba.len();
    let mut i: usize = 0;
    while i < n
        invariant
            n == a.rgba@.len(),
            i <= n,
            rgba@ == a.rgba@.take(i as int),
        decreases n - i,
    {
        rgba.push(a.rgba[i]);
        i += 1;
        assert(rgba@ =~= a.rgba@.take(i as int));
    }
    assert(a.rgba@.take(n as int) =~= a.rgba@);
    ArtImage { width: a.width, height: a.height, rgba }
}

/// The last game before `k` with ID `id` whose art loaded.
fn find_last_loaded(games: &Vec<GameEntry>, loaded: &Vec<Option<ArtImage>>, id: &str) -> (r: Option<
    usize,
>)
    ensures
        match last_loaded(games@, loaded@, id@, games@.len() as int) {
            Some(j) => r == Some(j as usize),
            None => r is None,
        },
{
    let mut k = games.len();
    while k > 0
        invariant
            k <= games@.len(),
            last_loaded(games@, loaded@, id@, games@.len() as int) == last_loaded(
                games@,
                loaded@,
                id@,
                k as int,
            ),
        decreases k,
    {
        let j = k - 1;
        if crate::text::str_eq(games[j].id.as_str(), id) && j < loaded.len() && loaded[j].is_some() {
            return Some(j);
        }
        k = j;
    }
    None
}

/// The art each game shows, keyed by game ID as the art store is: game `i`
/// shows the art of the last game with its ID whose art loaded (its own,
/// unless a later game with the same ID also loaded art), or none.
/// `loaded[j]` is the art loaded for game `j`.
pub fn art_by_id(games: &Vec<GameEntry>, loaded: &Vec<Option<ArtImage>>) -> (r: Vec<Option<ArtImage>>)
    ensures
        r@.len() == games@.len(),
        forall|i: int|
            0 <= i < games@.len() ==> match last_loaded(
                games@,
                loaded@,
                #[trigger] games@[i].id@,
                games@.len() as int,
            ) {
                Some(j) => r@[i] matches Some(a) && art_view(a) == art_view(loaded@[j]->0),
                None => r@[i] is None,
            },
{
    let n = games.len();
    let mut out: Vec<Option<ArtImage>> = Vec::new();
    let mut i: usize = 0;
    while i < n
        invariant
            n == games@.len(),
            i <= n,
            out@.len() == i,
            forall|k: int|
                0 <= k < i ==> match last_loaded(games@, loaded@, #[trigger] games@[k].id@, n as int) {
                    Some(j) => out@[k] matches Some(a) && art_view(a) == art_view(loaded@[j]->0),
                    None => out@[k] is None,
                },
        decreases n - i,
    {
        let found = find_last_loaded(games, loaded, games[i].id.as_str());
        let entry = match found {
            Some(j) => {
                proof {
                    lemma_last_loaded_found(games@, loaded@, games@[i as int].id@, n as int);
                }
                match &loaded[j] {
                    Some(a) => Some(copy_art(a)),
                    None => None,
                }
            },
            None => None,
        };
        out.push(entry);
        i += 1;
    }
    out
}

/// What `last_loaded` finds is a loaded game before the bound.
proof fn lemma_last_loaded_found(
    games: Seq<GameEntry>,
    loaded: Seq<Option<ArtImage>>,
    id: Seq<char>,
    k: int,
)
    ensures
        match last_loaded(games, loaded, id, k) {
            Some(j) => 0 <= j < k && j < loaded.len() && loaded[j] is Some,
            None => true,
        },
    decreases k,
{
    if k > 0 {
        lemma_last_loaded_found(games, loaded, id, k - 1);
    }
}

/// The grid of games and the selection in it.
pub struct GridState {
    pub selected: usize,
    pub scroll_offset: usize,
    pub games: Vec<GameEntry>,
    pub recently_played: Vec<String>,
    pub columns: u32,
    pub title: String,
}

/// The selection after moving up one row: unchanged in the first row.
pub open spec fn moved_up(selected: int, columns: int) -> int {
    if selected >= columns {
        selected - columns
    } else {
        selected
    }
}

/// The selection after moving down one row: unchanged if no game lies below.
pub open spec fn moved_down(selected: int, columns: int, len: int) -> int {
    if selected + columns < len {
        selected + columns
    } else {
        selected
    }
}

/// The selection after moving left: unchanged on the first game.
pub open spec fn moved_left(selected: int) -> int {
    if selected > 0 {
        selected - 1
    } else {
        selected
    }
}

/// The selection after moving right: unchanged on the last game.
pub open spec fn moved_right(selected: int, len: int) -> int {
    if selected + 1 < len {
        selected + 1
    } else {
        selected
    }
}

/// What the launcher does after an input action.
#[derive(Debug, Clone, Copy, PartialEq, Eq, Structural)]
pub enum LauncherStep {
    /// Leave the launcher.
    Exit,
    /// Launch the selected game.
    Launch,
    /// The selection may have moved: draw the grid again.
    Redraw,
    /// Nothing to do.
    Stay,
}

impl GridState {
    pub fn new(games: Vec<GameEntry>, state: &State, columns: u32, title: String) -> (g: GridState)
        ensures
            g.selected == 0,
            g.scroll_offset == 0,
            g.games == games,
            g.recently_played.deep_view() == state.recently_played.deep_view(),
            g.columns == columns,
            g.title == title,
    {
        let mut recent: Vec<String> = Vec::new();
        let n = state.recently_played.len();
        let mut i: usize = 0;
        while i < n
            invariant
                n == state.recently_played@.len(),
                i <= n,
                recent@.len() == i,
                forall|j: int| 0 <= j < i ==> recent@[j]@ == state.recently_played@[j]@,
            decreases n - i,
        {
            recent.push(state.recently_played[i].clone());
            i += 1;
        }
        assert(recent.deep_view() =~= state.recently_played.deep_view());
        GridState { selected: 0, scroll_offset: 0, games, recently_played: recent, columns, title }
    }

    /// The selected game, if the selection is on a game.
    pub fn selected_game(&self) -> (g: Option<&GameEntry>)
        ensures
            self.selected < self.games@.len() ==> g == Some(&self.games@[self.selected as int]),
            self.selected >= self.games@.len() ==> g is None,
    {
        if self.selected < self.games.len() {
            Some(&self.games[self.selected])
        } else {
            None
        }
    }

    pub fn move_up(&mut self)
        ensures
            final(self).selected == moved_up(old(self).selected as int, old(self).columns as int),
            final(self).games == old(self).games,
            final(self).columns == old(self).columns,
            final(self).scroll_offset == old(self).scroll_offset,
            final(self).recently_played == old(self).recently_played,
            final(self).title == old(self).title,
    {
        let cols = self.columns as usize;
        if self.selected >= cols {
            self.selected -= cols;
        }
    }

    pub fn move_down(&mut self)
        requires
            old(self).selected + old(self).columns <= usize::MAX,
        ensures
            final(self).selected == moved_down(
                old(self).selected as int,
                old(self).columns as int,
                old(self).games@.len() as int,
            ),
            final(self).games == old(self).games,
            final(self).columns == old(self).columns,
            final(self).scroll_offset == old(self).scroll_offset,
            final(self).recently_played == old(self).recently_played,
            final(self).title == old(self).title,
    {
        let cols = self.columns as usize;
        if self.selected + cols < self.games.len() {
            self.selected += cols;
        }
    }

    pub fn move_left(&mut self)
        ensures
            final(self).selected == moved_left(old(self).selected as int),
            final(self).games == old(self).games,
            final(self).columns == old(self).columns,
            final(self).scroll_offset == old(self).scroll_offset,
            final(self).recently_played == old(self).recently_played,
            final(self).title == old(self).title,
    {
        if self.selected > 0 {
            self.selected -= 1;
        }
    }

    pub fn move_right(&mut self)
        requires
            old(self).selected < usize::MAX,
        ensures
            final(self).selected == moved_right(
                old(self).selected as int,
                old(self).games@.len() as int,
            ),
            final(self).games == old(self).games,
            final(self).columns == old(self).columns,
            final(self).scroll_offset == old(self).scroll_offset,
            final(self).recently_played == old(self).recently_played,
            final(self).title == old(self).title,
    {
        if self.selected + 1 < self.games.len() {
            self.selected += 1;
        }
    }
}

/// A selection on a game stays on a game, whichever way it moves.
pub proof fn lemma_moves_stay_on_games(selected: int, columns: int, len: int)
    requires
        0 <= selected < len,
        0 <= columns,
    ensures
        0 <= moved_up(selected, columns) < len,
        0 <= moved_down(selected, columns, len) < len,
        0 <= moved_left(selected) < len,
        0 <= moved_right(selected, len) < len,
{
}

/// Moving right and then left comes back, unless the first move was blocked.
pub proof fn lemma_left_undoes_right(selected: int, len: int)
    requires
        0 <= selected,
        moved_right(selected, len) != selected,
    ensures
        moved_left(moved_right(selected, len)) == selected,
{
}

/// Moving left and then right comes back, unless the first move was blocked.
pub proof fn lemma_right_undoes_left(selected: int, len: int)
    requires
        selected < len,
        moved_left(selected) != selected,
    ensures
        moved_right(moved_left(selected), len) == selected,
{
}

/// Moving down and then up comes back, unless the first move was blocked.
pub proof fn lemma_up_undoes_down(selected: int, columns: int, len: int)
    requires
        0 <= selected,
        0 <= columns,
        moved_down(selected, columns, len) != selected,
    ensures
        moved_up(moved_down(selected, columns, len), columns) == selected,
{
}

/// Moving up and then down comes back, unless the first move was blocked.
pub proof fn lemma_down_undoes_up(selected: int, columns: int, len: int)
    requires
        selected < len,
        moved_up(selected, columns) != selected,
    ensures
        moved_down(moved_up(selected, columns), columns, len) == selected,
{
}

/// Which text a drawing step writes.
#[derive(Debug, Clone, Copy, PartialEq, Eq, Structural)]
pub enum TextSource {
    /// The grid's title.
    Title,
    /// The name of the game at this index.
    GameName(usize),
    /// The hint under the selected game's name.
    PlayHint,
}

/// One step of drawing a frame.
#[derive(Debug, Clone, Copy, PartialEq, Eq, Structural)]
pub enum DrawOp {
    /// Fill the screen.
    Clear { color: Color },
    /// Write a text with its top left corner at `(x, y)`, `size_px` pixels high.
    Text { source: TextSource, x: u32, y: u32, size_px: u32, color: Color },
    /// Draw a rectangle's border.
    Frame { x: u32, y: u32, w: u32, h: u32, thickness: u32, color: Color },
    /// Blit the box art of the game at this index.
    Art { game: usize, x: u32, y: u32 },
    /// Fill a rectangle.
    Fill { x: u32, y: u32, w: u32, h: u32, color: Color },
    /// Dim a rectangle.
    Dim { x: u32, y: u32, w: u32, h: u32, amount: u8 },
    /// Show the finished frame.
    Present,
}

pub open spec fn white() -> Color {
    Color { r: 255, g: 255, b: 255, a: 255 }
}

/// Left edge of tile `i`.
pub open spec fn tile_x(i: int, columns: int) -> int {
    LEFT_MARGIN + (i % columns) * (TILE_WIDTH + TILE_PAD)
}

/// Top edge of tile `i`.
pub open spec fn tile_y(i: int, columns: int) -> int {
    TOP_MARGIN + (i / columns) * (TILE_HEIGHT + TILE_PAD)
}

/// The drawing steps of tile `i` at `(x, y)`: the highlight border if it
/// is selected, its art (or a placeholder with its name), dimming if it is
/// not selected, and its label.
pub open spec fn tile_ops(i: int, x: int, y: int, selected: bool, has_art: bool) -> Seq<DrawOp> {
    let border = if selected {
        seq![
            DrawOp::Frame {
                x: (x - HIGHLIGHT_BORDER) as u32,
                y: (y - HIGHLIGHT_BORDER) as u32,
                w: (TILE_WIDTH + 2 * HIGHLIGHT_BORDER) as u32,
                h: (TILE_HEIGHT + 2 * HIGHLIGHT_BORDER) as u32,
                thickness: HIGHLIGHT_BORDER,
                color: Color { r: 80, g: 160, b: 255, a: 255 },
            },
        ]
    } else {
        seq![]
    };
    let art = if has_art {
        seq![DrawOp::Art { game: i as usize, x: x as u32, y: y as u32 }]
    } else {
        seq![
            DrawOp::Fill {
                x: x as u32,
                y: y as u32,
                w: TILE_WIDTH,
                h: ART_HEIGHT,
                color: Color { r: 40, g: 40, b: 60, a: 255 },
            },
            DrawOp::Text {
                source: TextSource::GameName(i as usize),
                x: (x + 10) as u32,
                y: (y + ART_HEIGHT / 2 - 10) as u32,
                size_px: 24,
                color: white(),
            },
        ]
    };
    let dim = if selected {
        seq![]
    } else {
        seq![DrawOp::Dim { x: x as u32, y: y as u32, w: TILE_WIDTH, h: TILE_HEIGHT, amount: 80 }]
    };
    let label = seq![
        DrawOp::Text {
            source: TextSource::GameName(i as usize),
            x: x as u32,
            y: (y + ART_HEIGHT + 8) as u32,
            size_px: 20,
            color: if selected {
                white()
            } else {
                Color { r: 150, g: 150, b: 150, a: 255 }
            },
        },
    ];
    border + art + dim + label
}

/// Whether game `i` has box art.
pub open spec fn art_present(art: Seq<Option<ArtImage>>, i: int) -> bool {
    0 <= i < art.len() && art[i] is Some
}

/// The drawing steps of tiles `0..k`.
pub open spec fn tiles_ops(k: int, columns: int, selected: int, art: Seq<Option<ArtImage>>) -> Seq<
    DrawOp,
>
    decreases k,
{
    if k <= 0 {
        seq![]
    } else {
        tiles_ops(k - 1, columns, selected, art) + tile_ops(
            k - 1,
            tile_x(k - 1, columns),
            tile_y(k - 1, columns),
            k - 1 == selected,
            art_present(art, k - 1),
        )
    }
}

/// How many of the first `n` tiles are drawn: tiles are drawn until the
/// first one that starts below the screen.
pub open spec fn visible_tiles(n: int, columns: int, height: int) -> int
    decreases n,
{
    if n <= 0 {
        0
    } else if tile_y(n - 1, columns) <= height {
        n
    } else {
        visible_tiles(n - 1, columns, height)
    }
}

/// The banner at the bottom naming the selected game, if a game is selected.
pub open spec fn banner_ops(selected: int, len: int, width: int, height: int) -> Seq<DrawOp> {
    if 0 <= selected < len {
        let banner_y = if height >= BANNER_HEIGHT {
            height - BANNER_HEIGHT
        } else {
            0
        };
        seq![
            DrawOp::Fill {
                x: 0,
                y: banner_y as u32,
                w: width as u32,
                h: BANNER_HEIGHT,
                color: Color { r: 10, g: 10, b: 20, a: 255 },
            },
            DrawOp::Text {
                source: TextSource::GameName(selected as usize),
                x: LEFT_MARGIN,
                y: (banner_y + 10) as u32,
                size_px: 36,
                color: white(),
            },
            DrawOp::Text {
                source: TextSource::PlayHint,
                x: LEFT_MARGIN,
                y: (banner_y + 50) as u32,
                size_px: 20,
                color: Color { r: 120, g: 120, b: 160, a: 255 },
            },
        ]
    } else {
        seq![]
    }
}

/// The whole frame: background, title, the visible tiles, the banner, present.
pub open spec fn frame_ops(
    len: int,
    columns: int,
    selected: int,
    width: int,
    height: int,
    art: Seq<Option<ArtImage>>,
) -> Seq<DrawOp> {
    seq![
        DrawOp::Clear { color: Color { r: 20, g: 20, b: 30, a: 255 } },
        DrawOp::Text {
            source: TextSource::Title,
            x: LEFT_MARGIN,
            y: 20,
            size_px: 40,
            color: white(),
        },
    ] + tiles_ops(visible_tiles(len, columns, height), columns, selected, art) + banner_ops(
        selected,
        len,
        width,
        height,
    ) + seq![DrawOp::Present]
}

/// Whether a drawing step is a 36-pixel text naming a game: the banner's
/// name line (tile texts are 24 and 20 pixels high).
pub open spec fn names_game_in_banner(op: DrawOp, game: int) -> bool {
    op matches DrawOp::Text { source: TextSource::GameName(g), size_px, .. } && size_px == 36 && g
        == game
}

/// No step of the tiles is a 36-pixel text.
proof fn lemma_tiles_have_no_banner_text(k: int, columns: int, selected: int, art: Seq<Option<ArtImage>>)
    ensures
        forall|i: int, g: int|
            0 <= i < tiles_ops(k, columns, selected, art).len() ==> !#[trigger] names_game_in_banner(
                tiles_ops(k, columns, selected, art)[i],
                g,
            ),
    decreases k,
{
    if k > 0 {
        lemma_tiles_have_no_banner_text(k - 1, columns, selected, art);
        let prev = tiles_ops(k - 1, columns, selected, art);
        let t = tile_ops(
            k - 1,
            tile_x(k - 1, columns),
            tile_y(k - 1, columns),
            k - 1 == selected,
            art_present(art, k - 1),
        );
        assert forall|i: int, g: int| 0 <= i < t.len() implies !#[trigger] names_game_in_banner(
            t[i],
            g,
        ) by {}
        let all = tiles_ops(k, columns, selected, art);
        assert(all == prev + t);
        assert forall|i: int, g: int| 0 <= i < all.len() implies !#[trigger] names_game_in_banner(
            all[i],
            g,
        ) by {
            if i < prev.len() {
                assert(all[i] == prev[i]);
            } else {
                assert(all[i] == t[i - prev.len()]);
            }
        }
    }
}

/// The banner names the selected game: when a game is selected, the frame
/// has exactly one 36-pixel game name, the selected game's, written at the
/// left margin 10 pixels into the banner just before the hint and the
/// present; with no game selected it names none.
pub proof fn lemma_banner_names_selected(
    len: int,
    columns: int,
    selected: int,
    width: int,
    height: int,
    art: Seq<Option<ArtImage>>,
)
    requires
        len <= usize::MAX,
    ensures
        0 <= selected < len ==> ({
            let ops = frame_ops(len, columns, selected, width, height, art);
            let banner_y = if height >= BANNER_HEIGHT {
                height - BANNER_HEIGHT
            } else {
                0
            };
            &&& ops.len() >= 5
            &&& names_game_in_banner(ops[ops.len() - 3], selected)
            &&& ops[ops.len() - 3] matches DrawOp::Text { x, y, .. } && x == LEFT_MARGIN && y == (
            banner_y + 10) as u32
            &&& forall|i: int, g: int|
                0 <= i < ops.len() && #[trigger] names_game_in_banner(ops[i], g) ==> g == selected
                    && i == ops.len() - 3
        }),
        !(0 <= selected < len) ==> forall|i: int, g: int|
            0 <= i < frame_ops(len, columns, selected, width, height, art).len()
                ==> !#[trigger] names_game_in_banner(
                frame_ops(len, columns, selected, width, height, art)[i],
                g,
            ),
{
    let tiles = tiles_ops(visible_tiles(len, columns, height), columns, selected, art);
    lemma_tiles_have_no_banner_text(visible_tiles(len, columns, height), columns, selected, art);
    let head = seq![
        DrawOp::Clear { color: Color { r: 20, g: 20, b: 30, a: 255 } },
        DrawOp::Text {
            source: TextSource::Title,
            x: LEFT_MARGIN,
            y: 20,
            size_px: 40,
            color: white(),
        },
    ];
    let banner = banner_ops(selected, len, width, height);
    let ops = frame_ops(len, columns, selected, width, height, art);
    assert(ops == head + tiles + banner + seq![DrawOp::Present]);
    let n1 = head.len() + tiles.len();
    assert forall|i: int, g: int| 0 <= i < ops.len() && #[trigger] names_game_in_banner(ops[i], g)
        implies n1 <= i < n1 + banner.len() && banner[i - n1] == ops[i] by {
        if i < head.len() {
            assert(ops[i] == head[i]);
        } else if i < n1 {
            assert(ops[i] == tiles[i - head.len()]);
        } else if i < n1 + banner.len() {
            assert(ops[i] == banner[i - n1]);
        } else {
            assert(ops[i] == DrawOp::Present);
        }
    }
    if 0 <= selected < len {
        assert(banner.len() == 3);
        assert(ops[ops.len() - 3] == banner[1]);
        assert forall|j: int, g: int| 0 <= j < 3 && #[trigger] names_game_in_banner(banner[j], g)
            implies j == 1 && g == selected by {}
    } else {
        assert(banner.len() == 0);
    }
}

/// Tile rows start ever lower: a later tile never starts above an earlier one.
proof fn lemma_tile_y_monotone(i: int, j: int, columns: int)
    requires
        0 <= i <= j,
        columns > 0,
    ensures
        tile_y(i, columns) <= tile_y(j, columns),
{
    vstd::arithmetic::div_mod::lemma_div_is_ordered(i, j, columns);
    assert((i / columns) * 360 <= (j / columns) * 360) by (nonlinear_arith)
        requires
            i / columns <= j / columns,
    ;
}

/// Tiles that start below the screen stay hidden: the visible tiles are
/// exactly those that start on it.
proof fn lemma_visible_tiles(n: int, columns: int, height: int)
    requires
        columns > 0,
        n >= 0,
    ensures
        0 <= visible_tiles(n, columns, height) <= n,
        forall|i: int|
            0 <= i < n ==> (i < visible_tiles(n, columns, height) <==> tile_y(i, columns)
                <= height),
    decreases n,
{
    if n > 0 {
        lemma_visible_tiles(n - 1, columns, height);
        if tile_y(n - 1, columns) <= height {
            assert forall|i: int| 0 <= i < n implies tile_y(i, columns) <= height by {
                lemma_tile_y_monotone(i, n - 1, columns);
            }
        }
    }
}

/// The position of tile `i + 1` from that of tile `i`.
proof fn lemma_next_cell(i: int, columns: int)
    requires
        i >= 0,
        columns > 0,
    ensures
        i % columns + 1 < columns ==> (i + 1) % columns == i % columns + 1 && (i + 1) / columns
            == i / columns,
        i % columns + 1 == columns ==> (i + 1) % columns == 0 && (i + 1) / columns == i
            / columns + 1,
{
    vstd::arithmetic::div_mod::lemma_fundamental_div_mod(i, columns);
    assert((i / columns) * columns == columns * (i / columns)) by (nonlinear_arith);
    if i % columns + 1 < columns {
        lemma_fundamental_div_mod_converse(i + 1, columns, i / columns, i % columns + 1);
    } else {
        assert(i + 1 == (i / columns + 1) * columns + 0) by (nonlinear_arith)
            requires
                i == columns * (i / columns) + i % columns,
                i % columns + 1 == columns,
        ;
        lemma_fundamental_div_mod_converse(i + 1, columns, i / columns + 1, 0);
    }
}

impl GridState {
    /// The drawing steps of a frame for a screen of `width x height`
    /// pixels, where `art[i]` holds the box art of game `i`, if any.
    #[verifier::rlimit(50)]
    pub fn render_plan(&self, width: u32, height: u32, art: &Vec<Option<ArtImage>>) -> (ops: Vec<
        DrawOp,
    >)
        requires
            self.columns > 0 || self.games@.len() == 0,
            self.columns * 300 + 60 <= u32::MAX || self.games@.len() * 300 + 60 <= u32::MAX,
            height + ART_HEIGHT + 8 <= u32::MAX,
        ensures
            ops@ == frame_ops(
                self.games@.len() as int,
                self.columns as int,
                self.selected as int,
                width as int,
                height as int,
                art@,
            ),
    {
        let mut ops: Vec<DrawOp> = Vec::new();
        ops.push(DrawOp::Clear { color: Color::dark_bg() });
        ops.push(
            DrawOp::Text {
                source: TextSource::Title,
                x: LEFT_MARGIN,
                y: 20,
                size_px: 40,
                color: Color::white(),
            },
        );
        let n = self.games.len();
        let cols = self.columns;
        let ghost c = cols as int;
        let ghost head = ops@;
        let mut i: usize = 0;
        let mut col: u32 = 0;
        let mut y: u64 = TOP_MARGIN as u64;
        if n > 0 {
            proof {
                lemma_visible_tiles(n as int, c, height as int);
            }
        }
        let ghost m: int = if c <= n { c } else { n as int };
        let ghost vis: int = if n > 0 {
            visible_tiles(n as int, c, height as int)
        } else {
            0
        };
        while i < n
            invariant
                n == self.games@.len(),
                cols == self.columns,
                c == cols,
                n > 0 ==> c > 0,
                m == if c <= n { c } else { n as int },
                m * 300 + 60 <= u32::MAX,
                height + ART_HEIGHT + 8 <= u32::MAX,
                n > 0 ==> vis == visible_tiles(n as int, c, height as int),
                n > 0 ==> forall|j: int|
                    0 <= j < n ==> (j < vis <==> tile_y(j, c) <= height),
                0 <= i <= vis,
                vis <= n,
                i < n ==> col == (i as int) % c && y == tile_y(i as int, c) && col <= i,
                i > 0 ==> tile_y(i - 1, c) <= height,
                ops@ == head + tiles_ops(i as int, c, self.selected as int, art@),
            ensures
                i == vis,
                ops@ == head + tiles_ops(i as int, c, self.selected as int, art@),
            decreases n - i,
        {
            if y > height as u64 {
                proof {
                    assert(tile_y(i as int, c) > height);
                }
                break;
            }
            assert(col < m);
            assert(col * 300 + 60 <= u32::MAX) by (nonlinear_arith)
                requires
                    col < m,
                    m * 300 + 60 <= u32::MAX,
            ;
            let x = LEFT_MARGIN + col * (TILE_WIDTH + TILE_PAD);
            let yy = y as u32;
            let ghost before = ops@;
            let is_selected = i == self.selected;
            if is_selected {
                ops.push(
                    DrawOp::Frame {
                        x: x - HIGHLIGHT_BORDER,
                        y: yy - HIGHLIGHT_BORDER,
                        w: TILE_WIDTH + HIGHLIGHT_BORDER * 2,
                        h: TILE_HEIGHT + HIGHLIGHT_BORDER * 2,
                        thickness: HIGHLIGHT_BORDER,
                        color: Color::highlight(),
                    },
                );
            }
            let has_art = i < art.len() && art[i].is_some();
            if has_art {
                ops.push(DrawOp::Art { game: i, x, y: yy });
            } else {
                ops.push(
                    DrawOp::Fill {
                        x,
                        y: yy,
                        w: TILE_WIDTH,
                        h: ART_HEIGHT,
                        color: Color { r: 40, g: 40, b: 60, a: 255 },
                    },
                );
                ops.push(
                    DrawOp::Text {
                        source: TextSource::GameName(i),
                        x: x + 10,
                        y: yy + ART_HEIGHT / 2 - 10,
                        size_px: 24,
                        color: Color::white(),
                    },
                );
            }
            if !is_selected {
                ops.push(DrawOp::Dim { x, y: yy, w: TILE_WIDTH, h: TILE_HEIGHT, amount: 80 });
            }
            let label_color = if is_selected {
                Color::white()
            } else {
                Color { r: 150, g: 150, b: 150, a: 255 }
            };
            ops.push(
                DrawOp::Text {
                    source: TextSource::GameName(i),
                    x,
                    y: yy + ART_HEIGHT + 8,
                    size_px: 20,
                    color: label_color,
                },
            );
            proof {
                assert(ops@ =~= before + tile_ops(
                    i as int,
                    tile_x(i as int, c),
                    tile_y(i as int, c),
                    i == self.selected,
                    art_present(art@, i as int),
                ));
                assert(ops@ =~= head + tiles_ops(i + 1, c, self.selected as int, art@));
                lemma_next_cell(i as int, c);
            }
            if col + 1 == cols {
                col = 0;
                y = y + (TILE_HEIGHT + TILE_PAD) as u64;
            } else {
                col = col + 1;
            }
            i += 1;
            proof {
                if i < n {
                    assert(tile_y(i as int, c) == tile_y(i - 1, c) || tile_y(i as int, c)
                        == tile_y(i - 1, c) + 360);
                }
            }
        }
        if self.selected < n {
            let banner_y = height.saturating_sub(BANNER_HEIGHT);
            ops.push(
                DrawOp::Fill {
                    x: 0,
                    y: banner_y,
                    w: width,
                    h: BANNER_HEIGHT,
                    color: Color { r: 10, g: 10, b: 20, a: 255 },
                },
            );
            ops.push(
                DrawOp::Text {
                    source: TextSource::GameName(self.selected),
                    x: LEFT_MARGIN,
                    y: banner_y + 10,
                    size_px: 36,
                    color: Color::white(),
                },
            );
            ops.push(
                DrawOp::Text {
                    source: TextSource::PlayHint,
                    x: LEFT_MARGIN,
                    y: banner_y + 50,
                    size_px: 20,
                    color: Color { r: 120, g: 120, b: 160, a: 255 },
                },
            );
        }
        ops.push(DrawOp::Present);
        proof {
            assert(ops@ =~= frame_ops(
                n as int,
                c,
                self.selected as int,
                width as int,
                height as int,
                art@,
            ));
        }
        ops
    }
}

impl GridState {
    /// The text a drawing step writes: the title, a game's name (if that
    /// game exists), or the hint under the selected game.
    pub fn text_of(&self, source: TextSource) -> (t: Option<&str>)
        ensures
            match source {
                TextSource::Title => t matches Some(s) && s@ == self.title@,
                TextSource::GameName(i) => if i < self.games@.len() {
                    t matches Some(s) && s@ == self.games@[i as int].name@
                } else {
                    t is None
                },
                TextSource::PlayHint => t matches Some(s) && s@ == "Press button to play"@,
            },
    {
        match source {
            TextSource::Title => Some(self.title.as_str()),
            TextSource::GameName(i) => {
                if i < self.games.len() {
                    Some(self.games[i].name.as_str())
                } else {
                    None
                }
            },
            TextSource::PlayHint => Some("Press button to play"),
        }
    }
}


/// The identity rewrite: leaves every byte as it is.
pub open spec fn keep_all() -> spec_fn(int, int, int, u8) -> u8 {
    |px: int, py: int, k: int, b: u8| b
}

/// Whether art of `w x h` pixels drawn at `(x, y)` keeps every offset and
/// coordinate of the blit in range.
pub open spec fn art_fits(w: int, h: int, x: int, y: int) -> bool {
    4 * w * h <= 0x1_0000_0000 && x + w <= u32::MAX + 1 && y + h <= u32::MAX + 1
}

/// Whether a border drawn with these arguments keeps its arithmetic in range.
pub open spec fn frame_fits(x: int, y: int, w: int, h: int, t: int) -> bool {
    x + w <= u32::MAX && y + h <= u32::MAX && t <= x + w && t <= y + h
}

/// How a drawing step rewrites a framebuffer of `width x height` pixels.
/// Text and presenting do not touch the buffer here; a step whose
/// arithmetic would leave range changes nothing.
pub open spec fn op_rewrite(op: DrawOp, art: Seq<Option<ArtImage>>, width: int, height: int) -> spec_fn(
    int,
    int,
    int,
    u8,
) -> u8 {
    match op {
        DrawOp::Clear { color } => paint_rect(0, 0, width, height, color),
        DrawOp::Fill { x, y, w, h, color } => paint_rect(x as int, y as int, w as int, h as int, color),
        DrawOp::Dim { x, y, w, h, amount } => dim_region(
            x as int,
            y as int,
            w as int,
            h as int,
            255 - amount,
        ),
        DrawOp::Frame { x, y, w, h, thickness, color } => if frame_fits(
            x as int,
            y as int,
            w as int,
            h as int,
            thickness as int,
        ) {
            paint_frame(x as int, y as int, w as int, h as int, thickness as int, color)
        } else {
            keep_all()
        },
        DrawOp::Art { game, x, y } => if art_present(art, game as int) && art_fits(
            art[game as int]->0.width as int,
            art[game as int]->0.height as int,
            x as int,
            y as int,
        ) {
            paint_image(
                x as int,
                y as int,
                art[game as int]->0.width as int,
                art[game as int]->0.height as int,
                art[game as int]->0.rgba@,
            )
        } else {
            keep_all()
        },
        _ => keep_all(),
    }
}

/// Carry out a drawing step on the framebuffer (text and presenting are
/// left to the caller).
pub fn draw(fb: &mut Framebuffer, op: &DrawOp, art: &Vec<Option<ArtImage>>)
    requires
        old(fb).wf(),
    ensures
        final(fb).wf(),
        final(fb).same_geometry(old(fb)),
        final(fb).bytes() == old(fb).remapped(
            old(fb).bytes(),
            op_rewrite(*op, art@, old(fb).spec_width(), old(fb).spec_height()),
        ),
{
    let ghost b0 = fb.bytes();
    proof {
        crate::framebuf::lemma_remap_ext(
            b0,
            fb.spec_stride(),
            fb.spec_width(),
            fb.spec_height(),
            keep_all(),
            |px: int, py: int, k: int, b: u8| b,
        );
        assert(b0 =~= fb.remapped(b0, keep_all()));
    }
    match *op {
        DrawOp::Clear { color } => {
            fb.clear(color);
        },
        DrawOp::Fill { x, y, w, h, color } => {
            fb.fill_rect(x, y, w, h, color);
        },
        DrawOp::Dim { x, y, w, h, amount } => {
            fb.dim_rect(x, y, w, h, amount);
        },
        DrawOp::Frame { x, y, w, h, thickness, color } => {
            if (x as u64) + (w as u64) <= u32::MAX as u64 && (y as u64) + (h as u64)
                <= u32::MAX as u64 && (thickness as u64) <= (x as u64) + (w as u64) && (
            thickness as u64) <= (y as u64) + (h as u64) {
                fb.draw_rect(x, y, w, h, thickness, color);
            }
        },
        DrawOp::Art { game, x, y } => {
            if game < art.len() {
                match &art[game] {
                    Some(img) => {
                        let w = img.width as u64;
                        let h = img.height as u64;
                        assert(w * h <= 0xffff_ffff_ffff_ffff) by (nonlinear_arith)
                            requires
                                w <= 0xffff_ffff,
                                h <= 0xffff_ffff,
                        ;
                        assert((w * h <= 0x4000_0000) == (4 * w * h <= 0x1_0000_0000)) by (nonlinear_arith);
                        if w * h <= 0x4000_0000 && (x as u64) + w <= 0x1_0000_0000 && (y as u64)
                            + h <= 0x1_0000_0000 {
                            assert(4 * img.width * img.height <= 0x1_0000_0000) by (nonlinear_arith)
                                requires
                                    w * h <= 0x4000_0000,
                                    w == img.width,
                                    h == img.height,
                            ;
                            assert forall|ix: int, iy: int|
                                0 <= ix < img.width && 0 <= iy < img.height
                                    && #[trigger] crate::framebuf::rgba_drawn(
                                    img.rgba@,
                                    img.width as int,
                                    ix,
                                    iy,
                                ) implies x + ix <= u32::MAX && y + iy <= u32::MAX by {}
                            fb.blit_rgba(x, y, img.width, img.height, img.rgba.as_slice());
                        }
                    },
                    None => {},
                }
            }
        },
        _ => {},
    }
}

/// The selection after an action: the four directions move it, every
/// other action leaves it.
pub open spec fn moved_by(action: Action, selected: int, columns: int, len: int) -> int {
    match action {
        Action::Up => moved_up(selected, columns),
        Action::Down => moved_down(selected, columns, len),
        Action::Left => moved_left(selected),
        Action::Right => moved_right(selected, len),
        _ => selected,
    }
}

/// Each direction moves the selection by one step in its own direction on
/// the grid: Up and Down go one row up or down and keep the column, Left
/// and Right go to the previous or next game; a move that would leave the
/// games keeps the selection, and the other actions never move it.
pub proof fn lemma_moves_go_their_way(selected: int, columns: int, len: int)
    requires
        0 <= selected,
        0 < columns,
    ensures
        selected >= columns ==> ({
            let m = moved_by(Action::Up, selected, columns, len);
            m % columns == selected % columns && m / columns == selected / columns - 1
        }),
        selected < columns ==> moved_by(Action::Up, selected, columns, len) == selected,
        selected + columns < len ==> ({
            let m = moved_by(Action::Down, selected, columns, len);
            m % columns == selected % columns && m / columns == selected / columns + 1 && m < len
        }),
        selected + columns >= len ==> moved_by(Action::Down, selected, columns, len) == selected,
        selected > 0 ==> moved_by(Action::Left, selected, columns, len) + 1 == selected,
        selected == 0 ==> moved_by(Action::Left, selected, columns, len) == selected,
        selected + 1 < len ==> moved_by(Action::Right, selected, columns, len) == selected + 1,
        selected + 1 >= len ==> moved_by(Action::Right, selected, columns, len) == selected,
        moved_by(Action::Confirm, selected, columns, len) == selected,
        moved_by(Action::Back, selected, columns, len) == selected,
        moved_by(Action::Escape, selected, columns, len) == selected,
{
    let q = selected / columns;
    let r = selected % columns;
    vstd::arithmetic::div_mod::lemma_fundamental_div_mod(selected, columns);
    if selected >= columns {
        assert(selected - columns == columns * (q - 1) + r) by (nonlinear_arith)
            requires
                selected == columns * q + r,
        ;
        lemma_fundamental_div_mod_converse(selected - columns, columns, q - 1, r);
    }
    assert(selected + columns == columns * (q + 1) + r) by (nonlinear_arith)
        requires
            selected == columns * q + r,
    ;
    lemma_fundamental_div_mod_converse(selected + columns, columns, q + 1, r);
}

/// Whether an action is one of the four directions.
pub open spec fn is_direction(action: Action) -> bool {
    action == Action::Up || action == Action::Down || action == Action::Left || action
        == Action::Right
}

/// What a button press leads to: Escape leaves, Confirm launches the
/// selected game (if any), a direction moves and redraws, Back does nothing.
pub open spec fn button_step(action: Action, selected: int, len: int) -> LauncherStep {
    match action {
        Action::Escape => LauncherStep::Exit,
        Action::Confirm => if 0 <= selected < len {
            LauncherStep::Launch
        } else {
            LauncherStep::Stay
        },
        Action::Back => LauncherStep::Stay,
        _ => LauncherStep::Redraw,
    }
}

impl GridState {
    /// Move the selection in the direction of `action`, if it is one.
    fn move_by(&mut self, action: Action)
        requires
            action == Action::Down ==> old(self).selected + old(self).columns <= usize::MAX,
            action == Action::Right ==> old(self).selected < usize::MAX,
        ensures
            final(self).selected == moved_by(
                action,
                old(self).selected as int,
                old(self).columns as int,
                old(self).games@.len() as int,
            ),
            final(self).games == old(self).games,
            final(self).columns == old(self).columns,
            final(self).scroll_offset == old(self).scroll_offset,
            final(self).recently_played == old(self).recently_played,
            final(self).title == old(self).title,
    {
        match action {
            Action::Up => self.move_up(),
            Action::Down => self.move_down(),
            Action::Left => self.move_left(),
            Action::Right => self.move_right(),
            _ => {},
        }
    }

    /// React to a button press.
    pub fn on_button(&mut self, action: Action) -> (step: LauncherStep)
        requires
            action == Action::Down ==> old(self).selected + old(self).columns <= usize::MAX,
            action == Action::Right ==> old(self).selected < usize::MAX,
        ensures
            step == button_step(action, old(self).selected as int, old(self).games@.len() as int),
            final(self).selected == moved_by(
                action,
                old(self).selected as int,
                old(self).columns as int,
                old(self).games@.len() as int,
            ),
            final(self).games == old(self).games,
            final(self).columns == old(self).columns,
    {
        match action {
            Action::Escape => LauncherStep::Exit,
            Action::Confirm => {
                if self.selected < self.games.len() {
                    LauncherStep::Launch
                } else {
                    LauncherStep::Stay
                }
            },
            Action::Back => LauncherStep::Stay,
            _ => {
                self.move_by(action);
                LauncherStep::Redraw
            },
        }
    }

    /// React to a stick movement or a repeat: only the four directions count.
    pub fn on_direction(&mut self, action: Action) -> (step: LauncherStep)
        requires
            action == Action::Down ==> old(self).selected + old(self).columns <= usize::MAX,
            action == Action::Right ==> old(self).selected < usize::MAX,
        ensures
            step == if is_direction(action) {
                LauncherStep::Redraw
            } else {
                LauncherStep::Stay
            },
            final(self).selected == moved_by(
                action,
                old(self).selected as int,
                old(self).columns as int,
                old(self).games@.len() as int,
            ),
            final(self).games == old(self).games,
            final(self).columns == old(self).columns,
    {
        match action {
            Action::Up | Action::Down | Action::Left | Action::Right => {
                self.move_by(action);
                LauncherStep::Redraw
            },
            _ => LauncherStep::Stay,
        }
    }
}

/// The command that makes the MiSTer main binary load a game.
pub open spec fn load_core_command_of(launch: Seq<char>) -> Seq<char> {
    "load_core "@ + launch + "\n"@
}

/// The command that makes the MiSTer main binary load `game`.
pub fn load_core_command(game: &GameEntry) -> (cmd: String)
    ensures
        cmd@ == load_core_command_of(game.launch@),
{
    concat3("load_core ", game.launch.as_str(), "\n")
}

} // verus!
