use grandma_launcher::config::{GameEntry, State};
use grandma_launcher::framebuf::{Color, Framebuffer};
use grandma_launcher::grid::{
    art_by_id, art_from_file, decode_tile_art, draw, load_core_command, ArtImage, DrawOp, GridState, LauncherStep, TextSource,
};
use grandma_launcher::input::Action;

fn test_games() -> Vec<GameEntry> {
    vec![
        GameEntry { id: "galaga".into(), name: "Galaga".into(), system: "arcade".into(), launch: "a.mra".into(), art: "a.png".into() },
        GameEntry { id: "mspacman".into(), name: "Ms. Pac-Man".into(), system: "arcade".into(), launch: "b.mra".into(), art: "b.png".into() },
        GameEntry { id: "dkong".into(), name: "Donkey Kong".into(), system: "arcade".into(), launch: "c.mra".into(), art: "c.png".into() },
    ]
}

#[test]
fn test_navigation_right() {
    let state_cfg = State::default();
    let mut grid = GridState::new(test_games(), &state_cfg, 3, "TEST".into());
    assert_eq!(grid.selected, 0);
    grid.move_right();
    assert_eq!(grid.selected, 1);
}

#[test]
fn test_navigation_bounds() {
    let state_cfg = State::default();
    let mut grid = GridState::new(test_games(), &state_cfg, 3, "TEST".into());
    grid.move_left();
    assert_eq!(grid.selected, 0);
    grid.selected = 2;
    grid.move_right();
    assert_eq!(grid.selected, 2);
}

#[test]
fn test_selected_game() {
    let state_cfg = State::default();
    let grid = GridState::new(test_games(), &state_cfg, 3, "TEST".into());
    assert_eq!(grid.selected_game().unwrap().id, "galaga");
}

fn seven_games() -> Vec<GameEntry> {
    (0..7)
        .map(|i| GameEntry {
            id: format!("g{}", i),
            name: format!("Game {}", i),
            system: "arcade".into(),
            launch: format!("/x/{}.mra", i),
            art: String::new(),
        })
        .collect()
}

#[test]
fn new_copies_state_and_settings() {
    let mut st = State::default();
    st.record_play("dkong");
    let grid = GridState::new(test_games(), &st, 4, "Hi".into());
    assert_eq!(grid.recently_played, vec!["dkong"]);
    assert_eq!(grid.columns, 4);
    assert_eq!(grid.title, "Hi");
    assert_eq!(grid.scroll_offset, 0);
    assert_eq!(grid.games.len(), 3);
}

#[test]
fn vertical_moves_undo_each_other() {
    let mut grid = GridState::new(seven_games(), &State::default(), 3, "T".into());
    grid.selected = 1;
    grid.move_down();
    assert_eq!(grid.selected, 4);
    grid.move_down();
    assert_eq!(grid.selected, 4); // 7 is past the last game
    grid.move_up();
    assert_eq!(grid.selected, 1);
    grid.move_up();
    assert_eq!(grid.selected, 1);
    grid.selected = 6;
    grid.move_right();
    assert_eq!(grid.selected, 6);
    grid.move_left();
    grid.move_right();
    assert_eq!(grid.selected, 6);
    grid.selected = 9;
    assert!(grid.selected_game().is_none());
}

#[test]
fn buttons_and_directions() {
    let mut grid = GridState::new(test_games(), &State::default(), 3, "T".into());
    assert_eq!(grid.on_button(Action::Escape), LauncherStep::Exit);
    assert_eq!(grid.on_button(Action::Confirm), LauncherStep::Launch);
    assert_eq!(grid.on_button(Action::Back), LauncherStep::Stay);
    assert_eq!(grid.on_button(Action::Right), LauncherStep::Redraw);
    assert_eq!(grid.selected, 1);
    assert_eq!(grid.on_direction(Action::Confirm), LauncherStep::Stay);
    assert_eq!(grid.on_direction(Action::Left), LauncherStep::Redraw);
    assert_eq!(grid.selected, 0);
    let mut empty = GridState::new(vec![], &State::default(), 3, "T".into());
    assert_eq!(empty.on_button(Action::Confirm), LauncherStep::Stay);
}

#[test]
fn load_core_command_text() {
    let g = &test_games()[2];
    assert_eq!(load_core_command(g), "load_core c.mra\n");
}

#[test]
fn render_plan_lays_out_tiles() {
    let mut grid = GridState::new(seven_games(), &State::default(), 3, "T".into());
    grid.selected = 4;
    let art: Vec<Option<ArtImage>> = vec![None, Some(ArtImage { width: 1, height: 1, rgba: vec![1, 2, 3, 4] })];
    // Rows start at 80, 440, 800; a screen 700 high shows the first two rows.
    let ops = grid.render_plan(1920, 700, &art);
    assert_eq!(ops[0], DrawOp::Clear { color: Color { r: 20, g: 20, b: 30, a: 255 } });
    assert_eq!(ops[1], DrawOp::Text { source: TextSource::Title, x: 60, y: 20, size_px: 40, color: Color::white() });
    assert_eq!(*ops.last().unwrap(), DrawOp::Present);
    let arts: Vec<_> = ops.iter().filter(|o| matches!(o, DrawOp::Art { .. })).collect();
    assert_eq!(arts, vec![&DrawOp::Art { game: 1, x: 360, y: 80 }]);
    let frames: Vec<_> = ops.iter().filter(|o| matches!(o, DrawOp::Frame { .. })).collect();
    assert_eq!(
        frames,
        vec![&DrawOp::Frame { x: 356, y: 436, w: 288, h: 348, thickness: 4, color: Color::highlight() }]
    );
    let dims = ops.iter().filter(|o| matches!(o, DrawOp::Dim { .. })).count();
    assert_eq!(dims, 5); // six visible tiles, one selected
    assert!(ops.contains(&DrawOp::Fill { x: 0, y: 620, w: 1920, h: 80, color: Color { r: 10, g: 10, b: 20, a: 255 } }));
    assert!(ops.contains(&DrawOp::Text { source: TextSource::PlayHint, x: 60, y: 670, size_px: 20, color: Color { r: 120, g: 120, b: 160, a: 255 } }));
    assert!(!ops.iter().any(|o| matches!(o, DrawOp::Text { source: TextSource::GameName(6), .. })));
}

#[test]
fn render_plan_without_selection_has_no_banner() {
    let mut grid = GridState::new(vec![], &State::default(), 3, "T".into());
    grid.selected = 0;
    let ops = grid.render_plan(100, 100, &vec![]);
    assert_eq!(ops.len(), 3);
}

#[test]
fn draw_executes_steps() {
    let mut fb = Framebuffer::mock(4, 4);
    let art = vec![Some(ArtImage { width: 1, height: 1, rgba: vec![9, 8, 7, 6] })];
    draw(&mut fb, &DrawOp::Clear { color: Color { r: 1, g: 1, b: 1, a: 1 } }, &art);
    draw(&mut fb, &DrawOp::Art { game: 0, x: 3, y: 3 }, &art);
    draw(&mut fb, &DrawOp::Art { game: 5, x: 0, y: 0 }, &art);
    draw(&mut fb, &DrawOp::Text { source: TextSource::Title, x: 0, y: 0, size_px: 9, color: Color::white() }, &art);
    let o = (3 * 4 + 3) * 4;
    assert_eq!(&fb.buffer[o..o + 4], &[7, 8, 9, 6]);
    assert_eq!(&fb.buffer[0..4], &[1, 1, 1, 1]);
    draw(&mut fb, &DrawOp::Frame { x: 0, y: 0, w: 4, h: 4, thickness: 9, color: Color::white() }, &art);
    assert_eq!(&fb.buffer[0..4], &[1, 1, 1, 1]);
    draw(&mut fb, &DrawOp::Frame { x: 0, y: 0, w: 4, h: 4, thickness: 1, color: Color::white() }, &art);
    assert_eq!(&fb.buffer[0..4], &[255, 255, 255, 255]);
}

#[test]
fn text_of_names_what_a_step_writes() {
    let grid = GridState::new(test_games(), &State::default(), 3, "GAME TIME!".into());
    assert_eq!(grid.text_of(TextSource::Title), Some("GAME TIME!"));
    assert_eq!(grid.text_of(TextSource::GameName(1)), Some("Ms. Pac-Man"));
    assert_eq!(grid.text_of(TextSource::GameName(3)), None);
    assert_eq!(grid.text_of(TextSource::PlayHint), Some("Press button to play"));
}

#[test]
fn render_plan_with_many_columns_and_few_games() {
    // More columns than games: every game sits in the first row.
    let grid = GridState::new(test_games(), &State::default(), 100_000_000, "T".into());
    let ops = grid.render_plan(1920, 1080, &vec![]);
    let labels: Vec<_> = ops
        .iter()
        .filter(|o| matches!(o, DrawOp::Text { size_px: 20, source: TextSource::GameName(_), .. }))
        .collect();
    assert_eq!(labels.len(), 3);
    assert!(ops.contains(&DrawOp::Fill { x: 660, y: 80, w: 280, h: 280, color: Color { r: 40, g: 40, b: 60, a: 255 } }));
}

fn png_bytes(width: u32, height: u32) -> Vec<u8> {
    let img = image::RgbaImage::from_pixel(width, height, image::Rgba([10, 20, 30, 255]));
    let mut bytes = Vec::new();
    image::DynamicImage::ImageRgba8(img)
        .write_to(&mut std::io::Cursor::new(&mut bytes), image::ImageFormat::Png)
        .unwrap();
    bytes
}

#[test]
fn tile_art_scales_to_fit_the_tile() {
    let art = decode_tile_art(&png_bytes(560, 280), Some("png")).unwrap();
    assert_eq!((art.width, art.height), (280, 140));
    assert_eq!(art.rgba.len(), 280 * 140 * 4);
    assert_eq!(&art.rgba[0..4], &[10, 20, 30, 255]);
    let art = decode_tile_art(&png_bytes(28, 56), Some("PNG")).unwrap();
    assert_eq!((art.width, art.height), (140, 280));
    assert_eq!(art.rgba.len(), 140 * 280 * 4);
}

#[test]
fn undecodable_art_gives_none() {
    assert!(decode_tile_art(&png_bytes(4, 4), None).is_none());
    assert!(decode_tile_art(&png_bytes(4, 4), Some("bmp")).is_none());
    assert!(decode_tile_art(b"not a png", Some("png")).is_none());
    assert!(art_from_file("/a/b/pac.png", &png_bytes(3, 3)).is_some());
    assert!(art_from_file("/a/b/pac", &png_bytes(3, 3)).is_none());
}

#[test]
fn art_is_shared_by_id() {
    let mut games = test_games();
    games[2].id = "galaga".into();
    let one = |v: u8| Some(ArtImage { width: 1, height: 1, rgba: vec![v, v, v, 255] });
    // Game 0 and game 2 share an ID; game 2's art loaded last.
    let shown = art_by_id(&games, &vec![one(1), one(2), one(3)]);
    assert_eq!(shown[0].as_ref().unwrap().rgba[0], 3);
    assert_eq!(shown[1].as_ref().unwrap().rgba[0], 2);
    assert_eq!(shown[2].as_ref().unwrap().rgba[0], 3);
    // If the later one failed, both show the earlier one.
    let shown = art_by_id(&games, &vec![one(1), None, None]);
    assert_eq!(shown[2].as_ref().unwrap().rgba[0], 1);
    assert!(shown[1].is_none());
}

#[test]
fn sixteen_bit_art_is_scaled_before_conversion() {
    // A 16-bit gradient: scaling in 16 bits and converting afterwards can
    // round differently from converting first.
    let img = image::ImageBuffer::from_fn(97, 61, |x, y| {
        image::Rgb([(x * 677 + y * 13) as u16, (y * 1021) as u16, ((x * y) % 65536) as u16])
    });
    let mut bytes = Vec::new();
    image::DynamicImage::ImageRgb16(img)
        .write_to(&mut std::io::Cursor::new(&mut bytes), image::ImageFormat::Png)
        .unwrap();
    let expected = image::load_from_memory_with_format(&bytes, image::ImageFormat::Png)
        .unwrap()
        .resize(280, 280, image::imageops::FilterType::Triangle)
        .to_rgba8();
    let art = decode_tile_art(&bytes, Some("png")).unwrap();
    assert_eq!((art.width, art.height), (expected.width(), expected.height()));
    assert_eq!(art.rgba, expected.into_raw());
}
