use p2dux::gfx::{SpriteTile, UiCmd, draw_tiles, tile_cmd};
use p2dux::ui::{
    TableFont, TileSetBox, UiFont, compute_len, compute_text_box_bounds, draw_box, draw_line,
    draw_text_box,
};

fn tile(w: u32, h: u32) -> SpriteTile {
    SpriteTile { sheet: "ui".to_string(), coords: (0, 0), size: (w, h) }
}

/// 'A' is 6 pixels wide, 'B' is 7, the space glyph is 6 by 8.
fn layout_font() -> TableFont {
    let glyphs = vec![
        (' ', tile(6, 8)),
        ('A', tile(6, 8)),
        ('B', tile(7, 8)),
    ];
    TableFont { sheet: "font".to_string(), glyphs }
}

fn unit4_box() -> TileSetBox {
    TileSetBox {
        sheet: "ui".to_string(),
        unit: 4,
        ul: tile(4, 4),
        ur: tile(4, 4),
        ll: tile(4, 4),
        lr: tile(4, 4),
        top: tile(4, 4),
        bottom: tile(4, 4),
        left: tile(4, 4),
        right: tile(4, 4),
    }
}

#[test]
fn compute_len_sums_glyphs_and_gaps() {
    let font = layout_font();
    assert_eq!(compute_len(&font, "AB", 2), 17);
    assert_eq!(compute_len(&font, "A", 2), 8);
    assert_eq!(compute_len(&font, "", 2), 0);
}

#[test]
fn exact_multiple_width_gets_no_padding_unit() {
    let font = layout_font();
    // "A" with gap 2 is 8 pixels: exactly 2 units of 4, so 2 + 2 border.
    let bounds = compute_text_box_bounds(&vec!["A".to_string()], &font, &unit4_box(), 2);
    assert_eq!(bounds.0, 4);
}

#[test]
fn one_pixel_over_costs_one_more_unit() {
    let font = layout_font();
    // "B" with gap 2 is 9 pixels: 2 units of 4 plus one spilled pixel,
    // so 2 + 1 padding + 2 border.
    let bounds = compute_text_box_bounds(&vec!["B".to_string()], &font, &unit4_box(), 2);
    assert_eq!(bounds.0, 5);
}

#[test]
fn box_height_follows_line_count() {
    let font = layout_font();
    // one line of height 8: 2 units, plus the border.
    let one = compute_text_box_bounds(&vec!["A".to_string()], &font, &unit4_box(), 2);
    assert_eq!(one.1, 4);
    // two lines: 8 + 8 + a quarter-height gap of 2 = 18 pixels,
    // 4 units and 2 spilled pixels, so 4 + 1 + 2 border.
    let two = compute_text_box_bounds(
        &vec!["A".to_string(), "A".to_string()],
        &font,
        &unit4_box(),
        2,
    );
    assert_eq!(two.1, 7);
}

#[test]
fn growing_a_line_never_shrinks_the_width() {
    let font = layout_font();
    let short = compute_text_box_bounds(&vec!["A".to_string()], &font, &unit4_box(), 2);
    let long = compute_text_box_bounds(&vec!["AA".to_string()], &font, &unit4_box(), 2);
    assert!(long.0 >= short.0);
}

#[test]
fn adding_a_line_never_shrinks_the_height() {
    let font = layout_font();
    let one = compute_text_box_bounds(&vec!["A".to_string()], &font, &unit4_box(), 2);
    let two = compute_text_box_bounds(
        &vec!["A".to_string(), "B".to_string()],
        &font,
        &unit4_box(),
        2,
    );
    assert!(two.1 >= one.1);
    assert!(two.0 >= one.0);
}

#[test]
fn draw_box_emits_background_corners_and_edges() {
    let bx = unit4_box();
    let cmds = draw_box(&bx, (10, 20), (3, 2), (1, 2, 3));
    let t = |dst: (i64, i64)| tile_cmd(&tile(4, 4), dst);
    assert_eq!(
        cmds,
        vec![
            UiCmd::SetDrawColor { rgb: (1, 2, 3) },
            UiCmd::FillRect { origin: (10, 20), size: (12, 8) },
            t((10, 20)),
            t((18, 20)),
            t((10, 24)),
            t((18, 24)),
            t((14, 20)),
            t((14, 24)),
        ]
    );
}

#[test]
fn draw_box_one_unit_box_has_only_corners() {
    let bx = unit4_box();
    let cmds = draw_box(&bx, (0, 0), (1, 1), (0, 0, 0));
    // background, no edges, and all four corners on the same cell.
    assert_eq!(cmds.len(), 6);
    assert_eq!(cmds[1], UiCmd::FillRect { origin: (0, 0), size: (4, 4) });
    let t = |dst: (i64, i64)| tile_cmd(&tile(4, 4), dst);
    assert_eq!(cmds[2], t((0, 0)));
    assert_eq!(cmds[5], t((0, 0)));
}

#[test]
fn draw_box_scales_border_tiles_to_one_unit() {
    // the border sprites are 8 by 8 pixels, but a box with unit 4
    // draws every corner and edge tile scaled to 4 by 4.
    let bx = TileSetBox {
        sheet: "ui".to_string(),
        unit: 4,
        ul: tile(8, 8),
        ur: tile(8, 8),
        ll: tile(8, 8),
        lr: tile(8, 8),
        top: tile(8, 8),
        bottom: tile(8, 8),
        left: tile(8, 8),
        right: tile(8, 8),
    };
    let cmds = draw_box(&bx, (0, 0), (3, 2), (0, 0, 0));
    for cmd in cmds.iter().skip(2) {
        match cmd {
            UiCmd::Tile { src_size, dst_size, .. } => {
                assert_eq!(*src_size, (8, 8));
                assert_eq!(*dst_size, (4, 4));
            }
            other => panic!("expected only tiles after the background: {:?}", other),
        }
    }
}

#[test]
fn draw_line_advances_by_glyph_width_plus_gap() {
    let font = layout_font();
    let cmds = draw_line(&font, (100, 50), "AB", 2);
    assert_eq!(
        cmds,
        vec![
            tile_cmd(&tile(6, 8), (100, 50)),
            tile_cmd(&tile(7, 8), (108, 50)),
        ]
    );
}

#[test]
fn draw_text_box_inset_lines_one_unit() {
    let font = layout_font();
    let bx = unit4_box();
    let cmds = draw_text_box((0, 0), (3, 3), (9, 9, 9), &vec!["A".to_string()], &font, &bx, 2);
    // the panel: colour, fill, 4 corners, one top/bottom pair, one
    // left/right pair; then the single glyph of the single line.
    assert_eq!(cmds.len(), 11);
    assert_eq!(cmds[0], UiCmd::SetDrawColor { rgb: (9, 9, 9) });
    assert_eq!(cmds[1], UiCmd::FillRect { origin: (0, 0), size: (12, 12) });
    assert_eq!(cmds[10], tile_cmd(&tile(6, 8), (4, 4)));
}

#[test]
fn draw_tiles_offsets_by_each_tiles_own_size() {
    let sprites = vec![tile(4, 4), tile(8, 8)];
    let cmds = draw_tiles(&sprites, (10, 10), (2, 3));
    assert_eq!(
        cmds,
        vec![
            tile_cmd(&tile(4, 4), (18, 22)),
            tile_cmd(&tile(8, 8), (26, 34)),
        ]
    );
}

#[test]
fn sprite_tile_duplicate_copies_everything() {
    let t = tile(5, 7);
    let d = t.duplicate();
    assert_eq!(t, d);
}

#[test]
fn table_font_finds_only_listed_glyphs() {
    let font = layout_font();
    assert!(font.sprite_for('A').is_some());
    assert_eq!(font.sprite_for('A').unwrap().size, (6, 8));
    assert!(font.sprite_for('Z').is_none());
}

#[test]
fn table_font_first_entry_for_a_character_wins() {
    let font = TableFont {
        sheet: "font".to_string(),
        glyphs: vec![('A', tile(6, 8)), ('A', tile(9, 9))],
    };
    assert_eq!(font.sprite_for('A').unwrap().size, (6, 8));
}
