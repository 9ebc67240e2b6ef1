use p2dux::gfx::SpriteTile;
use p2dux::ui::menu::VertTextMenu;
use p2dux::ui::{TableFont, TileSetBox};

fn tile(w: u32, h: u32) -> SpriteTile {
    SpriteTile { sheet: "ui".to_string(), coords: (0, 0), size: (w, h) }
}

fn menu_font() -> TableFont {
    let mut glyphs: Vec<(char, SpriteTile)> = Vec::new();
    for c in [' ', '>', 'A', 'B', 'C'] {
        glyphs.push((c, tile(6, 8)));
    }
    TableFont { sheet: "font".to_string(), glyphs }
}

fn menu_box() -> TileSetBox {
    TileSetBox {
        sheet: "ui".to_string(),
        unit: 4,
        ul: tile(4, 4),
        ur: tile(4, 4),
        ll: tile(4, 4),
        lr: tile(4, 4),
        top: tile(4, 4),
        bottom: tile(4, 4),
        left: tile(4, 4),
        right: tile(4, 4),
    }
}

fn abc_menu() -> VertTextMenu {
    let mut menu = VertTextMenu::new();
    menu.entries = vec!["A".to_string(), "B".to_string(), "C".to_string()];
    menu.selected_prefix = ">".to_string();
    menu.unselected_prefix = " ".to_string();
    menu.update_bounds((0, 0), &menu_font(), &menu_box());
    menu
}

#[test]
fn menu_formats_selection_prefixes() {
    let mut menu = abc_menu();
    assert_eq!(menu.curr_selected, 0);
    assert_eq!(
        menu.formatted_entries,
        vec!["> A".to_string(), "  B".to_string(), "  C".to_string()]
    );
    menu.move_down();
    assert_eq!(menu.curr_selected, 1);
    assert_eq!(
        menu.formatted_entries,
        vec!["  A".to_string(), "> B".to_string(), "  C".to_string()]
    );
}

#[test]
fn menu_moves_clamp_at_the_ends() {
    let mut menu = abc_menu();
    menu.move_up();
    assert_eq!(menu.curr_selected, 0);
    assert_eq!(
        menu.formatted_entries,
        vec!["> A".to_string(), "  B".to_string(), "  C".to_string()]
    );
    menu.move_down();
    menu.move_down();
    assert_eq!(menu.curr_selected, 2);
    menu.move_down();
    assert_eq!(menu.curr_selected, 2);
    assert_eq!(
        menu.formatted_entries,
        vec!["  A".to_string(), "  B".to_string(), "> C".to_string()]
    );
}

#[test]
fn menu_selection_stays_in_bounds_over_sequences() {
    let mut menu = abc_menu();
    let moves = [true, true, true, false, true, false, false, false, true, true];
    for down in moves {
        if down {
            menu.move_down();
        } else {
            menu.move_up();
        }
        assert!(menu.curr_selected < menu.entries.len());
        for i in 0..menu.entries.len() {
            let prefix = if i == menu.curr_selected { ">" } else { " " };
            let expected = format!("{} {}", prefix, menu.entries[i]);
            assert_eq!(menu.formatted_entries[i], expected);
        }
    }
}

#[test]
fn menu_get_formatted_uses_selection_state() {
    let menu = abc_menu();
    assert_eq!(menu.get_formatted(0), "> A".to_string());
    assert_eq!(menu.get_formatted(2), "  C".to_string());
}

#[test]
fn menu_update_selected_reformats_both_entries() {
    let mut menu = abc_menu();
    menu.update_selected(2);
    assert_eq!(menu.curr_selected, 2);
    assert_eq!(
        menu.formatted_entries,
        vec!["  A".to_string(), "  B".to_string(), "> C".to_string()]
    );
}

#[test]
fn menu_update_bounds_sizes_the_panel() {
    let menu = abc_menu();
    // each formatted line is three glyphs of width 6 with a gap of 2:
    // 24 pixels, exactly 6 units, plus the two border units.
    assert_eq!(menu.box_size.0, 8);
    // three lines of height 8 with two quarter-height gaps: 28 pixels,
    // exactly 7 units, plus the two border units.
    assert_eq!(menu.box_size.1, 9);
    assert_eq!(menu.coords, (0, 0));
}

#[test]
fn menu_draw_emits_its_text_box() {
    let menu = abc_menu();
    let cmds = menu.draw_menu(&menu_font(), &menu_box());
    // the panel: colour, fill, 4 corners, 6 top/bottom pairs for a
    // width of 8 units, 7 left/right pairs for a height of 9 units;
    // then three lines of three glyphs each.
    assert_eq!(cmds.len(), 2 + 4 + 12 + 14 + 9);
    assert_eq!(
        cmds[1],
        p2dux::gfx::UiCmd::FillRect { origin: (0, 0), size: (32, 36) }
    );
    // the first glyph of the first line sits one unit in from the corner.
    match &cmds[32] {
        p2dux::gfx::UiCmd::Tile { dst, dst_size, .. } => {
            assert_eq!(*dst, (4, 4));
            assert_eq!(*dst_size, (6, 8));
        }
        other => panic!("expected the first glyph tile: {:?}", other),
    }
}

#[test]
fn menu_new_starts_empty() {
    let menu = VertTextMenu::new();
    assert_eq!(menu.entries.len(), 0);
    assert_eq!(menu.formatted_entries.len(), 0);
    assert_eq!(menu.curr_selected, 0);
    assert_eq!(menu.text_gap, 2);
    assert_eq!(menu.bg_color, (0, 0, 0));
}
