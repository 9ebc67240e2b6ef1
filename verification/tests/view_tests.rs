use p2dux::gfx::{SpriteTile, UiCmd};
use p2dux::ui::{TableFont, TileSetBox};
use p2dux::view::prefab::{DisplayClearerView, TextInputDialogView};
use p2dux::view::{ActiveView, FrameInput, GuiEvent, KeyCode, PassiveView, frame_step, yield_to};

fn tile(w: u32, h: u32) -> SpriteTile {
    SpriteTile { sheet: "ui".to_string(), coords: (0, 0), size: (w, h) }
}

fn dialog_font() -> TableFont {
    let mut glyphs: Vec<(char, SpriteTile)> = Vec::new();
    for c in [' ', 'N', 'a', 'm', 'e', ':', 'h', 'i', '!', '_', 'o', 'k'] {
        glyphs.push((c, tile(6, 8)));
    }
    TableFont { sheet: "font".to_string(), glyphs }
}

fn dialog_box() -> TileSetBox {
    TileSetBox {
        sheet: "ui".to_string(),
        unit: 4,
        ul: tile(4, 4),
        ur: tile(4, 4),
        ll: tile(4, 4),
        lr: tile(4, 4),
        top: tile(4, 4),
        bottom: tile(4, 4),
        left: tile(4, 4),
        right: tile(4, 4),
    }
}

fn dialog() -> TextInputDialogView<TableFont, TileSetBox> {
    TextInputDialogView::new(
        dialog_font(),
        dialog_box(),
        None,
        &Vec::new(),
        "Name:".to_string(),
        "_".to_string(),
        (0, 0, 0),
        (0, 0),
        2,
    )
}

#[test]
fn dialog_edits_buffer_from_events() {
    let mut dlg = dialog();
    assert_eq!(dlg.input_state, "".to_string());
    assert!(!dlg.started);

    let (cmds, out) = dlg.active_update(&vec![GuiEvent::TextInput("hi".to_string())], 0);
    assert!(out.is_none());
    assert_eq!(dlg.input_state, "hi".to_string());
    assert!(dlg.started);
    assert_eq!(cmds[0], UiCmd::StartTextInput);

    let (_, out) = dlg.active_update(&vec![GuiEvent::KeyDown(KeyCode::Backspace)], 1);
    assert!(out.is_none());
    assert_eq!(dlg.input_state, "h".to_string());

    let (_, out) = dlg.active_update(&vec![GuiEvent::TextInput("!".to_string())], 2);
    assert!(out.is_none());
    assert_eq!(dlg.input_state, "h!".to_string());
    assert_eq!(dlg.box_content.last().unwrap(), &"Name: h!_".to_string());
}

#[test]
fn dialog_return_commits_the_buffer() {
    let mut dlg = dialog();
    let (_, out) = dlg.active_update(&vec![GuiEvent::TextInput("ok".to_string())], 0);
    assert!(out.is_none());
    let (cmds, out) = dlg.active_update(&vec![GuiEvent::KeyDown(KeyCode::Return)], 1);
    assert_eq!(out, Some("ok".to_string()));
    assert!(!dlg.started);
    assert!(cmds.contains(&UiCmd::StopTextInput));
}

#[test]
fn dialog_escape_cancels_with_empty_string() {
    let mut dlg = dialog();
    let (cmds, out) = dlg.active_update(
        &vec![
            GuiEvent::TextInput("hi".to_string()),
            GuiEvent::KeyDown(KeyCode::Escape),
        ],
        0,
    );
    assert_eq!(out, Some("".to_string()));
    assert!(!dlg.started);
    assert!(cmds.contains(&UiCmd::StartTextInput));
    assert!(cmds.contains(&UiCmd::StopTextInput));
}

#[test]
fn dialog_return_stops_consuming_later_events() {
    let mut dlg = dialog();
    let (_, out) = dlg.active_update(
        &vec![
            GuiEvent::TextInput("ok".to_string()),
            GuiEvent::KeyDown(KeyCode::Return),
            GuiEvent::TextInput("ignored-after-return".to_string()),
        ],
        0,
    );
    assert_eq!(out, Some("ok".to_string()));
    assert_eq!(dlg.input_state, "ok".to_string());
}

#[test]
fn dialog_ignores_unknown_keys() {
    let mut dlg = dialog();
    let (_, out) = dlg.active_update(
        &vec![GuiEvent::KeyDown(KeyCode::Other), GuiEvent::Other],
        0,
    );
    assert!(out.is_none());
    assert_eq!(dlg.input_state, "".to_string());
}

#[test]
fn dialog_backspace_on_empty_buffer_is_harmless() {
    let mut dlg = dialog();
    let (_, out) = dlg.active_update(&vec![GuiEvent::KeyDown(KeyCode::Backspace)], 0);
    assert!(out.is_none());
    assert_eq!(dlg.input_state, "".to_string());
}

#[test]
fn display_clearer_clears_every_frame() {
    let mut clearer = DisplayClearerView::new((3, 4, 5));
    let cmds = clearer.passive_update(7);
    assert_eq!(
        cmds,
        vec![UiCmd::SetDrawColor { rgb: (3, 4, 5) }, UiCmd::Clear]
    );
    let (cmds, out) = clearer.active_update(&Vec::new(), 8);
    assert!(cmds.is_empty());
    assert!(out.is_none());
}

#[test]
fn frame_step_orders_passives_before_active() {
    let mut caller = DisplayClearerView::new((0, 0, 0));
    let mut dlg = dialog();
    let mut passives = vec![
        DisplayClearerView::new((1, 1, 1)),
        DisplayClearerView::new((2, 2, 2)),
    ];
    let (cmds, out) = frame_step(&mut caller, &mut dlg, &mut passives, &Vec::new(), 0);
    assert!(out.is_none());
    // outermost passive first, then the second, then the caller.
    assert_eq!(cmds[0], UiCmd::SetDrawColor { rgb: (1, 1, 1) });
    assert_eq!(cmds[1], UiCmd::Clear);
    assert_eq!(cmds[2], UiCmd::SetDrawColor { rgb: (2, 2, 2) });
    assert_eq!(cmds[3], UiCmd::Clear);
    assert_eq!(cmds[4], UiCmd::SetDrawColor { rgb: (0, 0, 0) });
    assert_eq!(cmds[5], UiCmd::Clear);
    // the dialog enters text-input mode on its first frame.
    assert_eq!(cmds[6], UiCmd::StartTextInput);
}

#[test]
fn yield_to_runs_until_the_active_view_finishes() {
    let mut caller = DisplayClearerView::new((0, 0, 0));
    let mut dlg = dialog();
    let mut passives = vec![
        DisplayClearerView::new((1, 1, 1)),
        DisplayClearerView::new((2, 2, 2)),
    ];
    let frames = vec![
        FrameInput { time: 1, events: Vec::new() },
        FrameInput { time: 2, events: Vec::new() },
        FrameInput {
            time: 3,
            events: vec![
                GuiEvent::TextInput("ok".to_string()),
                GuiEvent::KeyDown(KeyCode::Return),
            ],
        },
        FrameInput { time: 4, events: vec![GuiEvent::TextInput("late".to_string())] },
    ];
    let (result, used, frame_cmds) = yield_to(&mut caller, &mut dlg, &mut passives, &frames);
    // the active view finished on the third frame with that frame's value.
    assert_eq!(result, Some("ok".to_string()));
    assert_eq!(used, 3);
    assert_eq!(frame_cmds.len(), 3);
    // every registered passive redrew exactly once per consumed frame.
    for cmds in &frame_cmds {
        let first_clears = cmds
            .iter()
            .filter(|c| **c == UiCmd::SetDrawColor { rgb: (1, 1, 1) })
            .count();
        let second_clears = cmds
            .iter()
            .filter(|c| **c == UiCmd::SetDrawColor { rgb: (2, 2, 2) })
            .count();
        assert_eq!(first_clears, 1);
        assert_eq!(second_clears, 1);
    }
    // the fourth frame was never consumed.
    assert_eq!(dlg.input_state, "ok".to_string());
}

#[test]
fn yield_to_without_a_result_consumes_all_frames() {
    let mut caller = DisplayClearerView::new((0, 0, 0));
    let mut dlg = dialog();
    let mut passives: Vec<DisplayClearerView> = Vec::new();
    let frames = vec![
        FrameInput { time: 1, events: Vec::new() },
        FrameInput { time: 2, events: Vec::new() },
    ];
    let (result, used, frame_cmds) = yield_to(&mut caller, &mut dlg, &mut passives, &frames);
    assert_eq!(result, None);
    assert_eq!(used, 2);
    assert_eq!(frame_cmds.len(), 2);
}
