//! Prefabricated views: a text-input dialog that edits a line of text
//! until it is committed or cancelled, and a passive view that clears
//! the whole display.
use vstd::prelude::*;

verus! {

use crate::gfx::UiCmd;
use crate::ui::{
    UiBox, UiFont, cap_u64, compute_text_box_bounds, draw_text_box, lemma_renderable_concat,
    renderable, spec_box_bounds, spec_line_width, spec_text_box_cmds,
};
use crate::view::{ActiveView, GuiEvent, KeyCode, PassiveView};

/// The mathematical model of a text-input dialog: the edit buffer and
/// everything the panel is drawn from.
pub struct TextInputModel<F, B> {
    pub input: Seq<char>,
    pub previous: Seq<char>,
    pub prompt: Seq<char>,
    pub cursor: Seq<char>,
    pub bg_color: (u8, u8, u8),
    pub coords: (i64, i64),
    pub box_size: (u64, u64),
    pub text_gap: u32,
    pub ui_font: F,
    pub ui_box: B,
    pub started: bool,
    pub box_content: Seq<Seq<char>>,
}

/// The live line of the dialog's panel: the prompt, one space, the
/// edit buffer, then the cursor glyph.
pub open spec fn spec_content_line<F, B>(m: TextInputModel<F, B>) -> Seq<char> {
    m.prompt + seq![' '] + m.input + m.cursor
}

/// Folding one frame's events into the edit buffer, in arrival order:
/// Return commits the buffer, Escape cancels with the empty string —
/// both stop the fold — Backspace drops the last character, and a
/// text-input event appends its text.
pub open spec fn spec_fold_events(input: Seq<char>, events: Seq<GuiEvent>) -> (
    Seq<char>,
    Option<Seq<char>>,
)
    decreases events.len(),
{
    if events.len() == 0 {
        (input, None)
    } else {
        match events[0] {
            GuiEvent::KeyDown(KeyCode::Return) => (input, Some(input)),
            GuiEvent::KeyDown(KeyCode::Escape) => (input, Some(Seq::<char>::empty())),
            GuiEvent::KeyDown(KeyCode::Backspace) => spec_fold_events(
                if input.len() > 0 {
                    input.drop_last()
                } else {
                    input
                },
                events.drop_first(),
            ),
            GuiEvent::TextInput(s) => spec_fold_events(input + s@, events.drop_first()),
            _ => spec_fold_events(input, events.drop_first()),
        }
    }
}

/// The dialog's model after one active frame: the buffer folded over
/// the events, the previous buffer snapshotted, text-input mode left
/// exactly when the fold finished, and the panel re-laid-out only
/// when the buffer changed.
pub open spec fn spec_dialog_step<F: UiFont, B: UiBox>(
    m: TextInputModel<F, B>,
    events: Seq<GuiEvent>,
) -> TextInputModel<F, B> {
    let fold = spec_fold_events(m.input, events);
    let m1 = TextInputModel { input: fold.0, previous: m.input, started: fold.1 is None, ..m };
    if fold.0 == m.input {
        m1
    } else {
        let content = m.box_content.update(
            m.box_content.len() - 1,
            spec_content_line(m1),
        );
        let bounds = spec_box_bounds(&m.ui_font, &m.ui_box, content, m.text_gap);
        TextInputModel {
            box_content: content,
            box_size: (cap_u64(bounds.0), cap_u64(bounds.1)),
            ..m1
        }
    }
}

/// The commands of one active frame: entering text-input mode on the
/// first frame, leaving it when the fold finished, then the dialog's
/// panel, always redrawn.
pub open spec fn spec_dialog_cmds<F: UiFont, B: UiBox>(
    m: TextInputModel<F, B>,
    events: Seq<GuiEvent>,
) -> Seq<UiCmd> {
    let m2 = spec_dialog_step(m, events);
    let start = if !m.started {
        seq![UiCmd::StartTextInput]
    } else {
        Seq::<UiCmd>::empty()
    };
    let stop = if spec_fold_events(m.input, events).1 is Some {
        seq![UiCmd::StopTextInput]
    } else {
        Seq::<UiCmd>::empty()
    };
    start + stop + spec_text_box_cmds(
        &m.ui_font,
        &m.ui_box,
        m.coords.0 as int,
        m.coords.1 as int,
        m2.box_size.0 as int,
        m2.box_size.1 as int,
        m.bg_color,
        m2.box_content,
        m.text_gap,
    )
}

/// The dialog's standing well-formedness: the panel content ends with
/// the live line, and everything the live line is built from can be
/// rendered in the dialog's font.
pub open spec fn spec_dialog_wf<F: UiFont, B: UiBox>(m: TextInputModel<F, B>) -> bool {
    &&& m.box_content.len() >= 1
    &&& m.box_content.last() == spec_content_line(m)
    &&& m.ui_font.spec_glyph(' ') is Some
    &&& m.ui_box.spec_unit() >= 1
    &&& renderable(&m.ui_font, m.prompt)
    &&& renderable(&m.ui_font, m.cursor)
    &&& renderable(&m.ui_font, m.input)
    &&& forall|i: int| 0 <= i < m.box_content.len() ==> renderable(
        &m.ui_font,
        #[trigger] m.box_content[i],
    )
}

/// Whether the dialog's panel fits the machine: every drawn position
/// and size stays inside its integer type.
pub open spec fn spec_dialog_drawable<F: UiFont, B: UiBox>(m: TextInputModel<F, B>) -> bool {
    let u = m.ui_box.spec_unit();
    &&& m.box_size.0 >= 1
    &&& m.box_size.1 >= 1
    &&& m.box_size.0 * u <= u64::MAX
    &&& m.box_size.1 * u <= u64::MAX
    &&& m.coords.0 + m.box_size.0 * u <= i64::MAX
    &&& m.coords.1 + m.box_size.1 * u <= i64::MAX
    &&& forall|i: int| 0 <= i < m.box_content.len() ==> m.coords.0 + u + spec_line_width(
        &m.ui_font,
        #[trigger] m.box_content[i],
        m.text_gap,
    ) <= i64::MAX
    &&& m.coords.1 + u + m.box_content.len() * (u + u / 4) <= i64::MAX
}

/// Folding renderable events into a renderable buffer keeps the
/// buffer renderable.
pub proof fn lemma_fold_renderable<F: UiFont>(font: &F, input: Seq<char>, events: Seq<GuiEvent>)
    requires
        renderable(font, input),
        forall|j: int| 0 <= j < events.len() ==> match #[trigger] events[j] {
            GuiEvent::TextInput(s) => renderable(font, s@),
            _ => true,
        },
    ensures
        renderable(font, spec_fold_events(input, events).0),
    decreases events.len(),
{
    if events.len() > 0 {
        let rest = events.drop_first();
        assert forall|j: int| 0 <= j < rest.len() implies match #[trigger] rest[j] {
            GuiEvent::TextInput(s) => renderable(font, s@),
            _ => true,
        } by {
            assert(rest[j] == events[j + 1]);
        }
        match events[0] {
            GuiEvent::KeyDown(KeyCode::Return) => {},
            GuiEvent::KeyDown(KeyCode::Escape) => {},
            GuiEvent::KeyDown(KeyCode::Backspace) => {
                let shorter = if input.len() > 0 {
                    input.drop_last()
                } else {
                    input
                };
                assert forall|i: int| 0 <= i < shorter.len() implies (#[trigger] font.spec_glyph(
                    shorter[i],
                )) is Some by {
                    assert(shorter[i] == input[i]);
                }
                lemma_fold_renderable(font, shorter, rest);
            },
            GuiEvent::TextInput(s) => {
                assert(events[0] matches GuiEvent::TextInput(t) && renderable(font, t@));
                lemma_renderable_concat(font, input, s@);
                lemma_fold_renderable(font, input + s@, rest);
            },
            _ => {
                lemma_fold_renderable(font, input, rest);
            },
        }
    }
}

/// One active frame keeps the dialog well formed: the folded buffer
/// stays renderable and the panel content still ends with the live
/// line.
pub proof fn lemma_dialog_step_wf<F: UiFont, B: UiBox>(
    m: TextInputModel<F, B>,
    events: Seq<GuiEvent>,
)
    requires
        spec_dialog_wf(m),
        forall|j: int| 0 <= j < events.len() ==> match #[trigger] events[j] {
            GuiEvent::TextInput(s) => renderable(&m.ui_font, s@),
            _ => true,
        },
    ensures
        spec_dialog_wf(spec_dialog_step(m, events)),
        renderable(&m.ui_font, spec_fold_events(m.input, events).0),
{
    lemma_fold_renderable(&m.ui_font, m.input, events);
    let fold = spec_fold_events(m.input, events);
    let m2 = spec_dialog_step(m, events);
    if fold.0 == m.input {
        assert(spec_content_line(m2) == spec_content_line(m));
    } else {
        lemma_renderable_concat(&m.ui_font, m.prompt, seq![' ']);
        lemma_renderable_concat(&m.ui_font, m.prompt + seq![' '], fold.0);
        lemma_renderable_concat(&m.ui_font, m.prompt + seq![' '] + fold.0, m.cursor);
        assert forall|i: int| 0 <= i < m2.box_content.len() implies renderable(
            &m2.ui_font,
            #[trigger] m2.box_content[i],
        ) by {
            if i < m2.box_content.len() - 1 {
                assert(m2.box_content[i] == m.box_content[i]);
            } else {
                assert(m2.box_content[i] == spec_content_line(m2));
            }
        }
    }
}

/// A modal line-input dialog: an active view that edits a buffer until
/// Return commits it or Escape cancels it, redrawing its text box
/// every frame.
pub struct TextInputDialogView<F: UiFont, B: UiBox> {
    pub input_state: String,
    pub previous_state: String,
    pub prompt: String,
    pub cursor: String,
    pub bg_color: (u8, u8, u8),
    pub coords: (i64, i64),
    pub box_size: (u64, u64),
    pub text_gap: u32,
    pub ui_font: F,
    pub ui_box: B,
    pub started: bool,
    pub box_content: Vec<String>,
}

impl<F: UiFont, B: UiBox> TextInputDialogView<F, B> {
    /// A dialog over `ui_font` and `ui_box`, editing `seed_state` (or
    /// the empty buffer), with `preface` lines shown above the live
    /// line, laid out once on construction.
    pub fn new(
        ui_font: F,
        ui_box: B,
        seed_state: Option<String>,
        preface: &Vec<String>,
        prompt: String,
        cursor: String,
        bg_color: (u8, u8, u8),
        coords: (i64, i64),
        text_gap: u32,
    ) -> (v: TextInputDialogView<F, B>)
        requires
            ui_font.spec_glyph(' ') is Some,
            ui_box.spec_unit() >= 1,
            renderable(&ui_font, prompt@),
            renderable(&ui_font, cursor@),
            seed_state matches Some(s) ==> renderable(&ui_font, s@),
            forall|i: int| 0 <= i < preface@.len() ==> renderable(
                &ui_font,
                (#[trigger] preface@[i])@,
            ),
        ensures
            v.model() == ({
                let input = match seed_state {
                    Some(s) => s@,
                    None => Seq::<char>::empty(),
                };
                let base = TextInputModel {
                    input,
                    previous: Seq::<char>::empty(),
                    prompt: prompt@,
                    cursor: cursor@,
                    bg_color,
                    coords,
                    box_size: (0u64, 0u64),
                    text_gap,
                    ui_font,
                    ui_box,
                    started: false,
                    box_content: preface.deep_view().push(Seq::<char>::empty()),
                };
                let content = base.box_content.update(
                    base.box_content.len() - 1,
                    spec_content_line(base),
                );
                let bounds = spec_box_bounds(&base.ui_font, &base.ui_box, content, text_gap);
                TextInputModel {
                    box_content: content,
                    box_size: (cap_u64(bounds.0), cap_u64(bounds.1)),
                    ..base
                }
            }),
            spec_dialog_wf(v.model()),
    {
        let input_state = match seed_state {
            Some(i) => i,
            None => String::new(),
        };
        let mut bc: Vec<String> = Vec::new();
        let n: usize = preface.len();
        let mut i: usize = 0;
        while i < n
            invariant
                n == preface@.len(),
                0 <= i <= n,
                bc@.len() == i,
                forall|j: int| 0 <= j < i ==> (#[trigger] bc@[j])@ == preface@[j]@,
            decreases n - i,
        {
            bc.push(preface[i].clone());
            i = i + 1;
        }
        bc.push(String::new());
        let mut ret = TextInputDialogView {
            input_state,
            previous_state: String::new(),
            prompt,
            cursor,
            bg_color,
            coords,
            box_size: (0, 0),
            text_gap,
            ui_font,
            ui_box,
            started: false,
            box_content: bc,
        };
        proof {
            assert(ret.box_content.deep_view() =~= preface.deep_view().push(
                Seq::<char>::empty(),
            ));
        }
        ret.update_content();
        ret
    }

    /// Rebuild the live line from the current buffer and recompute the
    /// panel size for the whole content.
    fn update_content(&mut self)
        requires
            old(self).box_content@.len() >= 1,
            old(self).ui_font.spec_glyph(' ') is Some,
            old(self).ui_box.spec_unit() >= 1,
            renderable(&old(self).ui_font, old(self).prompt@),
            renderable(&old(self).ui_font, old(self).cursor@),
            renderable(&old(self).ui_font, old(self).input_state@),
            forall|i: int| 0 <= i < old(self).box_content@.len() ==> renderable(
                &old(self).ui_font,
                (#[trigger] old(self).box_content@[i])@,
            ),
        ensures
            final(self).box_content.deep_view() == old(self).box_content.deep_view().update(
                old(self).box_content@.len() - 1,
                spec_content_line(old(self).model()),
            ),
            final(self).box_size == ({
                let bounds = spec_box_bounds(
                    &old(self).ui_font,
                    &old(self).ui_box,
                    final(self).box_content.deep_view(),
                    old(self).text_gap,
                );
                (cap_u64(bounds.0), cap_u64(bounds.1))
            }),
            final(self).input_state == old(self).input_state,
            final(self).previous_state == old(self).previous_state,
            final(self).prompt == old(self).prompt,
            final(self).cursor == old(self).cursor,
            final(self).bg_color == old(self).bg_color,
            final(self).coords == old(self).coords,
            final(self).text_gap == old(self).text_gap,
            final(self).ui_font == old(self).ui_font,
            final(self).ui_box == old(self).ui_box,
            final(self).started == old(self).started,
    {
        self.box_content.pop();
        let mut line = self.prompt.clone();
        line.append(" ");
        line.append(self.input_state.as_str());
        line.append(self.cursor.as_str());
        self.box_content.push(line);
        proof {
            reveal_strlit(" ");
            assert(" "@ =~= seq![' ']);
            assert(self.box_content.deep_view() =~= old(self).box_content.deep_view().update(
                old(self).box_content@.len() - 1,
                spec_content_line(old(self).model()),
            ));
            lemma_renderable_concat(&self.ui_font, self.prompt@, seq![' ']);
            lemma_renderable_concat(&self.ui_font, self.prompt@ + seq![' '], self.input_state@);
            lemma_renderable_concat(
                &self.ui_font,
                self.prompt@ + seq![' '] + self.input_state@,
                self.cursor@,
            );
        }
        self.box_size = compute_text_box_bounds(
            &self.box_content,
            &self.ui_font,
            &self.ui_box,
            self.text_gap,
        );
    }
}

impl<F: UiFont, B: UiBox> PassiveView for TextInputDialogView<F, B> {
    type Model = TextInputModel<F, B>;

    open spec fn model(self) -> TextInputModel<F, B> {
        TextInputModel {
            input: self.input_state@,
            previous: self.previous_state@,
            prompt: self.prompt@,
            cursor: self.cursor@,
            bg_color: self.bg_color,
            coords: self.coords,
            box_size: self.box_size,
            text_gap: self.text_gap,
            ui_font: self.ui_font,
            ui_box: self.ui_box,
            started: self.started,
            box_content: self.box_content.deep_view(),
        }
    }

    /// The dialog draws nothing in its passive role.
    open spec fn spec_passive(m: TextInputModel<F, B>, time: u64) -> (
        TextInputModel<F, B>,
        Seq<UiCmd>,
    ) {
        (m, Seq::<UiCmd>::empty())
    }

    fn passive_update(&mut self, time: u64) -> (cmds: Vec<UiCmd>) {
        Vec::new()
    }
}

impl<F: UiFont, B: UiBox> ActiveView for TextInputDialogView<F, B> {
    type Output = String;

    type OutputModel = Seq<char>;

    open spec fn output_model(o: String) -> Seq<char> {
        o@
    }

    open spec fn spec_accepts(m: TextInputModel<F, B>, events: Seq<GuiEvent>) -> bool {
        &&& spec_dialog_wf(m)
        &&& forall|j: int| 0 <= j < events.len() ==> match #[trigger] events[j] {
            GuiEvent::TextInput(s) => renderable(&m.ui_font, s@),
            _ => true,
        }
        &&& spec_dialog_drawable(spec_dialog_step(m, events))
    }

    open spec fn spec_active(m: TextInputModel<F, B>, events: Seq<GuiEvent>, time: u64) -> (
        TextInputModel<F, B>,
        Seq<UiCmd>,
        Option<Seq<char>>,
    ) {
        (
            spec_dialog_step(m, events),
            spec_dialog_cmds(m, events),
            spec_fold_events(m.input, events).1,
        )
    }

    fn active_update(&mut self, events: &Vec<GuiEvent>, time: u64) -> (r: (
        Vec<UiCmd>,
        Option<String>,
    )) {
        let ghost m0 = old(self).model();
        let mut cmds: Vec<UiCmd> = Vec::new();
        if !self.started {
            cmds.push(UiCmd::StartTextInput);
        }
        self.previous_state = self.input_state.clone();
        let mut out: Option<String> = None;
        let n: usize = events.len();
        let mut i: usize = 0;
        proof {
            assert(events@.skip(0) =~= events@);
        }
        while i < n
            invariant_except_break
                n == events@.len(),
                0 <= i <= n,
                out is None,
                spec_fold_events(m0.input, events@) == spec_fold_events(
                    self.input_state@,
                    events@.skip(i as int),
                ),
                renderable(&self.ui_font, self.input_state@),
                forall|j: int| 0 <= j < events@.len() ==> match #[trigger] events@[j] {
                    GuiEvent::TextInput(s) => renderable(&self.ui_font, s@),
                    _ => true,
                },
                cmds@ == if !m0.started {
                    seq![UiCmd::StartTextInput]
                } else {
                    Seq::<UiCmd>::empty()
                },
                self.previous_state@ == m0.input,
                self.prompt == old(self).prompt,
                self.cursor == old(self).cursor,
                self.bg_color == old(self).bg_color,
                self.coords == old(self).coords,
                self.box_size == old(self).box_size,
                self.text_gap == old(self).text_gap,
                self.ui_font == old(self).ui_font,
                self.ui_box == old(self).ui_box,
                self.started == old(self).started,
                self.box_content == old(self).box_content,
            ensures
                spec_fold_events(m0.input, events@).0 == self.input_state@,
                out is Some <==> spec_fold_events(m0.input, events@).1 is Some,
                out matches Some(v) ==> spec_fold_events(m0.input, events@).1 == Some(v@),
                renderable(&self.ui_font, self.input_state@),
                cmds@ == (if !m0.started {
                    seq![UiCmd::StartTextInput]
                } else {
                    Seq::<UiCmd>::empty()
                }) + (if spec_fold_events(m0.input, events@).1 is Some {
                    seq![UiCmd::StopTextInput]
                } else {
                    Seq::<UiCmd>::empty()
                }),
                self.previous_state@ == m0.input,
                self.prompt == old(self).prompt,
                self.cursor == old(self).cursor,
                self.bg_color == old(self).bg_color,
                self.coords == old(self).coords,
                self.box_size == old(self).box_size,
                self.text_gap == old(self).text_gap,
                self.ui_font == old(self).ui_font,
                self.ui_box == old(self).ui_box,
                self.started == old(self).started,
                self.box_content == old(self).box_content,
            decreases n - i,
        {
            proof {
                assert(events@.skip(i as int)[0] == events@[i as int]);
                assert(events@.skip(i as int).drop_first() =~= events@.skip(i as int + 1));
            }
            match &events[i] {
                GuiEvent::KeyDown(key) => {
                    match key {
                        KeyCode::Return => {
                            out = Some(self.input_state.clone());
                            cmds.push(UiCmd::StopTextInput);
                            break ;
                        },
                        KeyCode::Backspace => {
                            let len: usize = self.input_state.as_str().unicode_len();
                            if len > 0 {
                                let shortened = self.input_state.as_str().substring_char(
                                    0,
                                    len - 1,
                                ).to_owned();
                                proof {
                                    assert(shortened@ =~= self.input_state@.drop_last());
                                }
                                self.input_state = shortened;
                            }
                        },
                        KeyCode::Escape => {
                            out = Some(String::new());
                            cmds.push(UiCmd::StopTextInput);
                            break ;
                        },
                        KeyCode::Other => {},
                    }
                },
                GuiEvent::TextInput(txt) => {
                    proof {
                        lemma_renderable_concat(&self.ui_font, self.input_state@, txt@);
                    }
                    self.input_state.append(txt.as_str());
                },
                GuiEvent::Other => {},
            }
            i = i + 1;
        }
        match &out {
            Some(_) => {
                self.started = false;
            },
            None => {
                self.started = true;
            },
        }
        proof {
            lemma_dialog_step_wf::<F, B>(m0, events@);
            assert forall|k: int| 0 <= k < self.box_content@.len() implies renderable(
                &self.ui_font,
                (#[trigger] self.box_content@[k])@,
            ) by {
                assert(self.box_content@[k]@ == m0.box_content[k]);
                assert(renderable(&m0.ui_font, m0.box_content[k]));
            }
        }
        if !self.previous_state.eq(&self.input_state) {
            self.update_content();
        }
        proof {
            assert(self.model() == spec_dialog_step(m0, events@));
            assert(spec_dialog_drawable(self.model()));
            let m2 = spec_dialog_step(m0, events@);
            assert forall|k: int| 0 <= k < self.box_content@.len() implies renderable(
                &self.ui_font,
                (#[trigger] self.box_content@[k])@,
            ) by {
                assert(self.box_content@[k]@ == m2.box_content[k]);
                assert(renderable(&m2.ui_font, m2.box_content[k]));
            }
            assert forall|k: int| 0 <= k < self.box_content@.len() implies self.coords.0
                + self.ui_box.spec_unit() + spec_line_width(
                &self.ui_font,
                (#[trigger] self.box_content@[k])@,
                self.text_gap,
            ) <= i64::MAX by {
                assert(self.box_content@[k]@ == m2.box_content[k]);
            }
        }
        let mut box_cmds = draw_text_box(
            (self.coords.0, self.coords.1),
            self.box_size,
            self.bg_color,
            &self.box_content,
            &self.ui_font,
            &self.ui_box,
            self.text_gap,
        );
        cmds.append(&mut box_cmds);
        (cmds, out)
    }
}

/// A passive view that clears the whole display to one colour.
pub struct DisplayClearerView {
    pub bg_color: (u8, u8, u8),
}

impl DisplayClearerView {
    /// A clearer for the given background colour.
    pub fn new(bgc: (u8, u8, u8)) -> (v: DisplayClearerView)
        ensures
            v.bg_color == bgc,
    {
        DisplayClearerView { bg_color: bgc }
    }
}

impl PassiveView for DisplayClearerView {
    type Model = DisplayClearerView;

    open spec fn model(self) -> DisplayClearerView {
        self
    }

    /// Each frame it sets the draw colour and clears.
    open spec fn spec_passive(m: DisplayClearerView, time: u64) -> (
        DisplayClearerView,
        Seq<UiCmd>,
    ) {
        (m, seq![UiCmd::SetDrawColor { rgb: m.bg_color }, UiCmd::Clear])
    }

    fn passive_update(&mut self, time: u64) -> (cmds: Vec<UiCmd>) {
        let mut cmds: Vec<UiCmd> = Vec::new();
        cmds.push(UiCmd::SetDrawColor { rgb: self.bg_color });
        cmds.push(UiCmd::Clear);
        proof {
            assert(cmds@ =~= seq![
                UiCmd::SetDrawColor { rgb: self.bg_color },
                UiCmd::Clear,
            ]);
        }
        cmds
    }
}

impl ActiveView for DisplayClearerView {
    type Output = ();

    type OutputModel = ();

    open spec fn output_model(o: ()) -> () {
        ()
    }

    open spec fn spec_accepts(m: DisplayClearerView, events: Seq<GuiEvent>) -> bool {
        true
    }

    /// In its active role the clearer draws nothing further and never
    /// finishes.
    open spec fn spec_active(m: DisplayClearerView, events: Seq<GuiEvent>, time: u64) -> (
        DisplayClearerView,
        Seq<UiCmd>,
        Option<()>,
    ) {
        (m, Seq::<UiCmd>::empty(), None)
    }

    fn active_update(&mut self, events: &Vec<GuiEvent>, time: u64) -> (r: (
        Vec<UiCmd>,
        Option<()>,
    )) {
        (Vec::new(), None)
    }
}

} // verus!
