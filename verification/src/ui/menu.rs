//! A vertical menu of selectable text entries. Moving the selection
//! re-formats only the two entries whose prefix changed.
use vstd::prelude::*;

verus! {

use crate::gfx::UiCmd;
use crate::ui::{
    UiBox, UiFont, cap_u64, compute_text_box_bounds, draw_text_box, renderable, spec_box_bounds,
    spec_line_width, spec_text_box_cmds,
};
use vstd::pervasive::VecAdditionalExecFns;

/// An ordered list of text entries with one selected index. Each entry
/// is kept alongside its formatted form: the selection prefix, one
/// space, then the entry text.
pub struct VertTextMenu {
    pub entries: Vec<String>,
    pub formatted_entries: Vec<String>,
    pub bg_color: (u8, u8, u8),
    pub selected_prefix: String,
    pub unselected_prefix: String,
    pub curr_selected: usize,
    pub coords: (i64, i64),
    pub box_size: (u64, u64),
    pub text_gap: u32,
}

impl VertTextMenu {
    /// The formatted text owed to entry `i`: the selected prefix when
    /// `i` is the selection, else the unselected prefix, then one
    /// space, then the entry.
    pub open spec fn spec_formatted(&self, i: int) -> Seq<char> {
        let prefix = if i == self.curr_selected {
            self.selected_prefix@
        } else {
            self.unselected_prefix@
        };
        prefix + seq![' '] + self.entries@[i]@
    }

    /// The selection is in bounds and every formatted entry carries
    /// the prefix its selection state owes it.
    pub open spec fn wf(&self) -> bool {
        &&& self.formatted_entries@.len() == self.entries@.len()
        &&& (self.entries@.len() == 0 ==> self.curr_selected == 0)
        &&& (self.entries@.len() > 0 ==> self.curr_selected < self.entries@.len())
        &&& forall|i: int|
            0 <= i < self.entries@.len() ==> (#[trigger] self.formatted_entries@[i])@
                == self.spec_formatted(i)
    }

    /// An empty menu: no entries, empty prefixes, selection at zero.
    pub fn new() -> (m: VertTextMenu)
        ensures
            m.wf(),
            m.entries@.len() == 0,
            m.formatted_entries@.len() == 0,
            m.bg_color == (0u8, 0u8, 0u8),
            m.selected_prefix@ == Seq::<char>::empty(),
            m.unselected_prefix@ == Seq::<char>::empty(),
            m.curr_selected == 0,
            m.coords == (0i64, 0i64),
            m.box_size == (0u64, 0u64),
            m.text_gap == 2,
    {
        VertTextMenu {
            entries: Vec::new(),
            formatted_entries: Vec::new(),
            bg_color: (0, 0, 0),
            selected_prefix: String::new(),
            unselected_prefix: String::new(),
            curr_selected: 0,
            coords: (0, 0),
            box_size: (0, 0),
            text_gap: 2,
        }
    }

    /// Format entry `v` with the prefix its selection state owes it.
    pub fn get_formatted(&self, v: usize) -> (s: String)
        requires
            v < self.entries@.len(),
        ensures
            s@ == self.spec_formatted(v as int),
    {
        let entry = &self.entries[v];
        let prefix = if v == self.curr_selected {
            &self.selected_prefix
        } else {
            &self.unselected_prefix
        };
        let mut s = prefix.clone();
        s.append(" ");
        s.append(entry.as_str());
        proof {
            reveal_strlit(" ");
            assert(" "@ =~= seq![' ']);
        }
        s
    }

    /// Move the selection to `new_idx` and re-format the two entries
    /// whose prefix changed.
    pub fn update_selected(&mut self, new_idx: usize)
        requires
            old(self).wf(),
            new_idx < old(self).entries@.len(),
        ensures
            final(self).wf(),
            final(self).curr_selected == new_idx,
            final(self).entries == old(self).entries,
            final(self).bg_color == old(self).bg_color,
            final(self).selected_prefix == old(self).selected_prefix,
            final(self).unselected_prefix == old(self).unselected_prefix,
            final(self).coords == old(self).coords,
            final(self).box_size == old(self).box_size,
            final(self).text_gap == old(self).text_gap,
    {
        let old_selected = self.curr_selected;
        self.curr_selected = new_idx;
        let selected_formatted = self.get_formatted(new_idx);
        self.formatted_entries.set(new_idx, selected_formatted);
        let unselected_formatted = self.get_formatted(old_selected);
        self.formatted_entries.set(old_selected, unselected_formatted);
    }

    /// Move the selection one entry down, unless it is already on the
    /// last entry.
    pub fn move_down(&mut self)
        requires
            old(self).wf(),
            old(self).entries@.len() > 0,
        ensures
            final(self).wf(),
            final(self).curr_selected == if old(self).curr_selected + 1 < old(
                self,
            ).entries@.len() {
                old(self).curr_selected + 1
            } else {
                old(self).curr_selected as int
            },
            final(self).entries == old(self).entries,
            final(self).bg_color == old(self).bg_color,
            final(self).selected_prefix == old(self).selected_prefix,
            final(self).unselected_prefix == old(self).unselected_prefix,
            final(self).coords == old(self).coords,
            final(self).box_size == old(self).box_size,
            final(self).text_gap == old(self).text_gap,
    {
        let last_idx = self.entries.len() - 1;
        if self.curr_selected < last_idx {
            let new_idx = self.curr_selected + 1;
            self.update_selected(new_idx);
        }
    }

    /// Move the selection one entry up, unless it is already on the
    /// first entry.
    pub fn move_up(&mut self)
        requires
            old(self).wf(),
        ensures
            final(self).wf(),
            final(self).curr_selected == if old(self).curr_selected > 0 {
                old(self).curr_selected - 1
            } else {
                0int
            },
            final(self).entries == old(self).entries,
            final(self).bg_color == old(self).bg_color,
            final(self).selected_prefix == old(self).selected_prefix,
            final(self).unselected_prefix == old(self).unselected_prefix,
            final(self).coords == old(self).coords,
            final(self).box_size == old(self).box_size,
            final(self).text_gap == old(self).text_gap,
    {
        if self.curr_selected > 0 {
            let new_idx = self.curr_selected - 1;
            proof {
                assert(old(self).curr_selected < old(self).entries@.len());
            }
            self.update_selected(new_idx);
        }
    }

    /// The formatted lines owed to the current entries, prefixes and
    /// selection, in entry order.
    pub open spec fn spec_formatted_lines(&self) -> Seq<Seq<char>> {
        Seq::new(self.entries@.len(), |i: int| self.spec_formatted(i))
    }

    /// Re-format every entry from scratch, recompute the panel size
    /// for the formatted lines, and move the menu to `coords`.
    pub fn update_bounds<F: UiFont, B: UiBox>(&mut self, coords: (i64, i64), ui_font: &F, ui_box: &B)
        requires
            old(self).entries@.len() > 0,
            old(self).curr_selected < old(self).entries@.len(),
            renderable(ui_font, old(self).selected_prefix@),
            old(self).entries@.len() > 1 ==> renderable(ui_font, old(self).unselected_prefix@),
            forall|i: int|
                0 <= i < old(self).entries@.len() ==> renderable(
                    ui_font,
                    (#[trigger] old(self).entries@[i])@,
                ),
            ui_font.spec_glyph(' ') is Some,
            ui_box.spec_unit() >= 1,
        ensures
            final(self).wf(),
            final(self).curr_selected == old(self).curr_selected,
            final(self).entries == old(self).entries,
            final(self).bg_color == old(self).bg_color,
            final(self).selected_prefix == old(self).selected_prefix,
            final(self).unselected_prefix == old(self).unselected_prefix,
            final(self).text_gap == old(self).text_gap,
            final(self).coords == coords,
            final(self).box_size.0 == cap_u64(
                spec_box_bounds(
                    ui_font,
                    ui_box,
                    old(self).spec_formatted_lines(),
                    old(self).text_gap,
                ).0,
            ),
            final(self).box_size.1 == cap_u64(
                spec_box_bounds(
                    ui_font,
                    ui_box,
                    old(self).spec_formatted_lines(),
                    old(self).text_gap,
                ).1,
            ),
    {
        let n = self.entries.len();
        let mut formatted: Vec<String> = Vec::new();
        let mut v: usize = 0;
        while v < n
            invariant
                *self == *old(self),
                n == self.entries@.len(),
                self.curr_selected < n,
                0 <= v <= n,
                formatted@.len() == v,
                forall|i: int|
                    0 <= i < v ==> (#[trigger] formatted@[i])@ == self.spec_formatted(i),
            decreases n - v,
        {
            let line = self.get_formatted(v);
            formatted.push(line);
            v = v + 1;
        }
        self.formatted_entries = formatted;
        proof {
            lemma_renderable_formatted(ui_font, self);
            assert(self.formatted_entries.deep_view() =~= old(self).spec_formatted_lines());
        }
        self.box_size = compute_text_box_bounds(
            &self.formatted_entries,
            ui_font,
            ui_box,
            self.text_gap,
        );
        self.coords = coords;
    }

    /// The commands that draw the menu: its text box at the menu's
    /// coordinates and panel size, holding the formatted entries.
    pub fn draw_menu<F: UiFont, B: UiBox>(&self, ui_font: &F, ui_box: &B) -> (cmds: Vec<UiCmd>)
        requires
            ui_box.spec_unit() >= 1,
            self.box_size.0 >= 1,
            self.box_size.1 >= 1,
            self.box_size.0 * ui_box.spec_unit() <= u64::MAX,
            self.box_size.1 * ui_box.spec_unit() <= u64::MAX,
            self.coords.0 + self.box_size.0 * ui_box.spec_unit() <= i64::MAX,
            self.coords.1 + self.box_size.1 * ui_box.spec_unit() <= i64::MAX,
            forall|i: int|
                0 <= i < self.formatted_entries@.len() ==> renderable(
                    ui_font,
                    (#[trigger] self.formatted_entries@[i])@,
                ),
            forall|i: int|
                0 <= i < self.formatted_entries@.len() ==> self.coords.0 + ui_box.spec_unit()
                    + spec_line_width(
                    ui_font,
                    (#[trigger] self.formatted_entries@[i])@,
                    self.text_gap,
                ) <= i64::MAX,
            self.coords.1 + ui_box.spec_unit() + self.formatted_entries@.len() * (
            ui_box.spec_unit() + ui_box.spec_unit() / 4) <= i64::MAX,
        ensures
            cmds@ == spec_text_box_cmds(
                ui_font,
                ui_box,
                self.coords.0 as int,
                self.coords.1 as int,
                self.box_size.0 as int,
                self.box_size.1 as int,
                self.bg_color,
                self.formatted_entries.deep_view(),
                self.text_gap,
            ),
    {
        draw_text_box(
            (self.coords.0, self.coords.1),
            self.box_size,
            self.bg_color,
            &self.formatted_entries,
            ui_font,
            ui_box,
            self.text_gap,
        )
    }
}

/// In every well-formed menu the selection stays inside the entry
/// list, and an empty menu keeps it at zero; every move preserves
/// well-formedness, so this holds after any sequence of moves.
pub proof fn lemma_selection_in_bounds(m: &VertTextMenu)
    requires
        m.wf(),
    ensures
        m.entries@.len() > 0 ==> m.curr_selected < m.entries@.len(),
        m.entries@.len() == 0 ==> m.curr_selected == 0,
{
}

/// In every well-formed menu each formatted entry is the selected
/// prefix when its index is the selection, else the unselected
/// prefix, then one space, then the entry text.
pub proof fn lemma_formatted_entries(m: &VertTextMenu, i: int)
    requires
        m.wf(),
        0 <= i < m.entries@.len(),
    ensures
        i == m.curr_selected ==> m.formatted_entries@[i]@ == m.selected_prefix@ + seq![' ']
            + m.entries@[i]@,
        i != m.curr_selected ==> m.formatted_entries@[i]@ == m.unselected_prefix@ + seq![' ']
            + m.entries@[i]@,
{
}

/// A formatted entry is renderable whenever its prefix, the space and
/// the entry text all are.
proof fn lemma_renderable_formatted<F: UiFont>(font: &F, m: &VertTextMenu)
    requires
        m.curr_selected < m.entries@.len(),
        renderable(font, m.selected_prefix@),
        m.entries@.len() > 1 ==> renderable(font, m.unselected_prefix@),
        forall|i: int| 0 <= i < m.entries@.len() ==> renderable(font, (#[trigger] m.entries@[i])@),
        font.spec_glyph(' ') is Some,
    ensures
        forall|i: int|
            0 <= i < m.entries@.len() ==> renderable(font, #[trigger] m.spec_formatted(i)),
{
    assert forall|i: int|
        0 <= i < m.entries@.len() implies renderable(font, #[trigger] m.spec_formatted(i)) by {
        let prefix = if i == m.curr_selected {
            m.selected_prefix@
        } else {
            m.unselected_prefix@
        };
        let s = m.spec_formatted(i);
        assert forall|j: int| 0 <= j < s.len() implies (#[trigger] font.spec_glyph(s[j])) is Some by {
            if j < prefix.len() {
                assert(s[j] == prefix[j]);
            } else if j == prefix.len() {
                assert(s[j] == ' ');
            } else {
                assert(s[j] == m.entries@[i]@[j - prefix.len() - 1]);
            }
        }
    }
}

} // verus!
