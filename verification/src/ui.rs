//! Text-box UI chrome: font and box capabilities, line measurement and
//! the tile-unit bounds computation for a panel of text lines.
use vstd::prelude::*;

pub mod menu;

verus! {

use crate::gfx::{SpriteTile, UiCmd, spec_tile_cmd, spec_tile_cmd_scaled, tile_cmd, tile_cmd_scaled};

/// A tile font: maps a character to a sprite tile on one sheet.
pub trait UiFont: Sized {
    /// The glyph tile for `c`, if the font has one.
    spec fn spec_glyph(&self, c: char) -> Option<SpriteTile>;

    /// Name of the sheet the glyph tiles live on.
    spec fn spec_sheet(&self) -> Seq<char>;

    /// The sheet holding this font's glyph tiles.
    fn get_sheet(&self) -> (s: String)
        ensures
            s@ == self.spec_sheet(),
    ;

    /// Look up the glyph tile for `c`.
    fn sprite_for(&self, c: char) -> (r: Option<&SpriteTile>)
        ensures
            match r {
                Some(t) => self.spec_glyph(c) == Some(*t),
                None => self.spec_glyph(c) is None,
            },
    ;
}

/// A box style: a tile-unit size and the eight border tiles, all on
/// one sheet.
pub trait UiBox: Sized {
    /// Pixels per tile unit.
    spec fn spec_unit(&self) -> u64;

    /// Name of the sheet the border tiles live on.
    spec fn spec_sheet(&self) -> Seq<char>;

    /// Upper-left corner tile.
    spec fn spec_ul(&self) -> SpriteTile;

    /// Upper-right corner tile.
    spec fn spec_ur(&self) -> SpriteTile;

    /// Lower-left corner tile.
    spec fn spec_ll(&self) -> SpriteTile;

    /// Lower-right corner tile.
    spec fn spec_lr(&self) -> SpriteTile;

    /// Top edge tile.
    spec fn spec_top(&self) -> SpriteTile;

    /// Bottom edge tile.
    spec fn spec_bottom(&self) -> SpriteTile;

    /// Left edge tile.
    spec fn spec_left(&self) -> SpriteTile;

    /// Right edge tile.
    spec fn spec_right(&self) -> SpriteTile;

    /// Pixels per tile unit.
    fn unit_size(&self) -> (u: u64)
        ensures
            u == self.spec_unit(),
    ;

    /// The sheet holding this box style's tiles.
    fn get_sheet(&self) -> (s: String)
        ensures
            s@ == self.spec_sheet(),
    ;

    /// Upper-left corner tile.
    fn get_ul_corner(&self) -> (t: &SpriteTile)
        ensures
            *t == self.spec_ul(),
    ;

    /// Upper-right corner tile.
    fn get_ur_corner(&self) -> (t: &SpriteTile)
        ensures
            *t == self.spec_ur(),
    ;

    /// Lower-left corner tile.
    fn get_ll_corner(&self) -> (t: &SpriteTile)
        ensures
            *t == self.spec_ll(),
    ;

    /// Lower-right corner tile.
    fn get_lr_corner(&self) -> (t: &SpriteTile)
        ensures
            *t == self.spec_lr(),
    ;

    /// Top edge tile.
    fn get_top(&self) -> (t: &SpriteTile)
        ensures
            *t == self.spec_top(),
    ;

    /// Bottom edge tile.
    fn get_bottom(&self) -> (t: &SpriteTile)
        ensures
            *t == self.spec_bottom(),
    ;

    /// Left edge tile.
    fn get_left(&self) -> (t: &SpriteTile)
        ensures
            *t == self.spec_left(),
    ;

    /// Right edge tile.
    fn get_right(&self) -> (t: &SpriteTile)
        ensures
            *t == self.spec_right(),
    ;
}

/// True when `font` has a glyph for every character of `s`.
pub open spec fn renderable<F: UiFont>(font: &F, s: Seq<char>) -> bool {
    forall|i: int| 0 <= i < s.len() ==> (#[trigger] font.spec_glyph(s[i])) is Some
}

/// Two renderable pieces of text concatenate to renderable text.
pub proof fn lemma_renderable_concat<F: UiFont>(font: &F, a: Seq<char>, b: Seq<char>)
    requires
        renderable(font, a),
        renderable(font, b),
    ensures
        renderable(font, a + b),
{
    assert forall|i: int| 0 <= i < (a + b).len() implies (#[trigger] font.spec_glyph(
        (a + b)[i],
    )) is Some by {
        if i < a.len() {
            assert((a + b)[i] == a[i]);
        } else {
            assert((a + b)[i] == b[i - a.len()]);
        }
    }
}

/// Pixel width of the glyph for `c`: zero when the font has none.
pub open spec fn spec_glyph_width<F: UiFont>(font: &F, c: char) -> nat {
    match font.spec_glyph(c) {
        Some(t) => t.size.0 as nat,
        None => 0,
    }
}

/// Pixel width of a laid-out line: every glyph advances the cursor by
/// its own width plus the inter-glyph gap.
pub open spec fn spec_line_width<F: UiFont>(font: &F, s: Seq<char>, gap: u32) -> nat
    decreases s.len(),
{
    if s.len() == 0 {
        0
    } else {
        (spec_line_width(font, s.drop_last(), gap) + spec_glyph_width(font, s.last()) + gap) as nat
    }
}

/// `w` capped at `u64::MAX`.
pub open spec fn cap_u64(w: nat) -> u64 {
    if w > u64::MAX {
        u64::MAX
    } else {
        w as u64
    }
}

/// Pixel width of `text` in `font`, exact.
fn line_width_px<F: UiFont>(font: &F, text: &str, gap: u32) -> (w: u128)
    requires
        renderable(font, text@),
    ensures
        w == spec_line_width(font, text@, gap),
        w <= text@.len() * 0x2_0000_0000,
        text@.len() <= usize::MAX,
{
    let n: usize = text.unicode_len();
    let mut total: u128 = 0;
    let mut i: usize = 0;
    while i < n
        invariant
            renderable(font, text@),
            n == text@.len(),
            0 <= i <= n,
            total == spec_line_width(font, text@.take(i as int), gap),
            total <= i * 0x2_0000_0000u128,
        decreases n - i,
    {
        let c = text.get_char(i);
        let w: u32 = match font.sprite_for(c) {
            Some(tile) => tile.size.0,
            None => vstd::pervasive::unreached(),
        };
        proof {
            assert(text@.take(i as int + 1).drop_last() =~= text@.take(i as int));
            assert(text@.take(i as int + 1).last() == text@[i as int]);
        }
        total = total + w as u128 + gap as u128;
        i = i + 1;
    }
    proof {
        assert(text@.take(n as int) =~= text@);
    }
    total
}

/// Pixel width of `text` laid out in `font` with `gap` pixels after
/// each glyph, capped at `u64::MAX`.
pub fn compute_len<F: UiFont>(font: &F, text: &str, gap: u32) -> (len: u64)
    requires
        renderable(font, text@),
    ensures
        len == cap_u64(spec_line_width(font, text@, gap)),
{
    let w = line_width_px(font, text, gap);
    if w > u64::MAX as u128 {
        u64::MAX
    } else {
        w as u64
    }
}

/// The widest line of `lines`, in pixels.
pub open spec fn spec_max_line_width<F: UiFont>(font: &F, lines: Seq<Seq<char>>, gap: u32) -> nat
    decreases lines.len(),
{
    if lines.len() == 0 {
        0
    } else {
        let rest = spec_max_line_width(font, lines.drop_last(), gap);
        let last = spec_line_width(font, lines.last(), gap);
        if last > rest {
            last
        } else {
            rest
        }
    }
}

/// Total pixel height of `n` text lines of glyph height `fy`: a
/// quarter-height gap separates consecutive lines.
pub open spec fn spec_text_height(fy: nat, n: nat) -> nat
    recommends
        n >= 1,
{
    fy * n + (fy / 4) * ((n - 1) as nat)
}

/// Tile units needed to cover `px` pixels at `unit` pixels per unit,
/// plus one border unit on each side: a partly covered unit adds one.
pub open spec fn spec_units(px: nat, unit: nat) -> nat
    recommends
        unit >= 1,
{
    px / unit + 2 + if px % unit > 0 {
        1nat
    } else {
        0nat
    }
}

/// Panel size in tile units needed to fit `lines`: width from the
/// widest line, height from the line count and the height of the
/// font's space glyph.
pub open spec fn spec_box_bounds<F: UiFont, B: UiBox>(
    font: &F,
    ui_box: &B,
    lines: Seq<Seq<char>>,
    gap: u32,
) -> (nat, nat)
    recommends
        lines.len() >= 1,
        font.spec_glyph(' ') is Some,
        ui_box.spec_unit() >= 1,
{
    let fy = match font.spec_glyph(' ') {
        Some(t) => t.size.1 as nat,
        None => 0,
    };
    let unit = ui_box.spec_unit() as nat;
    (
        spec_units(spec_max_line_width(font, lines, gap), unit),
        spec_units(spec_text_height(fy, lines.len()), unit),
    )
}

/// Panel size in tile units needed to fit `lines` in `ui_font` inside
/// a border drawn by `ui_box`, each dimension capped at `u64::MAX`.
pub fn compute_text_box_bounds<F: UiFont, B: UiBox>(
    lines: &Vec<String>,
    ui_font: &F,
    ui_box: &B,
    text_gap: u32,
) -> (bounds: (u64, u64))
    requires
        lines@.len() >= 1,
        forall|i: int| 0 <= i < lines@.len() ==> renderable(ui_font, (#[trigger] lines@[i])@),
        ui_font.spec_glyph(' ') is Some,
        ui_box.spec_unit() >= 1,
    ensures
        bounds.0 == cap_u64(spec_box_bounds(ui_font, ui_box, lines.deep_view(), text_gap).0),
        bounds.1 == cap_u64(spec_box_bounds(ui_font, ui_box, lines.deep_view(), text_gap).1),
{
    let n: usize = lines.len();
    let mut longest: u128 = 0;
    let mut i: usize = 0;
    while i < n
        invariant
            n == lines@.len(),
            0 <= i <= n,
            forall|j: int| 0 <= j < lines@.len() ==> renderable(ui_font, (#[trigger] lines@[j])@),
            longest == spec_max_line_width(ui_font, lines.deep_view().take(i as int), text_gap),
            longest <= u128::MAX - 3,
        decreases n - i,
    {
        let flen = line_width_px(ui_font, lines[i].as_str(), text_gap);
        proof {
            assert(lines.deep_view().take(i as int + 1).drop_last() =~= lines.deep_view().take(
                i as int,
            ));
            assert(lines.deep_view().take(i as int + 1).last() == lines@[i as int]@);
        }
        if flen > longest {
            longest = flen;
        }
        i = i + 1;
    }
    proof {
        assert(lines.deep_view().take(n as int) =~= lines.deep_view());
    }
    let fy: u32 = match ui_font.sprite_for(' ') {
        Some(t) => t.size.1,
        None => vstd::pervasive::unreached(),
    };
    proof {
        vstd::arithmetic::mul::lemma_mul_upper_bound(
            fy as int,
            u32::MAX as int,
            n as int,
            usize::MAX as int,
        );
        vstd::arithmetic::mul::lemma_mul_upper_bound(
            (fy / 4) as int,
            u32::MAX as int,
            n as int - 1,
            usize::MAX as int,
        );
    }
    let font_height: u128 = (fy as u128) * (n as u128) + ((fy / 4) as u128) * ((n - 1) as u128);
    let unit = ui_box.unit_size() as u128;
    let box_w = units_for(longest, unit);
    let box_h = units_for(font_height, unit);
    (box_w, box_h)
}

/// Extending a line with further characters cannot shrink its pixel
/// width.
pub proof fn lemma_line_width_prefix<F: UiFont>(font: &F, s1: Seq<char>, s2: Seq<char>, gap: u32)
    requires
        s1.len() <= s2.len(),
        s2.take(s1.len() as int) == s1,
    ensures
        spec_line_width(font, s1, gap) <= spec_line_width(font, s2, gap),
    decreases s2.len(),
{
    if s2.len() > s1.len() {
        assert(s2.drop_last().take(s1.len() as int) =~= s1);
        lemma_line_width_prefix(font, s1, s2.drop_last(), gap);
    } else {
        assert(s2.take(s1.len() as int) =~= s2);
    }
}

/// A panel must cover at least as many pixels, so it needs at least as
/// many tile units.
pub proof fn lemma_units_monotonic(px1: nat, px2: nat, unit: nat)
    requires
        unit >= 1,
        px1 <= px2,
    ensures
        spec_units(px1, unit) <= spec_units(px2, unit),
{
    vstd::arithmetic::div_mod::lemma_div_is_ordered(px1 as int, px2 as int, unit as int);
    vstd::arithmetic::div_mod::lemma_fundamental_div_mod(px1 as int, unit as int);
    vstd::arithmetic::div_mod::lemma_fundamental_div_mod(px2 as int, unit as int);
    if px1 / unit == px2 / unit && px1 % unit > 0 {
        assert(px2 % unit > 0);
    }
}

/// Lines that are pointwise at least as wide have an at least as wide
/// widest line.
pub proof fn lemma_max_width_pointwise<F: UiFont>(
    font: &F,
    l1: Seq<Seq<char>>,
    l2: Seq<Seq<char>>,
    gap: u32,
)
    requires
        l1.len() == l2.len(),
        forall|j: int|
            0 <= j < l1.len() ==> spec_line_width(font, #[trigger] l1[j], gap) <= spec_line_width(
                font,
                l2[j],
                gap,
            ),
    ensures
        spec_max_line_width(font, l1, gap) <= spec_max_line_width(font, l2, gap),
    decreases l1.len(),
{
    if l1.len() > 0 {
        assert forall|j: int|
            0 <= j < l1.drop_last().len() implies spec_line_width(
            font,
            #[trigger] l1.drop_last()[j],
            gap,
        ) <= spec_line_width(font, l2.drop_last()[j], gap) by {
            assert(l1.drop_last()[j] == l1[j]);
            assert(l2.drop_last()[j] == l2[j]);
        }
        lemma_max_width_pointwise(font, l1.drop_last(), l2.drop_last(), gap);
        assert(l1.last() == l1[l1.len() - 1]);
        assert(l2.last() == l2[l2.len() - 1]);
    }
}

/// Making one line of a panel longer, keeping the others, cannot
/// shrink the computed panel width.
pub proof fn lemma_box_width_monotonic<F: UiFont, B: UiBox>(
    font: &F,
    ui_box: &B,
    lines1: Seq<Seq<char>>,
    lines2: Seq<Seq<char>>,
    gap: u32,
    i: int,
)
    requires
        ui_box.spec_unit() >= 1,
        lines1.len() == lines2.len(),
        0 <= i < lines1.len(),
        forall|j: int| 0 <= j < lines1.len() && j != i ==> lines1[j] == #[trigger] lines2[j],
        lines1[i].len() <= lines2[i].len(),
        lines2[i].take(lines1[i].len() as int) == lines1[i],
    ensures
        spec_box_bounds(font, ui_box, lines1, gap).0 <= spec_box_bounds(font, ui_box, lines2, gap).0,
        cap_u64(spec_box_bounds(font, ui_box, lines1, gap).0) <= cap_u64(
            spec_box_bounds(font, ui_box, lines2, gap).0,
        ),
{
    lemma_line_width_prefix(font, lines1[i], lines2[i], gap);
    lemma_max_width_pointwise(font, lines1, lines2, gap);
    lemma_units_monotonic(
        spec_max_line_width(font, lines1, gap),
        spec_max_line_width(font, lines2, gap),
        ui_box.spec_unit() as nat,
    );
}

/// Adding a line to a panel cannot shrink the computed panel height.
pub proof fn lemma_box_height_monotonic<F: UiFont, B: UiBox>(
    font: &F,
    ui_box: &B,
    lines: Seq<Seq<char>>,
    line: Seq<char>,
    gap: u32,
)
    requires
        ui_box.spec_unit() >= 1,
        font.spec_glyph(' ') is Some,
        lines.len() >= 1,
    ensures
        spec_box_bounds(font, ui_box, lines, gap).1 <= spec_box_bounds(
            font,
            ui_box,
            lines.push(line),
            gap,
        ).1,
        cap_u64(spec_box_bounds(font, ui_box, lines, gap).1) <= cap_u64(
            spec_box_bounds(font, ui_box, lines.push(line), gap).1,
        ),
{
    let fy = match font.spec_glyph(' ') {
        Some(t) => t.size.1 as nat,
        None => 0,
    };
    let n = lines.len();
    vstd::arithmetic::mul::lemma_mul_is_distributive_add(fy as int, n as int, 1);
    vstd::arithmetic::mul::lemma_mul_is_distributive_add((fy / 4) as int, n as int - 1, 1);
    assert(spec_text_height(fy, n) <= spec_text_height(fy, (n + 1) as nat));
    lemma_units_monotonic(
        spec_text_height(fy, n),
        spec_text_height(fy, (n + 1) as nat),
        ui_box.spec_unit() as nat,
    );
}

/// A panel whose text is exactly `k` units wide gets exactly the two
/// border units; one pixel more costs exactly one further unit.
pub proof fn lemma_box_width_round_trip(k: nat, u: nat)
    requires
        u >= 1,
    ensures
        spec_units(k * u, u) == k + 2,
        spec_units((k * u + 1) as nat, u) == k + 3,
        k + 2 <= u64::MAX ==> cap_u64(spec_units(k * u, u)) == k + 2,
        k + 3 <= u64::MAX ==> cap_u64(spec_units((k * u + 1) as nat, u)) == k + 3,
{
    vstd::arithmetic::div_mod::lemma_fundamental_div_mod_converse(
        k * u as int,
        u as int,
        k as int,
        0,
    );
    if u == 1 {
        vstd::arithmetic::div_mod::lemma_fundamental_div_mod_converse(
            k * u as int + 1,
            u as int,
            k as int + 1,
            0,
        );
    } else {
        vstd::arithmetic::div_mod::lemma_fundamental_div_mod_converse(
            k * u as int + 1,
            u as int,
            k as int,
            1,
        );
    }
}

/// Tile units covering `px` pixels plus the border, capped at
/// `u64::MAX`.
fn units_for(px: u128, unit: u128) -> (units: u64)
    requires
        unit >= 1,
        px + 3 <= u128::MAX,
    ensures
        units == cap_u64(spec_units(px as nat, unit as nat)),
{
    let base = px / unit + 2 + if px % unit > 0 {
        1
    } else {
        0
    };
    if base > u64::MAX as u128 {
        u64::MAX
    } else {
        base as u64
    }
}

/// The commands that lay `s` out left to right from `(x, y)`: each
/// glyph tile at the cursor, which then advances by the glyph's width
/// plus the gap.
pub open spec fn spec_line_cmds<F: UiFont>(
    font: &F,
    s: Seq<char>,
    x: int,
    y: int,
    gap: u32,
) -> Seq<UiCmd>
    decreases s.len(),
{
    if s.len() == 0 {
        Seq::empty()
    } else {
        match font.spec_glyph(s[0]) {
            Some(t) => seq![spec_tile_cmd(t, (x, y))] + spec_line_cmds(
                font,
                s.drop_first(),
                x + t.size.0 + gap,
                y,
                gap,
            ),
            None => Seq::empty(),
        }
    }
}

/// Lay one line of text out from `coords`, glyph tile by glyph tile.
pub fn draw_line<F: UiFont>(font: &F, coords: (i64, i64), text: &str, gap: u32) -> (cmds: Vec<
    UiCmd,
>)
    requires
        renderable(font, text@),
        coords.0 + spec_line_width(font, text@, gap) <= i64::MAX,
    ensures
        cmds@ == spec_line_cmds(font, text@, coords.0 as int, coords.1 as int, gap),
{
    let n: usize = text.unicode_len();
    let mut cmds: Vec<UiCmd> = Vec::new();
    let mut cx: i64 = coords.0;
    let mut i: usize = 0;
    proof {
        assert(text@.skip(0) =~= text@);
        assert(cmds@ + spec_line_cmds(font, text@, coords.0 as int, coords.1 as int, gap)
            =~= spec_line_cmds(font, text@, coords.0 as int, coords.1 as int, gap));
    }
    while i < n
        invariant
            renderable(font, text@),
            n == text@.len(),
            0 <= i <= n,
            cx == coords.0 + spec_line_width(font, text@.take(i as int), gap),
            coords.0 + spec_line_width(font, text@, gap) <= i64::MAX,
            spec_line_cmds(font, text@, coords.0 as int, coords.1 as int, gap) == cmds@
                + spec_line_cmds(font, text@.skip(i as int), cx as int, coords.1 as int, gap),
        decreases n - i,
    {
        let c = text.get_char(i);
        let tile: &SpriteTile = match font.sprite_for(c) {
            Some(t) => t,
            None => vstd::pervasive::unreached(),
        };
        proof {
            assert(text@.take(i as int + 1).drop_last() =~= text@.take(i as int));
            assert(text@.take(i as int + 1).last() == text@[i as int]);
            lemma_line_width_prefix_of_whole(font, text@, i as int + 1, gap);
            assert(text@.skip(i as int).drop_first() =~= text@.skip(i as int + 1));
            assert(text@.skip(i as int)[0] == text@[i as int]);
        }
        let cmd = tile_cmd(tile, (cx, coords.1));
        cmds.push(cmd);
        cx = cx + (tile.size.0 as i64 + gap as i64);
        i = i + 1;
        proof {
            assert(cmds@ + spec_line_cmds(
                font,
                text@.skip(i as int),
                cx as int,
                coords.1 as int,
                gap,
            ) =~= spec_line_cmds(font, text@, coords.0 as int, coords.1 as int, gap));
        }
    }
    proof {
        assert(text@.skip(n as int) =~= Seq::<char>::empty());
        assert(cmds@ + Seq::<UiCmd>::empty() =~= cmds@);
    }
    cmds
}

/// The top/bottom edge tile pairs of a box `w` units wide: one pair
/// for every unit strictly between the two corners.
pub open spec fn spec_top_bottom_cmds<B: UiBox>(b: &B, x: int, y: int, w: int, h: int) -> Seq<
    UiCmd,
> {
    let u = b.spec_unit() as int;
    Seq::new(
        if w >= 2 {
            (2 * (w - 2)) as nat
        } else {
            0nat
        },
        |k: int|
            if k % 2 == 0 {
                spec_tile_cmd_scaled(b.spec_top(), (x + u * (1 + k / 2), y), (b.spec_unit(), b.spec_unit()))
            } else {
                spec_tile_cmd_scaled(
                    b.spec_bottom(),
                    (x + u * (1 + k / 2), y + u * (h - 1)),
                    (b.spec_unit(), b.spec_unit()),
                )
            },
    )
}

/// The left/right edge tile pairs of a box `h` units high: one pair
/// for every unit strictly between the two corners.
pub open spec fn spec_left_right_cmds<B: UiBox>(b: &B, x: int, y: int, w: int, h: int) -> Seq<
    UiCmd,
> {
    let u = b.spec_unit() as int;
    Seq::new(
        if h >= 2 {
            (2 * (h - 2)) as nat
        } else {
            0nat
        },
        |k: int|
            if k % 2 == 0 {
                spec_tile_cmd_scaled(b.spec_left(), (x, y + u * (1 + k / 2)), (b.spec_unit(), b.spec_unit()))
            } else {
                spec_tile_cmd_scaled(
                    b.spec_right(),
                    (x + u * (w - 1), y + u * (1 + k / 2)),
                    (b.spec_unit(), b.spec_unit()),
                )
            },
    )
}

/// The commands that draw a bordered panel of `w` by `h` tile units at
/// `(x, y)`: the filled background, the four corners, then the edge
/// tiles between them, top/bottom pairs first, left/right pairs after.
pub open spec fn spec_box_cmds<B: UiBox>(
    b: &B,
    x: int,
    y: int,
    w: int,
    h: int,
    bg: (u8, u8, u8),
) -> Seq<UiCmd> {
    let u = b.spec_unit() as int;
    seq![
        UiCmd::SetDrawColor { rgb: bg },
        UiCmd::FillRect { origin: (x as i64, y as i64), size: ((w * u) as u64, (h * u) as u64) },
        spec_tile_cmd_scaled(b.spec_ul(), (x, y), (b.spec_unit(), b.spec_unit())),
        spec_tile_cmd_scaled(b.spec_ur(), (x + u * (w - 1), y), (b.spec_unit(), b.spec_unit())),
        spec_tile_cmd_scaled(b.spec_ll(), (x, y + u * (h - 1)), (b.spec_unit(), b.spec_unit())),
        spec_tile_cmd_scaled(
            b.spec_lr(),
            (x + u * (w - 1), y + u * (h - 1)),
            (b.spec_unit(), b.spec_unit()),
        ),
    ] + spec_top_bottom_cmds(b, x, y, w, h) + spec_left_right_cmds(b, x, y, w, h)
}

/// Draw a bordered panel sized in tile units: background rectangle,
/// corner tiles, and edge tiles repeated at unit stride between the
/// corners, every border tile scaled to one tile unit.
pub fn draw_box<B: UiBox>(
    ui_box: &B,
    coords: (i64, i64),
    size_in_units: (u64, u64),
    bg_color: (u8, u8, u8),
) -> (cmds: Vec<UiCmd>)
    requires
        ui_box.spec_unit() >= 1,
        size_in_units.0 >= 1,
        size_in_units.1 >= 1,
        size_in_units.0 * ui_box.spec_unit() <= u64::MAX,
        size_in_units.1 * ui_box.spec_unit() <= u64::MAX,
        coords.0 + size_in_units.0 * ui_box.spec_unit() <= i64::MAX,
        coords.1 + size_in_units.1 * ui_box.spec_unit() <= i64::MAX,
    ensures
        cmds@ == spec_box_cmds(
            ui_box,
            coords.0 as int,
            coords.1 as int,
            size_in_units.0 as int,
            size_in_units.1 as int,
            bg_color,
        ),
{
    let (x, y) = coords;
    let (w, h) = size_in_units;
    let u = ui_box.unit_size();
    let ghost sp = spec_box_cmds(ui_box, x as int, y as int, w as int, h as int, bg_color);
    proof {
        vstd::arithmetic::mul::lemma_mul_inequality(w as int - 1, w as int, u as int);
        vstd::arithmetic::mul::lemma_mul_inequality(h as int - 1, h as int, u as int);
    }
    let edge_x: u64 = (w - 1) * u;
    let edge_y: u64 = (h - 1) * u;
    let ur_x: i64 = ((x as i128) + (edge_x as i128)) as i64;
    let ll_y: i64 = ((y as i128) + (edge_y as i128)) as i64;
    let mut cmds: Vec<UiCmd> = Vec::new();
    cmds.push(UiCmd::SetDrawColor { rgb: bg_color });
    cmds.push(UiCmd::FillRect { origin: (x, y), size: (w * u, h * u) });
    let c_ul = tile_cmd_scaled(ui_box.get_ul_corner(), (x, y), (u, u));
    cmds.push(c_ul);
    let c_ur = tile_cmd_scaled(ui_box.get_ur_corner(), (ur_x, y), (u, u));
    cmds.push(c_ur);
    let c_ll = tile_cmd_scaled(ui_box.get_ll_corner(), (x, ll_y), (u, u));
    cmds.push(c_ll);
    let c_lr = tile_cmd_scaled(ui_box.get_lr_corner(), (ur_x, ll_y), (u, u));
    cmds.push(c_lr);
    proof {
        assert(cmds@ =~= sp.take(6));
    }
    if w >= 2 {
        let top_count = w - 2;
        let mut i: u64 = 0;
        while i < top_count
            invariant
                ui_box.spec_unit() == u,
                2 <= w <= u64::MAX,
                top_count == w - 2,
                0 <= i <= top_count,
                w * u <= u64::MAX,
                x + w * u <= i64::MAX,
                ll_y == y + (h - 1) * u,
                sp == spec_box_cmds(
                    ui_box,
                    x as int,
                    y as int,
                    w as int,
                    h as int,
                    bg_color,
                ),
                cmds@ == sp.take(6 + 2 * (i as int)),
            decreases top_count - i,
        {
            proof {
                vstd::arithmetic::mul::lemma_mul_inequality(
                    1 + i as int,
                    w as int,
                    u as int,
                );
                assert((1 + i as int) * (u as int) <= (w as int) * (u as int));
                assert((u as int) * (1 + i as int) <= u64::MAX);
                assert(sp.take(6 + 2 * (i as int) + 1) =~= sp.take(6 + 2 * (i as int)).push(
                    sp[6 + 2 * (i as int)],
                ));
                assert(sp.take(6 + 2 * (i as int) + 2) =~= sp.take(6 + 2 * (i as int) + 1).push(
                    sp[6 + 2 * (i as int) + 1],
                ));
                assert((2 * (i as int)) / 2 == i as int);
                assert((2 * (i as int) + 1) / 2 == i as int);
            }
            let tb_x: i64 = ((x as i128) + (u as i128) * ((1 + i) as i128)) as i64;
            let c_top = tile_cmd_scaled(ui_box.get_top(), (tb_x, y), (u, u));
            cmds.push(c_top);
            let c_bottom = tile_cmd_scaled(ui_box.get_bottom(), (tb_x, ll_y), (u, u));
            cmds.push(c_bottom);
            i = i + 1;
        }
    }
    let ghost tcount: int = if w >= 2 {
        2 * (w - 2)
    } else {
        0
    };
    proof {
        assert(cmds@ == sp.take(6 + tcount));
    }
    if h >= 2 {
        let side_count = h - 2;
        let mut i: u64 = 0;
        while i < side_count
            invariant
                ui_box.spec_unit() == u,
                2 <= h <= u64::MAX,
                side_count == h - 2,
                0 <= i <= side_count,
                h * u <= u64::MAX,
                y + h * u <= i64::MAX,
                ur_x == x + (w - 1) * u,
                tcount == if w >= 2 {
                    2 * (w as int - 2)
                } else {
                    0
                },
                sp == spec_box_cmds(
                    ui_box,
                    x as int,
                    y as int,
                    w as int,
                    h as int,
                    bg_color,
                ),
                cmds@ == sp.take(6 + tcount + 2 * (i as int)),
            decreases side_count - i,
        {
            proof {
                vstd::arithmetic::mul::lemma_mul_inequality(
                    1 + i as int,
                    h as int,
                    u as int,
                );
                assert((1 + i as int) * (u as int) <= (h as int) * (u as int));
                assert((u as int) * (1 + i as int) <= u64::MAX);
                assert(sp.take(6 + tcount + 2 * (i as int) + 1) =~= sp.take(
                    6 + tcount + 2 * (i as int),
                ).push(sp[6 + tcount + 2 * (i as int)]));
                assert(sp.take(6 + tcount + 2 * (i as int) + 2) =~= sp.take(
                    6 + tcount + 2 * (i as int) + 1,
                ).push(sp[6 + tcount + 2 * (i as int) + 1]));
                assert((2 * (i as int)) / 2 == i as int);
                assert((2 * (i as int) + 1) / 2 == i as int);
            }
            let lr_y: i64 = ((y as i128) + (u as i128) * ((1 + i) as i128)) as i64;
            let c_left = tile_cmd_scaled(ui_box.get_left(), (x, lr_y), (u, u));
            cmds.push(c_left);
            let c_right = tile_cmd_scaled(ui_box.get_right(), (ur_x, lr_y), (u, u));
            cmds.push(c_right);
            i = i + 1;
        }
    }
    proof {
        assert(cmds@ =~= sp);
    }
    cmds
}

/// A prefix of a line is never wider than the whole line.
proof fn lemma_line_width_prefix_of_whole<F: UiFont>(font: &F, s: Seq<char>, i: int, gap: u32)
    requires
        0 <= i <= s.len(),
    ensures
        spec_line_width(font, s.take(i), gap) <= spec_line_width(font, s, gap),
{
    assert(s.take(s.len() as int) =~= s);
    lemma_line_width_prefix(font, s.take(i), s, gap);
    assert(s.take(i).len() == i);
}

/// A font backed by an explicit glyph table: the first entry for a
/// character is its tile, and all tiles live on one sheet.
pub struct TableFont {
    pub sheet: String,
    pub glyphs: Vec<(char, SpriteTile)>,
}

impl TableFont {
    /// The first tile listed for `c`, if any.
    pub open spec fn spec_lookup(glyphs: Seq<(char, SpriteTile)>, c: char) -> Option<SpriteTile>
        decreases glyphs.len(),
    {
        if glyphs.len() == 0 {
            None
        } else if glyphs[0].0 == c {
            Some(glyphs[0].1)
        } else {
            TableFont::spec_lookup(glyphs.drop_first(), c)
        }
    }
}

impl UiFont for TableFont {
    open spec fn spec_glyph(&self, c: char) -> Option<SpriteTile> {
        TableFont::spec_lookup(self.glyphs@, c)
    }

    open spec fn spec_sheet(&self) -> Seq<char> {
        self.sheet@
    }

    fn get_sheet(&self) -> (s: String) {
        self.sheet.clone()
    }

    fn sprite_for(&self, c: char) -> (r: Option<&SpriteTile>) {
        let n: usize = self.glyphs.len();
        let mut i: usize = 0;
        proof {
            assert(self.glyphs@.skip(0) =~= self.glyphs@);
        }
        while i < n
            invariant
                n == self.glyphs@.len(),
                0 <= i <= n,
                TableFont::spec_lookup(self.glyphs@, c) == TableFont::spec_lookup(
                    self.glyphs@.skip(i as int),
                    c,
                ),
            decreases n - i,
        {
            proof {
                assert(self.glyphs@.skip(i as int)[0] == self.glyphs@[i as int]);
                assert(self.glyphs@.skip(i as int).drop_first() =~= self.glyphs@.skip(
                    i as int + 1,
                ));
            }
            if self.glyphs[i].0 == c {
                return Some(&self.glyphs[i].1);
            }
            i = i + 1;
        }
        proof {
            assert(self.glyphs@.skip(n as int) =~= Seq::<(char, SpriteTile)>::empty());
        }
        None
    }
}

/// A box style holding its unit size and one tile for each of the
/// eight border pieces, all on one sheet.
pub struct TileSetBox {
    pub sheet: String,
    pub unit: u64,
    pub ul: SpriteTile,
    pub ur: SpriteTile,
    pub ll: SpriteTile,
    pub lr: SpriteTile,
    pub top: SpriteTile,
    pub bottom: SpriteTile,
    pub left: SpriteTile,
    pub right: SpriteTile,
}

impl UiBox for TileSetBox {
    open spec fn spec_unit(&self) -> u64 {
        self.unit
    }

    open spec fn spec_sheet(&self) -> Seq<char> {
        self.sheet@
    }

    open spec fn spec_ul(&self) -> SpriteTile {
        self.ul
    }

    open spec fn spec_ur(&self) -> SpriteTile {
        self.ur
    }

    open spec fn spec_ll(&self) -> SpriteTile {
        self.ll
    }

    open spec fn spec_lr(&self) -> SpriteTile {
        self.lr
    }

    open spec fn spec_top(&self) -> SpriteTile {
        self.top
    }

    open spec fn spec_bottom(&self) -> SpriteTile {
        self.bottom
    }

    open spec fn spec_left(&self) -> SpriteTile {
        self.left
    }

    open spec fn spec_right(&self) -> SpriteTile {
        self.right
    }

    fn unit_size(&self) -> (u: u64) {
        self.unit
    }

    fn get_sheet(&self) -> (s: String) {
        self.sheet.clone()
    }

    fn get_ul_corner(&self) -> (t: &SpriteTile) {
        &self.ul
    }

    fn get_ur_corner(&self) -> (t: &SpriteTile) {
        &self.ur
    }

    fn get_ll_corner(&self) -> (t: &SpriteTile) {
        &self.ll
    }

    fn get_lr_corner(&self) -> (t: &SpriteTile) {
        &self.lr
    }

    fn get_top(&self) -> (t: &SpriteTile) {
        &self.top
    }

    fn get_bottom(&self) -> (t: &SpriteTile) {
        &self.bottom
    }

    fn get_left(&self) -> (t: &SpriteTile) {
        &self.left
    }

    fn get_right(&self) -> (t: &SpriteTile) {
        &self.right
    }
}

/// The commands of a column of text lines starting at `(x, y)`, each
/// line `stride` pixels below the one before.
pub open spec fn spec_text_lines_cmds<F: UiFont>(
    font: &F,
    lines: Seq<Seq<char>>,
    x: int,
    y: int,
    stride: int,
    gap: u32,
) -> Seq<UiCmd>
    decreases lines.len(),
{
    if lines.len() == 0 {
        Seq::empty()
    } else {
        spec_line_cmds(font, lines[0], x, y, gap) + spec_text_lines_cmds(
            font,
            lines.drop_first(),
            x,
            y + stride,
            stride,
            gap,
        )
    }
}

/// All commands of a text box: the bordered panel, then each line one
/// unit in from the panel's top-left corner, successive lines one unit
/// plus a quarter unit further down.
pub open spec fn spec_text_box_cmds<F: UiFont, B: UiBox>(
    font: &F,
    b: &B,
    x: int,
    y: int,
    w: int,
    h: int,
    bg: (u8, u8, u8),
    lines: Seq<Seq<char>>,
    gap: u32,
) -> Seq<UiCmd> {
    let u = b.spec_unit() as int;
    spec_box_cmds(b, x, y, w, h, bg) + spec_text_lines_cmds(
        font,
        lines,
        x + u,
        y + u,
        u + u / 4,
        gap,
    )
}

/// Draw a bordered panel and lay the text lines out inside it. The
/// panel height is not checked against the line count: that is the
/// caller's bargain, exactly as the drawn command list shows.
pub fn draw_text_box<F: UiFont, B: UiBox>(
    coords: (i64, i64),
    size_in_units: (u64, u64),
    bg_color: (u8, u8, u8),
    lines: &Vec<String>,
    ux_font: &F,
    ux_box: &B,
    gap: u32,
) -> (cmds: Vec<UiCmd>)
    requires
        ux_box.spec_unit() >= 1,
        size_in_units.0 >= 1,
        size_in_units.1 >= 1,
        size_in_units.0 * ux_box.spec_unit() <= u64::MAX,
        size_in_units.1 * ux_box.spec_unit() <= u64::MAX,
        coords.0 + size_in_units.0 * ux_box.spec_unit() <= i64::MAX,
        coords.1 + size_in_units.1 * ux_box.spec_unit() <= i64::MAX,
        forall|i: int| 0 <= i < lines@.len() ==> renderable(ux_font, (#[trigger] lines@[i])@),
        forall|i: int|
            0 <= i < lines@.len() ==> coords.0 + ux_box.spec_unit() + spec_line_width(
                ux_font,
                (#[trigger] lines@[i])@,
                gap,
            ) <= i64::MAX,
        coords.1 + ux_box.spec_unit() + lines@.len() * (
        ux_box.spec_unit() + ux_box.spec_unit() / 4) <= i64::MAX,
    ensures
        cmds@ == spec_text_box_cmds(
            ux_font,
            ux_box,
            coords.0 as int,
            coords.1 as int,
            size_in_units.0 as int,
            size_in_units.1 as int,
            bg_color,
            lines.deep_view(),
            gap,
        ),
{
    let ghost full = spec_text_box_cmds(
        ux_font,
        ux_box,
        coords.0 as int,
        coords.1 as int,
        size_in_units.0 as int,
        size_in_units.1 as int,
        bg_color,
        lines.deep_view(),
        gap,
    );
    let mut cmds = draw_box(ux_box, coords, size_in_units, bg_color);
    let u = ux_box.unit_size();
    let start_x: i128 = coords.0 as i128 + u as i128;
    let mut curr_y: i128 = coords.1 as i128 + u as i128;
    let stride: i128 = u as i128 + (u / 4) as i128;
    let n: usize = lines.len();
    let mut i: usize = 0;
    proof {
        assert(lines.deep_view().skip(0) =~= lines.deep_view());
        assert(cmds@ + spec_text_lines_cmds(
            ux_font,
            lines.deep_view(),
            start_x as int,
            curr_y as int,
            stride as int,
            gap,
        ) =~= full);
    }
    while i < n
        invariant
            n == lines@.len(),
            0 <= i <= n,
            ux_box.spec_unit() == u,
            u >= 1,
            start_x == coords.0 + u,
            stride == u + u / 4,
            curr_y == coords.1 + u + i * stride,
            forall|j: int| 0 <= j < lines@.len() ==> renderable(ux_font, (#[trigger] lines@[j])@),
            forall|j: int|
                0 <= j < lines@.len() ==> coords.0 + u + spec_line_width(
                    ux_font,
                    (#[trigger] lines@[j])@,
                    gap,
                ) <= i64::MAX,
            coords.1 + u + n * stride <= i64::MAX,
            full == spec_text_box_cmds(
                ux_font,
                ux_box,
                coords.0 as int,
                coords.1 as int,
                size_in_units.0 as int,
                size_in_units.1 as int,
                bg_color,
                lines.deep_view(),
                gap,
            ),
            cmds@ + spec_text_lines_cmds(
                ux_font,
                lines.deep_view().skip(i as int),
                start_x as int,
                curr_y as int,
                stride as int,
                gap,
            ) == full,
        decreases n - i,
    {
        proof {
            vstd::arithmetic::mul::lemma_mul_inequality(i as int, n as int, stride as int);
            vstd::arithmetic::mul::lemma_mul_inequality(i as int + 1, n as int, stride as int);
            vstd::arithmetic::mul::lemma_mul_is_distributive_add_other_way(
                stride as int,
                i as int,
                1,
            );
            assert((i as int + 1) * (stride as int) == i as int * (stride as int) + stride as int);
            assert(lines.deep_view().skip(i as int)[0] == lines@[i as int]@);
            assert(lines.deep_view().skip(i as int).drop_first() =~= lines.deep_view().skip(
                i as int + 1,
            ));
        }
        let l_coords = (start_x as i64, curr_y as i64);
        let mut line_cmds = draw_line(ux_font, l_coords, lines[i].as_str(), gap);
        cmds.append(&mut line_cmds);
        curr_y = curr_y + stride;
        i = i + 1;
        proof {
            assert(cmds@ + spec_text_lines_cmds(
                ux_font,
                lines.deep_view().skip(i as int),
                start_x as int,
                curr_y as int,
                stride as int,
                gap,
            ) =~= full);
        }
    }
    proof {
        assert(lines.deep_view().skip(n as int) =~= Seq::<Seq<char>>::empty());
        assert(cmds@ + Seq::<UiCmd>::empty() =~= cmds@);
    }
    cmds
}

} // verus!
