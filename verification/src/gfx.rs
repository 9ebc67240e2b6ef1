//! The drawing model: sprite tiles and the render commands that the
//! platform shell executes each frame.
use vstd::prelude::*;

verus! {

/// A named rectangular region of a loaded texture sheet: source origin
/// and tile size, both in pixels.
#[derive(Debug, PartialEq, Eq)]
pub struct SpriteTile {
    /// Name of the sheet the tile lives on.
    pub sheet: String,
    /// Pixel origin of the tile on its sheet.
    pub coords: (u32, u32),
    /// Pixel size of the tile.
    pub size: (u32, u32),
}

impl SpriteTile {
    /// A copy of this tile with the same sheet, origin and size.
    pub fn duplicate(&self) -> (t: SpriteTile)
        ensures
            t == *self,
    {
        SpriteTile { sheet: self.sheet.clone(), coords: self.coords, size: self.size }
    }
}

/// One render command. The verified layer only produces these; the
/// platform shell interprets them against the real window.
#[derive(Debug, PartialEq, Eq)]
pub enum UiCmd {
    /// Select the colour used by `Clear` and `FillRect`.
    SetDrawColor { rgb: (u8, u8, u8) },
    /// Clear the whole target with the draw colour.
    Clear,
    /// Fill the axis-aligned rectangle at `origin` of `size` pixels
    /// with the draw colour.
    FillRect { origin: (i64, i64), size: (u64, u64) },
    /// Blit the source rectangle `src_coords`/`src_size` of the sheet
    /// named `sheet` to `dst` on screen, scaled to `dst_size`.
    Tile { sheet: String, src_coords: (u32, u32), src_size: (u32, u32), dst: (i64, i64), dst_size: (u64, u64) },
    /// Enter the platform's native text-input mode.
    StartTextInput,
    /// Leave the platform's native text-input mode.
    StopTextInput,
}

/// An entity drawn as a set of sprite tiles laid out on a grid.
pub trait DrawableItem {
    /// The tiles to draw, in draw order.
    fn get_sprites(&self) -> &Vec<SpriteTile>;
}

/// The commands drawing `sprites` at `base`, each tile shifted by the
/// grid `offset` scaled by that tile's own size.
pub open spec fn spec_item_cmds(
    sprites: Seq<SpriteTile>,
    base: (int, int),
    offset: (int, int),
) -> Seq<UiCmd> {
    Seq::new(
        sprites.len(),
        |i: int|
            spec_tile_cmd(
                sprites[i],
                (
                    base.0 + offset.0 * sprites[i].size.0,
                    base.1 + offset.1 * sprites[i].size.1,
                ),
            ),
    )
}

/// Draw a set of sprite tiles at a base position plus a tile-grid
/// offset: each tile lands at the base shifted by the offset scaled
/// by that tile's own size.
pub fn draw_tiles(sprites: &Vec<SpriteTile>, base: (i64, i64), offset: (i64, i64)) -> (cmds: Vec<
    UiCmd,
>)
    requires
        forall|i: int|
            0 <= i < sprites@.len() ==> i64::MIN <= base.0 + offset.0 * (
            #[trigger] sprites@[i]).size.0 <= i64::MAX,
        forall|i: int|
            0 <= i < sprites@.len() ==> i64::MIN <= base.1 + offset.1 * (
            #[trigger] sprites@[i]).size.1 <= i64::MAX,
    ensures
        cmds@ == spec_item_cmds(sprites@, (base.0 as int, base.1 as int), (
            offset.0 as int,
            offset.1 as int,
        )),
{
    let ghost sp = spec_item_cmds(sprites@, (base.0 as int, base.1 as int), (
        offset.0 as int,
        offset.1 as int,
    ));
    let n: usize = sprites.len();
    let mut cmds: Vec<UiCmd> = Vec::new();
    let mut i: usize = 0;
    while i < n
        invariant
            n == sprites@.len(),
            0 <= i <= n,
            forall|j: int|
                0 <= j < sprites@.len() ==> i64::MIN <= base.0 + offset.0 * (
                #[trigger] sprites@[j]).size.0 <= i64::MAX,
            forall|j: int|
                0 <= j < sprites@.len() ==> i64::MIN <= base.1 + offset.1 * (
                #[trigger] sprites@[j]).size.1 <= i64::MAX,
            sp == spec_item_cmds(sprites@, (base.0 as int, base.1 as int), (
                offset.0 as int,
                offset.1 as int,
            )),
            cmds@ == sp.take(i as int),
        decreases n - i,
    {
        let st = &sprites[i];
        proof {
            assert(-0x8000_0000_0000_0000_0000_0000int <= (offset.0 as int) * (st.size.0 as int)
                <= 0x8000_0000_0000_0000_0000_0000int && -0x8000_0000_0000_0000_0000_0000int <= (
            offset.1 as int) * (st.size.1 as int)
                <= 0x8000_0000_0000_0000_0000_0000int) by (nonlinear_arith)
                requires
                    i64::MIN <= offset.0 <= i64::MAX,
                    i64::MIN <= offset.1 <= i64::MAX,
                    0 <= st.size.0 <= u32::MAX,
                    0 <= st.size.1 <= u32::MAX,
            ;
            assert(sp.take(i as int + 1) =~= sp.take(i as int).push(sp[i as int]));
        }
        let sx: i64 = ((base.0 as i128) + (offset.0 as i128) * (st.size.0 as i128)) as i64;
        let sy: i64 = ((base.1 as i128) + (offset.1 as i128) * (st.size.1 as i128)) as i64;
        let cmd = tile_cmd(st, (sx, sy));
        cmds.push(cmd);
        i = i + 1;
    }
    proof {
        assert(sp.take(n as int) =~= sp);
    }
    cmds
}

/// The command blitting `tile` at `dst`, scaled to `dst_size`.
pub open spec fn spec_tile_cmd_scaled(tile: SpriteTile, dst: (int, int), dst_size: (u64, u64)) -> UiCmd {
    UiCmd::Tile {
        sheet: tile.sheet,
        src_coords: tile.coords,
        src_size: tile.size,
        dst: (dst.0 as i64, dst.1 as i64),
        dst_size,
    }
}

/// The command blitting `tile` at `dst`, at the tile's own size.
pub open spec fn spec_tile_cmd(tile: SpriteTile, dst: (int, int)) -> UiCmd {
    spec_tile_cmd_scaled(tile, dst, (tile.size.0 as u64, tile.size.1 as u64))
}

/// Blit `tile` at `dst`, scaled to `dst_size`.
pub fn tile_cmd_scaled(tile: &SpriteTile, dst: (i64, i64), dst_size: (u64, u64)) -> (cmd: UiCmd)
    ensures
        cmd == spec_tile_cmd_scaled(*tile, (dst.0 as int, dst.1 as int), dst_size),
{
    UiCmd::Tile {
        sheet: tile.sheet.clone(),
        src_coords: tile.coords,
        src_size: tile.size,
        dst,
        dst_size,
    }
}

/// Blit `tile` at `dst`, at the tile's own size.
pub fn tile_cmd(tile: &SpriteTile, dst: (i64, i64)) -> (cmd: UiCmd)
    ensures
        cmd == spec_tile_cmd(*tile, (dst.0 as int, dst.1 as int)),
{
    tile_cmd_scaled(tile, dst, (tile.size.0 as u64, tile.size.1 as u64))
}

} // verus!
