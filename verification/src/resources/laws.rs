//! Global properties of the loader, stated and proved once for all inputs:
//! what a fully valid file yields, what a dropped declaration leaves behind,
//! how block-face overrides layer, and where a tile's UV bounds lie within
//! its grid cell.

use vstd::prelude::*;

use crate::resources::database::{Block, DbModel, TextureModel, UvCoord, name_lookup};
use crate::resources::loader::{
    KdlBlock, KdlTexture, KdlTile, apply_blocks, apply_textures, apply_tiles, block_accepted,
    block_value, lemma_apply_blocks_frame, lemma_apply_tiles_frame, lemma_uv_range,
    texture_accepted, texture_step, tile_accepted, tile_uv, tile_value,
};

verus! {

/// The texture entry an accepted declaration resolves to: the decoded
/// image's dimensions and pixels, and the declared tile grid.
pub open spec fn texture_value(decl: KdlTexture, file: Option<Vec<u8>>) -> TextureModel {
    texture_step(DbModel::empty(), decl, file).images.last()
}

/// A `textures` section whose declarations are all accepted appends exactly
/// one entry per declaration, in declaration order: the entry and the name
/// of declaration `i` stand at offset `i` behind what the model already
/// held, so in an empty database the handles are `0..N-1`.
pub proof fn lemma_textures_all_accepted(
    m: DbModel,
    decls: Seq<KdlTexture>,
    files: Seq<Option<Vec<u8>>>,
)
    requires
        files.len() == decls.len(),
        forall|i: int| 0 <= i < files.len() ==> texture_accepted(#[trigger] files[i]),
    ensures
        apply_textures(m, decls, files).images.len() == m.images.len() + decls.len(),
        apply_textures(m, decls, files).image_names.len() == m.image_names.len() + decls.len(),
        forall|i: int|
            0 <= i < decls.len() ==> apply_textures(m, decls, files).images[m.images.len() + i]
                == texture_value(#[trigger] decls[i], files[i]),
        forall|i: int|
            0 <= i < decls.len() ==> apply_textures(m, decls, files).image_names[m.image_names.len()
                + i] == (#[trigger] decls[i]).name@,
    decreases decls.len(),
{
    if decls.len() > 0 {
        lemma_textures_all_accepted(m, decls.drop_last(), files.drop_last());
        assert forall|i: int| 0 <= i < decls.len() - 1 implies decls.drop_last()[i] == decls[i]
            && files.drop_last()[i] == files[i] by {}
    }
}

/// A `tiles` section whose declarations are all accepted appends exactly one
/// entry per declaration, in declaration order: the tile and the name of
/// declaration `i` stand at offset `i` behind what the model already held,
/// so in a database with no prior tiles the handles are `0..N-1`.
pub proof fn lemma_tiles_all_accepted(m: DbModel, decls: Seq<KdlTile>)
    requires
        forall|i: int| 0 <= i < decls.len() ==> tile_accepted(m, #[trigger] decls[i]),
    ensures
        apply_tiles(m, decls).tiles.len() == m.tiles.len() + decls.len(),
        apply_tiles(m, decls).tile_names.len() == m.tile_names.len() + decls.len(),
        forall|i: int|
            0 <= i < decls.len() ==> apply_tiles(m, decls).tiles[m.tiles.len() + i] == tile_value(
                m,
                #[trigger] decls[i],
            ),
        forall|i: int|
            0 <= i < decls.len() ==> apply_tiles(m, decls).tile_names[m.tile_names.len() + i] == (
            #[trigger] decls[i]).name@,
    decreases decls.len(),
{
    if decls.len() > 0 {
        lemma_tiles_all_accepted(m, decls.drop_last());
        assert forall|i: int| 0 <= i < decls.len() - 1 implies decls.drop_last()[i] == decls[i] by {}
        lemma_apply_tiles_frame(m, decls.drop_last());
    }
}

/// A `blocks` section whose declarations are all accepted appends exactly
/// one entry per declaration, in declaration order: the block and the name
/// of declaration `i` stand at offset `i` behind what the model already
/// held, so in a database with no prior blocks the handles are `0..N-1`.
pub proof fn lemma_blocks_all_accepted(m: DbModel, decls: Seq<KdlBlock>)
    requires
        forall|i: int| 0 <= i < decls.len() ==> block_accepted(m, #[trigger] decls[i]),
    ensures
        apply_blocks(m, decls).blocks.len() == m.blocks.len() + decls.len(),
        apply_blocks(m, decls).block_names.len() == m.block_names.len() + decls.len(),
        forall|i: int|
            0 <= i < decls.len() ==> apply_blocks(m, decls).blocks[m.blocks.len() + i]
                == block_value(m, #[trigger] decls[i]),
        forall|i: int|
            0 <= i < decls.len() ==> apply_blocks(m, decls).block_names[m.block_names.len() + i]
                == (#[trigger] decls[i]).name@,
    decreases decls.len(),
{
    if decls.len() > 0 {
        lemma_blocks_all_accepted(m, decls.drop_last());
        assert forall|i: int| 0 <= i < decls.len() - 1 implies decls.drop_last()[i] == decls[i] by {}
        lemma_apply_blocks_frame(m, decls.drop_last());
    }
}

/// A tile declaration that is not accepted — in particular one naming a
/// texture that does not exist — contributes nothing: processing the
/// section yields exactly what processing it without that declaration
/// yields, so every other declaration is still resolved.
pub proof fn lemma_tile_dropped(m: DbModel, decls: Seq<KdlTile>, i: int)
    requires
        0 <= i < decls.len(),
        !tile_accepted(m, decls[i]),
    ensures
        apply_tiles(m, decls) == apply_tiles(m, decls.remove(i)),
    decreases decls.len(),
{
    lemma_apply_tiles_frame(m, decls.drop_last());
    if i == decls.len() - 1 {
        assert(decls.remove(i) =~= decls.drop_last());
    } else {
        lemma_tile_dropped(m, decls.drop_last(), i);
        assert(decls.remove(i).drop_last() =~= decls.drop_last().remove(i));
        assert(decls.remove(i).last() == decls.last());
    }
}

/// A block declaration that is not accepted — one with a face still unset
/// after all overrides — contributes nothing: processing the section yields
/// exactly what processing it without that declaration yields, so the block
/// is absent from the block arena and from its names, and every other
/// declaration is still resolved.
pub proof fn lemma_block_dropped(m: DbModel, decls: Seq<KdlBlock>, i: int)
    requires
        0 <= i < decls.len(),
        !block_accepted(m, decls[i]),
    ensures
        apply_blocks(m, decls) == apply_blocks(m, decls.remove(i)),
    decreases decls.len(),
{
    lemma_apply_blocks_frame(m, decls.drop_last());
    if i == decls.len() - 1 {
        assert(decls.remove(i) =~= decls.drop_last());
    } else {
        lemma_block_dropped(m, decls.drop_last(), i);
        assert(decls.remove(i).drop_last() =~= decls.drop_last().remove(i));
        assert(decls.remove(i).last() == decls.last());
    }
}

/// Override precedence: a block declared with `tiles` naming a tile with
/// handle `hx` and `top` naming a tile with handle `hy`, and nothing else,
/// resolves with its top face at `hy` and the other five faces at `hx`.
pub proof fn lemma_block_overrides(m: DbModel, b: KdlBlock, hx: usize, hy: usize)
    requires
        b.tiles matches Some(n) && name_lookup(m.tile_names, n@) == Some(hx as int),
        b.top matches Some(n) && name_lookup(m.tile_names, n@) == Some(hy as int),
        b.sides is None,
        b.front is None,
        b.back is None,
        b.left is None,
        b.right is None,
        b.bottom is None,
    ensures
        block_accepted(m, b),
        block_value(m, b) == (Block {
            front: hx,
            back: hx,
            left: hx,
            right: hx,
            top: hy,
            bottom: hx,
        }),
{
}

/// The cross-multiplied inequalities behind the half-texel inset, over the
/// plain integers of one axis.
proof fn lemma_inset_ineq(x: int, w: int, g: int)
    by (nonlinear_arith)
    requires
        0 <= x,
        0 < g < w,
    ensures
        x * (2 * g * w) < (2 * x * w + g) * g,
        (2 * x * w + g) * (2 * g * w) < (2 * (x + 1) * w - g) * (2 * g * w),
        (2 * (x + 1) * w - g) * g < (x + 1) * (2 * g * w),
{
}

/// Half-texel inset: for a texture whose grid cells are wider and taller
/// than one pixel, the UV rectangle a tile resolves to is strictly ordered
/// (`u0 < u1`, `v0 < v1`) and lies strictly inside its grid cell
/// `[x/gw, (x+1)/gw] x [y/gh, (y+1)/gh]`.  (In a grid with one-pixel cells,
/// `gw == w`, the inset collapses the rectangle: `u0 == u1`.)
pub proof fn lemma_uv_half_texel_inset(tex: TextureModel, x: usize, y: usize)
    requires
        0 < (tex.tile_grid_width as int) < tex.width as int,
        0 < (tex.tile_grid_height as int) < tex.height as int,
    ensures
        ({
            let uv = tile_uv(tex, x, y);
            let cell_u0 = UvCoord { num: x as i128, den: tex.tile_grid_width as i128 };
            let cell_u1 = UvCoord { num: (x + 1) as i128, den: tex.tile_grid_width as i128 };
            let cell_v0 = UvCoord { num: y as i128, den: tex.tile_grid_height as i128 };
            let cell_v1 = UvCoord { num: (y + 1) as i128, den: tex.tile_grid_height as i128 };
            &&& uv.0.0.lt(uv.1.0)
            &&& uv.0.1.lt(uv.1.1)
            &&& cell_u0.lt(uv.0.0)
            &&& uv.1.0.lt(cell_u1)
            &&& cell_v0.lt(uv.0.1)
            &&& uv.1.1.lt(cell_v1)
        }),
{
    let w = tex.width as int;
    let h = tex.height as int;
    let gw = tex.tile_grid_width as int;
    let gh = tex.tile_grid_height as int;
    lemma_uv_range(x as int, w, gw);
    lemma_uv_range(y as int, h, gh);
    lemma_inset_ineq(x as int, w, gw);
    lemma_inset_ineq(y as int, h, gh);
}

} // verus!
