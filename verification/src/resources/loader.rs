//! Processing of declarative resource files into a [`Database`].
//!
//! A resource file declares, in order, `textures` sections (atlas images with
//! a tile grid), `tiles` sections (named grid cells of an atlas) and `blocks`
//! sections (cubes whose six faces name tiles).  Reading the file and parsing
//! its concrete syntax happen outside this crate; the loader here receives
//! the typed section records together with the raw bytes of each declared
//! image file, and builds the database: it decodes images, resolves names to
//! handles, computes UV rectangles and applies block-face overrides.
//!
//! Failures are per entry: a declaration that cannot be resolved (missing or
//! undecodable image, unknown texture name, an unset block face) is dropped,
//! and the remaining declarations are still processed.

use vstd::prelude::*;

use crate::resources::database::{
    Block, Database, DbModel, Texture, TextureModel, Tile, UvCoord, lemma_name_lookup_props,
    lookup_name, name_lookup,
};

verus! {

/// Encapsulates the possible sections in a resource file.
///
/// A file is an ordered list of sections, each listing declarations of one
/// category: texture atlases, tiles or block types.  Later sections may
/// reference entities declared in earlier ones (tiles name textures, blocks
/// name tiles).
#[derive(Debug)]
pub enum KdlTopLevel {
    Textures(KdlTextures),
    Tiles(KdlTiles),
    Blocks(KdlBlocks),
}

/// Represents a `textures` section: a list of texture atlases.
#[derive(Clone, Debug)]
pub struct KdlTextures {
    /// The list of texture atlases declared in the section.
    pub textures: Vec<KdlTexture>,
}

/// Represents a `texture` entry within a `textures` section.
#[derive(Clone, Debug)]
pub struct KdlTexture {
    /// The name of the texture atlas.
    pub name: String,

    /// The path to the texture atlas image file.
    pub path: String,

    /// The width of the texture atlas in tiles.
    pub tile_width: usize,

    /// The height of the texture atlas in tiles.
    pub tile_height: usize,
}

/// Represents a `tiles` section: a list of tiles.
#[derive(Clone, Debug)]
pub struct KdlTiles {
    /// The list of tiles declared in the section.
    pub tiles: Vec<KdlTile>,
}

/// Represents a `tile` entry within a `tiles` section.
#[derive(Clone, Debug)]
pub struct KdlTile {
    /// The name of the tile.
    pub name: String,

    /// The name of the texture atlas that this tile is in.
    pub texture_name: String,

    /// The x coordinate of the tile in the texture atlas, in tiles.
    pub x: usize,

    /// The y coordinate of the tile in the texture atlas, in tiles.
    pub y: usize,
}

/// Represents a `blocks` section: a list of block types.
#[derive(Clone, Debug)]
pub struct KdlBlocks {
    /// The list of blocks declared in the section.
    pub blocks: Vec<KdlBlock>,
}

/// Represents a `block` entry within a `blocks` section.
///
/// Each optional field names a tile for an area of the cube.  `tiles` covers
/// all six faces, `sides` covers front/back/left/right, and the six
/// individual fields cover one face each.  More specific fields override
/// less specific ones.
#[derive(Clone, Debug)]
pub struct KdlBlock {
    /// The name of the block type.
    pub name: String,

    /// A tile for all six faces.
    pub tiles: Option<String>,

    /// A tile for the four lateral faces: front, back, left, right.
    pub sides: Option<String>,

    /// A tile for the top face.
    pub top: Option<String>,

    /// A tile for the bottom face.
    pub bottom: Option<String>,

    /// A tile for the front face.
    pub front: Option<String>,

    /// A tile for the back face.
    pub back: Option<String>,

    /// A tile for the left face.
    pub left: Option<String>,

    /// A tile for the right face.
    pub right: Option<String>,
}

/// What decoding a PNG byte stream to RGBA yields: `None` where the bytes
/// are not a decodable PNG image, otherwise the image's width and height in
/// pixels and its pixel buffer.  The decode is a function of the bytes alone.
pub uninterp spec fn decoded_png(bytes: Seq<u8>) -> Option<(u32, u32, Seq<u8>)>;

/// Relies on image::load_from_memory_with_format with the PNG format and on
/// image::DynamicImage::to_rgba8: decoding is a function of the bytes alone,
/// and the RGBA buffer holds exactly four bytes per pixel.
#[verifier::external_body]
fn decode_png(bytes: &[u8]) -> (r: Option<(u32, u32, Vec<u8>)>)
    ensures
        match r {
            Some(img) => decoded_png(bytes@) == Some((img.0, img.1, img.2@)) && img.2@.len() == 4
                * (img.0 as nat) * (img.1 as nat),
            None => decoded_png(bytes@) is None,
        },
{
    match image::load_from_memory_with_format(bytes, image::ImageFormat::Png) {
        Ok(img) => {
            let rgba = img.to_rgba8();
            let width = rgba.width();
            let height = rgba.height();
            Some((width, height, rgba.into_raw()))
        },
        Err(_) => None,
    }
}

/// A texture declaration is accepted exactly when its image file was
/// readable and its bytes decode as a PNG image.
pub open spec fn texture_accepted(file: Option<Vec<u8>>) -> bool {
    match file {
        Some(bytes) => decoded_png(bytes@) is Some,
        None => false,
    }
}

/// The effect of one texture declaration on the model: an accepted
/// declaration appends the decoded image with the declared tile grid, and
/// its name; a rejected one changes nothing.
pub open spec fn texture_step(m: DbModel, decl: KdlTexture, file: Option<Vec<u8>>) -> DbModel {
    match file {
        Some(bytes) => match decoded_png(bytes@) {
            Some(img) => DbModel {
                images: m.images.push(
                    TextureModel {
                        width: img.0,
                        height: img.1,
                        pixels: img.2,
                        tile_grid_width: decl.tile_width,
                        tile_grid_height: decl.tile_height,
                    },
                ),
                image_names: m.image_names.push(decl.name@),
                tiles: m.tiles,
                tile_names: m.tile_names,
                blocks: m.blocks,
                block_names: m.block_names,
            },
            None => m,
        },
        None => m,
    }
}

/// The effect of a whole `textures` section: its declarations applied in
/// order, the declaration at each position paired with the file at the same
/// position.
pub open spec fn apply_textures(
    m: DbModel,
    decls: Seq<KdlTexture>,
    files: Seq<Option<Vec<u8>>>,
) -> DbModel
    decreases decls.len(),
{
    if decls.len() == 0 {
        m
    } else {
        texture_step(
            apply_textures(m, decls.drop_last(), files.drop_last()),
            decls.last(),
            files.last(),
        )
    }
}

/// Process a `textures` section.
///
/// `files` holds, for each declaration in order, the raw bytes of the image
/// file at the declaration's path, or `None` where the file could not be
/// read.  Each declaration whose bytes decode as a PNG image is appended to
/// the database's image arena — its handle is the arena's length before the
/// append — and its name is recorded; the others are skipped.
pub fn process_textures(db: &mut Database, textures: KdlTextures, files: Vec<Option<Vec<u8>>>)
    requires
        files@.len() == textures.textures@.len(),
    ensures
        final(db)@ == apply_textures(old(db)@, textures.textures@, files@),
        old(db)@.images_wf() ==> final(db)@.images_wf(),
{
    let ghost m0 = db@;
    let ghost decls = textures.textures@;
    let n = textures.textures.len();
    let mut i: usize = 0;
    proof {
        assert(decls.take(0) =~= decls.subrange(0, 0));
        assert(db@ == apply_textures(m0, decls.take(0), files@.take(0)));
    }
    while i < n
        invariant
            i <= n,
            n == decls.len(),
            files@.len() == decls.len(),
            decls == textures.textures@,
            db@ == apply_textures(m0, decls.take(i as int), files@.take(i as int)),
            m0.images_wf() ==> db@.images_wf(),
        decreases n - i,
    {
        let ghost pre = db@;
        let decl = &textures.textures[i];
        match files[i].as_ref() {
            Some(bytes) => {
                match decode_png(bytes.as_slice()) {
                    Some((width, height, pixels)) => {
                        db.images.push(
                            Texture {
                                width,
                                height,
                                pixels,
                                tile_grid_width: decl.tile_width,
                                tile_grid_height: decl.tile_height,
                            },
                        );
                        db.image_names.push(decl.name.clone());
                    },
                    None => {},
                }
            },
            None => {},
        }
        proof {
            let stepped = texture_step(pre, decls[i as int], files@[i as int]);
            assert(db@.images =~= stepped.images);
            assert(db@.image_names =~= stepped.image_names);
            assert(db@ =~= stepped);
            assert(decls.take(i as int + 1).drop_last() =~= decls.take(i as int));
            assert(files@.take(i as int + 1).drop_last() =~= files@.take(i as int));
            assert(decls.take(i as int + 1).last() == decls[i as int]);
            assert(files@.take(i as int + 1).last() == files@[i as int]);
        }
        i = i + 1;
    }
    proof {
        assert(decls.take(n as int) =~= decls);
        assert(files@.take(n as int) =~= files@);
    }
}

/// A tile declaration is accepted exactly when its texture name resolves
/// and the resolved texture has nonzero pixel dimensions and a nonzero tile
/// grid, so that its grid cells are well defined.
pub open spec fn tile_accepted(m: DbModel, t: KdlTile) -> bool {
    match name_lookup(m.image_names, t.texture_name@) {
        Some(i) => {
            let tex = m.images[i];
            tex.width > 0 && tex.height > 0 && tex.tile_grid_width > 0 && tex.tile_grid_height > 0
        },
        None => false,
    }
}

/// The UV rectangle of the grid cell `(x, y)` of a texture, inset by half a
/// texel on each edge.
///
/// For an image `w` pixels wide with a grid `gw` tiles wide, the cell spans
/// `x/gw` to `(x+1)/gw`, a texel spans `1/w`, and the inset bounds are
/// `x/gw + 1/(2*w)` and `(x+1)/gw - 1/(2*w)`: over the common denominator
/// `2*gw*w` the numerators below.  The v axis is analogous with `h` and
/// `gh`.  Grid coordinates are not bounds-checked: a cell outside the grid
/// yields bounds outside `[0, 1]`.
pub open spec fn tile_uv(tex: TextureModel, x: usize, y: usize) -> ((UvCoord, UvCoord), (
    UvCoord,
    UvCoord,
)) {
    let w = tex.width as int;
    let h = tex.height as int;
    let gw = tex.tile_grid_width as int;
    let gh = tex.tile_grid_height as int;
    let u_den = (2 * gw * w) as i128;
    let v_den = (2 * gh * h) as i128;
    (
        (
            UvCoord { num: (2 * (x as int) * w + gw) as i128, den: u_den },
            UvCoord { num: (2 * (y as int) * h + gh) as i128, den: v_den },
        ),
        (
            UvCoord { num: (2 * ((x as int) + 1) * w - gw) as i128, den: u_den },
            UvCoord { num: (2 * ((y as int) + 1) * h - gh) as i128, den: v_den },
        ),
    )
}

/// The tile an accepted declaration resolves to: the handle of its texture,
/// and the inset UV rectangle of its grid cell.  (For a rejected
/// declaration, which contributes nothing, the value is a placeholder.)
pub open spec fn tile_value(m: DbModel, t: KdlTile) -> Tile {
    match name_lookup(m.image_names, t.texture_name@) {
        Some(i) => {
            let uv = tile_uv(m.images[i], t.x, t.y);
            Tile { image_index: i as usize, uv0: uv.0, uv1: uv.1 }
        },
        None => Tile {
            image_index: 0,
            uv0: (UvCoord { num: 0, den: 1 }, UvCoord { num: 0, den: 1 }),
            uv1: (UvCoord { num: 0, den: 1 }, UvCoord { num: 0, den: 1 }),
        },
    }
}

/// The effect of one tile declaration on the model: an accepted declaration
/// appends its resolved tile and its name; a rejected one changes nothing.
pub open spec fn tile_step(m: DbModel, t: KdlTile) -> DbModel {
    if tile_accepted(m, t) {
        DbModel {
            images: m.images,
            image_names: m.image_names,
            tiles: m.tiles.push(tile_value(m, t)),
            tile_names: m.tile_names.push(t.name@),
            blocks: m.blocks,
            block_names: m.block_names,
        }
    } else {
        m
    }
}

/// The effect of a whole `tiles` section: its declarations applied in order.
pub open spec fn apply_tiles(m: DbModel, decls: Seq<KdlTile>) -> DbModel
    decreases decls.len(),
{
    if decls.len() == 0 {
        m
    } else {
        tile_step(apply_tiles(m, decls.drop_last()), decls.last())
    }
}

/// The numerators and denominators of an inset UV rectangle stay within
/// `i128` for any pixel dimension of a decoded image (`u32`) and any grid
/// size and cell coordinate (`usize`), and the denominator is positive.
pub proof fn lemma_uv_range(x: int, w: int, g: int)
    by (nonlinear_arith)
    requires
        0 <= x <= 0xFFFF_FFFF_FFFF_FFFF,
        0 < w <= 0xFFFF_FFFF,
        0 < g <= 0xFFFF_FFFF_FFFF_FFFF,
    ensures
        0 < 2 * g * w <= i128::MAX,
        0 <= 2 * x * w + g <= i128::MAX,
        0 < 2 * (x + 1) * w <= i128::MAX,
        i128::MIN <= 2 * (x + 1) * w - g <= i128::MAX,
{
}

/// Process a `tiles` section.
///
/// Each declaration whose texture name resolves (to the texture last
/// registered under that name, with nonzero dimensions and grid) is appended
/// to the database's tile arena — its handle is the arena's length before
/// the append — and its name is recorded; the others are skipped.
pub fn process_tiles(db: &mut Database, tiles: KdlTiles)
    requires
        old(db)@.wf(),
    ensures
        final(db)@ == apply_tiles(old(db)@, tiles.tiles@),
{
    let ghost m0 = db@;
    let ghost decls = tiles.tiles@;
    let n = tiles.tiles.len();
    let mut i: usize = 0;
    proof {
        assert(decls.take(0) =~= decls.subrange(0, 0));
        assert(db@ == apply_tiles(m0, decls.take(0)));
    }
    while i < n
        invariant
            i <= n,
            n == decls.len(),
            decls == tiles.tiles@,
            db@ == apply_tiles(m0, decls.take(i as int)),
            db@.wf(),
        decreases n - i,
    {
        let ghost pre = db@;
        let t = &tiles.tiles[i];
        match lookup_name(&db.image_names, &t.texture_name) {
            Some(idx) => {
                proof {
                    lemma_name_lookup_props(pre.image_names, t.texture_name@);
                }
                let tex = &db.images[idx];
                if tex.width > 0 && tex.height > 0 && tex.tile_grid_width > 0
                    && tex.tile_grid_height > 0 {
                    let w = tex.width as i128;
                    let h = tex.height as i128;
                    let gw = tex.tile_grid_width as i128;
                    let gh = tex.tile_grid_height as i128;
                    let x = t.x as i128;
                    let y = t.y as i128;
                    proof {
                        lemma_uv_range(x as int, w as int, gw as int);
                        lemma_uv_range(y as int, h as int, gh as int);
                    }
                    let u0 = UvCoord { num: 2 * x * w + gw, den: 2 * gw * w };
                    let v0 = UvCoord { num: 2 * y * h + gh, den: 2 * gh * h };
                    let u1 = UvCoord { num: 2 * (x + 1) * w - gw, den: 2 * gw * w };
                    let v1 = UvCoord { num: 2 * (y + 1) * h - gh, den: 2 * gh * h };
                    let tile = Tile { image_index: idx, uv0: (u0, v0), uv1: (u1, v1) };
                    proof {
                        assert(tile == tile_value(pre, decls[i as int]));
                    }
                    db.tiles.push(tile);
                    db.tile_names.push(t.name.clone());
                }
            },
            None => {},
        }
        proof {
            let stepped = tile_step(pre, decls[i as int]);
            assert(db@.tiles =~= stepped.tiles);
            assert(db@.tile_names =~= stepped.tile_names);
            assert(db@ =~= stepped);
            assert(decls.take(i as int + 1).drop_last() =~= decls.take(i as int));
            assert(decls.take(i as int + 1).last() == decls[i as int]);
        }
        i = i + 1;
    }
    proof {
        assert(decls.take(n as int) =~= decls);
    }
}

/// One layer of block-face resolution: a field that is present and names a
/// known tile overwrites the current assignment with that tile's handle; a
/// field that is absent, or whose name resolves to no tile, leaves the
/// current assignment as it is.
pub open spec fn face_override(m: DbModel, cur: Option<usize>, field: Option<String>) -> Option<
    usize,
> {
    match field {
        Some(n) => match name_lookup(m.tile_names, n@) {
            Some(i) => Some(i as usize),
            None => cur,
        },
        None => cur,
    }
}

/// The six face assignments of a block declaration, in the order front,
/// back, left, right, top, bottom, after all overrides: `tiles` covers all
/// six faces, `sides` then overrides the four lateral faces, and each
/// individual face field overrides its own face.
pub open spec fn block_faces(m: DbModel, b: KdlBlock) -> (
    Option<usize>,
    Option<usize>,
    Option<usize>,
    Option<usize>,
    Option<usize>,
    Option<usize>,
) {
    let all = face_override(m, None, b.tiles);
    let side = face_override(m, all, b.sides);
    (
        face_override(m, side, b.front),
        face_override(m, side, b.back),
        face_override(m, side, b.left),
        face_override(m, side, b.right),
        face_override(m, all, b.top),
        face_override(m, all, b.bottom),
    )
}

/// A block declaration is accepted exactly when every face is assigned
/// after all overrides.
pub open spec fn block_accepted(m: DbModel, b: KdlBlock) -> bool {
    let faces = block_faces(m, b);
    faces.0 is Some && faces.1 is Some && faces.2 is Some && faces.3 is Some && faces.4 is Some
        && faces.5 is Some
}

/// The block an accepted declaration resolves to: its six assigned faces.
pub open spec fn block_value(m: DbModel, b: KdlBlock) -> Block {
    let faces = block_faces(m, b);
    Block {
        front: faces.0->Some_0,
        back: faces.1->Some_0,
        left: faces.2->Some_0,
        right: faces.3->Some_0,
        top: faces.4->Some_0,
        bottom: faces.5->Some_0,
    }
}

/// The effect of one block declaration on the model: an accepted
/// declaration appends its resolved block and its name; a rejected one
/// changes nothing.
pub open spec fn block_step(m: DbModel, b: KdlBlock) -> DbModel {
    if block_accepted(m, b) {
        DbModel {
            images: m.images,
            image_names: m.image_names,
            tiles: m.tiles,
            tile_names: m.tile_names,
            blocks: m.blocks.push(block_value(m, b)),
            block_names: m.block_names.push(b.name@),
        }
    } else {
        m
    }
}

/// The effect of a whole `blocks` section: its declarations applied in
/// order.
pub open spec fn apply_blocks(m: DbModel, decls: Seq<KdlBlock>) -> DbModel
    decreases decls.len(),
{
    if decls.len() == 0 {
        m
    } else {
        block_step(apply_blocks(m, decls.drop_last()), decls.last())
    }
}

/// One layer of block-face resolution, executably: see [`face_override`].
fn resolve_face(db: &Database, cur: Option<usize>, field: &Option<String>) -> (r: Option<usize>)
    requires
        db@.wf(),
    ensures
        r == face_override(db@, cur, *field),
        r matches Some(i) ==> i < db@.tiles.len() || cur == Some(i),
{
    match field.as_ref() {
        Some(n) => {
            match lookup_name(&db.tile_names, n) {
                Some(i) => {
                    proof {
                        lemma_name_lookup_props(db@.tile_names, n@);
                    }
                    Some(i)
                },
                None => cur,
            }
        },
        None => cur,
    }
}

/// Process a `blocks` section.
///
/// Each declaration's face assignments are resolved by layered overrides —
/// `tiles`, then `sides`, then the individual faces, a later layer
/// overwriting an earlier one, a name that resolves to no tile leaving the
/// earlier layer in place.  A declaration with all six faces assigned is
/// appended to the database's block arena — its handle is the arena's
/// length before the append — and its name is recorded; one with any face
/// unassigned is skipped entirely.
pub fn process_blocks(db: &mut Database, blocks: KdlBlocks)
    requires
        old(db)@.wf(),
    ensures
        final(db)@ == apply_blocks(old(db)@, blocks.blocks@),
{
    let ghost m0 = db@;
    let ghost decls = blocks.blocks@;
    let n = blocks.blocks.len();
    let mut i: usize = 0;
    proof {
        assert(decls.take(0) =~= decls.subrange(0, 0));
        assert(db@ == apply_blocks(m0, decls.take(0)));
    }
    while i < n
        invariant
            i <= n,
            n == decls.len(),
            decls == blocks.blocks@,
            db@ == apply_blocks(m0, decls.take(i as int)),
            db@.wf(),
        decreases n - i,
    {
        let ghost pre = db@;
        let b = &blocks.blocks[i];

        // Deal with the `tiles` field, which assigns all six faces at once.
        let all = resolve_face(db, None, &b.tiles);

        // Deal with the `sides` field, which assigns the lateral faces.
        let side = resolve_face(db, all, &b.sides);

        // Deal with the individual faces.
        let front = resolve_face(db, side, &b.front);
        let back = resolve_face(db, side, &b.back);
        let left = resolve_face(db, side, &b.left);
        let right = resolve_face(db, side, &b.right);
        let top = resolve_face(db, all, &b.top);
        let bottom = resolve_face(db, all, &b.bottom);

        match (front, back, left, right, top, bottom) {
            (Some(front), Some(back), Some(left), Some(right), Some(top), Some(bottom)) => {
                let block = Block { front, back, top, bottom, left, right };
                proof {
                    assert(block == block_value(pre, decls[i as int]));
                }
                db.blocks.push(block);
                db.block_names.push(b.name.clone());
            },
            _ => {},
        }
        proof {
            let stepped = block_step(pre, decls[i as int]);
            assert(db@.blocks =~= stepped.blocks);
            assert(db@.block_names =~= stepped.block_names);
            assert(db@ =~= stepped);
            assert(decls.take(i as int + 1).drop_last() =~= decls.take(i as int));
            assert(decls.take(i as int + 1).last() == decls[i as int]);
        }
        i = i + 1;
    }
    proof {
        assert(decls.take(n as int) =~= decls);
    }
}

/// Processing a `tiles` section leaves the image and block arenas and their
/// names untouched.
pub proof fn lemma_apply_tiles_frame(m: DbModel, decls: Seq<KdlTile>)
    ensures
        apply_tiles(m, decls).images == m.images,
        apply_tiles(m, decls).image_names == m.image_names,
        apply_tiles(m, decls).blocks == m.blocks,
        apply_tiles(m, decls).block_names == m.block_names,
    decreases decls.len(),
{
    if decls.len() > 0 {
        lemma_apply_tiles_frame(m, decls.drop_last());
    }
}

/// Processing a `blocks` section leaves the image and tile arenas and their
/// names untouched.
pub proof fn lemma_apply_blocks_frame(m: DbModel, decls: Seq<KdlBlock>)
    ensures
        apply_blocks(m, decls).images == m.images,
        apply_blocks(m, decls).image_names == m.image_names,
        apply_blocks(m, decls).tiles == m.tiles,
        apply_blocks(m, decls).tile_names == m.tile_names,
    decreases decls.len(),
{
    if decls.len() > 0 {
        lemma_apply_blocks_frame(m, decls.drop_last());
    }
}

/// Processing a `textures` section preserves well-formedness.
pub proof fn lemma_apply_textures_wf(m: DbModel, decls: Seq<KdlTexture>, files: Seq<Option<Vec<u8>>>)
    requires
        m.wf(),
    ensures
        apply_textures(m, decls, files).wf(),
    decreases decls.len(),
{
    if decls.len() > 0 {
        lemma_apply_textures_wf(m, decls.drop_last(), files.drop_last());
    }
}

/// Processing a `tiles` section preserves well-formedness: every appended
/// tile references an existing image and carries positive denominators.
pub proof fn lemma_apply_tiles_wf(m: DbModel, decls: Seq<KdlTile>)
    requires
        m.wf(),
    ensures
        apply_tiles(m, decls).wf(),
    decreases decls.len(),
{
    if decls.len() > 0 {
        lemma_apply_tiles_wf(m, decls.drop_last());
        let prev = apply_tiles(m, decls.drop_last());
        let t = decls.last();
        if tile_accepted(prev, t) {
            let i = name_lookup(prev.image_names, t.texture_name@)->Some_0;
            lemma_name_lookup_props(prev.image_names, t.texture_name@);
            let tex = prev.images[i];
            lemma_uv_range(t.x as int, tex.width as int, tex.tile_grid_width as int);
            lemma_uv_range(t.y as int, tex.height as int, tex.tile_grid_height as int);
            assert(tile_value(prev, t).wf(prev.images.len() as int));
        }
    }
}

/// A face override yields a valid tile handle, or hands the current
/// assignment through.
proof fn lemma_face_override_valid(m: DbModel, cur: Option<usize>, field: Option<String>)
    requires
        m.wf(),
        cur matches Some(i) ==> i < m.tiles.len(),
    ensures
        face_override(m, cur, field) matches Some(i) ==> i < m.tiles.len(),
{
    match field {
        Some(n) => lemma_name_lookup_props(m.tile_names, n@),
        None => (),
    }
}

/// Processing a `blocks` section preserves well-formedness: every appended
/// block references existing tiles on all six faces.
pub proof fn lemma_apply_blocks_wf(m: DbModel, decls: Seq<KdlBlock>)
    requires
        m.wf(),
    ensures
        apply_blocks(m, decls).wf(),
    decreases decls.len(),
{
    if decls.len() > 0 {
        lemma_apply_blocks_wf(m, decls.drop_last());
        let prev = apply_blocks(m, decls.drop_last());
        let b = decls.last();
        if block_accepted(prev, b) {
            let all = face_override(prev, None, b.tiles);
            let side = face_override(prev, all, b.sides);
            lemma_face_override_valid(prev, None, b.tiles);
            lemma_face_override_valid(prev, all, b.sides);
            lemma_face_override_valid(prev, side, b.front);
            lemma_face_override_valid(prev, side, b.back);
            lemma_face_override_valid(prev, side, b.left);
            lemma_face_override_valid(prev, side, b.right);
            lemma_face_override_valid(prev, all, b.top);
            lemma_face_override_valid(prev, all, b.bottom);
            assert(block_value(prev, b).wf(prev.tiles.len() as int));
        }
    }
}

/// The effect of one section on the model.  A `textures` section consumes
/// its vector of file contents; the other section kinds ignore it.
pub open spec fn section_step(m: DbModel, section: KdlTopLevel, files: Vec<Option<Vec<u8>>>) -> DbModel {
    match section {
        KdlTopLevel::Textures(t) => apply_textures(m, t.textures@, files@),
        KdlTopLevel::Tiles(t) => apply_tiles(m, t.tiles@),
        KdlTopLevel::Blocks(b) => apply_blocks(m, b.blocks@),
    }
}

/// The effect of a whole file: its sections applied in order, each paired
/// with the file contents read for it.
pub open spec fn apply_sections(
    m: DbModel,
    sections: Seq<KdlTopLevel>,
    files: Seq<Vec<Option<Vec<u8>>>>,
) -> DbModel
    decreases sections.len(),
{
    if sections.len() == 0 {
        m
    } else {
        section_step(
            apply_sections(m, sections.drop_last(), files.drop_last()),
            sections.last(),
            files.last(),
        )
    }
}

/// The file contents are aligned with the sections: one vector per section,
/// and for a `textures` section one entry per declaration.
pub open spec fn files_match(sections: Seq<KdlTopLevel>, files: Seq<Vec<Option<Vec<u8>>>>) -> bool {
    &&& files.len() == sections.len()
    &&& forall|i: int|
        0 <= i < sections.len() ==> ((#[trigger] sections[i]) matches KdlTopLevel::Textures(t)
            ==> files[i]@.len() == t.textures@.len())
}

/// Build a database from the sections of one resource file.
///
/// `texture_files` holds one vector per section: for a `textures` section,
/// the raw bytes of each declared image file in declaration order (`None`
/// where the file could not be read); for other sections, it is ignored.
/// The sections are applied strictly in file order, so that tiles see the
/// textures of earlier sections and blocks the tiles.
pub fn build_database(
    sections: Vec<KdlTopLevel>,
    texture_files: Vec<Vec<Option<Vec<u8>>>>,
) -> (db: Database)
    requires
        files_match(sections@, texture_files@),
    ensures
        db@ == apply_sections(DbModel::empty(), sections@, texture_files@),
        db@.wf(),
{
    let ghost all_sections = sections@;
    let ghost all_files = texture_files@;
    let n_total = sections.len();
    let mut sections = sections;
    let mut texture_files = texture_files;
    let mut db = Database::new();
    let mut i: usize = 0;
    proof {
        assert(all_sections.take(0) =~= all_sections.subrange(0, 0));
        assert(sections@ =~= all_sections.skip(0));
        assert(texture_files@ =~= all_files.skip(0));
        assert(db@ == apply_sections(DbModel::empty(), all_sections.take(0), all_files.take(0)));
    }
    while sections.len() > 0
        invariant
            all_sections.len() == n_total,
            i + sections@.len() == all_sections.len(),
            sections@ == all_sections.skip(i as int),
            texture_files@ == all_files.skip(i as int),
            files_match(all_sections, all_files),
            db@ == apply_sections(DbModel::empty(), all_sections.take(i as int), all_files.take(i as int)),
            db@.wf(),
        decreases sections@.len(),
    {
        let ghost pre = db@;
        let section = sections.remove(0);
        let files = texture_files.remove(0);
        proof {
            assert(all_sections.skip(i as int)[0] == all_sections[i as int]);
            assert(all_files.skip(i as int)[0] == all_files[i as int]);
            assert(sections@ =~= all_sections.skip(i as int + 1));
            assert(texture_files@ =~= all_files.skip(i as int + 1));
        }
        let ghost fls = files;
        match section {
            KdlTopLevel::Textures(t) => {
                let ghost tdecls = t.textures@;
                process_textures(&mut db, t, files);
                proof {
                    lemma_apply_textures_wf(pre, tdecls, fls@);
                }
            },
            KdlTopLevel::Tiles(t) => {
                let ghost tdecls = t.tiles@;
                process_tiles(&mut db, t);
                proof {
                    lemma_apply_tiles_wf(pre, tdecls);
                }
            },
            KdlTopLevel::Blocks(b) => {
                let ghost bdecls = b.blocks@;
                process_blocks(&mut db, b);
                proof {
                    lemma_apply_blocks_wf(pre, bdecls);
                }
            },
        }
        proof {
            assert(db@ == section_step(pre, all_sections[i as int], all_files[i as int]));
            assert(all_sections.take(i as int + 1).drop_last() =~= all_sections.take(i as int));
            assert(all_files.take(i as int + 1).drop_last() =~= all_files.take(i as int));
            assert(all_sections.take(i as int + 1).last() == all_sections[i as int]);
            assert(all_files.take(i as int + 1).last() == all_files[i as int]);
        }
        i = i + 1;
    }
    proof {
        assert(all_sections.take(i as int) =~= all_sections);
        assert(all_files.take(i as int) =~= all_files);
    }
    db
}

/// Returns the path to the given file name in the `data` directory.
pub fn get_path(file_name: &str) -> (r: String)
    ensures
        r@ == "data/"@ + file_name@,
{
    let mut p = String::from_str("data/");
    p.append(file_name);
    p
}

} // verus!
