use delve::resources::database::Database;
use delve::resources::loader::{
    build_database, get_path, process_blocks, process_textures, process_tiles, KdlBlock,
    KdlBlocks, KdlTexture, KdlTextures, KdlTile, KdlTiles, KdlTopLevel,
};

/// Encodes a blank RGBA image of the given size as PNG bytes.
fn png_bytes(w: u32, h: u32) -> Vec<u8> {
    let img = image::RgbaImage::new(w, h);
    let mut buf = std::io::Cursor::new(Vec::new());
    image::DynamicImage::ImageRgba8(img)
        .write_to(&mut buf, image::ImageFormat::Png)
        .unwrap();
    buf.into_inner()
}

fn texture_decl(name: &str, path: &str, gw: usize, gh: usize) -> KdlTexture {
    KdlTexture {
        name: name.to_string(),
        path: path.to_string(),
        tile_width: gw,
        tile_height: gh,
    }
}

fn tile_decl(name: &str, texture: &str, x: usize, y: usize) -> KdlTile {
    KdlTile {
        name: name.to_string(),
        texture_name: texture.to_string(),
        x,
        y,
    }
}

fn bare_block(name: &str) -> KdlBlock {
    KdlBlock {
        name: name.to_string(),
        tiles: None,
        sides: None,
        top: None,
        bottom: None,
        front: None,
        back: None,
        left: None,
        right: None,
    }
}

/// A database with one 64x64 atlas named "atlas" on a 4x4 grid.
fn db_with_atlas() -> Database {
    let mut db = Database::new();
    process_textures(
        &mut db,
        KdlTextures {
            textures: vec![texture_decl("atlas", "atlas.png", 4, 4)],
        },
        vec![Some(png_bytes(64, 64))],
    );
    db
}

fn uv_as_f64(c: delve::resources::database::UvCoord) -> f64 {
    c.num as f64 / c.den as f64
}

#[test]
fn texture_registry_decodes_png() {
    let db = db_with_atlas();
    assert_eq!(db.images.len(), 1);
    assert_eq!(db.image_names.len(), 1);
    assert_eq!(db.image_names[0], "atlas");
    assert_eq!(db.images[0].width, 64);
    assert_eq!(db.images[0].height, 64);
    assert_eq!(db.images[0].tile_grid_width, 4);
    assert_eq!(db.images[0].tile_grid_height, 4);
    assert_eq!(db.images[0].pixels.len(), 4 * 64 * 64);
}

#[test]
fn tile_uv_example() {
    // A 64x64 atlas on a 4x4 grid has 16-pixel cells; the tile at (1, 0)
    // is inset half a texel from [16, 32] x [0, 16].
    let mut db = db_with_atlas();
    process_tiles(
        &mut db,
        KdlTiles {
            tiles: vec![tile_decl("grass", "atlas", 1, 0)],
        },
    );
    assert_eq!(db.tiles.len(), 1);
    assert_eq!(db.tile_names[0], "grass");
    let tile = db.tiles[0];
    assert_eq!(tile.image_index, 0);
    assert_eq!(uv_as_f64(tile.uv0.0), (16.0 + 0.5) / 64.0);
    assert_eq!(uv_as_f64(tile.uv0.0), 0.2578125);
    assert_eq!(uv_as_f64(tile.uv0.1), 0.0078125);
    assert_eq!(uv_as_f64(tile.uv1.0), (32.0 - 0.5) / 64.0);
    assert_eq!(uv_as_f64(tile.uv1.0), 0.4921875);
    assert_eq!(uv_as_f64(tile.uv1.1), 0.2421875);
}

#[test]
fn tile_unknown_texture_dropped() {
    let mut db = db_with_atlas();
    process_tiles(
        &mut db,
        KdlTiles {
            tiles: vec![
                tile_decl("ghost", "no_such_atlas", 0, 0),
                tile_decl("grass", "atlas", 1, 0),
            ],
        },
    );
    // The tile naming a nonexistent texture is dropped; the load still
    // succeeds and the valid tile is still resolved, with handle 0.
    assert_eq!(db.tiles.len(), 1);
    assert_eq!(db.tile_names, vec!["grass".to_string()]);
    assert_eq!(db.tiles[0].image_index, 0);
}

#[test]
fn block_override_precedence() {
    let mut db = db_with_atlas();
    process_tiles(
        &mut db,
        KdlTiles {
            tiles: vec![tile_decl("x", "atlas", 0, 0), tile_decl("y", "atlas", 1, 1)],
        },
    );
    let mut block = bare_block("checker");
    block.tiles = Some("x".to_string());
    block.top = Some("y".to_string());
    process_blocks(&mut db, KdlBlocks { blocks: vec![block] });
    assert_eq!(db.blocks.len(), 1);
    let b = db.blocks[0];
    assert_eq!(b.top, 1);
    assert_eq!(b.front, 0);
    assert_eq!(b.back, 0);
    assert_eq!(b.left, 0);
    assert_eq!(b.right, 0);
    assert_eq!(b.bottom, 0);
}

#[test]
fn block_sides_top_bottom() {
    let mut db = db_with_atlas();
    process_tiles(
        &mut db,
        KdlTiles {
            tiles: vec![
                tile_decl("dirt_side", "atlas", 0, 0),
                tile_decl("grass", "atlas", 1, 0),
                tile_decl("dirt", "atlas", 2, 0),
            ],
        },
    );
    let mut block = bare_block("dirt");
    block.sides = Some("dirt_side".to_string());
    block.top = Some("grass".to_string());
    block.bottom = Some("dirt".to_string());
    process_blocks(&mut db, KdlBlocks { blocks: vec![block] });
    assert_eq!(db.blocks.len(), 1);
    assert_eq!(db.block_names[0], "dirt");
    let b = db.blocks[0];
    assert_eq!(b.front, 0);
    assert_eq!(b.back, 0);
    assert_eq!(b.left, 0);
    assert_eq!(b.right, 0);
    assert_eq!(b.top, 1);
    assert_eq!(b.bottom, 2);
}

#[test]
fn block_missing_face_rejected() {
    let mut db = db_with_atlas();
    process_tiles(
        &mut db,
        KdlTiles {
            tiles: vec![tile_decl("side", "atlas", 0, 0), tile_decl("all", "atlas", 1, 0)],
        },
    );
    // `sides` leaves top and bottom unset, so the first block is rejected
    // entirely; the following valid block is still resolved, with handle 0.
    let mut partial = bare_block("stump");
    partial.sides = Some("side".to_string());
    let mut whole = bare_block("cube");
    whole.tiles = Some("all".to_string());
    process_blocks(
        &mut db,
        KdlBlocks {
            blocks: vec![partial, whole],
        },
    );
    assert_eq!(db.blocks.len(), 1);
    assert_eq!(db.block_names, vec!["cube".to_string()]);
    assert!(!db.block_names.iter().any(|n| n == "stump"));
}

#[test]
fn block_unknown_names_silently_ignored() {
    // A face field whose name resolves to no tile leaves the earlier layer
    // in place: the block still resolves through `tiles`.
    let mut db = db_with_atlas();
    process_tiles(
        &mut db,
        KdlTiles {
            tiles: vec![tile_decl("all", "atlas", 0, 0)],
        },
    );
    let mut block = bare_block("cube");
    block.tiles = Some("all".to_string());
    block.top = Some("no_such_tile".to_string());
    process_blocks(&mut db, KdlBlocks { blocks: vec![block] });
    assert_eq!(db.blocks.len(), 1);
    assert_eq!(db.blocks[0].top, 0);
}

#[test]
fn full_load_declaration_order() {
    let sections = vec![
        KdlTopLevel::Textures(KdlTextures {
            textures: vec![
                texture_decl("a", "a.png", 4, 4),
                texture_decl("b", "b.png", 2, 2),
            ],
        }),
        KdlTopLevel::Tiles(KdlTiles {
            tiles: vec![tile_decl("t0", "a", 0, 0), tile_decl("t1", "b", 1, 1)],
        }),
        KdlTopLevel::Blocks(KdlBlocks {
            blocks: {
                let mut b0 = bare_block("b0");
                b0.tiles = Some("t0".to_string());
                let mut b1 = bare_block("b1");
                b1.tiles = Some("t1".to_string());
                vec![b0, b1]
            },
        }),
    ];
    let files = vec![
        vec![Some(png_bytes(64, 64)), Some(png_bytes(32, 16))],
        vec![],
        vec![],
    ];
    let db = build_database(sections, files);
    assert_eq!(db.image_names, vec!["a".to_string(), "b".to_string()]);
    assert_eq!(db.tile_names, vec!["t0".to_string(), "t1".to_string()]);
    assert_eq!(db.block_names, vec!["b0".to_string(), "b1".to_string()]);
    assert_eq!(db.tiles[0].image_index, 0);
    assert_eq!(db.tiles[1].image_index, 1);
    assert_eq!(db.blocks[0].front, 0);
    assert_eq!(db.blocks[1].front, 1);
}

#[test]
fn empty_sections_empty_database() {
    let db = build_database(vec![], vec![]);
    assert!(db.images.is_empty());
    assert!(db.image_names.is_empty());
    assert!(db.tiles.is_empty());
    assert!(db.tile_names.is_empty());
    assert!(db.blocks.is_empty());
    assert!(db.block_names.is_empty());
}

#[test]
fn duplicate_tile_names_last_wins() {
    let mut db = db_with_atlas();
    process_tiles(
        &mut db,
        KdlTiles {
            tiles: vec![tile_decl("t", "atlas", 0, 0), tile_decl("t", "atlas", 1, 1)],
        },
    );
    // Both declarations are resolved, but the name resolves to the later
    // handle, as a name map overwritten by a later insert would.
    assert_eq!(db.tiles.len(), 2);
    let mut block = bare_block("cube");
    block.tiles = Some("t".to_string());
    process_blocks(&mut db, KdlBlocks { blocks: vec![block] });
    assert_eq!(db.blocks[0].front, 1);
}

#[test]
fn unreadable_texture_file_skipped() {
    let mut db = Database::new();
    process_textures(
        &mut db,
        KdlTextures {
            textures: vec![
                texture_decl("missing", "missing.png", 4, 4),
                texture_decl("present", "present.png", 4, 4),
            ],
        },
        vec![None, Some(png_bytes(64, 64))],
    );
    // The unreadable entry is skipped; the next one gets handle 0.
    assert_eq!(db.images.len(), 1);
    assert_eq!(db.image_names, vec!["present".to_string()]);
}

#[test]
fn undecodable_texture_skipped() {
    let mut db = Database::new();
    process_textures(
        &mut db,
        KdlTextures {
            textures: vec![texture_decl("bad", "bad.png", 4, 4)],
        },
        vec![Some(vec![0u8, 1, 2, 3])],
    );
    assert_eq!(db.images.len(), 0);
    assert_eq!(db.image_names.len(), 0);
}

#[test]
fn zero_grid_texture_tile_dropped() {
    let mut db = Database::new();
    process_textures(
        &mut db,
        KdlTextures {
            textures: vec![texture_decl("flat", "flat.png", 0, 4)],
        },
        vec![Some(png_bytes(64, 64))],
    );
    // The texture itself is registered, but a tile on a zero-width grid has
    // no well-defined cell and is dropped.
    assert_eq!(db.images.len(), 1);
    process_tiles(
        &mut db,
        KdlTiles {
            tiles: vec![tile_decl("t", "flat", 0, 0)],
        },
    );
    assert_eq!(db.tiles.len(), 0);
}

#[test]
fn out_of_range_tile_coordinates_accepted() {
    // Grid coordinates are not bounds-checked: a cell outside the grid is
    // accepted and yields UV bounds beyond 1.
    let mut db = db_with_atlas();
    process_tiles(
        &mut db,
        KdlTiles {
            tiles: vec![tile_decl("outside", "atlas", 5, 0)],
        },
    );
    assert_eq!(db.tiles.len(), 1);
    let tile = db.tiles[0];
    assert!(tile.uv1.0.num > tile.uv1.0.den);
    assert!(uv_as_f64(tile.uv0.0) > 1.0);
}

#[test]
fn get_path_prepends_data_dir() {
    assert_eq!(get_path("blocks.kdl"), "data/blocks.kdl");
    assert_eq!(get_path(""), "data/");
}
