//! The database of all the resources used in the game, and the mathematical
//! model that its contracts speak of.
//!
//! Entities of each category (textures, tiles, blocks) live in a dense arena:
//! an ordered vector whose index is the entity's handle.  Beside each arena
//! stands a vector of display names in the same order, so that position `i`
//! holds the name of the entity with handle `i`.  A name is resolved to the
//! handle of the *last* entity declared under it, as the loader's name maps
//! did when a later declaration overwrote an earlier one.

use vstd::prelude::*;

verus! {

/// The ghost model of one texture atlas entry: the decoded RGBA pixel
/// buffer's contents and dimensions, and the declared tile-grid size.
pub struct TextureModel {
    pub width: u32,
    pub height: u32,
    pub pixels: Seq<u8>,
    pub tile_grid_width: usize,
    pub tile_grid_height: usize,
}

impl TextureModel {
    /// The pixel buffer holds four bytes (RGBA) for every pixel.
    pub open spec fn wf(self) -> bool {
        self.pixels.len() == 4 * (self.width as nat) * (self.height as nat)
    }
}

/// One texture atlas entry: the decoded image as a raw RGBA byte buffer with
/// its pixel dimensions, and the declared tile-grid width and height (in
/// tiles).
pub struct Texture {
    /// The width of the decoded image in pixels.
    pub width: u32,

    /// The height of the decoded image in pixels.
    pub height: u32,

    /// The decoded image as raw RGBA bytes, four per pixel.
    pub pixels: Vec<u8>,

    /// The width of the atlas in tiles.
    pub tile_grid_width: usize,

    /// The height of the atlas in tiles.
    pub tile_grid_height: usize,
}

impl View for Texture {
    type V = TextureModel;

    open spec fn view(&self) -> TextureModel {
        TextureModel {
            width: self.width,
            height: self.height,
            pixels: self.pixels@,
            tile_grid_width: self.tile_grid_width,
            tile_grid_height: self.tile_grid_height,
        }
    }
}

impl DeepView for Texture {
    type V = TextureModel;

    open spec fn deep_view(&self) -> TextureModel {
        self.view()
    }
}

/// One normalized texture coordinate, held exactly as the rational number
/// `num / den`.  The coordinates a tile resolves to are ratios of small
/// integer products, so the rational value is exact where a binary fraction
/// would round.
#[derive(Clone, Copy, Debug, PartialEq, Eq)]
pub struct UvCoord {
    pub num: i128,
    pub den: i128,
}

impl UvCoord {
    /// The rational `self` is strictly less than the rational `other`.
    /// Meaningful only for positive denominators.
    pub open spec fn lt(self, other: UvCoord) -> bool {
        self.num * other.den < other.num * self.den
    }
}

/// A tile is a rectangular region of an image.
///
/// The tile is specified by the image index and the UV coordinates of the
/// tile in the image.  The image index is the index of the image in the
/// `images` vector of the [`Database`], which contains all the texture
/// atlases.  `uv0` is the upper-left corner, `uv1` the lower-right, each as
/// `(u, v)` rational coordinates.
#[derive(Clone, Copy, Debug, PartialEq, Eq)]
pub struct Tile {
    /// Image index where the tile is found.
    pub image_index: usize,

    /// UV coordinates of the tile's upper-left corner.
    pub uv0: (UvCoord, UvCoord),

    /// UV coordinates of the tile's lower-right corner.
    pub uv1: (UvCoord, UvCoord),
}

impl Tile {
    /// The tile references an existing image, and its coordinates are
    /// genuine rationals: positive denominators, shared per axis.
    pub open spec fn wf(self, n_images: int) -> bool {
        &&& self.image_index < n_images
        &&& self.uv0.0.den > 0
        &&& self.uv0.1.den > 0
        &&& self.uv1.0.den == self.uv0.0.den
        &&& self.uv1.1.den == self.uv0.1.den
    }
}

/// A block is a cube that is rendered in the game.
///
/// The block is specified by the tile indices of the front, back, top,
/// bottom, left and right sides of the block.  The tile indices are the
/// indices of the tiles in the `tiles` vector of the [`Database`], which
/// contains all the tiles used in the game.
#[derive(Clone, Copy, Debug, PartialEq, Eq, Structural)]
pub struct Block {
    /// The index of the tile that is used to render the front of the block.
    pub front: usize,

    /// The index of the tile that is used to render the back of the block.
    pub back: usize,

    /// The index of the tile that is used to render the top of the block.
    pub top: usize,

    /// The index of the tile that is used to render the bottom of the block.
    pub bottom: usize,

    /// The index of the tile that is used to render the left side of the block.
    pub left: usize,

    /// The index of the tile that is used to render the right side of the block.
    pub right: usize,
}

impl Block {
    /// All six faces reference existing tiles.
    pub open spec fn wf(self, n_tiles: int) -> bool {
        &&& self.front < n_tiles
        &&& self.back < n_tiles
        &&& self.top < n_tiles
        &&& self.bottom < n_tiles
        &&& self.left < n_tiles
        &&& self.right < n_tiles
    }
}

/// The ghost model of a [`Database`]: each arena as a sequence, each name
/// vector as a sequence of character sequences.
pub struct DbModel {
    pub images: Seq<TextureModel>,
    pub image_names: Seq<Seq<char>>,
    pub tiles: Seq<Tile>,
    pub tile_names: Seq<Seq<char>>,
    pub blocks: Seq<Block>,
    pub block_names: Seq<Seq<char>>,
}

impl DbModel {
    /// The empty model: no entries in any category.
    pub open spec fn empty() -> DbModel {
        DbModel {
            images: Seq::empty(),
            image_names: Seq::empty(),
            tiles: Seq::empty(),
            tile_names: Seq::empty(),
            blocks: Seq::empty(),
            block_names: Seq::empty(),
        }
    }

    /// Well-formedness: every arena has exactly one name per entry, every
    /// tile references an existing image, and every block references
    /// existing tiles.
    pub open spec fn wf(self) -> bool {
        &&& self.image_names.len() == self.images.len()
        &&& self.tile_names.len() == self.tiles.len()
        &&& self.block_names.len() == self.blocks.len()
        &&& forall|i: int|
            0 <= i < self.tiles.len() ==> (#[trigger] self.tiles[i]).wf(self.images.len() as int)
        &&& forall|i: int|
            0 <= i < self.blocks.len() ==> (#[trigger] self.blocks[i]).wf(self.tiles.len() as int)
    }

    /// Every texture entry carries a full RGBA pixel buffer.
    pub open spec fn images_wf(self) -> bool {
        forall|i: int| 0 <= i < self.images.len() ==> (#[trigger] self.images[i]).wf()
    }
}

/// The database of all the resources used in the game.
pub struct Database {
    /// All the texture atlases used in the game.
    pub images: Vec<Texture>,

    /// The display names of the images, in handle order.
    pub image_names: Vec<String>,

    /// All the tiles used in the game.
    pub tiles: Vec<Tile>,

    /// The display names of the tiles, in handle order.
    pub tile_names: Vec<String>,

    /// All the block types used in the game.
    pub blocks: Vec<Block>,

    /// The display names of the blocks, in handle order.
    pub block_names: Vec<String>,
}

impl View for Database {
    type V = DbModel;

    open spec fn view(&self) -> DbModel {
        DbModel {
            images: self.images.deep_view(),
            image_names: self.image_names.deep_view(),
            tiles: self.tiles@,
            tile_names: self.tile_names.deep_view(),
            blocks: self.blocks@,
            block_names: self.block_names.deep_view(),
        }
    }
}

impl Database {
    /// Creates an empty database.
    pub fn new() -> (db: Database)
        ensures
            db@ == DbModel::empty(),
    {
        let db = Database {
            images: Vec::new(),
            image_names: Vec::new(),
            tiles: Vec::new(),
            tile_names: Vec::new(),
            blocks: Vec::new(),
            block_names: Vec::new(),
        };
        proof {
            assert(db@.images =~= DbModel::empty().images);
            assert(db@.image_names =~= DbModel::empty().image_names);
            assert(db@.tile_names =~= DbModel::empty().tile_names);
            assert(db@.block_names =~= DbModel::empty().block_names);
        }
        db
    }
}

/// The handle a name resolves to in a name vector: the index of the last
/// entry bearing that name, or `None` if no entry bears it.
pub open spec fn name_lookup(names: Seq<Seq<char>>, n: Seq<char>) -> Option<int>
    decreases names.len(),
{
    if names.len() == 0 {
        None
    } else if names.last() == n {
        Some(names.len() - 1)
    } else {
        name_lookup(names.drop_last(), n)
    }
}

/// What [`name_lookup`] returns: a valid index of an entry bearing the name,
/// with no later entry bearing it; or `None` exactly when no entry bears it.
pub proof fn lemma_name_lookup_props(names: Seq<Seq<char>>, n: Seq<char>)
    ensures
        match name_lookup(names, n) {
            Some(i) => 0 <= i < names.len() && names[i] == n && (forall|j: int|
                i < j < names.len() ==> names[j] != n),
            None => forall|j: int| 0 <= j < names.len() ==> names[j] != n,
        },
    decreases names.len(),
{
    if names.len() > 0 && names.last() != n {
        lemma_name_lookup_props(names.drop_last(), n);
        assert forall|j: int| 0 <= j < names.len() - 1 implies names.drop_last()[j] == names[j] by {}
    }
}

/// Resolves a display name to the handle of the last entry declared under
/// it, scanning the name vector from the end.
pub fn lookup_name(names: &Vec<String>, n: &String) -> (r: Option<usize>)
    ensures
        match r {
            Some(i) => name_lookup(names.deep_view(), n@) == Some(i as int),
            None => name_lookup(names.deep_view(), n@) is None,
        },
{
    let ghost all = names.deep_view();
    let mut i: usize = names.len();
    proof {
        assert(all.take(i as int) =~= all);
    }
    while i > 0
        invariant
            i <= names@.len(),
            all == names.deep_view(),
            name_lookup(all, n@) == name_lookup(all.take(i as int), n@),
        decreases i,
    {
        i = i - 1;
        if names[i].eq(n) {
            proof {
                let pre = all.take(i as int + 1);
                assert(pre.last() == all[i as int]);
                assert(all[i as int] == n@);
            }
            return Some(i);
        }
        proof {
            let pre = all.take(i as int + 1);
            assert(pre.last() == all[i as int]);
            assert(pre.drop_last() =~= all.take(i as int));
        }
    }
    proof {
        assert(all.take(0).len() == 0);
    }
    None
}

} // verus!
