//! The failures of normalisation.
use vstd::prelude::*;

verus! {

/// The place in a document at which normalisation failed.
#[derive(Clone, Copy, Debug, PartialEq, Eq, Structural)]
pub enum Field {
    /// The document as a whole.
    Document,
    /// `tileset`, the sequence of tilesets of a converted document.
    Tilesets,
    /// The record of a tileset.
    Tileset,
    /// `name` of a tileset.
    TilesetName,
    /// `tilewidth`.
    TileWidth,
    /// `tileheight`.
    TileHeight,
    /// `spacing`.
    Spacing,
    /// `margin`.
    Margin,
    /// `tilecount`.
    TileCount,
    /// `columns`.
    Columns,
    /// `backgroundcolor`.
    BackgroundColor,
    /// `tiles`, or `tile`.
    Tiles,
    /// `image`: the path of a flat image, or the container of a wrapped one.
    Image,
    /// `source` of a wrapped image.
    ImageSource,
    /// `imagewidth`, or `width` of a wrapped image.
    ImageWidth,
    /// `imageheight`, or `height` of a wrapped image.
    ImageHeight,
    /// `transparentcolor`, or `trans` of a wrapped image.
    TransparentColor,
    /// The record of a tile.
    Tile,
    /// `id` of a tile.
    TileId,
    /// `type` of a tile.
    TileType,
    /// `animation`.
    Animation,
    /// `frames`, or `frame`, of an animation record.
    Frames,
    /// The record of a frame.
    Frame,
    /// `tileid` of a frame.
    FrameTileId,
    /// `duration` of a frame.
    FrameDuration,
    /// `objectgroup`: the record of an object layer.
    ObjectGroup,
    /// `id` of an object layer.
    LayerId,
    /// `name` of an object layer.
    LayerName,
    /// `color` of an object layer.
    LayerColor,
    /// `offsetx`.
    OffsetX,
    /// `offsety`.
    OffsetY,
    /// `draworder`.
    DrawOrder,
    /// `objects`, or `object`.
    Objects,
    /// The record of an object.
    Object,
    /// `id` of an object.
    ObjectId,
    /// `name` of an object.
    ObjectName,
    /// `type` of an object.
    ObjectType,
    /// `x`.
    X,
    /// `y`.
    Y,
    /// `width` of an object.
    Width,
    /// `height` of an object.
    Height,
    /// `rotation`.
    Rotation,
    /// `visible`.
    Visible,
    /// The shape markers `ellipse`, `point`, `polygon` and `polyline`.
    Shape,
    /// `points` of a polygon or a polyline.
    Points,
}

/// Why a document could not be normalised.
#[derive(Clone, Debug, PartialEq, Eq)]
pub enum Error {
    /// The bytes are not UTF-8: `valid_up_to` bytes of them are, and
    /// `error_len` bytes after those are an invalid sequence, where the bytes
    /// do not just end too early.
    Utf8Error { valid_up_to: usize, error_len: Option<usize> },
    /// The document is not well formed, a record has the wrong shape, a
    /// required field is missing, or none of the shapes of a variant fits.
    Deserialization(Field),
    /// A scalar cannot be converted to the type of its field.
    Coercion(Field),
    /// The converter from the tag encoding failed, with its message.
    Conversion(String),
}

impl Error {
    /// The field at which the failure was found, where there is one.
    pub fn field(&self) -> (r: Option<Field>)
        ensures
            r == match *self {
                Error::Deserialization(f) => Some(f),
                Error::Coercion(f) => Some(f),
                _ => None,
            },
    {
        match self {
            Error::Deserialization(f) => Some(*f),
            Error::Coercion(f) => Some(*f),
            _ => None,
        }
    }
}

} // verus!
