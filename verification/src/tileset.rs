//! Tilesets, their tiles, images and animations.
use vstd::prelude::*;
use std::time::Duration;
use crate::coerce::all_of;
use crate::coerce::first_failure;
use crate::coerce::native_field;
use crate::coerce::native_u32_field;
use crate::coerce::number_field;
use crate::coerce::optional_string_field;
use crate::coerce::optional_text_field;
use crate::coerce::string_field;
use crate::coerce::text_field;
use crate::coerce::u32_field;
use crate::coerce::u64_field;
use crate::coerce::views;
use crate::error::Error;
use crate::error::Field;
use crate::json::Json;
use crate::json::Tree;
use crate::json::lemma_object_view;
use crate::object::layer_of;
use crate::object::LayerModel;
use crate::object::ObjectLayer;
use crate::coerce::usize_field;
use crate::text::same_text;
use crate::wire::utf8_failure;
use crate::wire::parsed;
use crate::wire::text_of_bytes;

verus! {

/// The source image of a tileset or of a tile.
#[derive(Clone, Debug, PartialEq, Eq, Hash)]
pub struct Image {
    /// The path of the image file.
    pub source: String,
    /// The colour that is treated as transparent.
    pub transparent_color: Option<String>,
    /// In pixels.
    pub width: u32,
    /// In pixels.
    pub height: u32,
}

/// What an [`Image`] stands for.
pub ghost struct ImageModel {
    pub source: Seq<char>,
    pub transparent_color: Option<Seq<char>>,
    pub width: int,
    pub height: int,
}

impl View for Image {
    type V = ImageModel;

    open spec fn view(&self) -> ImageModel {
        ImageModel {
            source: self.source@,
            transparent_color: match self.transparent_color {
                Some(c) => Some(c@),
                None => None,
            },
            width: self.width as int,
            height: self.height as int,
        }
    }
}

/// The highest `u32`.
pub open spec fn widest() -> int {
    u32::MAX as int
}

/// The image that a record of attributes describes, the wrapped shape:
/// `source`, optionally `trans`, and `width` and `height`, each a number or a
/// text that writes one.
pub open spec fn wrapped_image_of(t: Tree) -> Result<ImageModel, Error> {
    if !(t is Object) {
        Err(Error::Deserialization(Field::Image))
    } else {
        match text_field(t, "source"@, Field::ImageSource, None) {
            Err(e) => Err(e),
            Ok(source) => match optional_text_field(t, "trans"@, Field::TransparentColor) {
                Err(e) => Err(e),
                Ok(transparent_color) => match number_field(
                    t,
                    "width"@,
                    0,
                    widest(),
                    Field::ImageWidth,
                    None,
                ) {
                    Err(e) => Err(e),
                    Ok(width) => match number_field(
                        t,
                        "height"@,
                        0,
                        widest(),
                        Field::ImageHeight,
                        None,
                    ) {
                        Err(e) => Err(e),
                        Ok(height) => Ok(ImageModel { source, transparent_color, width, height }),
                    },
                },
            },
        }
    }
}

/// The image that the fields of a record describe, the flat shape: the path
/// `source` that its `image` holds, optionally `transparentcolor`, and
/// `imagewidth` and `imageheight`, each a number.
pub open spec fn flat_image_of(t: Tree, source: Seq<char>) -> Result<ImageModel, Error> {
    match optional_text_field(t, "transparentcolor"@, Field::TransparentColor) {
        Err(e) => Err(e),
        Ok(transparent_color) => match native_field(
            t,
            "imagewidth"@,
            0,
            widest(),
            Field::ImageWidth,
        ) {
            Err(e) => Err(e),
            Ok(width) => match native_field(t, "imageheight"@, 0, widest(), Field::ImageHeight) {
                Err(e) => Err(e),
                Ok(height) => Ok(ImageModel { source, transparent_color, width, height }),
            },
        },
    }
}

/// The image of a record, by the shape of what its `image` holds. An array:
/// the wrapped shape, where every item has to describe an image, the first
/// of them wins, and an empty array is an error of shape. A text: the flat
/// shape. Anything else, and a record without the entry: an error of shape.
pub open spec fn image_of(t: Tree) -> Result<ImageModel, Error> {
    match t.get("image"@) {
        Some(Tree::Array(items)) => if items.len() == 0 {
            Err(Error::Deserialization(Field::Image))
        } else {
            match all_of(Seq::new(items.len(), |i: int| wrapped_image_of(items[i]))) {
                Ok(images) => Ok(images[0]),
                Err(e) => Err(e),
            }
        },
        Some(Tree::Text(source)) => flat_image_of(t, source),
        _ => Err(Error::Deserialization(Field::Image)),
    }
}

/// The image of a tile or of a tileset, which may have none: no image for a
/// record without an `image`, and else the image of the record.
pub open spec fn optional_image_of(t: Tree) -> Result<Option<ImageModel>, Error> {
    if t.get("image"@) is None {
        Ok(None)
    } else {
        match image_of(t) {
            Ok(image) => Ok(Some(image)),
            Err(e) => Err(e),
        }
    }
}

impl Image {
    /// Builds an image from a record of attributes, the wrapped shape.
    pub fn from_attributes(v: &Json) -> (r: Result<Image, Error>)
        ensures
            match wrapped_image_of(v@) {
                Ok(m) => r is Ok && r->Ok_0@ == m,
                Err(e) => r == Err::<Image, Error>(e),
            },
    {
        if !v.is_object() {
            return Err(Error::Deserialization(Field::Image));
        }
        let source = string_field(v, "source", Field::ImageSource, None)?;
        let transparent_color = optional_string_field(v, "trans", Field::TransparentColor)?;
        let width = u32_field(v, "width", Field::ImageWidth, None)?;
        let height = u32_field(v, "height", Field::ImageHeight, None)?;
        Ok(Image { source, transparent_color, width, height })
    }

    /// Builds an image from the fields of a record, the flat shape, with the
    /// path `source` that its `image` holds.
    pub fn from_fields(v: &Json, source: &String) -> (r: Result<Image, Error>)
        ensures
            match flat_image_of(v@, source@) {
                Ok(m) => r is Ok && r->Ok_0@ == m,
                Err(e) => r == Err::<Image, Error>(e),
            },
    {
        let transparent_color = optional_string_field(
            v,
            "transparentcolor",
            Field::TransparentColor,
        )?;
        let width = native_u32_field(v, "imagewidth", Field::ImageWidth)?;
        let height = native_u32_field(v, "imageheight", Field::ImageHeight)?;
        Ok(Image { source: source.clone(), transparent_color, width, height })
    }

    /// Reconciles the two shapes of an image: builds the image of a record.
    pub fn deserialize(v: &Json) -> (r: Result<Image, Error>)
        ensures
            agrees(r, image_of(v@)),
    {
        let found = match v.get("image") {
            Some(found) => found,
            None => {
                return Err(Error::Deserialization(Field::Image));
            },
        };
        match found {
            Json::Text(source) => Image::from_fields(v, source),
            Json::Array(_) => {
                let items = match found.items() {
                    Some(items) => items,
                    None => {
                        return Err(Error::Deserialization(Field::Image));
                    },
                };
                if items.len() == 0 {
                    return Err(Error::Deserialization(Field::Image));
                }
                let ghost results = Seq::new(items@.len(), |i: int| wrapped_image_of(items@[i]@));
                assert(results =~= Seq::new(
                    found@->Array_0.len(),
                    |i: int| wrapped_image_of(found@->Array_0[i]),
                ));
                let mut first: Option<Image> = None;
                let mut i: usize = 0;
                while i < items.len()
                    invariant
                        i <= items.len(),
                        items.len() > 0,
                        results == Seq::new(items@.len(), |i: int| wrapped_image_of(items@[i]@)),
                        image_of(v@) == (match all_of(results) {
                            Ok(images) => Ok::<ImageModel, Error>(images[0]),
                            Err(e) => Err(e),
                        }),
                        first_failure(results, 0) == first_failure(results, i as int),
                        forall|k: int| 0 <= k < i ==> (#[trigger] results[k]) is Ok,
                        i > 0 ==> first is Some && results[0] == Ok::<ImageModel, Error>(
                            first->Some_0@,
                        ),
                    decreases items.len() - i,
                {
                    let image = Image::from_attributes(&items[i])?;
                    if i == 0 {
                        first = Some(image);
                    }
                    i += 1;
                }
                match first {
                    Some(image) => Ok(image),
                    None => Err(Error::Deserialization(Field::Image)),
                }
            },
            _ => Err(Error::Deserialization(Field::Image)),
        }
    }

    /// Builds the image of a tile or of a tileset, which may have none.
    pub fn optional(v: &Json) -> (r: Result<Option<Image>, Error>)
        ensures
            match optional_image_of(v@) {
                Ok(Some(m)) => r is Ok && r->Ok_0 is Some && r->Ok_0->Some_0@ == m,
                Ok(None) => r is Ok && r->Ok_0 is None,
                Err(e) => r == Err::<Option<Image>, Error>(e),
            },
    {
        if v.get("image").is_none() {
            return Ok(None);
        }
        let image = Image::deserialize(v)?;
        Ok(Some(image))
    }
}

/// The nanoseconds that a duration lasts.
pub uninterp spec fn whole_nanos(d: Duration) -> nat;

/// Calls `std::time::Duration::from_millis`, which makes the duration that
/// lasts the given number of milliseconds and nothing more: a million
/// nanoseconds for each of them.
#[verifier::external_body]
fn duration_of_millis(millis: u64) -> (r: Duration)
    ensures
        whole_nanos(r) == millis * 1_000_000,
{
    Duration::from_millis(millis)
}

/// One step of the animation of a tile.
#[derive(Clone, Copy, Debug, PartialEq, Eq, Hash)]
pub struct Frame {
    /// The local id of the tile that is shown.
    pub tileid: u32,
    /// How long it is shown.
    pub duration: Duration,
}

/// What a [`Frame`] stands for; its duration in nanoseconds.
pub ghost struct FrameModel {
    pub tileid: int,
    pub nanos: int,
}

impl View for Frame {
    type V = FrameModel;

    open spec fn view(&self) -> FrameModel {
        FrameModel { tileid: self.tileid as int, nanos: whole_nanos(self.duration) as int }
    }
}

/// The frame that a record describes: `tileid` and `duration`, a number of
/// milliseconds, each a number or a text that writes one.
pub open spec fn frame_of(t: Tree) -> Result<FrameModel, Error> {
    if !(t is Object) {
        Err(Error::Deserialization(Field::Frame))
    } else {
        match number_field(t, "tileid"@, 0, widest(), Field::FrameTileId, None) {
            Err(e) => Err(e),
            Ok(tileid) => match number_field(
                t,
                "duration"@,
                0,
                u64::MAX as int,
                Field::FrameDuration,
                None,
            ) {
                Err(e) => Err(e),
                Ok(millis) => Ok(FrameModel { tileid, nanos: millis * 1_000_000 }),
            },
        }
    }
}

/// The frames that an array holds, each item a frame; their first failure
/// where one is none, and an error of shape for what is no array.
pub open spec fn frames_of(t: Tree) -> Result<Seq<FrameModel>, Error> {
    match t {
        Tree::Array(items) => all_of(Seq::new(items.len(), |i: int| frame_of(items[i]))),
        _ => Err(Error::Deserialization(Field::Frames)),
    }
}

/// The frames of an animation record: those under its `frames`, or else under
/// its `frame`, and none where it has neither. What is no record, and a
/// record without frames that carries a `tileid` or a `duration`, which is a
/// frame, is no animation record: an error of shape.
pub open spec fn wrapped_frames_of(t: Tree) -> Result<Seq<FrameModel>, Error> {
    match t.get_either("frames"@, "frame"@) {
        Some(found) => frames_of(found),
        None => if !(t is Object) || t.get("tileid"@) is Some || t.get("duration"@) is Some {
            Err(Error::Deserialization(Field::Frames))
        } else {
            Ok(Seq::empty())
        },
    }
}

/// The frames of a tile, by the shape of what its `animation` holds. No
/// entry: no frames. An array of frames: those. Where that fails, an array of
/// animation records, each holding frames of its own: the frames of the
/// first record, the others are dropped. Where neither fits, an error of
/// shape.
pub open spec fn animation_of(found: Option<Tree>) -> Result<Seq<FrameModel>, Error> {
    match found {
        None => Ok(Seq::empty()),
        Some(Tree::Array(items)) => match frames_of(Tree::Array(items)) {
            Ok(frames) => Ok(frames),
            Err(_) => match all_of(Seq::new(items.len(), |i: int| wrapped_frames_of(items[i]))) {
                Ok(lists) => if lists.len() > 0 {
                    Ok(lists[0])
                } else {
                    Err(Error::Deserialization(Field::Animation))
                },
                Err(_) => Err(Error::Deserialization(Field::Animation)),
            },
        },
        Some(_) => Err(Error::Deserialization(Field::Animation)),
    }
}

impl Frame {
    /// Builds a frame from a record of a document.
    pub fn from_value(v: &Json) -> (r: Result<Frame, Error>)
        ensures
            match frame_of(v@) {
                Ok(m) => r is Ok && r->Ok_0@ == m,
                Err(e) => r == Err::<Frame, Error>(e),
            },
    {
        if !v.is_object() {
            return Err(Error::Deserialization(Field::Frame));
        }
        let tileid = u32_field(v, "tileid", Field::FrameTileId, None)?;
        let millis = u64_field(v, "duration", Field::FrameDuration, None)?;
        Ok(Frame { tileid, duration: duration_of_millis(millis) })
    }
}

/// Reads the frames that an array holds.
pub fn frames_in(v: &Json) -> (r: Result<Vec<Frame>, Error>)
    ensures
        match frames_of(v@) {
            Ok(m) => r is Ok && views(r->Ok_0@) == m,
            Err(e) => r == Err::<Vec<Frame>, Error>(e),
        },
{
    let items = match v.items() {
        Some(items) => items,
        None => {
            return Err(Error::Deserialization(Field::Frames));
        },
    };
    let ghost results = Seq::new(items@.len(), |i: int| frame_of(items@[i]@));
    assert(results =~= Seq::new(v@->Array_0.len(), |i: int| frame_of(v@->Array_0[i])));
    let mut out: Vec<Frame> = Vec::new();
    let mut i: usize = 0;
    while i < items.len()
        invariant
            i <= items.len(),
            out.len() == i,
            results == Seq::new(items@.len(), |i: int| frame_of(items@[i]@)),
            frames_of(v@) == all_of(results),
            first_failure(results, 0) == first_failure(results, i as int),
            forall|k: int| 0 <= k < i ==> (#[trigger] results[k]) == Ok::<FrameModel, Error>(out@[k]@),
        decreases items.len() - i,
    {
        let frame = Frame::from_value(&items[i])?;
        out.push(frame);
        i += 1;
    }
    assert(Seq::new(results.len(), |i: int| results[i]->Ok_0) =~= views(out@));
    Ok(out)
}

/// Reads the frames of an animation record.
pub fn wrapped_frames_in(v: &Json) -> (r: Result<Vec<Frame>, Error>)
    ensures
        match wrapped_frames_of(v@) {
            Ok(m) => r is Ok && views(r->Ok_0@) == m,
            Err(e) => r == Err::<Vec<Frame>, Error>(e),
        },
{
    match v.get_either("frames", "frame") {
        Some(found) => frames_in(found),
        None => if !v.is_object() || v.get("tileid").is_some() || v.get("duration").is_some() {
            Err(Error::Deserialization(Field::Frames))
        } else {
            let none: Vec<Frame> = Vec::new();
            assert(views(none@) =~= Seq::empty());
            Ok(none)
        },
    }
}

/// Reconciles the two shapes of an animation: reads the frames of a tile
/// from what its `animation` holds.
pub fn deserialize_animation(found: Option<&Json>) -> (r: Result<Vec<Frame>, Error>)
    ensures
        match animation_of(
            match found {
                Some(v) => Some(v@),
                None => None,
            },
        ) {
            Ok(m) => r is Ok && views(r->Ok_0@) == m,
            Err(e) => r == Err::<Vec<Frame>, Error>(e),
        },
{
    let v = match found {
        Some(v) => v,
        None => {
            let none: Vec<Frame> = Vec::new();
            assert(views(none@) =~= Seq::empty());
            return Ok(none);
        },
    };
    let items = match v.items() {
        Some(items) => items,
        None => {
            return Err(Error::Deserialization(Field::Animation));
        },
    };
    assert(v@ == Tree::Array(v@->Array_0));
    match frames_in(v) {
        Ok(frames) => {
            return Ok(frames);
        },
        Err(_) => {},
    }
    let ghost results = Seq::new(items@.len(), |i: int| wrapped_frames_of(items@[i]@));
    assert(results =~= Seq::new(v@->Array_0.len(), |i: int| wrapped_frames_of(v@->Array_0[i])));
    let mut first: Option<Vec<Frame>> = None;
    let mut i: usize = 0;
    while i < items.len()
        invariant
            i <= items.len(),
            found == Some(v),
            results == Seq::new(items@.len(), |i: int| wrapped_frames_of(items@[i]@)),
            animation_of(Some(v@)) == (match all_of(results) {
                Ok(lists) => if lists.len() > 0 {
                    Ok::<Seq<FrameModel>, Error>(lists[0])
                } else {
                    Err(Error::Deserialization(Field::Animation))
                },
                Err(_) => Err(Error::Deserialization(Field::Animation)),
            }),
            first_failure(results, 0) == first_failure(results, i as int),
            forall|k: int| 0 <= k < i ==> (#[trigger] results[k]) is Ok,
            i > 0 ==> first is Some && results[0] == Ok::<Seq<FrameModel>, Error>(
                views(first->Some_0@),
            ),
            i == 0 ==> first is None,
        decreases items.len() - i,
    {
        match wrapped_frames_in(&items[i]) {
            Ok(frames) => {
                if i == 0 {
                    first = Some(frames);
                }
            },
            Err(_) => {
                return Err(Error::Deserialization(Field::Animation));
            },
        }
        i += 1;
    }
    match first {
        Some(frames) => Ok(frames),
        None => Err(Error::Deserialization(Field::Animation)),
    }
}

/// What stands for a value that may be missing.
pub open spec fn view_of<T: View>(o: Option<T>) -> Option<T::V> {
    match o {
        Some(x) => Some(x@),
        None => None,
    }
}

/// Whether `r` is what `m` says: the failure that `m` is, or a value that
/// stands for what `m` holds.
pub open spec fn agrees<T: View>(r: Result<T, Error>, m: Result<T::V, Error>) -> bool {
    match m {
        Ok(x) => r is Ok && r->Ok_0@ == x,
        Err(e) => r == Err::<T, Error>(e),
    }
}

/// One cell of a tileset.
#[derive(Clone, Debug, PartialEq, Eq, Hash)]
pub struct Tile {
    /// The local id of the tile within its tileset.
    pub id: u32,
    /// The free-form type tag, `type` in a document.
    pub kind: String,
    /// The image of the tile, where the tileset is a collection of images.
    pub image: Option<Image>,
    /// The shapes attached to the tile, `objectgroup` in a document.
    pub objects: Option<ObjectLayer>,
    /// The frames of the animation; none for a static tile.
    pub animation: Vec<Frame>,
}

/// What a [`Tile`] stands for.
pub ghost struct TileModel {
    pub id: int,
    pub kind: Seq<char>,
    pub image: Option<ImageModel>,
    pub objects: Option<LayerModel>,
    pub animation: Seq<FrameModel>,
}

impl View for Tile {
    type V = TileModel;

    open spec fn view(&self) -> TileModel {
        TileModel {
            id: self.id as int,
            kind: self.kind@,
            image: view_of(self.image),
            objects: view_of(self.objects),
            animation: views(self.animation@),
        }
    }
}

/// The layer of a tile: none where the entry is missing or null.
pub open spec fn optional_layer_of(found: Option<Tree>) -> Result<Option<LayerModel>, Error> {
    match found {
        None => Ok(None),
        Some(Tree::Null) => Ok(None),
        Some(v) => match layer_of(v) {
            Ok(layer) => Ok(Some(layer)),
            Err(e) => Err(e),
        },
    }
}

/// The tile that a record of a document describes. `id` is required; `type`
/// is empty where the record does not give it. The first field that fails,
/// in the order of [`TileModel`], decides the error.
pub open spec fn tile_of(t: Tree) -> Result<TileModel, Error> {
    if !(t is Object) {
        Err(Error::Deserialization(Field::Tile))
    } else {
        match number_field(t, "id"@, 0, widest(), Field::TileId, None) {
            Err(e) => Err(e),
            Ok(id) => match text_field(t, "type"@, Field::TileType, Some(Seq::empty())) {
                Err(e) => Err(e),
                Ok(kind) => match optional_image_of(t) {
                    Err(e) => Err(e),
                    Ok(image) => match optional_layer_of(t.get("objectgroup"@)) {
                        Err(e) => Err(e),
                        Ok(objects) => match animation_of(t.get("animation"@)) {
                            Err(e) => Err(e),
                            Ok(animation) => Ok(TileModel { id, kind, image, objects, animation }),
                        },
                    },
                },
            },
        }
    }
}

/// The tiles of a tileset: none without an entry, and else an array of
/// records, each of them a tile.
pub open spec fn tiles_of(found: Option<Tree>) -> Result<Seq<TileModel>, Error> {
    match found {
        None => Ok(Seq::empty()),
        Some(Tree::Array(items)) => all_of(Seq::new(items.len(), |i: int| tile_of(items[i]))),
        Some(_) => Err(Error::Deserialization(Field::Tiles)),
    }
}

impl Tile {
    /// Builds a tile from a record of a document.
    pub fn from_value(v: &Json) -> (r: Result<Tile, Error>)
        ensures
            agrees(r, tile_of(v@)),
    {
        if !v.is_object() {
            return Err(Error::Deserialization(Field::Tile));
        }
        let id = u32_field(v, "id", Field::TileId, None)?;
        let kind = string_field(v, "type", Field::TileType, Some(""))?;
        let image = Image::optional(v)?;
        let objects = match v.get("objectgroup") {
            None => None,
            Some(Json::Null) => None,
            Some(found) => Some(ObjectLayer::from_value(found)?),
        };
        let animation = deserialize_animation(v.get("animation"))?;
        proof {
            reveal_strlit("");
            assert(""@ =~= Seq::<char>::empty());
        }
        Ok(Tile { id, kind, image, objects, animation })
    }
}

/// Reads the tiles under `tiles`, or else under `tile`, of a record.
pub fn tiles_in(record: &Json) -> (r: Result<Vec<Tile>, Error>)
    ensures
        match tiles_of(record@.get_either("tiles"@, "tile"@)) {
            Ok(m) => r is Ok && views(r->Ok_0@) == m,
            Err(e) => r == Err::<Vec<Tile>, Error>(e),
        },
{
    let mut out: Vec<Tile> = Vec::new();
    let found = match record.get_either("tiles", "tile") {
        Some(found) => found,
        None => {
            assert(views(out@) =~= Seq::empty());
            return Ok(out);
        },
    };
    let items = match found.items() {
        Some(items) => items,
        None => {
            return Err(Error::Deserialization(Field::Tiles));
        },
    };
    assert(found@ == Tree::Array(found@->Array_0));
    let ghost results = Seq::new(items@.len(), |i: int| tile_of(items@[i]@));
    assert(results =~= Seq::new(found@->Array_0.len(), |i: int| tile_of(found@->Array_0[i])));
    let mut i: usize = 0;
    while i < items.len()
        invariant
            i <= items.len(),
            out.len() == i,
            results == Seq::new(items@.len(), |i: int| tile_of(items@[i]@)),
            tiles_of(record@.get_either("tiles"@, "tile"@)) == all_of(results),
            first_failure(results, 0) == first_failure(results, i as int),
            forall|k: int| 0 <= k < i ==> (#[trigger] results[k]) == Ok::<TileModel, Error>(out@[k]@),
        decreases items.len() - i,
    {
        let tile = Tile::from_value(&items[i])?;
        out.push(tile);
        i += 1;
    }
    assert(Seq::new(results.len(), |i: int| results[i]->Ok_0) =~= views(out@));
    Ok(out)
}

/// The attributes of a document that say nothing of the tileset itself,
/// handed on as they are.
#[derive(Clone, Debug, PartialEq, Eq, Hash)]
pub struct Metadata {
    /// The entries, in the order in which the record holds them.
    pub attributes: Vec<(String, Json)>,
}

impl View for Metadata {
    type V = Seq<(Seq<char>, Tree)>;

    open spec fn view(&self) -> Seq<(Seq<char>, Tree)> {
        Seq::new(
            self.attributes@.len(),
            |i: int| (self.attributes@[i].0@, self.attributes@[i].1@),
        )
    }
}

/// Whether `key` names a field of a tileset.
pub open spec fn known_key(key: Seq<char>) -> bool {
    key == "name"@ || key == "tilewidth"@ || key == "tileheight"@ || key == "spacing"@ || key
        == "margin"@ || key == "tilecount"@ || key == "columns"@ || key == "backgroundcolor"@ || key
        == "image"@ || key == "imagewidth"@ || key == "imageheight"@ || key == "transparentcolor"@
        || key == "tiles"@ || key == "tile"@
}

/// Whether `key` names a field of a tileset.
pub fn is_known_key(key: &str) -> (r: bool)
    ensures
        r == known_key(key@),
{
    same_text(key, "name") || same_text(key, "tilewidth") || same_text(key, "tileheight")
        || same_text(key, "spacing") || same_text(key, "margin") || same_text(key, "tilecount")
        || same_text(key, "columns") || same_text(key, "backgroundcolor") || same_text(key, "image")
        || same_text(key, "imagewidth") || same_text(key, "imageheight") || same_text(
        key,
        "transparentcolor",
    ) || same_text(key, "tiles") || same_text(key, "tile")
}

/// Those of the first `upto` entries whose key names no field of a tileset,
/// in their order.
pub open spec fn other_entries(entries: Seq<(Seq<char>, Tree)>, upto: int) -> Seq<
    (Seq<char>, Tree),
>
    decreases upto,
{
    if upto <= 0 {
        Seq::empty()
    } else if known_key(entries[upto - 1].0) {
        other_entries(entries, upto - 1)
    } else {
        other_entries(entries, upto - 1).push(entries[upto - 1])
    }
}

/// The metadata of a tileset: the entries of its record that say nothing of
/// the tileset itself; none where there are no such entries.
pub open spec fn metadata_of(t: Tree) -> Option<Seq<(Seq<char>, Tree)>> {
    let rest = other_entries(t.entries(), t.entries().len() as int);
    if rest.len() == 0 {
        None
    } else {
        Some(rest)
    }
}

/// Collects the metadata of a tileset from its record.
pub fn metadata_in(v: &Json) -> (r: Option<Metadata>)
    ensures
        view_of(r) == metadata_of(v@),
{
    match v {
        Json::Object(entries) => {
            proof {
                lemma_object_view(*entries);
            }
            let mut attributes: Vec<(String, Json)> = Vec::new();
            let mut i: usize = 0;
            while i < entries.len()
                invariant
                    i <= entries.len(),
                    v@.entries().len() == entries.len(),
                    forall|k: int|
                        0 <= k < entries.len() ==> #[trigger] v@.entries()[k] == (
                            entries@[k].0@,
                            entries@[k].1@,
                        ),
                    (Metadata { attributes })@ == other_entries(v@.entries(), i as int),
                decreases entries.len() - i,
            {
                let ghost before = (Metadata { attributes })@;
                if !is_known_key(entries[i].0.as_str()) {
                    attributes.push((entries[i].0.clone(), entries[i].1.duplicate()));
                    assert((Metadata { attributes })@ =~= before.push(v@.entries()[i as int]));
                } else {
                    assert((Metadata { attributes })@ =~= before);
                }
                i += 1;
            }
            if attributes.len() == 0 {
                None
            } else {
                Some(Metadata { attributes })
            }
        },
        _ => None,
    }
}

/// A named catalogue of tiles.
#[derive(Clone, Debug, PartialEq, Eq, Hash)]
pub struct Tileset {
    /// What the document says besides the tileset itself.
    pub metadata: Option<Metadata>,
    pub name: String,
    /// The (maximum) width of the tiles, in pixels.
    pub tile_width: u32,
    /// The (maximum) height of the tiles, in pixels.
    pub tile_height: u32,
    /// The spacing between the tiles in the image, in pixels.
    pub spacing: u32,
    /// The margin around the tiles in the image, in pixels.
    pub margin: u32,
    pub tile_count: usize,
    pub columns: u32,
    pub background_color: Option<String>,
    /// The image that all tiles share, where they share one.
    pub image: Option<Image>,
    /// The tiles that the document lists one by one.
    pub tiles: Vec<Tile>,
}

/// What a [`Tileset`] stands for.
pub ghost struct TilesetModel {
    pub metadata: Option<Seq<(Seq<char>, Tree)>>,
    pub name: Seq<char>,
    pub tile_width: int,
    pub tile_height: int,
    pub spacing: int,
    pub margin: int,
    pub tile_count: int,
    pub columns: int,
    pub background_color: Option<Seq<char>>,
    pub image: Option<ImageModel>,
    pub tiles: Seq<TileModel>,
}

impl View for Tileset {
    type V = TilesetModel;

    open spec fn view(&self) -> TilesetModel {
        TilesetModel {
            metadata: view_of(self.metadata),
            name: self.name@,
            tile_width: self.tile_width as int,
            tile_height: self.tile_height as int,
            spacing: self.spacing as int,
            margin: self.margin as int,
            tile_count: self.tile_count as int,
            columns: self.columns as int,
            background_color: match self.background_color {
                Some(c) => Some(c@),
                None => None,
            },
            image: view_of(self.image),
            tiles: views(self.tiles@),
        }
    }
}

/// The tileset that a record of a document describes. `name`, `tilewidth`,
/// `tileheight`, `tilecount` and `columns` are required; `spacing` and
/// `margin` are zero and there are no tiles where the record does not give
/// them. Every number may be written as a text. The first field that fails,
/// in the order of [`TilesetModel`], decides the error.
pub open spec fn tileset_of(t: Tree) -> Result<TilesetModel, Error> {
    if !(t is Object) {
        Err(Error::Deserialization(Field::Tileset))
    } else {
        match text_field(t, "name"@, Field::TilesetName, None) {
            Err(e) => Err(e),
            Ok(name) => match number_field(t, "tilewidth"@, 0, widest(), Field::TileWidth, None) {
                Err(e) => Err(e),
                Ok(tile_width) => match number_field(
                    t,
                    "tileheight"@,
                    0,
                    widest(),
                    Field::TileHeight,
                    None,
                ) {
                    Err(e) => Err(e),
                    Ok(tile_height) => match number_field(
                        t,
                        "spacing"@,
                        0,
                        widest(),
                        Field::Spacing,
                        Some(0),
                    ) {
                        Err(e) => Err(e),
                        Ok(spacing) => match number_field(
                            t,
                            "margin"@,
                            0,
                            widest(),
                            Field::Margin,
                            Some(0),
                        ) {
                            Err(e) => Err(e),
                            Ok(margin) => match number_field(
                                t,
                                "tilecount"@,
                                0,
                                usize::MAX as int,
                                Field::TileCount,
                                None,
                            ) {
                                Err(e) => Err(e),
                                Ok(tile_count) => match number_field(
                                    t,
                                    "columns"@,
                                    0,
                                    widest(),
                                    Field::Columns,
                                    None,
                                ) {
                                    Err(e) => Err(e),
                                    Ok(columns) => match optional_text_field(
                                        t,
                                        "backgroundcolor"@,
                                        Field::BackgroundColor,
                                    ) {
                                        Err(e) => Err(e),
                                        Ok(background_color) => match optional_image_of(t) {
                                            Err(e) => Err(e),
                                            Ok(image) => match tiles_of(
                                                t.get_either("tiles"@, "tile"@),
                                            ) {
                                                Err(e) => Err(e),
                                                Ok(tiles) => Ok(
                                                    TilesetModel {
                                                        metadata: metadata_of(t),
                                                        name,
                                                        tile_width,
                                                        tile_height,
                                                        spacing,
                                                        margin,
                                                        tile_count,
                                                        columns,
                                                        background_color,
                                                        image,
                                                        tiles,
                                                    },
                                                ),
                                            },
                                        },
                                    },
                                },
                            },
                        },
                    },
                },
            },
        }
    }
}

/// The tileset of a document of the key-value encoding: an error of shape at
/// the document where no document was read.
pub open spec fn document_of(read: Option<Tree>) -> Result<TilesetModel, Error> {
    match read {
        Some(t) => tileset_of(t),
        None => Err(Error::Deserialization(Field::Document)),
    }
}

/// The tileset of a document that was converted from the tag encoding: a
/// record whose `tileset` is an array of tilesets. Every item has to describe
/// a tileset; the first of them wins and the others are dropped. An empty
/// array is an error of shape.
pub open spec fn first_tileset_of(t: Tree) -> Result<TilesetModel, Error> {
    if !(t is Object) {
        Err(Error::Deserialization(Field::Document))
    } else {
        match t.get("tileset"@) {
            Some(Tree::Array(items)) => if items.len() == 0 {
                Err(Error::Deserialization(Field::Tilesets))
            } else {
                match all_of(Seq::new(items.len(), |i: int| tileset_of(items[i]))) {
                    Ok(tilesets) => Ok(tilesets[0]),
                    Err(e) => Err(e),
                }
            },
            _ => Err(Error::Deserialization(Field::Tilesets)),
        }
    }
}

/// The tileset that comes of what the converter from the tag encoding
/// returned: a conversion error with its message where it failed.
pub open spec fn converted_of(out: Result<Json, String>) -> Result<TilesetModel, Error> {
    match out {
        Ok(document) => first_tileset_of(document@),
        Err(message) => Err(Error::Conversion(message)),
    }
}

impl Tileset {
    /// Builds a tileset from a record of a document.
    pub fn from_value(v: &Json) -> (r: Result<Tileset, Error>)
        ensures
            agrees(r, tileset_of(v@)),
    {
        if !v.is_object() {
            return Err(Error::Deserialization(Field::Tileset));
        }
        let name = string_field(v, "name", Field::TilesetName, None)?;
        let tile_width = u32_field(v, "tilewidth", Field::TileWidth, None)?;
        let tile_height = u32_field(v, "tileheight", Field::TileHeight, None)?;
        let spacing = u32_field(v, "spacing", Field::Spacing, Some(0))?;
        let margin = u32_field(v, "margin", Field::Margin, Some(0))?;
        let tile_count = usize_field(v, "tilecount", Field::TileCount, None)?;
        let columns = u32_field(v, "columns", Field::Columns, None)?;
        let background_color = optional_string_field(v, "backgroundcolor", Field::BackgroundColor)?;
        let image = Image::optional(v)?;
        let tiles = tiles_in(v)?;
        let metadata = metadata_in(v);
        Ok(
            Tileset {
                metadata,
                name,
                tile_width,
                tile_height,
                spacing,
                margin,
                tile_count,
                columns,
                background_color,
                image,
                tiles,
            },
        )
    }

    /// Reads a tileset from a document of the key-value encoding.
    pub fn from_json(s: &str) -> (r: Result<Tileset, Error>)
        ensures
            agrees(r, document_of(parsed(s@))),
    {
        match Json::parse(s) {
            Some(document) => Tileset::from_value(&document),
            None => Err(Error::Deserialization(Field::Document)),
        }
    }

    /// Reads a tileset from the bytes of a document of the key-value
    /// encoding. Bytes that are not UTF-8 fail before anything is read.
    pub fn from_json_data(buf: &[u8]) -> (r: Result<Tileset, Error>)
        ensures
            vstd::utf8::valid_utf8(buf@) ==> agrees(
                r,
                document_of(parsed(vstd::utf8::decode_utf8(buf@))),
            ),
            !vstd::utf8::valid_utf8(buf@) ==> r is Err && utf8_failure(buf@, r->Err_0),
    {
        match text_of_bytes(buf) {
            Ok(s) => {
                proof {
                    vstd::utf8::encode_utf8_decode_utf8(s@);
                }
                Tileset::from_json(s)
            },
            Err(failure) => Err(Error::Utf8Error { valid_up_to: failure.0, error_len: failure.1 }),
        }
    }

    /// Finishes the reading of a document of the tag encoding, from what the
    /// converter to the key-value encoding returned.
    pub fn from_converted(out: Result<Json, String>) -> (r: Result<Tileset, Error>)
        ensures
            agrees(r, converted_of(out)),
    {
        let document = match out {
            Ok(document) => document,
            Err(message) => {
                return Err(Error::Conversion(message));
            },
        };
        if !document.is_object() {
            return Err(Error::Deserialization(Field::Document));
        }
        let found = match document.get("tileset") {
            Some(found) => found,
            None => {
                return Err(Error::Deserialization(Field::Tilesets));
            },
        };
        let items = match found.items() {
            Some(items) => items,
            None => {
                return Err(Error::Deserialization(Field::Tilesets));
            },
        };
        if items.len() == 0 {
            return Err(Error::Deserialization(Field::Tilesets));
        }
        assert(found@ == Tree::Array(found@->Array_0));
        let ghost results = Seq::new(items@.len(), |i: int| tileset_of(items@[i]@));
        assert(results =~= Seq::new(
            found@->Array_0.len(),
            |i: int| tileset_of(found@->Array_0[i]),
        ));
        let mut first: Option<Tileset> = None;
        let mut i: usize = 0;
        while i < items.len()
            invariant
                i <= items.len(),
                items.len() > 0,
                out == Ok::<Json, String>(document),
                results == Seq::new(items@.len(), |i: int| tileset_of(items@[i]@)),
                first_tileset_of(document@) == (match all_of(results) {
                    Ok(tilesets) => Ok::<TilesetModel, Error>(tilesets[0]),
                    Err(e) => Err(e),
                }),
                first_failure(results, 0) == first_failure(results, i as int),
                forall|k: int| 0 <= k < i ==> (#[trigger] results[k]) is Ok,
                i > 0 ==> first is Some && results[0] == Ok::<TilesetModel, Error>(first->Some_0@),
                i == 0 ==> first is None,
            decreases items.len() - i,
        {
            let tileset = Tileset::from_value(&items[i])?;
            if i == 0 {
                first = Some(tileset);
            }
            i += 1;
        }
        match first {
            Some(tileset) => Ok(tileset),
            None => Err(Error::Deserialization(Field::Tilesets)),
        }
    }

    /// Reads a tileset from a document of the tag encoding. `convert` turns
    /// the document into one of the key-value encoding that holds a sequence
    /// of tilesets, or fails with a message.
    pub fn from_xml<F>(s: &str, convert: F) -> (r: Result<Tileset, Error>) where
        F: FnOnce(&str) -> Result<Json, String>,

        requires
            convert.requires((s,)),
        ensures
            exists|out: Result<Json, String>|
                convert.ensures((s,), out) && agrees(r, converted_of(out)),
    {
        let out = convert(s);
        Tileset::from_converted(out)
    }

    /// Reads a tileset from the bytes of a document of the tag encoding.
    /// Bytes that are not UTF-8 fail before `convert` is called.
    pub fn from_xml_data<F>(buf: &[u8], convert: F) -> (r: Result<Tileset, Error>) where
        F: FnOnce(&str) -> Result<Json, String>,

        requires
            forall|s: &str| s@ == vstd::utf8::decode_utf8(buf@) ==> convert.requires((s,)),
        ensures
            vstd::utf8::valid_utf8(buf@) ==> exists|s: &str, out: Result<Json, String>|
                s@ == vstd::utf8::decode_utf8(buf@) && convert.ensures((s,), out) && agrees(
                    r,
                    converted_of(out),
                ),
            !vstd::utf8::valid_utf8(buf@) ==> r is Err && utf8_failure(buf@, r->Err_0),
    {
        match text_of_bytes(buf) {
            Ok(s) => {
                proof {
                    vstd::utf8::encode_utf8_decode_utf8(s@);
                }
                Tileset::from_xml(s, convert)
            },
            Err(failure) => Err(Error::Utf8Error { valid_up_to: failure.0, error_len: failure.1 }),
        }
    }
}

} // verus!
