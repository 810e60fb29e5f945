use std::time::Duration;
use tilesets::object::topdown;
use tilesets::object::truth;
use tilesets::object::vertices_in;
use tilesets::tileset::deserialize_animation;
use tilesets::tileset::frames_in;
use tilesets::tileset::is_known_key;
use tilesets::tileset::metadata_in;
use tilesets::Error;
use tilesets::Field;
use tilesets::Frame;
use tilesets::Image;
use tilesets::Json;
use tilesets::Metadata;
use tilesets::Number;
use tilesets::Object;
use tilesets::ObjectLayer;
use tilesets::ObjectType;
use tilesets::Tile;
use tilesets::Tileset;

fn text(s: &str) -> Json {
    Json::Text(s.to_string())
}

fn number(n: u64) -> Json {
    Json::Number(Number::PosInt(n))
}

fn record(entries: Vec<(&str, Json)>) -> Json {
    Json::Object(entries.into_iter().map(|(k, v)| (k.to_string(), v)).collect())
}

fn frame(tileid: u32, millis: u64) -> Frame {
    Frame { tileid, duration: Duration::from_millis(millis) }
}

fn frame_record(tileid: &str, duration: &str) -> Json {
    record(vec![("tileid", text(tileid)), ("duration", text(duration))])
}

fn plain_object() -> Vec<(&'static str, Json)> {
    vec![("id", number(1)), ("x", number(10)), ("y", number(20))]
}

#[test]
fn defaults() {
    assert_eq!(topdown(), "topdown");
    assert!(truth());
}

#[test]
fn an_object_takes_its_defaults() {
    let object = Object::from_value(&record(plain_object())).unwrap();
    assert_eq!(
        object,
        Object {
            id: 1,
            name: String::new(),
            kind: String::new(),
            x: 10,
            y: 20,
            width: 0,
            height: 0,
            rotation: 0,
            visible: true,
        }
    );
}

#[test]
fn an_object_reads_every_field() {
    let v = record(vec![
        ("id", text("7")),
        ("name", text("door")),
        ("type", text("exit")),
        ("x", text("10.5")),
        ("y", Json::Number(Number::Float((-0.5f64).to_bits()))),
        ("width", text("32")),
        ("height", number(16)),
        ("rotation", Json::Number(Number::NegInt(-90))),
        ("visible", text("0")),
        ("unknown", Json::Null),
    ]);
    assert_eq!(
        Object::from_value(&v),
        Ok(Object {
            id: 7,
            name: "door".to_string(),
            kind: "exit".to_string(),
            x: 11,
            y: -1,
            width: 32,
            height: 16,
            rotation: -90,
            visible: false,
        })
    );
}

#[test]
fn visible_is_read_from_many_spellings() {
    for spelling in [text("1"), text("true"), Json::Bool(true)] {
        let mut entries = plain_object();
        entries.push(("visible", spelling));
        assert!(Object::from_value(&record(entries)).unwrap().visible);
    }
    let mut entries = plain_object();
    entries.push(("visible", text("maybe")));
    assert_eq!(Object::from_value(&record(entries)), Err(Error::Coercion(Field::Visible)));
}

#[test]
fn an_object_names_the_field_that_failed() {
    assert_eq!(Object::from_value(&Json::Null), Err(Error::Deserialization(Field::Object)));
    assert_eq!(Object::from_value(&record(vec![])), Err(Error::Deserialization(Field::ObjectId)));
    assert_eq!(
        Object::from_value(&record(vec![("id", text("one"))])),
        Err(Error::Coercion(Field::ObjectId))
    );
    assert_eq!(
        Object::from_value(&record(vec![("id", number(1)), ("name", number(2))])),
        Err(Error::Deserialization(Field::ObjectName))
    );
    assert_eq!(
        Object::from_value(&record(vec![("id", number(1)), ("y", number(2))])),
        Err(Error::Deserialization(Field::X))
    );
    assert_eq!(
        Object::from_value(&record(vec![("id", number(1)), ("x", text("left")), ("y", number(2))])),
        Err(Error::Coercion(Field::X))
    );
    assert_eq!(
        Object::from_value(&record(vec![("id", number(1)), ("x", number(2))])),
        Err(Error::Deserialization(Field::Y))
    );
    let mut entries = plain_object();
    entries.push(("width", Json::Null));
    assert_eq!(Object::from_value(&record(entries)), Err(Error::Coercion(Field::Width)));
    let mut entries = plain_object();
    entries.push(("height", text("1.5")));
    assert_eq!(Object::from_value(&record(entries)), Err(Error::Coercion(Field::Height)));
    let mut entries = plain_object();
    entries.push(("rotation", text("2147483648")));
    assert_eq!(Object::from_value(&record(entries)), Err(Error::Coercion(Field::Rotation)));
}

#[test]
fn the_first_entry_of_a_key_wins() {
    let v = record(vec![("id", number(1)), ("id", number(2)), ("x", number(0)), ("y", number(0))]);
    assert_eq!(Object::from_value(&v).unwrap().id, 1);
    assert_eq!(v.get("id"), Some(&number(1)));
    assert_eq!(v.get("z"), None);
    assert_eq!(Json::Null.get("id"), None);
    assert_eq!(v.get_either("z", "x"), Some(&number(0)));
    assert_eq!(v.get_either("id", "x"), Some(&number(1)));
    assert_eq!(v.get_either("z", "w"), None);
}

#[test]
fn a_layer_takes_its_defaults() {
    let v = record(vec![("id", text("3")), ("name", text("walls")), ("objects", Json::Array(vec![]))]);
    assert_eq!(
        ObjectLayer::from_value(&v),
        Ok(ObjectLayer {
            id: 3,
            name: "walls".to_string(),
            color: String::new(),
            offsetx: 0,
            offsety: 0,
            draw_order: "topdown".to_string(),
            objects: vec![],
        })
    );
}

#[test]
fn a_layer_reads_its_objects_in_order() {
    let v = record(vec![
        ("id", number(3)),
        ("name", text("walls")),
        ("color", text("#ff0000")),
        ("offsetx", text("-4")),
        ("offsety", number(4)),
        ("draworder", text("index")),
        (
            "object",
            Json::Array(vec![
                record(vec![("id", number(2)), ("x", number(0)), ("y", number(0))]),
                record(vec![("id", number(1)), ("x", number(5)), ("y", number(6))]),
            ]),
        ),
    ]);
    let layer = ObjectLayer::from_value(&v).unwrap();
    assert_eq!(layer.color, "#ff0000");
    assert_eq!(layer.offsetx, -4);
    assert_eq!(layer.offsety, 4);
    assert_eq!(layer.draw_order, "index");
    assert_eq!(layer.objects.len(), 2);
    assert_eq!(layer.objects[0].id, 2);
    assert_eq!(layer.objects[1].id, 1);
    assert_eq!(layer.objects[1].x, 5);
}

#[test]
fn a_layer_names_the_field_that_failed() {
    assert_eq!(
        ObjectLayer::from_value(&text("layer")),
        Err(Error::Deserialization(Field::ObjectGroup))
    );
    assert_eq!(
        ObjectLayer::from_value(&record(vec![("name", text("a"))])),
        Err(Error::Deserialization(Field::LayerId))
    );
    assert_eq!(
        ObjectLayer::from_value(&record(vec![("id", number(1))])),
        Err(Error::Deserialization(Field::LayerName))
    );
    assert_eq!(
        ObjectLayer::from_value(&record(vec![("id", number(1)), ("name", text("a"))])),
        Err(Error::Deserialization(Field::Objects))
    );
    assert_eq!(
        ObjectLayer::from_value(&record(vec![
            ("id", number(1)),
            ("name", text("a")),
            ("objects", text("none")),
        ])),
        Err(Error::Deserialization(Field::Objects))
    );
    assert_eq!(
        ObjectLayer::from_value(&record(vec![
            ("id", number(1)),
            ("name", text("a")),
            ("offsetx", text("left")),
            ("objects", Json::Array(vec![])),
        ])),
        Err(Error::Coercion(Field::OffsetX))
    );
    assert_eq!(
        ObjectLayer::from_value(&record(vec![
            ("id", number(1)),
            ("name", text("a")),
            (
                "objects",
                Json::Array(vec![
                    record(vec![("id", number(2)), ("x", number(0)), ("y", number(0))]),
                    record(vec![("id", number(2)), ("x", number(0)), ("y", text("up"))]),
                    record(vec![("x", number(0))]),
                ]),
            ),
        ])),
        Err(Error::Coercion(Field::Y))
    );
}

#[test]
fn the_shape_of_an_object_is_told_by_its_marker() {
    let mut entries = plain_object();
    assert_eq!(ObjectType::from_value(&record(entries.clone())), Ok(None));
    entries.push(("ellipse", Json::Bool(true)));
    assert_eq!(ObjectType::from_value(&record(entries)), Ok(Some(ObjectType::Ellipse)));
    let mut entries = plain_object();
    entries.push(("point", Json::Null));
    assert_eq!(ObjectType::from_value(&record(entries)), Ok(Some(ObjectType::Point)));
    let mut entries = plain_object();
    entries.push(("polygon", record(vec![("points", text("0,0 4.5,0 4.5,4.5"))])));
    assert_eq!(
        ObjectType::from_value(&record(entries)),
        Ok(Some(ObjectType::Polygon { points: vec![(0, 0), (5, 0), (5, 5)] }))
    );
    let mut entries = plain_object();
    entries.push(("polyline", record(vec![("points", text("1,1 -2,-2"))])));
    assert_eq!(
        ObjectType::from_value(&record(entries)),
        Ok(Some(ObjectType::Polyline { points: vec![(1, 1), (-2, -2)] }))
    );
}

#[test]
fn vertices_in_either_shape() {
    let as_text = record(vec![("points", text("0,0 10.5,0 10.5,-7.5"))]);
    let as_records = Json::Array(vec![
        record(vec![("x", number(0)), ("y", number(0))]),
        record(vec![("x", Json::Number(Number::Float(10.5f64.to_bits()))), ("y", text("0"))]),
        record(vec![("x", text("10.5")), ("y", Json::Number(Number::Float((-7.5f64).to_bits())))]),
    ]);
    let expected = vec![(0, 0), (11, 0), (11, -8)];
    assert_eq!(vertices_in(&as_text), Ok(expected.clone()));
    assert_eq!(vertices_in(&as_records), Ok(expected.clone()));
    let mut entries = plain_object();
    entries.push(("polygon", as_records));
    assert_eq!(
        ObjectType::from_value(&record(entries)),
        Ok(Some(ObjectType::Polygon { points: expected }))
    );
    assert_eq!(vertices_in(&Json::Array(vec![])), Ok(vec![]));
    assert_eq!(
        vertices_in(&Json::Array(vec![number(1)])),
        Err(Error::Deserialization(Field::Points))
    );
    assert_eq!(
        vertices_in(&Json::Array(vec![record(vec![("y", number(1))])])),
        Err(Error::Deserialization(Field::X))
    );
    assert_eq!(
        vertices_in(&Json::Array(vec![record(vec![("x", number(1))])])),
        Err(Error::Deserialization(Field::Y))
    );
    assert_eq!(
        vertices_in(&Json::Array(vec![
            record(vec![("x", number(1)), ("y", number(1))]),
            record(vec![("x", number(1)), ("y", text("up"))]),
        ])),
        Err(Error::Coercion(Field::Y))
    );
}

#[test]
fn more_than_one_shape_marker_is_an_error() {
    let mut entries = plain_object();
    entries.push(("polygon", record(vec![("points", text("0,0"))])));
    entries.push(("polyline", record(vec![("points", text("0,0"))])));
    assert_eq!(
        ObjectType::from_value(&record(entries)),
        Err(Error::Deserialization(Field::Shape))
    );
    let mut entries = plain_object();
    entries.push(("ellipse", Json::Bool(true)));
    entries.push(("point", Json::Bool(true)));
    assert_eq!(
        ObjectType::from_value(&record(entries)),
        Err(Error::Deserialization(Field::Shape))
    );
}

#[test]
fn bad_vertices_are_an_error() {
    assert_eq!(ObjectType::from_value(&Json::Null), Err(Error::Deserialization(Field::Object)));
    assert_eq!(vertices_in(&text("0,0")), Err(Error::Deserialization(Field::Shape)));
    assert_eq!(vertices_in(&record(vec![])), Err(Error::Deserialization(Field::Points)));
    assert_eq!(
        vertices_in(&record(vec![("points", number(1))])),
        Err(Error::Deserialization(Field::Points))
    );
    assert_eq!(
        vertices_in(&record(vec![("points", text("1,2 3"))])),
        Err(Error::Coercion(Field::Points))
    );
    assert_eq!(vertices_in(&record(vec![("points", text(""))])), Ok(vec![]));
    let mut entries = plain_object();
    entries.push(("polygon", record(vec![("points", text("a,b"))])));
    assert_eq!(ObjectType::from_value(&record(entries)), Err(Error::Coercion(Field::Points)));
}

#[test]
fn both_shapes_of_an_image_give_the_same_image() {
    let wrapped = record(vec![(
        "image",
        Json::Array(vec![record(vec![
            ("source", text("terrain.png")),
            ("trans", text("ff00ff")),
            ("width", text("64")),
            ("height", text("32")),
        ])]),
    )]);
    let flat = record(vec![
        ("image", text("terrain.png")),
        ("imagewidth", number(64)),
        ("imageheight", number(32)),
        ("transparentcolor", text("ff00ff")),
    ]);
    let expected = Image {
        source: "terrain.png".to_string(),
        transparent_color: Some("ff00ff".to_string()),
        width: 64,
        height: 32,
    };
    assert_eq!(Image::deserialize(&wrapped), Ok(expected.clone()));
    assert_eq!(Image::deserialize(&flat), Ok(expected.clone()));
    assert_eq!(Image::deserialize(&wrapped), Image::deserialize(&flat));
    assert_eq!(Image::optional(&wrapped), Ok(Some(expected.clone())));
    assert_eq!(Image::optional(&flat), Ok(Some(expected)));
}

#[test]
fn an_image_without_a_transparent_colour() {
    let wrapped = record(vec![(
        "image",
        Json::Array(vec![record(vec![
            ("source", text("a.png")),
            ("width", number(1)),
            ("height", number(2)),
        ])]),
    )]);
    let flat = record(vec![
        ("image", text("a.png")),
        ("imagewidth", number(1)),
        ("imageheight", number(2)),
        ("transparentcolor", Json::Null),
    ]);
    let expected =
        Image { source: "a.png".to_string(), transparent_color: None, width: 1, height: 2 };
    assert_eq!(Image::deserialize(&wrapped), Ok(expected.clone()));
    assert_eq!(Image::deserialize(&flat), Ok(expected));
}

#[test]
fn a_record_of_neither_shape_is_no_image() {
    let failed = Err(Error::Deserialization(Field::Image));
    assert_eq!(Image::deserialize(&record(vec![])), failed);
    assert_eq!(Image::deserialize(&record(vec![("imagewidth", number(1))])), failed);
    assert_eq!(
        Image::deserialize(&record(vec![
            ("source", text("a.png")),
            ("width", number(1)),
            ("height", number(2)),
        ])),
        failed
    );
    assert_eq!(Image::deserialize(&Json::Null), failed);
}

#[test]
fn a_tile_or_a_tileset_may_have_no_image() {
    assert_eq!(Image::optional(&record(vec![])), Ok(None));
    assert_eq!(Image::optional(&record(vec![("imagewidth", number(1))])), Ok(None));
    assert_eq!(Image::optional(&Json::Null), Ok(None));
    assert_eq!(
        Image::optional(&record(vec![("image", Json::Array(vec![]))])),
        Err(Error::Deserialization(Field::Image))
    );
    assert_eq!(
        Image::optional(&record(vec![("image", Json::Null)])),
        Err(Error::Deserialization(Field::Image))
    );
}

#[test]
fn an_empty_image_container_is_an_error() {
    assert_eq!(
        Image::deserialize(&record(vec![("image", Json::Array(vec![]))])),
        Err(Error::Deserialization(Field::Image))
    );
}

#[test]
fn the_first_image_of_a_container_wins() {
    let one = record(vec![("source", text("a.png")), ("width", number(1)), ("height", number(1))]);
    let two = record(vec![("source", text("b.png")), ("width", number(2)), ("height", number(2))]);
    let v = record(vec![("image", Json::Array(vec![one, two]))]);
    assert_eq!(Image::deserialize(&v).unwrap().source, "a.png");
    let one = record(vec![("source", text("a.png")), ("width", number(1)), ("height", number(1))]);
    let bad = record(vec![("source", text("b.png")), ("width", text("wide")), ("height", number(2))]);
    let v = record(vec![("image", Json::Array(vec![one, bad]))]);
    assert_eq!(Image::deserialize(&v), Err(Error::Coercion(Field::ImageWidth)));
}

#[test]
fn an_image_names_the_field_that_failed() {
    assert_eq!(
        Image::deserialize(&record(vec![("image", number(5))])),
        Err(Error::Deserialization(Field::Image))
    );
    assert_eq!(
        Image::deserialize(&record(vec![("image", Json::Null)])),
        Err(Error::Deserialization(Field::Image))
    );
    assert_eq!(
        Image::deserialize(&record(vec![("image", Json::Array(vec![text("a.png")]))])),
        Err(Error::Deserialization(Field::Image))
    );
    assert_eq!(
        Image::from_attributes(&record(vec![("width", number(1))])),
        Err(Error::Deserialization(Field::ImageSource))
    );
    assert_eq!(
        Image::from_attributes(&record(vec![("source", text("a")), ("trans", number(1))])),
        Err(Error::Deserialization(Field::TransparentColor))
    );
    assert_eq!(
        Image::from_attributes(&record(vec![("source", text("a")), ("height", number(1))])),
        Err(Error::Deserialization(Field::ImageWidth))
    );
    assert_eq!(
        Image::from_attributes(&record(vec![("source", text("a")), ("width", number(1))])),
        Err(Error::Deserialization(Field::ImageHeight))
    );
    assert_eq!(
        Image::deserialize(&record(vec![("image", text("a.png"))])),
        Err(Error::Deserialization(Field::ImageWidth))
    );
    assert_eq!(
        Image::deserialize(&record(vec![
            ("image", text("a.png")),
            ("imagewidth", text("64")),
            ("imageheight", number(1)),
        ])),
        Err(Error::Coercion(Field::ImageWidth))
    );
    assert_eq!(
        Image::deserialize(&record(vec![
            ("image", text("a.png")),
            ("imagewidth", number(64)),
            ("imageheight", Json::Number(Number::NegInt(-1))),
        ])),
        Err(Error::Coercion(Field::ImageHeight))
    );
    assert_eq!(
        Image::from_fields(
            &record(vec![("imagewidth", number(64)), ("imageheight", number(4_294_967_296))]),
            &"a.png".to_string()
        ),
        Err(Error::Coercion(Field::ImageHeight))
    );
}

#[test]
fn a_frame_lasts_its_milliseconds() {
    assert_eq!(Frame::from_value(&frame_record("3", "250")), Ok(frame(3, 250)));
    assert_eq!(
        Frame::from_value(&record(vec![("tileid", number(4)), ("duration", number(1500))])),
        Ok(Frame { tileid: 4, duration: Duration::new(1, 500_000_000) })
    );
    assert_eq!(Frame::from_value(&frame_record("3", "250")).unwrap().duration.subsec_nanos(), 250_000_000);
    assert_eq!(Frame::from_value(&frame_record("3", "250")).unwrap().duration.as_nanos(), 250_000_000);
    assert_ne!(Frame::from_value(&frame_record("3", "250")), Ok(frame(3, 0)));
    assert_eq!(Frame::from_value(&Json::Null), Err(Error::Deserialization(Field::Frame)));
    assert_eq!(
        Frame::from_value(&record(vec![("duration", number(1))])),
        Err(Error::Deserialization(Field::FrameTileId))
    );
    assert_eq!(
        Frame::from_value(&record(vec![("tileid", number(1))])),
        Err(Error::Deserialization(Field::FrameDuration))
    );
    assert_eq!(
        Frame::from_value(&frame_record("1", "soon")),
        Err(Error::Coercion(Field::FrameDuration))
    );
}

#[test]
fn bare_frames_are_an_animation() {
    let v = Json::Array(vec![frame_record("1", "100"), frame_record("2", "200")]);
    assert_eq!(deserialize_animation(Some(&v)), Ok(vec![frame(1, 100), frame(2, 200)]));
    assert_eq!(frames_in(&v), Ok(vec![frame(1, 100), frame(2, 200)]));
}

#[test]
fn the_first_animation_record_wins() {
    let a = record(vec![("frames", Json::Array(vec![frame_record("1", "100")]))]);
    let b = record(vec![("frames", Json::Array(vec![frame_record("2", "200")]))]);
    assert_eq!(deserialize_animation(Some(&Json::Array(vec![a, b]))), Ok(vec![frame(1, 100)]));
    let a = record(vec![("frame", Json::Array(vec![frame_record("7", "70"), frame_record("8", "80")]))]);
    let b = record(vec![("frame", Json::Array(vec![]))]);
    assert_eq!(
        deserialize_animation(Some(&Json::Array(vec![a, b]))),
        Ok(vec![frame(7, 70), frame(8, 80)])
    );
}

#[test]
fn a_tile_without_an_animation_is_static() {
    assert_eq!(deserialize_animation(None), Ok(vec![]));
    assert_eq!(deserialize_animation(Some(&Json::Array(vec![]))), Ok(vec![]));
}

#[test]
fn an_animation_record_without_frames_holds_none() {
    assert_eq!(deserialize_animation(Some(&Json::Array(vec![record(vec![])]))), Ok(vec![]));
    let named = record(vec![("name", text("idle"))]);
    let full = record(vec![("frames", Json::Array(vec![frame_record("2", "200")]))]);
    assert_eq!(deserialize_animation(Some(&Json::Array(vec![named, full]))), Ok(vec![]));
    let full = record(vec![("frames", Json::Array(vec![frame_record("2", "200")]))]);
    assert_eq!(
        deserialize_animation(Some(&Json::Array(vec![full, record(vec![])]))),
        Ok(vec![frame(2, 200)])
    );
}

#[test]
fn an_animation_of_neither_shape_is_an_error() {
    let failed = Err(Error::Deserialization(Field::Animation));
    assert_eq!(deserialize_animation(Some(&Json::Null)), failed);
    assert_eq!(deserialize_animation(Some(&text("frames"))), failed);
    assert_eq!(deserialize_animation(Some(&Json::Array(vec![number(1)]))), failed);
    assert_eq!(deserialize_animation(Some(&Json::Array(vec![frame_record("1", "soon")]))), failed);
    assert_eq!(
        deserialize_animation(Some(&Json::Array(vec![record(vec![("tileid", number(1))])]))),
        failed
    );
    assert_eq!(
        deserialize_animation(Some(&Json::Array(vec![record(vec![("duration", text("1"))])]))),
        failed
    );
    assert_eq!(
        deserialize_animation(Some(&Json::Array(vec![record(vec![]), number(1)]))),
        failed
    );
    let good = record(vec![("frames", Json::Array(vec![frame_record("1", "100")]))]);
    let bad = record(vec![("frames", Json::Array(vec![frame_record("x", "100")]))]);
    assert_eq!(deserialize_animation(Some(&Json::Array(vec![good, bad]))), failed);
    let good = record(vec![("frames", Json::Array(vec![frame_record("1", "100")]))]);
    assert_eq!(
        deserialize_animation(Some(&Json::Array(vec![good, frame_record("1", "100")]))),
        failed
    );
    assert_eq!(frames_in(&Json::Null), Err(Error::Deserialization(Field::Frames)));
    assert_eq!(
        frames_in(&Json::Array(vec![frame_record("x", "100")])),
        Err(Error::Coercion(Field::FrameTileId))
    );
}

#[test]
fn a_tile_reads_every_field() {
    let v = record(vec![
        ("id", text("5")),
        ("type", text("water")),
        ("image", text("water.png")),
        ("imagewidth", number(16)),
        ("imageheight", number(16)),
        (
            "objectgroup",
            record(vec![
                ("id", number(2)),
                ("name", text("")),
                ("objects", Json::Array(vec![record(plain_object())])),
            ]),
        ),
        ("animation", Json::Array(vec![frame_record("5", "100"), frame_record("6", "100")])),
    ]);
    let tile = Tile::from_value(&v).unwrap();
    assert_eq!(tile.id, 5);
    assert_eq!(tile.kind, "water");
    assert_eq!(tile.image.unwrap().source, "water.png");
    let layer = tile.objects.unwrap();
    assert_eq!(layer.id, 2);
    assert_eq!(layer.objects.len(), 1);
    assert_eq!(layer.objects[0].y, 20);
    assert_eq!(tile.animation, vec![frame(5, 100), frame(6, 100)]);
}

#[test]
fn a_tile_takes_its_defaults() {
    assert_eq!(
        Tile::from_value(&record(vec![("id", number(0)), ("objectgroup", Json::Null)])),
        Ok(Tile { id: 0, kind: String::new(), image: None, objects: None, animation: vec![] })
    );
}

#[test]
fn a_tile_names_the_field_that_failed() {
    assert_eq!(Tile::from_value(&Json::Array(vec![])), Err(Error::Deserialization(Field::Tile)));
    assert_eq!(Tile::from_value(&record(vec![])), Err(Error::Deserialization(Field::TileId)));
    assert_eq!(
        Tile::from_value(&record(vec![("id", number(4_294_967_296))])),
        Err(Error::Coercion(Field::TileId))
    );
    assert_eq!(
        Tile::from_value(&record(vec![("id", number(1)), ("type", number(1))])),
        Err(Error::Deserialization(Field::TileType))
    );
    assert_eq!(
        Tile::from_value(&record(vec![("id", number(1)), ("image", Json::Array(vec![]))])),
        Err(Error::Deserialization(Field::Image))
    );
    assert_eq!(
        Tile::from_value(&record(vec![("id", number(1)), ("objectgroup", number(1))])),
        Err(Error::Deserialization(Field::ObjectGroup))
    );
    assert_eq!(
        Tile::from_value(&record(vec![("id", number(1)), ("animation", number(1))])),
        Err(Error::Deserialization(Field::Animation))
    );
}

fn small_tileset() -> Vec<(&'static str, Json)> {
    vec![
        ("tilewidth", text("32")),
        ("tileheight", text("32")),
        ("tilecount", text("4")),
        ("columns", text("2")),
        ("name", text("terrain")),
    ]
}

#[test]
fn a_tileset_from_a_record() {
    assert_eq!(
        Tileset::from_value(&record(small_tileset())),
        Ok(Tileset {
            metadata: None,
            name: "terrain".to_string(),
            tile_width: 32,
            tile_height: 32,
            spacing: 0,
            margin: 0,
            tile_count: 4,
            columns: 2,
            background_color: None,
            image: None,
            tiles: vec![],
        })
    );
}

#[test]
fn tile_count_as_text_and_as_number() {
    let mut entries = small_tileset();
    entries[2] = ("tilecount", text("16"));
    assert_eq!(Tileset::from_value(&record(entries)).unwrap().tile_count, 16);
    let mut entries = small_tileset();
    entries[2] = ("tilecount", number(16));
    assert_eq!(Tileset::from_value(&record(entries)).unwrap().tile_count, 16);
}

#[test]
fn a_tileset_names_the_field_that_failed() {
    assert_eq!(Tileset::from_value(&Json::Null), Err(Error::Deserialization(Field::Tileset)));
    let cases = [
        (4, Error::Deserialization(Field::TilesetName)),
        (0, Error::Deserialization(Field::TileWidth)),
        (1, Error::Deserialization(Field::TileHeight)),
        (2, Error::Deserialization(Field::TileCount)),
        (3, Error::Deserialization(Field::Columns)),
    ];
    for (index, error) in cases {
        let mut entries = small_tileset();
        entries.remove(index);
        assert_eq!(Tileset::from_value(&record(entries)), Err(error));
    }
    let cases = [
        ("tilewidth", Error::Coercion(Field::TileWidth)),
        ("tileheight", Error::Coercion(Field::TileHeight)),
        ("tilecount", Error::Coercion(Field::TileCount)),
        ("columns", Error::Coercion(Field::Columns)),
        ("spacing", Error::Coercion(Field::Spacing)),
        ("margin", Error::Coercion(Field::Margin)),
        ("name", Error::Deserialization(Field::TilesetName)),
        ("backgroundcolor", Error::Deserialization(Field::BackgroundColor)),
        ("image", Error::Deserialization(Field::Image)),
        ("tiles", Error::Deserialization(Field::Tiles)),
    ];
    for (key, error) in cases {
        let mut entries = vec![(key, Json::Bool(true))];
        entries.extend(small_tileset());
        assert_eq!(Tileset::from_value(&record(entries)), Err(error));
    }
    let mut entries = small_tileset();
    entries.push(("tile", Json::Array(vec![record(vec![("id", number(1))]), record(vec![])])));
    assert_eq!(Tileset::from_value(&record(entries)), Err(Error::Deserialization(Field::TileId)));
}

#[test]
fn what_is_no_field_of_a_tileset_is_metadata() {
    let mut entries = small_tileset();
    entries.insert(0, ("version", text("1.2")));
    entries.push(("orientation", text("orthogonal")));
    entries.push(("margin", number(1)));
    let tileset = Tileset::from_value(&record(entries)).unwrap();
    assert_eq!(
        tileset.metadata,
        Some(Metadata {
            attributes: vec![
                ("version".to_string(), text("1.2")),
                ("orientation".to_string(), text("orthogonal")),
            ],
        })
    );
    assert_eq!(tileset.margin, 1);
    assert_eq!(metadata_in(&record(small_tileset())), None);
    assert_eq!(metadata_in(&Json::Null), None);
    let nested = record(vec![("a", Json::Array(vec![record(vec![("b", number(1))]), Json::Null]))]);
    assert_eq!(
        metadata_in(&record(vec![("editor", nested.clone())])),
        Some(Metadata { attributes: vec![("editor".to_string(), nested)] })
    );
    assert!(is_known_key("tilewidth"));
    assert!(is_known_key("tile"));
    assert!(!is_known_key("version"));
    assert!(!is_known_key(""));
}

#[test]
fn a_copy_holds_the_same_document() {
    let v = record(vec![
        ("a", Json::Array(vec![number(1), text("two"), Json::Null, Json::Bool(false)])),
        ("b", record(vec![("c", Json::Number(Number::Float(1.5f64.to_bits())))])),
    ]);
    assert_eq!(v.duplicate(), v);
    assert_eq!(v.clone(), v);
    assert!(v.is_object());
    assert!(!Json::Null.is_object());
    assert_eq!(v.get("a").unwrap().items().map(|items| items.len()), Some(4));
    assert_eq!(v.items(), None);
}

#[test]
fn an_error_knows_its_field() {
    assert_eq!(Error::Coercion(Field::X).field(), Some(Field::X));
    assert_eq!(Error::Deserialization(Field::Tiles).field(), Some(Field::Tiles));
    assert_eq!(Error::Utf8Error { valid_up_to: 3, error_len: None }.field(), None);
    assert_eq!(Error::Conversion("bad".to_string()).field(), None);
}
