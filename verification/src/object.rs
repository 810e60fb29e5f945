//! Objects: free shapes attached to a tile, and the layers that group them.
use vstd::prelude::*;
use crate::coerce::all_of;
use crate::coerce::bool_field;
use crate::coerce::first_failure;
use crate::coerce::flag_field;
use crate::coerce::i32_field;
use crate::coerce::number_field;
use crate::coerce::rounded_field;
use crate::coerce::string_field;
use crate::coerce::text_field;
use crate::coerce::views;
use crate::error::Error;
use crate::error::Field;
use crate::json::Json;
use crate::json::Tree;
use crate::points::parse_points;
use crate::points::point_list;
use crate::points::points_view;
use crate::round::round_value;
use crate::round::rounded;

verus! {

/// The order in which the objects of a layer are drawn where the document
/// does not say.
pub fn topdown() -> (r: String)
    ensures
        r@ == "topdown"@,
{
    "topdown".to_owned()
}

/// Whether an object is visible where the document does not say.
pub fn truth() -> (r: bool)
    ensures
        r,
{
    true
}

/// A free shape: a rectangle, unless an [`ObjectType`] says otherwise.
#[derive(Clone, Debug, PartialEq, Eq, Hash)]
pub struct Object {
    pub id: i32,
    pub name: String,
    /// The free-form type tag, `type` in a document.
    pub kind: String,
    pub x: i32,
    pub y: i32,
    pub width: i32,
    pub height: i32,
    /// In degrees.
    pub rotation: i32,
    pub visible: bool,
}

/// What an [`Object`] stands for.
pub ghost struct ObjectModel {
    pub id: int,
    pub name: Seq<char>,
    pub kind: Seq<char>,
    pub x: int,
    pub y: int,
    pub width: int,
    pub height: int,
    pub rotation: int,
    pub visible: bool,
}

impl View for Object {
    type V = ObjectModel;

    open spec fn view(&self) -> ObjectModel {
        ObjectModel {
            id: self.id as int,
            name: self.name@,
            kind: self.kind@,
            x: self.x as int,
            y: self.y as int,
            width: self.width as int,
            height: self.height as int,
            rotation: self.rotation as int,
            visible: self.visible,
        }
    }
}

/// The lowest `i32`.
pub open spec fn lowest() -> int {
    i32::MIN as int
}

/// The highest `i32`.
pub open spec fn highest() -> int {
    i32::MAX as int
}

/// The object that a record of a document describes. `id`, `x` and `y` are
/// required; `name` and `type` are empty, `width`, `height` and `rotation`
/// zero and `visible` true where the record does not give them. The first
/// field that fails, in the order of [`ObjectModel`], decides the error.
pub open spec fn object_of(t: Tree) -> Result<ObjectModel, Error> {
    if !(t is Object) {
        Err(Error::Deserialization(Field::Object))
    } else {
        match number_field(t, "id"@, lowest(), highest(), Field::ObjectId, None) {
            Err(e) => Err(e),
            Ok(id) => match text_field(t, "name"@, Field::ObjectName, Some(Seq::empty())) {
                Err(e) => Err(e),
                Ok(name) => match text_field(t, "type"@, Field::ObjectType, Some(Seq::empty())) {
                    Err(e) => Err(e),
                    Ok(kind) => match rounded_field(t, "x"@, Field::X) {
                        Err(e) => Err(e),
                        Ok(x) => match rounded_field(t, "y"@, Field::Y) {
                            Err(e) => Err(e),
                            Ok(y) => match number_field(
                                t,
                                "width"@,
                                lowest(),
                                highest(),
                                Field::Width,
                                Some(0),
                            ) {
                                Err(e) => Err(e),
                                Ok(width) => match number_field(
                                    t,
                                    "height"@,
                                    lowest(),
                                    highest(),
                                    Field::Height,
                                    Some(0),
                                ) {
                                    Err(e) => Err(e),
                                    Ok(height) => match number_field(
                                        t,
                                        "rotation"@,
                                        lowest(),
                                        highest(),
                                        Field::Rotation,
                                        Some(0),
                                    ) {
                                        Err(e) => Err(e),
                                        Ok(rotation) => match flag_field(
                                            t,
                                            "visible"@,
                                            Field::Visible,
                                            true,
                                        ) {
                                            Err(e) => Err(e),
                                            Ok(visible) => Ok(
                                                ObjectModel {
                                                    id,
                                                    name,
                                                    kind,
                                                    x,
                                                    y,
                                                    width,
                                                    height,
                                                    rotation,
                                                    visible,
                                                },
                                            ),
                                        },
                                    },
                                },
                            },
                        },
                    },
                },
            },
        }
    }
}

/// Reads a whole number from a whole number, a finite floating-point number
/// or a text that writes a number as Rust reads floating-point numbers. It
/// is rounded to the nearest `i32`, away from zero where two are equally
/// near, and to the lowest or the highest `i32` where it lies beyond them.
/// A text and the floating-point number that Rust reads from it give the
/// same. Fails with a coercion error at `field` for every other value.
pub fn deserialize_int_from_float_string(v: &Json, field: Field) -> (r: Result<i32, Error>)
    ensures
        match rounded(v@) {
            Some(n) => r == Ok::<i32, Error>(n as i32),
            None => r == Err::<i32, Error>(Error::Coercion(field)),
        },
        v@ matches Tree::Text(s) ==> rounded(v@) == (match crate::round::float_of_text(s) {
            Some(bits) => rounded(Tree::Number(crate::json::Numeral::Float(bits))),
            None => None,
        }),
{
    match round_value(v) {
        Some(n) => Ok(n),
        None => Err(Error::Coercion(field)),
    }
}

impl Object {
    /// Builds an object from a record of a document.
    pub fn from_value(v: &Json) -> (r: Result<Object, Error>)
        ensures
            match object_of(v@) {
                Ok(m) => r is Ok && r->Ok_0@ == m,
                Err(e) => r == Err::<Object, Error>(e),
            },
    {
        if !v.is_object() {
            return Err(Error::Deserialization(Field::Object));
        }
        let id = i32_field(v, "id", Field::ObjectId, None)?;
        let name = string_field(v, "name", Field::ObjectName, Some(""))?;
        let kind = string_field(v, "type", Field::ObjectType, Some(""))?;
        let x = match v.get("x") {
            Some(found) => deserialize_int_from_float_string(found, Field::X)?,
            None => {
                return Err(Error::Deserialization(Field::X));
            },
        };
        let y = match v.get("y") {
            Some(found) => deserialize_int_from_float_string(found, Field::Y)?,
            None => {
                return Err(Error::Deserialization(Field::Y));
            },
        };
        let width = i32_field(v, "width", Field::Width, Some(0))?;
        let height = i32_field(v, "height", Field::Height, Some(0))?;
        let rotation = i32_field(v, "rotation", Field::Rotation, Some(0))?;
        let visible = bool_field(v, "visible", Field::Visible, truth())?;
        proof {
            reveal_strlit("");
            assert(""@ =~= Seq::<char>::empty());
        }
        Ok(Object { id, name, kind, x, y, width, height, rotation, visible })
    }
}

/// The objects of a layer: an array of records, each of them an object.
/// Their first failure where one is none.
pub open spec fn objects_of(found: Option<Tree>) -> Result<Seq<ObjectModel>, Error> {
    match found {
        Some(Tree::Array(items)) => all_of(Seq::new(items.len(), |i: int| object_of(items[i]))),
        _ => Err(Error::Deserialization(Field::Objects)),
    }
}

/// Reads the objects under `objects`, or else under `object`, of a record.
pub fn objects_in(record: &Json) -> (r: Result<Vec<Object>, Error>)
    ensures
        match objects_of(record@.get_either("objects"@, "object"@)) {
            Ok(m) => r is Ok && views(r->Ok_0@) == m,
            Err(e) => r == Err::<Vec<Object>, Error>(e),
        },
{
    let found = match record.get_either("objects", "object") {
        Some(found) => found,
        None => {
            return Err(Error::Deserialization(Field::Objects));
        },
    };
    let items = match found.items() {
        Some(items) => items,
        None => {
            return Err(Error::Deserialization(Field::Objects));
        },
    };
    let ghost results = Seq::new(items@.len(), |i: int| object_of(items@[i]@));
    assert(results =~= Seq::new(
        found@->Array_0.len(),
        |i: int| object_of(found@->Array_0[i]),
    ));
    let mut out: Vec<Object> = Vec::new();
    let mut i: usize = 0;
    while i < items.len()
        invariant
            i <= items.len(),
            out.len() == i,
            results == Seq::new(items@.len(), |i: int| object_of(items@[i]@)),
            objects_of(record@.get_either("objects"@, "object"@)) == all_of(results),
            first_failure(results, 0) == first_failure(results, i as int),
            forall|k: int| 0 <= k < i ==> (#[trigger] results[k]) == Ok::<ObjectModel, Error>(out@[k]@),
        decreases items.len() - i,
    {
        match Object::from_value(&items[i]) {
            Ok(object) => {
                out.push(object);
            },
            Err(e) => {
                return Err(e);
            },
        }
        i += 1;
    }
    assert(Seq::new(results.len(), |i: int| results[i]->Ok_0) =~= views(out@));
    Ok(out)
}

/// A group of objects.
#[derive(Clone, Debug, PartialEq, Eq, Hash)]
pub struct ObjectLayer {
    pub id: i32,
    pub name: String,
    pub color: String,
    /// In pixels.
    pub offsetx: i32,
    /// In pixels.
    pub offsety: i32,
    pub draw_order: String,
    pub objects: Vec<Object>,
}

/// What an [`ObjectLayer`] stands for.
pub ghost struct LayerModel {
    pub id: int,
    pub name: Seq<char>,
    pub color: Seq<char>,
    pub offsetx: int,
    pub offsety: int,
    pub draw_order: Seq<char>,
    pub objects: Seq<ObjectModel>,
}

impl View for ObjectLayer {
    type V = LayerModel;

    open spec fn view(&self) -> LayerModel {
        LayerModel {
            id: self.id as int,
            name: self.name@,
            color: self.color@,
            offsetx: self.offsetx as int,
            offsety: self.offsety as int,
            draw_order: self.draw_order@,
            objects: views(self.objects@),
        }
    }
}

/// The layer that a record of a document describes. `id`, `name` and the
/// objects are required; `color` is empty, the offsets are zero and
/// `draworder` is `topdown` where the record does not give them. The first
/// field that fails, in the order of [`LayerModel`], decides the error.
pub open spec fn layer_of(t: Tree) -> Result<LayerModel, Error> {
    if !(t is Object) {
        Err(Error::Deserialization(Field::ObjectGroup))
    } else {
        match number_field(t, "id"@, lowest(), highest(), Field::LayerId, None) {
            Err(e) => Err(e),
            Ok(id) => match text_field(t, "name"@, Field::LayerName, None) {
                Err(e) => Err(e),
                Ok(name) => match text_field(t, "color"@, Field::LayerColor, Some(Seq::empty())) {
                    Err(e) => Err(e),
                    Ok(color) => match number_field(
                        t,
                        "offsetx"@,
                        lowest(),
                        highest(),
                        Field::OffsetX,
                        Some(0),
                    ) {
                        Err(e) => Err(e),
                        Ok(offsetx) => match number_field(
                            t,
                            "offsety"@,
                            lowest(),
                            highest(),
                            Field::OffsetY,
                            Some(0),
                        ) {
                            Err(e) => Err(e),
                            Ok(offsety) => match text_field(
                                t,
                                "draworder"@,
                                Field::DrawOrder,
                                Some("topdown"@),
                            ) {
                                Err(e) => Err(e),
                                Ok(draw_order) => match objects_of(
                                    t.get_either("objects"@, "object"@),
                                ) {
                                    Err(e) => Err(e),
                                    Ok(objects) => Ok(
                                        LayerModel {
                                            id,
                                            name,
                                            color,
                                            offsetx,
                                            offsety,
                                            draw_order,
                                            objects,
                                        },
                                    ),
                                },
                            },
                        },
                    },
                },
            },
        }
    }
}

impl ObjectLayer {
    /// Builds a layer from a record of a document.
    pub fn from_value(v: &Json) -> (r: Result<ObjectLayer, Error>)
        ensures
            match layer_of(v@) {
                Ok(m) => r is Ok && r->Ok_0@ == m,
                Err(e) => r == Err::<ObjectLayer, Error>(e),
            },
    {
        if !v.is_object() {
            return Err(Error::Deserialization(Field::ObjectGroup));
        }
        let id = i32_field(v, "id", Field::LayerId, None)?;
        let name = string_field(v, "name", Field::LayerName, None)?;
        let color = string_field(v, "color", Field::LayerColor, Some(""))?;
        let offsetx = i32_field(v, "offsetx", Field::OffsetX, Some(0))?;
        let offsety = i32_field(v, "offsety", Field::OffsetY, Some(0))?;
        let draw_order = string_field(v, "draworder", Field::DrawOrder, Some("topdown"))?;
        let objects = objects_in(v)?;
        proof {
            reveal_strlit("");
            assert(""@ =~= Seq::<char>::empty());
        }
        Ok(ObjectLayer { id, name, color, offsetx, offsety, draw_order, objects })
    }
}

/// The shape of an object that is no rectangle.
#[derive(Clone, Debug, PartialEq, Eq, Hash)]
pub enum ObjectType {
    Ellipse,
    Point,
    Polygon { points: Vec<(i32, i32)> },
    Polyline { points: Vec<(i32, i32)> },
}

/// What an [`ObjectType`] stands for.
pub ghost enum Shape {
    Ellipse,
    Point,
    Polygon(Seq<(int, int)>),
    Polyline(Seq<(int, int)>),
}

impl View for ObjectType {
    type V = Shape;

    open spec fn view(&self) -> Shape {
        match self {
            ObjectType::Ellipse => Shape::Ellipse,
            ObjectType::Point => Shape::Point,
            ObjectType::Polygon { points } => Shape::Polygon(points_view(points@)),
            ObjectType::Polyline { points } => Shape::Polyline(points_view(points@)),
        }
    }
}

/// How many of the four shape markers a record holds.
pub open spec fn marker_count(t: Tree) -> int {
    (if t.get("ellipse"@) is Some { 1int } else { 0int }) + (if t.get("point"@) is Some {
        1int
    } else {
        0int
    }) + (if t.get("polygon"@) is Some { 1int } else { 0int }) + (if t.get("polyline"@) is Some {
        1int
    } else {
        0int
    })
}

/// The vertex that a record describes: its `x` and its `y`, each rounded to
/// the nearest `i32`.
pub open spec fn vertex_of(t: Tree) -> Result<(int, int), Error> {
    if !(t is Object) {
        Err(Error::Deserialization(Field::Points))
    } else {
        match rounded_field(t, "x"@, Field::X) {
            Err(e) => Err(e),
            Ok(x) => match rounded_field(t, "y"@, Field::Y) {
                Err(e) => Err(e),
                Ok(y) => Ok((x, y)),
            },
        }
    }
}

/// The vertices under a `polygon` or `polyline` marker, in either of their
/// shapes: a record whose `points` is a point list, or an array of records,
/// each of them a vertex.
pub open spec fn vertices_of(v: Tree) -> Result<Seq<(int, int)>, Error> {
    match v {
        Tree::Object(_) => match v.get("points"@) {
            Some(Tree::Text(s)) => match point_list(s) {
                Some(points) => Ok(points),
                None => Err(Error::Coercion(Field::Points)),
            },
            _ => Err(Error::Deserialization(Field::Points)),
        },
        Tree::Array(items) => all_of(Seq::new(items.len(), |i: int| vertex_of(items[i]))),
        _ => Err(Error::Deserialization(Field::Shape)),
    }
}

/// The shape that the record of an object gives it, by the one marker among
/// `ellipse`, `point`, `polygon` and `polyline` that it holds: none without a
/// marker, and an error of shape with more than one.
pub open spec fn shape_of(t: Tree) -> Result<Option<Shape>, Error> {
    if !(t is Object) {
        Err(Error::Deserialization(Field::Object))
    } else if marker_count(t) > 1 {
        Err(Error::Deserialization(Field::Shape))
    } else if t.get("ellipse"@) is Some {
        Ok(Some(Shape::Ellipse))
    } else if t.get("point"@) is Some {
        Ok(Some(Shape::Point))
    } else {
        match t.get("polygon"@) {
            Some(v) => match vertices_of(v) {
                Ok(points) => Ok(Some(Shape::Polygon(points))),
                Err(e) => Err(e),
            },
            None => match t.get("polyline"@) {
                Some(v) => match vertices_of(v) {
                    Ok(points) => Ok(Some(Shape::Polyline(points))),
                    Err(e) => Err(e),
                },
                None => Ok(None),
            },
        }
    }
}

/// Reads a vertex from a record.
pub fn vertex_in(v: &Json) -> (r: Result<(i32, i32), Error>)
    ensures
        match vertex_of(v@) {
            Ok(m) => r == Ok::<(i32, i32), Error>((m.0 as i32, m.1 as i32)) && i32::MIN <= m.0
                <= i32::MAX && i32::MIN <= m.1 <= i32::MAX,
            Err(e) => r == Err::<(i32, i32), Error>(e),
        },
{
    if !v.is_object() {
        return Err(Error::Deserialization(Field::Points));
    }
    let x = match v.get("x") {
        Some(found) => deserialize_int_from_float_string(found, Field::X)?,
        None => {
            return Err(Error::Deserialization(Field::X));
        },
    };
    let y = match v.get("y") {
        Some(found) => deserialize_int_from_float_string(found, Field::Y)?,
        None => {
            return Err(Error::Deserialization(Field::Y));
        },
    };
    Ok((x, y))
}

/// Reads the vertices under a `polygon` or `polyline` marker.
pub fn vertices_in(v: &Json) -> (r: Result<Vec<(i32, i32)>, Error>)
    ensures
        match vertices_of(v@) {
            Ok(m) => r is Ok && points_view(r->Ok_0@) == m,
            Err(e) => r == Err::<Vec<(i32, i32)>, Error>(e),
        },
{
    if v.is_object() {
        return match v.get("points") {
            Some(Json::Text(s)) => match parse_points(s.as_str()) {
                Some(points) => Ok(points),
                None => Err(Error::Coercion(Field::Points)),
            },
            _ => Err(Error::Deserialization(Field::Points)),
        };
    }
    let items = match v.items() {
        Some(items) => items,
        None => {
            return Err(Error::Deserialization(Field::Shape));
        },
    };
    assert(v@ == Tree::Array(v@->Array_0));
    let ghost results = Seq::new(items@.len(), |i: int| vertex_of(items@[i]@));
    assert(results =~= Seq::new(v@->Array_0.len(), |i: int| vertex_of(v@->Array_0[i])));
    let mut out: Vec<(i32, i32)> = Vec::new();
    let mut i: usize = 0;
    while i < items.len()
        invariant
            i <= items.len(),
            out.len() == i,
            results == Seq::new(items@.len(), |i: int| vertex_of(items@[i]@)),
            vertices_of(v@) == all_of(results),
            first_failure(results, 0) == first_failure(results, i as int),
            forall|k: int|
                0 <= k < i ==> (#[trigger] results[k]) == Ok::<(int, int), Error>(
                    (out@[k].0 as int, out@[k].1 as int),
                ),
        decreases items.len() - i,
    {
        let vertex = vertex_in(&items[i])?;
        out.push(vertex);
        i += 1;
    }
    assert(Seq::new(results.len(), |i: int| results[i]->Ok_0) =~= points_view(out@));
    Ok(out)
}

impl ObjectType {
    /// Tells the shape of an object from its record.
    pub fn from_value(v: &Json) -> (r: Result<Option<ObjectType>, Error>)
        ensures
            match shape_of(v@) {
                Ok(Some(m)) => r is Ok && r->Ok_0 is Some && r->Ok_0->Some_0@ == m,
                Ok(None) => r is Ok && r->Ok_0 is None,
                Err(e) => r == Err::<Option<ObjectType>, Error>(e),
            },
    {
        if !v.is_object() {
            return Err(Error::Deserialization(Field::Object));
        }
        let ellipse = v.get("ellipse");
        let point = v.get("point");
        let polygon = v.get("polygon");
        let polyline = v.get("polyline");
        let mut markers: u8 = 0;
        if ellipse.is_some() {
            markers += 1;
        }
        if point.is_some() {
            markers += 1;
        }
        if polygon.is_some() {
            markers += 1;
        }
        if polyline.is_some() {
            markers += 1;
        }
        if markers > 1 {
            return Err(Error::Deserialization(Field::Shape));
        }
        if ellipse.is_some() {
            return Ok(Some(ObjectType::Ellipse));
        }
        if point.is_some() {
            return Ok(Some(ObjectType::Point));
        }
        match polygon {
            Some(found) => {
                let points = vertices_in(found)?;
                Ok(Some(ObjectType::Polygon { points }))
            },
            None => match polyline {
                Some(found) => {
                    let points = vertices_in(found)?;
                    Ok(Some(ObjectType::Polyline { points }))
                },
                None => Ok(None),
            },
        }
    }
}

} // verus!
