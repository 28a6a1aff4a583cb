//! What a JSON tree means as a TopoJSON document.
//!
//! The functions here are the reference that the parser is verified against:
//! each says, for every JSON tree, which value or which error is to come out.
//! Numbers appear as binary64 bit patterns, strings as sequences of
//! characters, objects as maps from member names.

use crate::error::ErrorView;
use crate::geometry::{GeometryView, NamedGeometryView, ValueView};
use crate::json::{json_text, Json};
use crate::order::key_order;
use crate::topojson::{TopoJsonView, Type};
use crate::topology::{TopologyView, TransformView};
use vstd::prelude::*;

verus! {

/// Reads every item with `f`, in order; the first error is the outcome.
pub open spec fn each<S, T, E>(items: Seq<S>, f: spec_fn(S) -> Result<T, E>) -> Result<
    Seq<T>,
    E,
>
    decreases items.len(),
{
    if items.len() == 0 {
        Ok(Seq::empty())
    } else {
        match each(items.drop_last(), f) {
            Err(e) => Err(e),
            Ok(head) => match f(items.last()) {
                Err(e) => Err(e),
                Ok(x) => Ok(head.push(x)),
            },
        }
    }
}

/// Reading one item more.
pub proof fn lemma_each_step<S, T, E>(items: Seq<S>, f: spec_fn(S) -> Result<T, E>, i: int)
    requires
        0 <= i < items.len(),
    ensures
        each(items.subrange(0, i + 1), f) == (match each(items.subrange(0, i), f) {
            Err(e) => Err(e),
            Ok(head) => match f(items[i]) {
                Err(e) => Err(e),
                Ok(x) => Ok(head.push(x)),
            },
        }),
{
    assert(items.subrange(0, i + 1).drop_last() =~= items.subrange(0, i));
}

/// An error met in a prefix is the outcome for the whole sequence.
pub proof fn lemma_each_error<S, T, E>(items: Seq<S>, f: spec_fn(S) -> Result<T, E>, i: int)
    requires
        0 <= i <= items.len(),
        each(items.subrange(0, i), f) is Err,
    ensures
        each(items, f) == each(items.subrange(0, i), f),
    decreases items.len() - i,
{
    if i == items.len() {
        assert(items.subrange(0, i) =~= items);
    } else {
        lemma_each_step(items, f, i);
        lemma_each_error(items, f, i + 1);
    }
}

/// The names of the members that the format knows differ from one another.
pub proof fn lemma_member_names()
    ensures
        "type"@ != "coordinates"@,
        "type"@ != "arcs"@,
        "type"@ != "geometries"@,
        "type"@ != "bbox"@,
        "type"@ != "id"@,
        "type"@ != "properties"@,
        "type"@ != "objects"@,
        "type"@ != "transform"@,
        "coordinates"@ != "arcs"@,
        "coordinates"@ != "geometries"@,
        "arcs"@ != "geometries"@,
        "coordinates"@ != "bbox"@,
        "coordinates"@ != "id"@,
        "coordinates"@ != "properties"@,
        "arcs"@ != "bbox"@,
        "arcs"@ != "id"@,
        "arcs"@ != "properties"@,
        "arcs"@ != "objects"@,
        "arcs"@ != "transform"@,
        "geometries"@ != "bbox"@,
        "geometries"@ != "id"@,
        "geometries"@ != "properties"@,
        "bbox"@ != "id"@,
        "bbox"@ != "properties"@,
        "bbox"@ != "objects"@,
        "bbox"@ != "transform"@,
        "id"@ != "properties"@,
        "objects"@ != "transform"@,
        "scale"@ != "translate"@,
{
    reveal_strlit("type");
    reveal_strlit("coordinates");
    reveal_strlit("arcs");
    reveal_strlit("geometries");
    reveal_strlit("bbox");
    reveal_strlit("id");
    reveal_strlit("properties");
    reveal_strlit("objects");
    reveal_strlit("transform");
    reveal_strlit("scale");
    reveal_strlit("translate");
    assert("type"@.len() == 4 && "arcs"@.len() == 4 && "bbox"@.len() == 4);
    assert("coordinates"@.len() == 11 && "geometries"@.len() == 10);
    assert("id"@.len() == 2 && "properties"@.len() == 10);
    assert("objects"@.len() == 7 && "transform"@.len() == 9);
    assert("scale"@.len() == 5 && "translate"@.len() == 9);
    assert("type"@[0] != "arcs"@[0]);
    assert("type"@[0] != "bbox"@[0]);
    assert("arcs"@[0] != "bbox"@[0]);
    assert("geometries"@[0] != "properties"@[0]);
}

/// The kind that a `type` member names.
pub open spec fn kind(name: Seq<char>) -> Option<Type> {
    if name == "Point"@ {
        Some(Type::Point)
    } else if name == "MultiPoint"@ {
        Some(Type::MultiPoint)
    } else if name == "LineString"@ {
        Some(Type::LineString)
    } else if name == "MultiLineString"@ {
        Some(Type::MultiLineString)
    } else if name == "Polygon"@ {
        Some(Type::Polygon)
    } else if name == "MultiPolygon"@ {
        Some(Type::MultiPolygon)
    } else if name == "GeometryCollection"@ {
        Some(Type::GeometryCollection)
    } else if name == "Topology"@ {
        Some(Type::Topology)
    } else {
        None
    }
}

/// The member that an object must have.
pub open spec fn member(m: Map<Seq<char>, Json>, name: Seq<char>) -> Result<Json, ErrorView> {
    if m.contains_key(name) {
        Ok(m[name])
    } else {
        Err(ErrorView::ExpectedProperty(name))
    }
}

/// The member that an object must have, read with `f`.
pub open spec fn member_as<T>(
    m: Map<Seq<char>, Json>,
    name: Seq<char>,
    f: spec_fn(Json) -> Result<T, ErrorView>,
) -> Result<T, ErrorView> {
    match member(m, name) {
        Err(e) => Err(e),
        Ok(j) => f(j),
    }
}

/// A JSON string.
pub open spec fn text(j: Json) -> Result<Seq<char>, ErrorView> {
    match j {
        Json::String(s) => Ok(s),
        _ => Err(ErrorView::ExpectedStringValue),
    }
}

/// A JSON number read as a real; anything else gives `error`.
pub open spec fn number_or(j: Json, error: ErrorView) -> Result<u64, ErrorView> {
    match j {
        Json::Number(n) => Ok(n.real),
        _ => Err(error),
    }
}

/// Numbers, each read as a real; the first item that is none gives `error`.
pub open spec fn numbers(items: Seq<Json>, error: ErrorView) -> Result<Seq<u64>, ErrorView> {
    each(items, |x: Json| number_or(x, error))
}

/// A JSON number read as a real.
pub open spec fn real_number(j: Json) -> Result<u64, ErrorView> {
    number_or(j, ErrorView::ExpectedF64Value)
}

/// A JSON number that is an integer in the range of `i32`.
pub open spec fn int32(j: Json) -> Result<i32, ErrorView> {
    match j {
        Json::Number(n) => match n.int {
            Some(v) => if i32::MIN <= v <= i32::MAX {
                Ok(v as i32)
            } else {
                Err(ErrorView::Expectedi32Value)
            },
            None => Err(ErrorView::Expectedi32Value),
        },
        _ => Err(ErrorView::Expectedi32Value),
    }
}

/// The items of a JSON array.
pub open spec fn array_items(j: Json) -> Result<Seq<Json>, ErrorView> {
    match j {
        Json::Array(items) => Ok(items),
        _ => Err(ErrorView::ExpectedArrayValue),
    }
}

/// The members of a JSON object.
pub open spec fn object_members(j: Json) -> Result<Map<Seq<char>, Json>, ErrorView> {
    match j {
        Json::Object(m) => Ok(m),
        _ => Err(ErrorView::ExpectedObjectValue),
    }
}

/// A JSON array, each item read with `f`.
pub open spec fn array_of<T>(j: Json, f: spec_fn(Json) -> Result<T, ErrorView>) -> Result<
    Seq<T>,
    ErrorView,
> {
    match array_items(j) {
        Err(e) => Err(e),
        Ok(items) => each(items, f),
    }
}

/// A position: an array of numbers.
pub open spec fn position(j: Json) -> Result<Seq<u64>, ErrorView> {
    array_of(j, |x: Json| real_number(x))
}

/// An array of positions.
pub open spec fn positions(j: Json) -> Result<Seq<Seq<u64>>, ErrorView> {
    array_of(j, |x: Json| position(x))
}

/// The arcs of a topology: an array of arrays of positions.
pub open spec fn arc_positions(j: Json) -> Result<Seq<Seq<Seq<u64>>>, ErrorView> {
    array_of(j, |x: Json| positions(x))
}

/// Arc indexes: an array of integers.
pub open spec fn arc_indexes(j: Json) -> Result<Seq<i32>, ErrorView> {
    array_of(j, |x: Json| int32(x))
}

/// An array of arc indexes.
pub open spec fn rings(j: Json) -> Result<Seq<Seq<i32>>, ErrorView> {
    array_of(j, |x: Json| arc_indexes(x))
}

/// An array of arrays of arc indexes.
pub open spec fn polygons(j: Json) -> Result<Seq<Seq<Seq<i32>>>, ErrorView> {
    array_of(j, |x: Json| rings(x))
}

/// The `type` member of an object.
pub open spec fn kind_name(m: Map<Seq<char>, Json>) -> Result<Seq<char>, ErrorView> {
    member_as(m, "type"@, |j: Json| text(j))
}

/// The `bbox` member of an object, if it has one: an array of numbers.
pub open spec fn bbox(m: Map<Seq<char>, Json>) -> Result<Option<Seq<u64>>, ErrorView> {
    if !m.contains_key("bbox"@) {
        Ok(None)
    } else {
        match m["bbox"@] {
            Json::Array(items) => match numbers(items, ErrorView::BboxExpectedNumericValues) {
                Ok(numbers) => Ok(Some(numbers)),
                Err(e) => Err(e),
            },
            _ => Err(ErrorView::BboxExpectedArray),
        }
    }
}

/// The `id` member of an object, if it has one.
pub open spec fn id(m: Map<Seq<char>, Json>) -> Option<Json> {
    if m.contains_key("id"@) {
        Some(m["id"@])
    } else {
        None
    }
}

/// The `properties` member of an object: an object, or nothing where the
/// member is `null` or absent.
pub open spec fn properties(m: Map<Seq<char>, Json>) -> Result<
    Option<Map<Seq<char>, Json>>,
    ErrorView,
> {
    if !m.contains_key("properties"@) {
        Ok(None)
    } else {
        match m["properties"@] {
            Json::Object(p) => Ok(Some(p)),
            Json::Null => Ok(None),
            _ => Err(ErrorView::PropertiesExpectedObjectOrNull),
        }
    }
}

/// The members left over, or nothing where none is.
pub open spec fn foreign_members(m: Map<Seq<char>, Json>) -> Option<Map<Seq<char>, Json>> {
    if m == Map::<Seq<char>, Json>::empty() {
        None
    } else {
        Some(m)
    }
}

/// The member that holds what a geometry of this kind is made of.
pub open spec fn payload_name(kind: Type) -> Seq<char> {
    match kind {
        Type::Point | Type::MultiPoint => "coordinates"@,
        Type::GeometryCollection => "geometries"@,
        _ => "arcs"@,
    }
}

/// The value of a geometry that is no collection.
pub open spec fn plain_value(kind: Type, m: Map<Seq<char>, Json>) -> Result<ValueView, ErrorView> {
    match kind {
        Type::Point => match member_as(m, "coordinates"@, |j: Json| position(j)) {
            Ok(p) => Ok(ValueView::Point(p)),
            Err(e) => Err(e),
        },
        Type::MultiPoint => match member_as(m, "coordinates"@, |j: Json| positions(j)) {
            Ok(p) => Ok(ValueView::MultiPoint(p)),
            Err(e) => Err(e),
        },
        Type::LineString => match member_as(m, "arcs"@, |j: Json| arc_indexes(j)) {
            Ok(a) => Ok(ValueView::LineString(a)),
            Err(e) => Err(e),
        },
        Type::MultiLineString => match member_as(m, "arcs"@, |j: Json| rings(j)) {
            Ok(a) => Ok(ValueView::MultiLineString(a)),
            Err(e) => Err(e),
        },
        Type::Polygon => match member_as(m, "arcs"@, |j: Json| rings(j)) {
            Ok(a) => Ok(ValueView::Polygon(a)),
            Err(e) => Err(e),
        },
        Type::MultiPolygon => match member_as(m, "arcs"@, |j: Json| polygons(j)) {
            Ok(a) => Ok(ValueView::MultiPolygon(a)),
            Err(e) => Err(e),
        },
        _ => Err(ErrorView::GeometryUnknownType),
    }
}

/// The members of a geometry object that bear none of the names of the
/// format: not `type`, not `coordinates`, `arcs` or `geometries`, whichever
/// of them holds the value, not `bbox`, `id` or `properties`.
pub open spec fn geometry_rest(m: Map<Seq<char>, Json>) -> Map<Seq<char>, Json> {
    m.remove("type"@).remove("coordinates"@).remove("arcs"@).remove("geometries"@).remove(
        "bbox"@,
    ).remove("id"@).remove("properties"@)
}

/// A geometry of the given value, with the members that travel with it.
pub open spec fn with_attributes(value: ValueView, m: Map<Seq<char>, Json>) -> Result<
    GeometryView,
    ErrorView,
> {
    match bbox(m) {
        Err(e) => Err(e),
        Ok(b) => match properties(m) {
            Err(e) => Err(e),
            Ok(p) => Ok(
                GeometryView {
                    bbox: b,
                    value,
                    properties: p,
                    id: id(m),
                    foreign_members: foreign_members(geometry_rest(m)),
                },
            ),
        },
    }
}

/// A geometry object.
///
/// The `type` is read first, then what the geometry is made of, then
/// `bbox`, then `properties`; the first of them that is not as expected
/// gives the error.
pub open spec fn geometry_of(j: Json) -> Result<GeometryView, ErrorView>
    decreases j,
{
    match j {
        Json::Object(m) => match kind_name(m) {
            Err(e) => Err(e),
            Ok(name) => match kind(name) {
                None | Some(Type::Topology) => Err(ErrorView::GeometryUnknownType),
                Some(Type::GeometryCollection) => {
                    if !m.contains_key("geometries"@) {
                        Err(ErrorView::ExpectedProperty("geometries"@))
                    } else {
                        match m["geometries"@] {
                            Json::Array(items) => match geometries_of(items) {
                                Err(e) => Err(e),
                                Ok(geometries) => with_attributes(
                                    ValueView::GeometryCollection(geometries),
                                    m,
                                ),
                            },
                            _ => Err(ErrorView::ExpectedArrayValue),
                        }
                    }
                },
                Some(kind) => match plain_value(kind, m) {
                    Err(e) => Err(e),
                    Ok(value) => with_attributes(value, m),
                },
            },
        },
        _ => Err(ErrorView::ExpectedObjectValue),
    }
}

/// The geometries of a collection, in order; the first error is the outcome.
pub open spec fn geometries_of(items: Seq<Json>) -> Result<Seq<GeometryView>, ErrorView>
    decreases items,
{
    if items.len() == 0 {
        Ok(Seq::empty())
    } else {
        match geometries_of(items.drop_last()) {
            Err(e) => Err(e),
            Ok(head) => match geometry_of(items.last()) {
                Err(e) => Err(e),
                Ok(g) => Ok(head.push(g)),
            },
        }
    }
}

/// The value of a `geometries` member: an array of geometry objects.
pub open spec fn collection(j: Json) -> Result<Seq<GeometryView>, ErrorView> {
    match j {
        Json::Array(items) => geometries_of(items),
        _ => Err(ErrorView::ExpectedArrayValue),
    }
}

/// Reading one geometry more.
pub proof fn lemma_geometries_step(items: Seq<Json>, i: int)
    requires
        0 <= i < items.len(),
    ensures
        geometries_of(items.subrange(0, i + 1)) == (match geometries_of(items.subrange(0, i)) {
            Err(e) => Err(e),
            Ok(head) => match geometry_of(items[i]) {
                Err(e) => Err(e),
                Ok(g) => Ok(head.push(g)),
            },
        }),
{
    assert(items.subrange(0, i + 1).drop_last() =~= items.subrange(0, i));
}

/// An error met in a prefix is the outcome for the whole collection.
pub proof fn lemma_geometries_error(items: Seq<Json>, i: int)
    requires
        0 <= i <= items.len(),
        geometries_of(items.subrange(0, i)) is Err,
    ensures
        geometries_of(items) == geometries_of(items.subrange(0, i)),
    decreases items.len() - i,
{
    if i == items.len() {
        assert(items.subrange(0, i) =~= items);
    } else {
        lemma_geometries_step(items, i);
        lemma_geometries_error(items, i + 1);
    }
}

/// A geometry object, given by its members.
pub open spec fn geometry(m: Map<Seq<char>, Json>) -> Result<GeometryView, ErrorView> {
    geometry_of(Json::Object(m))
}

/// The `arcs` member of a topology object: its arcs, as the document has
/// them.
pub open spec fn arcs(m: Map<Seq<char>, Json>) -> Result<Seq<Seq<Seq<u64>>>, ErrorView> {
    if m.contains_key("arcs"@) {
        arc_positions(m["arcs"@])
    } else {
        Err(ErrorView::TopologyExpectedArcs)
    }
}

/// One of the two members of a transform: an array of numbers.
pub open spec fn transform_member(
    t: Map<Seq<char>, Json>,
    name: Seq<char>,
    missing: ErrorView,
    not_array: ErrorView,
    not_numeric: ErrorView,
) -> Result<Seq<u64>, ErrorView> {
    if !t.contains_key(name) {
        Err(missing)
    } else {
        match t[name] {
            Json::Array(items) => numbers(items, not_numeric),
            _ => Err(not_array),
        }
    }
}

/// The `scale` member of a transform.
pub open spec fn scale(t: Map<Seq<char>, Json>) -> Result<Seq<u64>, ErrorView> {
    transform_member(
        t,
        "scale"@,
        ErrorView::TransformExpectedScale,
        ErrorView::ScaleExpectedArray,
        ErrorView::ScaleExpectedNumericValues,
    )
}

/// The `translate` member of a transform.
pub open spec fn translate(t: Map<Seq<char>, Json>) -> Result<Seq<u64>, ErrorView> {
    transform_member(
        t,
        "translate"@,
        ErrorView::TransformExpectedTranslate,
        ErrorView::TranslateExpectedArray,
        ErrorView::TranslateExpectedNumericValues,
    )
}

/// A transform: an object with a `scale` and a `translate`, each an array
/// of two numbers.
///
/// Both arrays are read in full first. An array that then proves to hold
/// fewer or more than two numbers does not hold the numeric values that are
/// expected: that of `scale` is reported before that of `translate`.
pub open spec fn transform_of(j: Json) -> Result<TransformView, ErrorView> {
    match j {
        Json::Object(t) => match scale(t) {
            Err(e) => Err(e),
            Ok(scale) => match translate(t) {
                Err(e) => Err(e),
                Ok(translate) => {
                    if scale.len() != 2 {
                        Err(ErrorView::ScaleExpectedNumericValues)
                    } else if translate.len() != 2 {
                        Err(ErrorView::TranslateExpectedNumericValues)
                    } else {
                        Ok(
                            TransformView {
                                scale: (scale[0], scale[1]),
                                translate: (translate[0], translate[1]),
                            },
                        )
                    }
                },
            },
        },
        _ => Err(ErrorView::ExpectedObjectValue),
    }
}

/// The `transform` member of a topology object, if it has one.
pub open spec fn transform(m: Map<Seq<char>, Json>) -> Result<Option<TransformView>, ErrorView> {
    if !m.contains_key("transform"@) {
        Ok(None)
    } else {
        match transform_of(m["transform"@]) {
            Ok(t) => Ok(Some(t)),
            Err(e) => Err(e),
        }
    }
}

/// The geometries stored under the given names, in that order; the first
/// error is the outcome.
pub open spec fn named_geometries(o: Map<Seq<char>, Json>, names: Seq<Seq<char>>) -> Result<
    Seq<NamedGeometryView>,
    ErrorView,
>
    decreases names.len(),
{
    if names.len() == 0 {
        Ok(Seq::empty())
    } else {
        match named_geometries(o, names.drop_last()) {
            Err(e) => Err(e),
            Ok(head) => match geometry_of(o[names.last()]) {
                Err(e) => Err(e),
                Ok(g) => Ok(head.push(NamedGeometryView { name: names.last(), geometry: g })),
            },
        }
    }
}

/// Reading one named geometry more.
pub proof fn lemma_named_step(o: Map<Seq<char>, Json>, names: Seq<Seq<char>>, i: int)
    requires
        0 <= i < names.len(),
    ensures
        named_geometries(o, names.subrange(0, i + 1)) == (match named_geometries(
            o,
            names.subrange(0, i),
        ) {
            Err(e) => Err(e),
            Ok(head) => match geometry_of(o[names[i]]) {
                Err(e) => Err(e),
                Ok(g) => Ok(head.push(NamedGeometryView { name: names[i], geometry: g })),
            },
        }),
{
    assert(names.subrange(0, i + 1).drop_last() =~= names.subrange(0, i));
}

/// An error met under some of the first names is the outcome for all names.
pub proof fn lemma_named_error(o: Map<Seq<char>, Json>, names: Seq<Seq<char>>, i: int)
    requires
        0 <= i <= names.len(),
        named_geometries(o, names.subrange(0, i)) is Err,
    ensures
        named_geometries(o, names) == named_geometries(o, names.subrange(0, i)),
    decreases names.len() - i,
{
    if i == names.len() {
        assert(names.subrange(0, i) =~= names);
    } else {
        lemma_named_step(o, names, i);
        lemma_named_error(o, names, i + 1);
    }
}

/// The `objects` member of a topology object: an object whose members are
/// geometry objects, taken in the order of their names.
pub open spec fn objects(m: Map<Seq<char>, Json>) -> Result<Seq<NamedGeometryView>, ErrorView> {
    if !m.contains_key("objects"@) {
        Err(ErrorView::TopologyExpectedObjects)
    } else {
        match m["objects"@] {
            Json::Object(o) => named_geometries(o, key_order(o.dom())),
            _ => Err(ErrorView::TopologyExpectedObjects),
        }
    }
}

/// A topology object.
///
/// The `type` must be `Topology`; then `bbox`, `objects`, `transform` and
/// `arcs` are read in this order, and the first of them that is not as
/// expected gives the error.
pub open spec fn topology(m: Map<Seq<char>, Json>) -> Result<TopologyView, ErrorView> {
    match kind_name(m) {
        Err(e) => Err(e),
        Ok(name) => {
            if name != "Topology"@ {
                Err(ErrorView::ExpectedType { expected: "Topology"@, actual: name })
            } else {
                match bbox(m) {
                    Err(e) => Err(e),
                    Ok(bbox) => match objects(m) {
                        Err(e) => Err(e),
                        Ok(objects) => match transform(m) {
                            Err(e) => Err(e),
                            Ok(transform) => match arcs(m) {
                                Err(e) => Err(e),
                                Ok(arcs) => Ok(TopologyView { bbox, objects, transform, arcs }),
                            },
                        },
                    },
                }
            }
        },
    }
}

/// A TopoJSON object: a topology or a geometry, as its `type` says.
pub open spec fn topojson(m: Map<Seq<char>, Json>) -> Result<TopoJsonView, ErrorView> {
    if m.contains_key("type"@) && m["type"@] is String {
        match kind(m["type"@]->String_0) {
            None => Err(ErrorView::TopoJsonUnknownType),
            Some(Type::Topology) => match topology(m) {
                Ok(t) => Ok(TopoJsonView::Topology(t)),
                Err(e) => Err(e),
            },
            Some(_) => match geometry(m) {
                Ok(g) => Ok(TopoJsonView::Geometry(g)),
                Err(e) => Err(e),
            },
        }
    } else {
        Err(ErrorView::ExpectedProperty("type"@))
    }
}

/// A TopoJSON document: a text that is a JSON object that is a TopoJSON
/// object.
pub open spec fn document(text: Seq<char>) -> Result<TopoJsonView, ErrorView> {
    match json_text(text) {
        Some(Json::Object(m)) => topojson(m),
        _ => Err(ErrorView::MalformedJson),
    }
}

/// How deep geometry collections are nested in a tree.
pub open spec fn nesting(j: Json) -> nat
    decreases j,
{
    match j {
        Json::Object(m) => {
            if m.contains_key("geometries"@) {
                match m["geometries"@] {
                    Json::Array(items) => 1 + deepest(items),
                    _ => 0,
                }
            } else {
                0
            }
        },
        _ => 0,
    }
}

/// The deepest nesting among the items.
pub open spec fn deepest(items: Seq<Json>) -> nat
    decreases items,
{
    if items.len() == 0 {
        0
    } else {
        let head = deepest(items.drop_last());
        let last = nesting(items.last());
        if head >= last {
            head
        } else {
            last
        }
    }
}

/// No item is nested deeper than the deepest.
pub proof fn lemma_deepest(items: Seq<Json>, i: int)
    requires
        0 <= i < items.len(),
    ensures
        nesting(items[i]) <= deepest(items),
    decreases items.len(),
{
    if i < items.len() - 1 {
        lemma_deepest(items.drop_last(), i);
    }
}

} // verus!
