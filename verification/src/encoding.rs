//! What is written for a TopoJSON object: the JSON tree that stands for a
//! geometry or a topology.
//!
//! The functions here are the reference that the writer is verified against.
//! Together with those of [`crate::grammar`] they state what it means that
//! reading what was written gives the value back.

use crate::geometry::{Geometry, GeometryValue, NamedGeometry};
use crate::grammar::payload_name;
use crate::json::{json_int, json_of, members_of, number_of, Json, JsonNumber};
use crate::topojson::{TopoJson, Type};
use crate::topology::{Topology, TransformParams};
use crate::{Arc, ArcIndexes, Position};
use vstd::prelude::*;

verus! {

/// An array of numbers.
pub open spec fn numbers_json(p: Seq<JsonNumber>) -> Json {
    Json::Array(Seq::new(p.len(), |i: int| Json::Number(number_of(p[i]))))
}

/// An array of positions.
pub open spec fn positions_json(ps: Seq<Position>) -> Json {
    Json::Array(Seq::new(ps.len(), |i: int| numbers_json(ps[i]@)))
}

/// An array of arcs.
pub open spec fn arcs_json(arcs: Seq<Arc>) -> Json {
    Json::Array(Seq::new(arcs.len(), |i: int| positions_json(arcs[i]@)))
}

/// An array of integers.
pub open spec fn indexes_json(ixs: Seq<i32>) -> Json {
    Json::Array(Seq::new(ixs.len(), |i: int| json_int(ixs[i])))
}

/// An array of arrays of integers.
pub open spec fn rings_json(rings: Seq<ArcIndexes>) -> Json {
    Json::Array(Seq::new(rings.len(), |i: int| indexes_json(rings[i]@)))
}

/// An array of arrays of arrays of integers.
pub open spec fn polygons_json(polygons: Seq<Vec<ArcIndexes>>) -> Json {
    Json::Array(Seq::new(polygons.len(), |i: int| rings_json(polygons[i]@)))
}

/// The kind of geometry that a value makes.
pub open spec fn kind_of(v: GeometryValue) -> Type {
    match v {
        GeometryValue::Point(_) => Type::Point,
        GeometryValue::MultiPoint(_) => Type::MultiPoint,
        GeometryValue::LineString(_) => Type::LineString,
        GeometryValue::MultiLineString(_) => Type::MultiLineString,
        GeometryValue::Polygon(_) => Type::Polygon,
        GeometryValue::MultiPolygon(_) => Type::MultiPolygon,
        GeometryValue::GeometryCollection(_) => Type::GeometryCollection,
    }
}

/// The name of a kind, as the `type` member holds it.
pub open spec fn kind_text(kind: Type) -> Seq<char> {
    match kind {
        Type::Point => "Point"@,
        Type::MultiPoint => "MultiPoint"@,
        Type::LineString => "LineString"@,
        Type::MultiLineString => "MultiLineString"@,
        Type::Polygon => "Polygon"@,
        Type::MultiPolygon => "MultiPolygon"@,
        Type::GeometryCollection => "GeometryCollection"@,
        Type::Topology => "Topology"@,
    }
}

/// What is written for the value of a geometry: its positions, its arc
/// indexes, or the geometries it collects.
pub open spec fn value_json(v: GeometryValue) -> Json
    decreases v,
{
    match v {
        GeometryValue::Point(p) => numbers_json(p@),
        GeometryValue::MultiPoint(ps) => positions_json(ps@),
        GeometryValue::LineString(ixs) => indexes_json(ixs@),
        GeometryValue::MultiLineString(rings) => rings_json(rings@),
        GeometryValue::Polygon(rings) => rings_json(rings@),
        GeometryValue::MultiPolygon(polygons) => polygons_json(polygons@),
        GeometryValue::GeometryCollection(geometries) => Json::Array(
            geometries_json(geometries@),
        ),
    }
}

/// What is written for each geometry of a list.
pub open spec fn geometries_json(gs: Seq<Geometry>) -> Seq<Json>
    decreases gs,
{
    if gs.len() == 0 {
        Seq::empty()
    } else {
        geometries_json(gs.drop_last()).push(Json::Object(geometry_json(gs.last())))
    }
}

/// The members written for a geometry before its foreign members are added:
/// `bbox` where there is one, `type`, the value under the name that goes with
/// the type, `id` and `properties` where there are any.
pub open spec fn geometry_members(g: Geometry) -> Map<Seq<char>, Json>
    decreases g, 0nat,
{
    let m0 = match g.bbox {
        Some(b) => Map::<Seq<char>, Json>::empty().insert("bbox"@, numbers_json(b@)),
        None => Map::<Seq<char>, Json>::empty(),
    };
    let m1 = m0.insert("type"@, Json::String(kind_text(kind_of(g.value))));
    let m2 = m1.insert(payload_name(kind_of(g.value)), value_json(g.value));
    let m3 = match g.id {
        Some(id) => m2.insert("id"@, json_of(id)),
        None => m2,
    };
    match g.properties {
        Some(p) => m3.insert("properties"@, Json::Object(members_of(p))),
        None => m3,
    }
}

/// What is written for a geometry: its own members, and over them its
/// foreign members.
pub open spec fn geometry_json(g: Geometry) -> Map<Seq<char>, Json>
    decreases g, 1nat,
{
    match g.foreign_members {
        Some(f) => geometry_members(g).union_prefer_right(members_of(f)),
        None => geometry_members(g),
    }
}

/// What is written for each geometry of a list, item by item.
pub proof fn lemma_geometries_json(gs: Seq<Geometry>)
    ensures
        geometries_json(gs).len() == gs.len(),
        forall|i: int|
            0 <= i < gs.len() ==> (#[trigger] geometries_json(gs)[i]) == Json::Object(
                geometry_json(gs[i]),
            ),
    decreases gs.len(),
{
    if gs.len() > 0 {
        lemma_geometries_json(gs.drop_last());
    }
}

/// What is written for a transform: `scale` and `translate`, two numbers
/// each.
pub open spec fn transform_json(t: TransformParams) -> Map<Seq<char>, Json> {
    Map::<Seq<char>, Json>::empty().insert("scale"@, numbers_json(t.scale@)).insert(
        "translate"@,
        numbers_json(t.translate@),
    )
}

/// What is written for the objects of a topology: each geometry under its
/// name, a later one in place of an earlier one of the same name.
pub open spec fn objects_json(objects: Seq<NamedGeometry>) -> Map<Seq<char>, Json>
    decreases objects.len(),
{
    if objects.len() == 0 {
        Map::empty()
    } else {
        objects_json(objects.drop_last()).insert(
            objects.last().name@,
            Json::Object(geometry_json(objects.last().geometry)),
        )
    }
}

/// What is written for a topology: `type`, `arcs` and `objects`, and `bbox`
/// and `transform` where there are any.
pub open spec fn topology_json(t: Topology) -> Map<Seq<char>, Json> {
    let m0 = Map::<Seq<char>, Json>::empty().insert("type"@, Json::String("Topology"@)).insert(
        "arcs"@,
        arcs_json(t.arcs@),
    ).insert("objects"@, Json::Object(objects_json(t.objects@)));
    let m1 = match t.bbox {
        Some(b) => m0.insert("bbox"@, numbers_json(b@)),
        None => m0,
    };
    match t.transform {
        Some(tr) => m1.insert("transform"@, Json::Object(transform_json(tr))),
        None => m1,
    }
}

/// What is written for a TopoJSON object.
pub open spec fn topojson_json(t: TopoJson) -> Map<Seq<char>, Json> {
    match t {
        TopoJson::Geometry(g) => geometry_json(g),
        TopoJson::Topology(t) => topology_json(t),
    }
}

} // verus!
