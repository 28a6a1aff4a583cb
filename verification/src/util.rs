//! Typed access to the members of a JSON object.
//!
//! Each extractor takes the member it is named after out of the object, so
//! that what is left in the end are the members the format does not name.

use crate::error::{outcome, Error, ErrorView};
use crate::geometry::{
    arcs_view, bbox_view, geometries_view, object_view, objects_view, polygons_view,
    positions_view, rings_view, value_tree, Geometry, GeometryView, NamedGeometry,
    NamedGeometryView,
};
use crate::grammar;
use crate::json::{
    clone_number, get_member, has_no_members, json_of, jsons, member_names, members_of, number_of,
    reals, remove_member, texts, value_as_array, value_as_i64, value_as_object, value_as_real,
    value_into_array, value_into_object, value_into_string, value_is_null, Json, JsonNumber,
    JsonObject, JsonValue,
};
use crate::order::{lemma_ascending_distinct, lemma_key_order};
use crate::topology::{transform_view, TransformParams};
use crate::{Arc, ArcIndexes, Bbox, Position};
use vstd::prelude::*;

verus! {

/// Takes the `type` member out of the object: it must be a string.
pub fn expect_type(value: &mut JsonObject) -> (r: Result<String, Error>)
    ensures
        members_of(*final(value)) == members_of(*old(value)).remove("type"@),
        outcome(r, |s: String| s@) == grammar::kind_name(members_of(*old(value))),
{
    let prop = expect_property(value, "type")?;
    expect_string(prop)
}

/// The string that a value is, or `ExpectedStringValue`.
pub fn expect_string(value: JsonValue) -> (r: Result<String, Error>)
    ensures
        outcome(r, |s: String| s@) == grammar::text(json_of(value)),
{
    match value_into_string(value) {
        Ok(s) => Ok(s),
        Err(_) => Err(Error::ExpectedStringValue),
    }
}

/// The number that a value is, read as a real, or `ExpectedF64Value`.
pub fn expect_f64(value: &JsonValue) -> (r: Result<JsonNumber, Error>)
    ensures
        outcome(r, |n: JsonNumber| number_of(n).real) == grammar::real_number(json_of(*value)),
{
    match value_as_real(value) {
        Some(v) => Ok(v),
        None => Err(Error::ExpectedF64Value),
    }
}

/// The integer that a value is, or `Expectedi32Value` where it is no
/// integer or one outside the range of `i32`.
pub fn expect_i32(value: &JsonValue) -> (r: Result<i32, Error>)
    ensures
        outcome(r, |i: i32| i) == grammar::int32(json_of(*value)),
{
    match value_as_i64(value) {
        Some(v) => {
            if -2147483648 <= v && v <= 2147483647 {
                Ok(v as i32)
            } else {
                Err(Error::Expectedi32Value)
            }
        },
        None => Err(Error::Expectedi32Value),
    }
}

/// The items of the array that a value is, or `ExpectedArrayValue`.
pub fn expect_array(value: &JsonValue) -> (r: Result<&Vec<JsonValue>, Error>)
    ensures
        outcome(r, |items: &Vec<JsonValue>| jsons(items@)) == grammar::array_items(json_of(*value)),
{
    match value_as_array(value) {
        Some(v) => Ok(v),
        None => Err(Error::ExpectedArrayValue),
    }
}

/// The object that a value is, or `ExpectedObjectValue`.
pub fn expect_object(value: &JsonValue) -> (r: Result<&JsonObject, Error>)
    ensures
        outcome(r, |m: &JsonObject| members_of(*m)) == grammar::object_members(json_of(*value)),
{
    match value_as_object(value) {
        Some(v) => Ok(v),
        None => Err(Error::ExpectedObjectValue),
    }
}

/// Takes the member `name` out of the object, or reports that it is missing.
pub fn expect_property(obj: &mut JsonObject, name: &'static str) -> (r: Result<JsonValue, Error>)
    ensures
        members_of(*final(obj)) == members_of(*old(obj)).remove(name@),
        outcome(r, |v: JsonValue| json_of(v)) == grammar::member(members_of(*old(obj)), name@),
{
    match remove_member(obj, name) {
        Some(v) => Ok(v),
        None => Err(Error::ExpectedProperty(name.to_owned())),
    }
}

/// The members that are left of a geometry object, if any is.
pub fn get_foreign_members(object: JsonObject) -> (r: Result<Option<JsonObject>, Error>)
    ensures
        r is Ok,
        object_view(r->Ok_0) == grammar::foreign_members(members_of(object)),
{
    if has_no_members(&object) {
        Ok(None)
    } else {
        Ok(Some(object))
    }
}

/// Takes the `coordinates` member out of the object.
fn get_coords_value(object: &mut JsonObject) -> (r: Result<JsonValue, Error>)
    ensures
        members_of(*final(object)) == members_of(*old(object)).remove("coordinates"@),
        outcome(r, |v: JsonValue| json_of(v)) == grammar::member(
            members_of(*old(object)),
            "coordinates"@,
        ),
{
    expect_property(object, "coordinates")
}

/// Takes the `arcs` member out of the object.
fn get_arcs_value(object: &mut JsonObject) -> (r: Result<JsonValue, Error>)
    ensures
        members_of(*final(object)) == members_of(*old(object)).remove("arcs"@),
        outcome(r, |v: JsonValue| json_of(v)) == grammar::member(members_of(*old(object)), "arcs"@),
{
    expect_property(object, "arcs")
}

/// A position: every item of the array must be a number.
pub fn json_to_position(json: &JsonValue) -> (r: Result<Position, Error>)
    ensures
        outcome(r, |p: Position| reals(p@)) == grammar::position(json_of(*json)),
{
    let coords_array = expect_array(json)?;
    let mut coords: Vec<JsonNumber> = Vec::with_capacity(coords_array.len());
    let ghost items = jsons(coords_array@);
    let ghost f = |x: Json| grammar::real_number(x);
    let mut i: usize = 0;
    assert(reals(coords@) =~= Seq::<u64>::empty());
    while i < coords_array.len()
        invariant
            i <= coords_array.len(),
            items == jsons(coords_array@),
            f == |x: Json| grammar::real_number(x),
            grammar::position(json_of(*json)) == grammar::each(items, f),
            grammar::each(items.subrange(0, i as int), f) == Ok::<Seq<u64>, ErrorView>(
                reals(coords@),
            ),
        decreases coords_array.len() - i,
    {
        proof {
            grammar::lemma_each_step(items, f, i as int);
        }
        match expect_f64(&coords_array[i]) {
            Ok(v) => {
                assert(reals(coords@).push(number_of(v).real) =~= reals(coords@.push(v)));
                coords.push(v);
            },
            Err(e) => {
                proof {
                    grammar::lemma_each_error(items, f, i as int + 1);
                }
                return Err(e);
            },
        }
        i = i + 1;
    }
    assert(items.subrange(0, i as int) =~= items);
    Ok(coords)
}

/// An array of positions.
pub fn json_to_1d_positions(json: &JsonValue) -> (r: Result<Vec<Position>, Error>)
    ensures
        outcome(r, |p: Vec<Position>| positions_view(p@)) == grammar::positions(json_of(*json)),
{
    let coords_array = expect_array(json)?;
    let mut coords: Vec<Position> = Vec::with_capacity(coords_array.len());
    let ghost items = jsons(coords_array@);
    let ghost f = |x: Json| grammar::position(x);
    let mut i: usize = 0;
    assert(positions_view(coords@) =~= Seq::<Seq<u64>>::empty());
    while i < coords_array.len()
        invariant
            i <= coords_array.len(),
            items == jsons(coords_array@),
            f == |x: Json| grammar::position(x),
            grammar::positions(json_of(*json)) == grammar::each(items, f),
            grammar::each(items.subrange(0, i as int), f) == Ok::<Seq<Seq<u64>>, ErrorView>(
                positions_view(coords@),
            ),
        decreases coords_array.len() - i,
    {
        proof {
            grammar::lemma_each_step(items, f, i as int);
        }
        match json_to_position(&coords_array[i]) {
            Ok(v) => {
                assert(positions_view(coords@).push(reals(v@)) =~= positions_view(coords@.push(v)));
                coords.push(v);
            },
            Err(e) => {
                proof {
                    grammar::lemma_each_error(items, f, i as int + 1);
                }
                return Err(e);
            },
        }
        i = i + 1;
    }
    assert(items.subrange(0, i as int) =~= items);
    Ok(coords)
}

/// The arcs of a topology: an array of arrays of positions.
pub fn json_to_arc_positions(json: &JsonValue) -> (r: Result<Vec<Arc>, Error>)
    ensures
        outcome(r, |a: Vec<Arc>| arcs_view(a@)) == grammar::arc_positions(json_of(*json)),
{
    let coords_array = expect_array(json)?;
    let mut arcs: Vec<Arc> = Vec::with_capacity(coords_array.len());
    let ghost items = jsons(coords_array@);
    let ghost f = |x: Json| grammar::positions(x);
    let mut i: usize = 0;
    assert(arcs_view(arcs@) =~= Seq::<Seq<Seq<u64>>>::empty());
    while i < coords_array.len()
        invariant
            i <= coords_array.len(),
            items == jsons(coords_array@),
            f == |x: Json| grammar::positions(x),
            grammar::arc_positions(json_of(*json)) == grammar::each(items, f),
            grammar::each(items.subrange(0, i as int), f) == Ok::<Seq<Seq<Seq<u64>>>, ErrorView>(
                arcs_view(arcs@),
            ),
        decreases coords_array.len() - i,
    {
        proof {
            grammar::lemma_each_step(items, f, i as int);
        }
        match json_to_1d_positions(&coords_array[i]) {
            Ok(v) => {
                assert(arcs_view(arcs@).push(positions_view(v@)) =~= arcs_view(arcs@.push(v)));
                arcs.push(v);
            },
            Err(e) => {
                proof {
                    grammar::lemma_each_error(items, f, i as int + 1);
                }
                return Err(e);
            },
        }
        i = i + 1;
    }
    assert(items.subrange(0, i as int) =~= items);
    Ok(arcs)
}

/// Arc indexes: every item of the array must be an integer.
pub fn json_to_arc_indexes(json: &JsonValue) -> (r: Result<ArcIndexes, Error>)
    ensures
        outcome(r, |a: ArcIndexes| a@) == grammar::arc_indexes(json_of(*json)),
{
    let arc_array = expect_array(json)?;
    let mut arc_ixs: Vec<i32> = Vec::with_capacity(arc_array.len());
    let ghost items = jsons(arc_array@);
    let ghost f = |x: Json| grammar::int32(x);
    let mut i: usize = 0;
    assert(arc_ixs@ =~= Seq::<i32>::empty());
    while i < arc_array.len()
        invariant
            i <= arc_array.len(),
            items == jsons(arc_array@),
            f == |x: Json| grammar::int32(x),
            grammar::arc_indexes(json_of(*json)) == grammar::each(items, f),
            grammar::each(items.subrange(0, i as int), f) == Ok::<Seq<i32>, ErrorView>(arc_ixs@),
        decreases arc_array.len() - i,
    {
        proof {
            grammar::lemma_each_step(items, f, i as int);
        }
        match expect_i32(&arc_array[i]) {
            Ok(v) => {
                arc_ixs.push(v);
            },
            Err(e) => {
                proof {
                    grammar::lemma_each_error(items, f, i as int + 1);
                }
                return Err(e);
            },
        }
        i = i + 1;
    }
    assert(items.subrange(0, i as int) =~= items);
    Ok(arc_ixs)
}

/// An array of arc indexes.
pub fn json_to_1d_arc_indexes(json: &JsonValue) -> (r: Result<Vec<ArcIndexes>, Error>)
    ensures
        outcome(r, |a: Vec<ArcIndexes>| rings_view(a@)) == grammar::rings(json_of(*json)),
{
    let arc_array = expect_array(json)?;
    let mut arc_ixs: Vec<ArcIndexes> = Vec::with_capacity(arc_array.len());
    let ghost items = jsons(arc_array@);
    let ghost f = |x: Json| grammar::arc_indexes(x);
    let mut i: usize = 0;
    assert(rings_view(arc_ixs@) =~= Seq::<Seq<i32>>::empty());
    while i < arc_array.len()
        invariant
            i <= arc_array.len(),
            items == jsons(arc_array@),
            f == |x: Json| grammar::arc_indexes(x),
            grammar::rings(json_of(*json)) == grammar::each(items, f),
            grammar::each(items.subrange(0, i as int), f) == Ok::<Seq<Seq<i32>>, ErrorView>(
                rings_view(arc_ixs@),
            ),
        decreases arc_array.len() - i,
    {
        proof {
            grammar::lemma_each_step(items, f, i as int);
        }
        match json_to_arc_indexes(&arc_array[i]) {
            Ok(v) => {
                assert(rings_view(arc_ixs@).push(v@) =~= rings_view(arc_ixs@.push(v)));
                arc_ixs.push(v);
            },
            Err(e) => {
                proof {
                    grammar::lemma_each_error(items, f, i as int + 1);
                }
                return Err(e);
            },
        }
        i = i + 1;
    }
    assert(items.subrange(0, i as int) =~= items);
    Ok(arc_ixs)
}

/// An array of arrays of arc indexes.
pub fn json_to_2d_arc_indexes(json: &JsonValue) -> (r: Result<Vec<Vec<ArcIndexes>>, Error>)
    ensures
        outcome(r, |a: Vec<Vec<ArcIndexes>>| polygons_view(a@)) == grammar::polygons(
            json_of(*json),
        ),
{
    let arc_array = expect_array(json)?;
    let mut arc_ixs: Vec<Vec<ArcIndexes>> = Vec::with_capacity(arc_array.len());
    let ghost items = jsons(arc_array@);
    let ghost f = |x: Json| grammar::rings(x);
    let mut i: usize = 0;
    assert(polygons_view(arc_ixs@) =~= Seq::<Seq<Seq<i32>>>::empty());
    while i < arc_array.len()
        invariant
            i <= arc_array.len(),
            items == jsons(arc_array@),
            f == |x: Json| grammar::rings(x),
            grammar::polygons(json_of(*json)) == grammar::each(items, f),
            grammar::each(items.subrange(0, i as int), f) == Ok::<Seq<Seq<Seq<i32>>>, ErrorView>(
                polygons_view(arc_ixs@),
            ),
        decreases arc_array.len() - i,
    {
        proof {
            grammar::lemma_each_step(items, f, i as int);
        }
        match json_to_1d_arc_indexes(&arc_array[i]) {
            Ok(v) => {
                assert(polygons_view(arc_ixs@).push(rings_view(v@)) =~= polygons_view(
                    arc_ixs@.push(v),
                ));
                arc_ixs.push(v);
            },
            Err(e) => {
                proof {
                    grammar::lemma_each_error(items, f, i as int + 1);
                }
                return Err(e);
            },
        }
        i = i + 1;
    }
    assert(items.subrange(0, i as int) =~= items);
    Ok(arc_ixs)
}

/// Takes the `arcs` member out of a topology object: its arcs, not decoded.
pub fn get_arcs_position(object: &mut JsonObject) -> (r: Result<Vec<Arc>, Error>)
    ensures
        members_of(*final(object)) == members_of(*old(object)).remove("arcs"@),
        outcome(r, |a: Vec<Arc>| arcs_view(a@)) == grammar::arcs(members_of(*old(object))),
{
    match remove_member(object, "arcs") {
        Some(a) => json_to_arc_positions(&a),
        None => Err(Error::TopologyExpectedArcs),
    }
}

/// Takes the `coordinates` member out of a geometry object: one position.
pub fn get_coords_one_pos(object: &mut JsonObject) -> (r: Result<Position, Error>)
    ensures
        members_of(*final(object)) == members_of(*old(object)).remove("coordinates"@),
        outcome(r, |p: Position| reals(p@)) == grammar::member_as(
            members_of(*old(object)),
            "coordinates"@,
            |j: Json| grammar::position(j),
        ),
{
    let coords_json = get_coords_value(object)?;
    json_to_position(&coords_json)
}

/// Takes the `coordinates` member out of a geometry object: positions.
pub fn get_coords_1d_pos(object: &mut JsonObject) -> (r: Result<Vec<Position>, Error>)
    ensures
        members_of(*final(object)) == members_of(*old(object)).remove("coordinates"@),
        outcome(r, |p: Vec<Position>| positions_view(p@)) == grammar::member_as(
            members_of(*old(object)),
            "coordinates"@,
            |j: Json| grammar::positions(j),
        ),
{
    let coords_json = get_coords_value(object)?;
    json_to_1d_positions(&coords_json)
}

/// Takes the `arcs` member out of a geometry object: arc indexes.
pub fn get_arc_ix(object: &mut JsonObject) -> (r: Result<ArcIndexes, Error>)
    ensures
        members_of(*final(object)) == members_of(*old(object)).remove("arcs"@),
        outcome(r, |a: ArcIndexes| a@) == grammar::member_as(
            members_of(*old(object)),
            "arcs"@,
            |j: Json| grammar::arc_indexes(j),
        ),
{
    let arc_indexes_json = get_arcs_value(object)?;
    json_to_arc_indexes(&arc_indexes_json)
}

/// Takes the `arcs` member out of a geometry object: a list of arc indexes.
pub fn get_arc_ix_1d(object: &mut JsonObject) -> (r: Result<Vec<ArcIndexes>, Error>)
    ensures
        members_of(*final(object)) == members_of(*old(object)).remove("arcs"@),
        outcome(r, |a: Vec<ArcIndexes>| rings_view(a@)) == grammar::member_as(
            members_of(*old(object)),
            "arcs"@,
            |j: Json| grammar::rings(j),
        ),
{
    let arc_indexes_json = get_arcs_value(object)?;
    json_to_1d_arc_indexes(&arc_indexes_json)
}

/// Takes the `arcs` member out of a geometry object: lists of lists of arc
/// indexes.
pub fn get_arc_ix_2d(object: &mut JsonObject) -> (r: Result<Vec<Vec<ArcIndexes>>, Error>)
    ensures
        members_of(*final(object)) == members_of(*old(object)).remove("arcs"@),
        outcome(r, |a: Vec<Vec<ArcIndexes>>| polygons_view(a@)) == grammar::member_as(
            members_of(*old(object)),
            "arcs"@,
            |j: Json| grammar::polygons(j),
        ),
{
    let arc_indexes_json = get_arcs_value(object)?;
    json_to_2d_arc_indexes(&arc_indexes_json)
}

/// Takes the `geometries` member out of a collection object: an array of
/// geometry objects.
pub fn get_geometries(object: &mut JsonObject) -> (r: Result<Vec<Geometry>, Error>)
    ensures
        members_of(*final(object)) == members_of(*old(object)).remove("geometries"@),
        outcome(r, |g: Vec<Geometry>| geometries_view(g@)) == grammar::member_as(
            members_of(*old(object)),
            "geometries"@,
            |j: Json| grammar::collection(j),
        ),
    decreases grammar::nesting(Json::Object(members_of(*old(object)))), 0nat,
{
    let ghost m0 = members_of(*object);
    let geometries_json = expect_property(object, "geometries")?;
    let geometries_array = expect_owned_array(geometries_json)?;
    let mut geometries: Vec<Geometry> = Vec::with_capacity(geometries_array.len());
    let ghost items = jsons(geometries_array@);
    assert(geometries_view(geometries@) =~= Seq::<GeometryView>::empty());
    for json in it: geometries_array
        invariant
            it.seq() == geometries_array@,
            items == jsons(geometries_array@),
            m0 == members_of(*old(object)),
            members_of(*object) == m0.remove("geometries"@),
            m0.contains_key("geometries"@),
            m0["geometries"@] == Json::Array(items),
            grammar::geometries_of(items.subrange(0, it.index())) == Ok::<
                Seq<GeometryView>,
                ErrorView,
            >(geometries_view(geometries@)),
    {
        let ghost i = it.index();
        proof {
            grammar::lemma_geometries_step(items, i);
            grammar::lemma_deepest(items, i);
        }
        let obj = match expect_owned_object(json) {
            Ok(o) => o,
            Err(e) => {
                proof {
                    grammar::lemma_geometries_error(items, i + 1);
                }
                return Err(e);
            },
        };
        let geometry = match Geometry::from_json_object(obj) {
            Ok(g) => g,
            Err(e) => {
                proof {
                    grammar::lemma_geometries_error(items, i + 1);
                }
                return Err(e);
            },
        };
        assert(geometries_view(geometries@.push(geometry)) == geometries_view(geometries@).push(
            geometry@,
        )) by {
            assert(geometries@.push(geometry).drop_last() =~= geometries@);
            assert(geometries@.push(geometry).last() == geometry);
        }
        geometries.push(geometry);
    }
    assert(items.subrange(0, items.len() as int) =~= items);
    Ok(geometries)
}

/// Takes the `id` member out of an object, if it has one.
pub fn get_id(object: &mut JsonObject) -> (r: Result<Option<JsonValue>, Error>)
    ensures
        members_of(*final(object)) == members_of(*old(object)).remove("id"@),
        r is Ok,
        value_tree(r->Ok_0) == grammar::id(members_of(*old(object))),
{
    Ok(remove_member(object, "id"))
}

/// The numbers that the items are; `None` at the first item that is none.
fn numbers(items: &Vec<JsonValue>, Ghost(error): Ghost<ErrorView>) -> (r: Option<Vec<JsonNumber>>)
    ensures
        grammar::numbers(jsons(items@), error) == (match r {
            Some(numbers) => Ok(reals(numbers@)),
            None => Err(error),
        }),
{
    let mut numbers: Vec<JsonNumber> = Vec::with_capacity(items.len());
    let ghost trees = jsons(items@);
    let ghost f = |x: Json| grammar::number_or(x, error);
    let mut i: usize = 0;
    assert(reals(numbers@) =~= Seq::<u64>::empty());
    while i < items.len()
        invariant
            i <= items.len(),
            trees == jsons(items@),
            f == |x: Json| grammar::number_or(x, error),
            grammar::each(trees.subrange(0, i as int), f) == Ok::<Seq<u64>, ErrorView>(
                reals(numbers@),
            ),
        decreases items.len() - i,
    {
        proof {
            grammar::lemma_each_step(trees, f, i as int);
        }
        match value_as_real(&items[i]) {
            Some(v) => {
                assert(reals(numbers@).push(number_of(v).real) =~= reals(numbers@.push(v)));
                numbers.push(v);
            },
            None => {
                proof {
                    grammar::lemma_each_error(trees, f, i as int + 1);
                }
                return None;
            },
        }
        i = i + 1;
    }
    assert(trees.subrange(0, i as int) =~= trees);
    Some(numbers)
}

/// Takes the `bbox` member out of an object, if it has one: an array of
/// numbers.
pub fn get_bbox(object: &mut JsonObject) -> (r: Result<Option<Bbox>, Error>)
    ensures
        members_of(*final(object)) == members_of(*old(object)).remove("bbox"@),
        outcome(r, |b: Option<Bbox>| bbox_view(b)) == grammar::bbox(members_of(*old(object))),
{
    let bbox_json = match remove_member(object, "bbox") {
        Some(b) => b,
        None => return Ok(None),
    };
    let bbox_array = match value_into_array(bbox_json) {
        Ok(a) => a,
        Err(_) => return Err(Error::BboxExpectedArray),
    };
    match numbers(&bbox_array, Ghost(ErrorView::BboxExpectedNumericValues)) {
        Some(bbox) => Ok(Some(bbox)),
        None => Err(Error::BboxExpectedNumericValues),
    }
}

/// Takes the `transform` member out of a topology object, if it has one: an
/// object with a `scale` and a `translate`, of two numbers each, no fewer
/// and no more.
pub fn get_scale_translate(object: &mut JsonObject) -> (r: Result<Option<TransformParams>, Error>)
    ensures
        members_of(*final(object)) == members_of(*old(object)).remove("transform"@),
        outcome(r, |t: Option<TransformParams>| transform_view(t)) == grammar::transform(
            members_of(*old(object)),
        ),
{
    match remove_member(object, "transform") {
        None => Ok(None),
        Some(b) => {
            let tr_json = expect_object(&b)?;
            let scale_json = match get_member(tr_json, "scale") {
                Some(b) => b,
                None => return Err(Error::TransformExpectedScale),
            };
            let scale_array = match value_as_array(scale_json) {
                Some(a) => a,
                None => return Err(Error::ScaleExpectedArray),
            };
            let scale = match numbers(scale_array, Ghost(ErrorView::ScaleExpectedNumericValues)) {
                Some(scale) => scale,
                None => return Err(Error::ScaleExpectedNumericValues),
            };
            let translate_json = match get_member(tr_json, "translate") {
                Some(b) => b,
                None => return Err(Error::TransformExpectedTranslate),
            };
            let translate_array = match value_as_array(translate_json) {
                Some(a) => a,
                None => return Err(Error::TranslateExpectedArray),
            };
            let translate = match numbers(
                translate_array,
                Ghost(ErrorView::TranslateExpectedNumericValues),
            ) {
                Some(translate) => translate,
                None => return Err(Error::TranslateExpectedNumericValues),
            };
            if scale.len() != 2 {
                return Err(Error::ScaleExpectedNumericValues);
            }
            if translate.len() != 2 {
                return Err(Error::TranslateExpectedNumericValues);
            }
            Ok(
                Some(
                    TransformParams {
                        scale: [clone_number(&scale[0]), clone_number(&scale[1])],
                        translate: [clone_number(&translate[0]), clone_number(&translate[1])],
                    },
                ),
            )
        },
    }
}

/// Takes the `objects` member out of a topology object: an object whose
/// members are geometry objects, taken in the order of their names.
pub fn get_objects(object: &mut JsonObject) -> (r: Result<Vec<NamedGeometry>, Error>)
    ensures
        members_of(*final(object)) == members_of(*old(object)).remove("objects"@),
        outcome(r, |o: Vec<NamedGeometry>| objects_view(o@)) == grammar::objects(
            members_of(*old(object)),
        ),
{
    let ghost m0 = members_of(*object);
    let objects_value = match remove_member(object, "objects") {
        Some(v) => v,
        None => return Err(Error::TopologyExpectedObjects),
    };
    let mut objects_json = match value_into_object(objects_value) {
        Ok(o) => o,
        Err(_) => return Err(Error::TopologyExpectedObjects),
    };
    let ghost o = members_of(objects_json);
    let keys: Vec<String> = member_names(&objects_json);
    let ghost names = texts(keys@);
    proof {
        lemma_key_order(names);
        lemma_ascending_distinct(names);
    }
    let mut res: Vec<NamedGeometry> = Vec::with_capacity(keys.len());
    assert(objects_view(res@) =~= Seq::<NamedGeometryView>::empty());
    for key in it: keys
        invariant
            it.seq() == keys@,
            names == texts(keys@),
            names.no_duplicates(),
            names.to_set() == o.dom(),
            m0 == members_of(*old(object)),
            members_of(*object) == m0.remove("objects"@),
            grammar::objects(m0) == grammar::named_geometries(o, names),
            forall|k: int|
                it.index() <= k < names.len() ==> members_of(objects_json).contains_key(
                    #[trigger] names[k],
                ) && members_of(objects_json)[names[k]] == o[names[k]],
            grammar::named_geometries(o, names.subrange(0, it.index())) == Ok::<
                Seq<NamedGeometryView>,
                ErrorView,
            >(objects_view(res@)),
    {
        let ghost i = it.index();
        proof {
            grammar::lemma_named_step(o, names, i);
            assert(names[i] == key@);
        }
        let value = match remove_member(&mut objects_json, key.as_str()) {
            Some(v) => v,
            None => {
                assert(false);
                return Err(Error::TopologyExpectedObjects);
            },
        };
        let g = match expect_owned_object(value) {
            Ok(g) => g,
            Err(e) => {
                proof {
                    grammar::lemma_named_error(o, names, i + 1);
                }
                return Err(e);
            },
        };
        let geometry = match Geometry::from_json_object(g) {
            Ok(geometry) => geometry,
            Err(e) => {
                proof {
                    grammar::lemma_named_error(o, names, i + 1);
                }
                return Err(e);
            },
        };
        let named = NamedGeometry { name: key, geometry };
        assert(objects_view(res@).push(named@) =~= objects_view(res@.push(named)));
        res.push(named);
    }
    assert(names.subrange(0, names.len() as int) =~= names);
    Ok(res)
}

/// Takes the `properties` member out of a geometry object: an object, or
/// nothing where the member is `null` or absent.
pub fn get_properties(object: &mut JsonObject) -> (r: Result<Option<JsonObject>, Error>)
    ensures
        members_of(*final(object)) == members_of(*old(object)).remove("properties"@),
        outcome(r, |p: Option<JsonObject>| object_view(p)) == grammar::properties(
            members_of(*old(object)),
        ),
{
    match remove_member(object, "properties") {
        None => Ok(None),
        Some(value) => match value_into_object(value) {
            Ok(properties) => Ok(Some(properties)),
            Err(other) => {
                if value_is_null(&other) {
                    Ok(None)
                } else {
                    Err(Error::PropertiesExpectedObjectOrNull)
                }
            },
        },
    }
}

/// The items of the array that a value is, or `ExpectedArrayValue`.
pub fn expect_owned_array(value: JsonValue) -> (r: Result<Vec<JsonValue>, Error>)
    ensures
        outcome(r, |items: Vec<JsonValue>| jsons(items@)) == grammar::array_items(json_of(value)),
{
    match value_into_array(value) {
        Ok(v) => Ok(v),
        Err(_) => Err(Error::ExpectedArrayValue),
    }
}

/// The object that a value is, or `ExpectedObjectValue`.
pub fn expect_owned_object(value: JsonValue) -> (r: Result<JsonObject, Error>)
    ensures
        outcome(r, |m: JsonObject| members_of(m)) == grammar::object_members(json_of(value)),
{
    match value_into_object(value) {
        Ok(o) => Ok(o),
        Err(_) => Err(Error::ExpectedObjectValue),
    }
}

} // verus!
