//! Laws that hold between the functions of the library.

use crate::encoding::{
    arcs_json, geometries_json, geometry_json, geometry_members, indexes_json, kind_of, kind_text,
    numbers_json, objects_json, polygons_json, positions_json, rings_json, topojson_json,
    topology_json, transform_json, value_json,
};
use crate::error::ErrorView;
use crate::geometry::{
    arcs_view, bbox_view, geometries_view, object_view, objects_view, polygons_view,
    positions_view, rings_view, Geometry, GeometryValue, GeometryView, NamedGeometry,
    NamedGeometryView, ValueView,
};
use crate::grammar;
use crate::grammar::{each, lemma_member_names, payload_name};
use crate::json::{json_int, members_of, reals, Json, JsonNumber};
use crate::order::{ascending, lemma_ascending_distinct, lemma_key_order};
use crate::to_geojson::{
    arc_offset, arc_read, converted, decodable, decoded_arc, directed_arc, feature, passes,
    polygon_list, polygon_list_read, ring, ring_list, ring_list_read, ring_read, selected,
    value_read, FeatureView,
};
use crate::topojson::{TopoJson, TopoJsonView, Type};
use crate::topology::{transform_view, Topology, TopologyView, TransformView};
use crate::{Arc, ArcIndexes, Position};
use vstd::prelude::*;

verus! {

/// Where every item reads well, the sequence reads as what the items read
/// as.
pub proof fn lemma_each_ok<S, T>(
    items: Seq<S>,
    f: spec_fn(S) -> Result<T, ErrorView>,
    out: Seq<T>,
)
    requires
        items.len() == out.len(),
        forall|i: int| 0 <= i < items.len() ==> f(#[trigger] items[i]) == Ok::<T, ErrorView>(out[i]),
    ensures
        each(items, f) == Ok::<Seq<T>, ErrorView>(out),
    decreases items.len(),
{
    if items.len() == 0 {
        assert(out =~= Seq::<T>::empty());
    } else {
        lemma_each_ok(items.drop_last(), f, out.drop_last());
        assert(out =~= out.drop_last().push(out.last()));
    }
}

/// The names of the kinds differ from one another.
pub proof fn lemma_kind_names()
    ensures
        forall|k: Type| grammar::kind(#[trigger] kind_text(k)) == Some(k),
{
    reveal_strlit("Point");
    reveal_strlit("MultiPoint");
    reveal_strlit("LineString");
    reveal_strlit("MultiLineString");
    reveal_strlit("Polygon");
    reveal_strlit("MultiPolygon");
    reveal_strlit("GeometryCollection");
    reveal_strlit("Topology");
    assert("Point"@.len() == 5 && "MultiPoint"@.len() == 10 && "LineString"@.len() == 10);
    assert("MultiLineString"@.len() == 15 && "Polygon"@.len() == 7);
    assert("MultiPolygon"@.len() == 12 && "GeometryCollection"@.len() == 18);
    assert("Topology"@.len() == 8);
    assert("MultiPoint"@[0] != "LineString"@[0]);
    assert forall|k: Type| grammar::kind(#[trigger] kind_text(k)) == Some(k) by {
        match k {
            Type::Point => {},
            Type::MultiPoint => {},
            Type::LineString => {},
            Type::MultiLineString => {},
            Type::Polygon => {},
            Type::MultiPolygon => {},
            Type::GeometryCollection => {},
            Type::Topology => {},
        }
    }
}

/// Numbers that were written read as the same reals, whatever error a
/// reader gives for what is no number.
pub proof fn lemma_numbers_round_trip(p: Seq<JsonNumber>, error: ErrorView)
    ensures
        grammar::numbers(numbers_json(p)->Array_0, error) == Ok::<Seq<u64>, ErrorView>(reals(p)),
        grammar::position(numbers_json(p)) == Ok::<Seq<u64>, ErrorView>(reals(p)),
{
    let items = numbers_json(p)->Array_0;
    lemma_each_ok(items, |x: Json| grammar::number_or(x, error), reals(p));
    lemma_each_ok(items, |x: Json| grammar::real_number(x), reals(p));
}

/// Positions that were written read as the same positions.
pub proof fn lemma_positions_round_trip(ps: Seq<Position>)
    ensures
        grammar::positions(positions_json(ps)) == Ok::<Seq<Seq<u64>>, ErrorView>(
            positions_view(ps),
        ),
{
    let items = positions_json(ps)->Array_0;
    assert forall|i: int| 0 <= i < items.len() implies grammar::position(#[trigger] items[i])
        == Ok::<Seq<u64>, ErrorView>(positions_view(ps)[i]) by {
        lemma_numbers_round_trip(ps[i]@, ErrorView::ExpectedF64Value);
    }
    lemma_each_ok(items, |x: Json| grammar::position(x), positions_view(ps));
}

/// Arcs that were written read as the same arcs.
pub proof fn lemma_arcs_round_trip(arcs: Seq<Arc>)
    ensures
        grammar::arc_positions(arcs_json(arcs)) == Ok::<Seq<Seq<Seq<u64>>>, ErrorView>(
            arcs_view(arcs),
        ),
{
    let items = arcs_json(arcs)->Array_0;
    assert forall|i: int| 0 <= i < items.len() implies grammar::positions(#[trigger] items[i])
        == Ok::<Seq<Seq<u64>>, ErrorView>(arcs_view(arcs)[i]) by {
        lemma_positions_round_trip(arcs[i]@);
    }
    lemma_each_ok(items, |x: Json| grammar::positions(x), arcs_view(arcs));
}

/// Arc indexes that were written read as the same indexes.
pub proof fn lemma_indexes_round_trip(ixs: Seq<i32>)
    ensures
        grammar::arc_indexes(indexes_json(ixs)) == Ok::<Seq<i32>, ErrorView>(ixs),
{
    let items = indexes_json(ixs)->Array_0;
    assert forall|i: int| 0 <= i < items.len() implies grammar::int32(#[trigger] items[i]) == Ok::<
        i32,
        ErrorView,
    >(ixs[i]) by {
        assert(items[i] == json_int(ixs[i]));
    }
    lemma_each_ok(items, |x: Json| grammar::int32(x), ixs);
}

/// Lists of arc indexes that were written read as the same lists.
pub proof fn lemma_rings_round_trip(rings: Seq<ArcIndexes>)
    ensures
        grammar::rings(rings_json(rings)) == Ok::<Seq<Seq<i32>>, ErrorView>(rings_view(rings)),
{
    let items = rings_json(rings)->Array_0;
    assert forall|i: int| 0 <= i < items.len() implies grammar::arc_indexes(#[trigger] items[i])
        == Ok::<Seq<i32>, ErrorView>(rings_view(rings)[i]) by {
        lemma_indexes_round_trip(rings[i]@);
    }
    lemma_each_ok(items, |x: Json| grammar::arc_indexes(x), rings_view(rings));
}

/// Lists of lists of arc indexes that were written read as the same lists.
pub proof fn lemma_polygons_round_trip(polygons: Seq<Vec<ArcIndexes>>)
    ensures
        grammar::polygons(polygons_json(polygons)) == Ok::<Seq<Seq<Seq<i32>>>, ErrorView>(
            polygons_view(polygons),
        ),
{
    let items = polygons_json(polygons)->Array_0;
    assert forall|i: int| 0 <= i < items.len() implies grammar::rings(#[trigger] items[i]) == Ok::<
        Seq<Seq<i32>>,
        ErrorView,
    >(polygons_view(polygons)[i]) by {
        lemma_rings_round_trip(polygons[i]@);
    }
    lemma_each_ok(items, |x: Json| grammar::rings(x), polygons_view(polygons));
}

/// A member name that the format gives a meaning to in a geometry object.
pub open spec fn is_geometry_member(name: Seq<char>) -> bool {
    ||| name == "type"@
    ||| name == "coordinates"@
    ||| name == "arcs"@
    ||| name == "geometries"@
    ||| name == "bbox"@
    ||| name == "id"@
    ||| name == "properties"@
}

/// The foreign members of a geometry are foreign: there is at least one, and
/// none bears a name of the format.
pub open spec fn foreign_members_apart(g: Geometry) -> bool {
    match g.foreign_members {
        None => true,
        Some(f) => {
            &&& members_of(f) != Map::<Seq<char>, Json>::empty()
            &&& forall|name: Seq<char>|
                members_of(f).contains_key(name) ==> !is_geometry_member(name)
        },
    }
}

/// The geometry, and every geometry collected in it, keeps its foreign
/// members apart.
pub open spec fn writable(g: Geometry) -> bool
    decreases g,
{
    &&& foreign_members_apart(g)
    &&& match g.value {
        GeometryValue::GeometryCollection(gs) => forall|i: int|
            0 <= i < gs@.len() ==> writable(#[trigger] gs@[i]),
        _ => true,
    }
}

/// The value of a geometry that is no collection, once written, reads as the
/// same value.
proof fn lemma_plain_value_round_trip(g: Geometry, m: Map<Seq<char>, Json>)
    requires
        !(g.value is GeometryCollection),
        m.contains_key(payload_name(kind_of(g.value))),
        m[payload_name(kind_of(g.value))] == value_json(g.value),
    ensures
        grammar::plain_value(kind_of(g.value), m) == Ok::<ValueView, ErrorView>(g@.value),
{
    match g.value {
        GeometryValue::Point(p) => {
            lemma_numbers_round_trip(p@, ErrorView::ExpectedF64Value);
        },
        GeometryValue::MultiPoint(ps) => {
            lemma_positions_round_trip(ps@);
        },
        GeometryValue::LineString(ixs) => {
            lemma_indexes_round_trip(ixs@);
        },
        GeometryValue::MultiLineString(rings) => {
            lemma_rings_round_trip(rings@);
        },
        GeometryValue::Polygon(rings) => {
            lemma_rings_round_trip(rings@);
        },
        GeometryValue::MultiPolygon(polygons) => {
            lemma_polygons_round_trip(polygons@);
        },
        GeometryValue::GeometryCollection(_) => {},
    }
}

/// What is written for a geometry holds its own members as they were
/// written, and besides them its foreign members only.
proof fn lemma_geometry_json_members(g: Geometry)
    requires
        foreign_members_apart(g),
    ensures
        ({
            let m = geometry_json(g);
            let kind = kind_of(g.value);
            &&& m.contains_key("type"@) && m["type"@] == Json::String(kind_text(kind))
            &&& m.contains_key(payload_name(kind)) && m[payload_name(kind)] == value_json(g.value)
            &&& grammar::bbox(m) == Ok::<Option<Seq<u64>>, ErrorView>(bbox_view(g.bbox))
            &&& grammar::id(m) == g@.id
            &&& grammar::properties(m) == Ok::<Option<Map<Seq<char>, Json>>, ErrorView>(
                object_view(g.properties),
            )
            &&& grammar::foreign_members(grammar::geometry_rest(m)) == object_view(
                g.foreign_members,
            )
        }),
{
    lemma_member_names();
    let m = geometry_json(g);
    let base = geometry_members(g);
    let kind = kind_of(g.value);
    let payload = payload_name(kind);
    assert(payload != "type"@ && payload != "bbox"@ && payload != "id"@ && payload
        != "properties"@);
    assert(base.contains_key("type"@) && base["type"@] == Json::String(kind_text(kind)));
    assert(base.contains_key(payload) && base[payload] == value_json(g.value));
    match g.bbox {
        Some(b) => {
            assert(base.contains_key("bbox"@) && base["bbox"@] == numbers_json(b@));
            lemma_numbers_round_trip(b@, ErrorView::BboxExpectedNumericValues);
        },
        None => {
            assert(!base.contains_key("bbox"@));
        },
    }
    match g.id {
        Some(id) => {
            assert(base.contains_key("id"@));
        },
        None => {
            assert(!base.contains_key("id"@));
        },
    }
    match g.properties {
        Some(p) => {
            assert(base.contains_key("properties"@));
        },
        None => {
            assert(!base.contains_key("properties"@));
        },
    }
    let rest = grammar::geometry_rest(m);
    match g.foreign_members {
        Some(f) => {
            assert(is_geometry_member("type"@) && is_geometry_member("coordinates"@)
                && is_geometry_member("arcs"@) && is_geometry_member("geometries"@)
                && is_geometry_member("bbox"@) && is_geometry_member("id"@) && is_geometry_member(
                "properties"@,
            ));
            assert(rest =~= members_of(f));
        },
        None => {
            assert(rest =~= Map::<Seq<char>, Json>::empty());
        },
    }
}

/// Reading what was written for a geometry gives the geometry back: its
/// value, and its `bbox`, `id`, `properties` and foreign members with it.
///
/// This holds of every geometry whose foreign members can be told from its
/// own: a geometry that holds, as a foreign member, a member named `type`,
/// say, is written with that member in place of its own.
pub proof fn law_geometry_round_trip(g: Geometry)
    requires
        writable(g),
    ensures
        grammar::geometry(geometry_json(g)) == Ok::<GeometryView, ErrorView>(g@),
    decreases g,
{
    lemma_kind_names();
    lemma_geometry_json_members(g);
    let m = geometry_json(g);
    let kind = kind_of(g.value);
    assert(grammar::kind_name(m) == Ok::<Seq<char>, ErrorView>(kind_text(kind)));
    assert(grammar::kind(kind_text(kind)) == Some(kind));
    match g.value {
        GeometryValue::GeometryCollection(gs) => {
            lemma_collection_round_trip(gs@);
            assert(m["geometries"@] == Json::Array(geometries_json(gs@)));
        },
        _ => {
            lemma_plain_value_round_trip(g, m);
        },
    }
}

/// Reading what was written for the geometries of a collection gives the
/// geometries back.
pub proof fn lemma_collection_round_trip(gs: Seq<Geometry>)
    requires
        forall|i: int| 0 <= i < gs.len() ==> writable(#[trigger] gs[i]),
    ensures
        grammar::geometries_of(geometries_json(gs)) == Ok::<Seq<GeometryView>, ErrorView>(
            geometries_view(gs),
        ),
    decreases gs,
{
    if gs.len() > 0 {
        lemma_collection_round_trip(gs.drop_last());
        law_geometry_round_trip(gs.last());
        assert(geometries_json(gs).drop_last() =~= geometries_json(gs.drop_last()));
    }
}

/// The foreign members of a geometry that was read are exactly the members
/// of the object it was read from that bear no name of the format, each with
/// its value; and there is at least one of them, or there are none.
pub proof fn law_foreign_members_are_foreign(m: Map<Seq<char>, Json>)
    requires
        grammar::geometry(m) is Ok,
    ensures
        match grammar::geometry(m)->Ok_0.foreign_members {
            None => forall|name: Seq<char>| m.contains_key(name) ==> is_geometry_member(name),
            Some(f) => {
                &&& f != Map::<Seq<char>, Json>::empty()
                &&& forall|name: Seq<char>|
                    f.contains_key(name) <==> m.contains_key(name) && !is_geometry_member(name)
                &&& forall|name: Seq<char>| f.contains_key(name) ==> f[name] == m[name]
            },
        },
{
    let rest = grammar::geometry_rest(m);
    assert(grammar::geometry(m)->Ok_0.foreign_members == grammar::foreign_members(rest));
    assert forall|name: Seq<char>|
        rest.contains_key(name) <==> m.contains_key(name) && !is_geometry_member(name) by {}
    if rest == Map::<Seq<char>, Json>::empty() {
        assert forall|name: Seq<char>| m.contains_key(name) implies is_geometry_member(name) by {
            assert(!rest.contains_key(name));
        }
    }
}

/// The names of the objects of a list, in its order.
pub open spec fn object_names(objects: Seq<NamedGeometry>) -> Seq<Seq<char>> {
    Seq::new(objects.len(), |i: int| objects[i].name@)
}

/// What is written for the objects of a list holds a member for each name,
/// and under a name that occurs once what is written for its geometry.
proof fn lemma_objects_json(objects: Seq<NamedGeometry>)
    requires
        object_names(objects).no_duplicates(),
    ensures
        objects_json(objects).dom() == object_names(objects).to_set(),
        forall|i: int|
            0 <= i < objects.len() ==> (#[trigger] objects_json(objects)[objects[i].name@])
                == Json::Object(geometry_json(objects[i].geometry)),
    decreases objects.len(),
{
    let names = object_names(objects);
    if objects.len() == 0 {
        assert(objects_json(objects).dom() =~= names.to_set());
    } else {
        let head = objects.drop_last();
        let last = objects.last();
        assert(object_names(head) =~= names.drop_last());
        assert(names.drop_last().no_duplicates()) by {
            assert forall|i: int, j: int|
                0 <= i < names.drop_last().len() && 0 <= j < names.drop_last().len() && i
                    != j implies names.drop_last()[i] != names.drop_last()[j] by {
                assert(names[i] != names[j]);
            }
        }
        lemma_objects_json(head);
        assert(objects_json(objects).dom() =~= names.to_set()) by {
            assert forall|k: Seq<char>| objects_json(objects).dom().contains(k) implies names.to_set().contains(
                k,
            ) by {
                if k == last.name@ {
                    assert(names[names.len() - 1] == k);
                } else {
                    assert(object_names(head).to_set().contains(k));
                    let j = choose|j: int| 0 <= j < head.len() && object_names(head)[j] == k;
                    assert(names[j] == k);
                }
            }
            assert forall|k: Seq<char>| names.to_set().contains(k) implies objects_json(
                objects,
            ).dom().contains(k) by {
                let j = choose|j: int| 0 <= j < names.len() && names[j] == k;
                if j < names.len() - 1 {
                    assert(object_names(head)[j] == k);
                    assert(object_names(head).to_set().contains(k));
                }
            }
        }
        assert forall|i: int| 0 <= i < objects.len() implies (#[trigger] objects_json(
            objects,
        )[objects[i].name@]) == Json::Object(geometry_json(objects[i].geometry)) by {
            if i < objects.len() - 1 {
                assert(names[i] != names[names.len() - 1]);
                assert(head[i] == objects[i]);
            }
        }
    }
}

/// Where the geometry under every name reads well, the objects read as
/// these geometries under their names.
proof fn lemma_named_ok(
    o: Map<Seq<char>, Json>,
    names: Seq<Seq<char>>,
    out: Seq<NamedGeometryView>,
)
    requires
        names.len() == out.len(),
        forall|i: int|
            0 <= i < names.len() ==> out[i].name == names[i] && grammar::geometry_of(
                o[#[trigger] names[i]],
            ) == Ok::<GeometryView, ErrorView>(out[i].geometry),
    ensures
        grammar::named_geometries(o, names) == Ok::<Seq<NamedGeometryView>, ErrorView>(out),
    decreases names.len(),
{
    if names.len() == 0 {
        assert(out =~= Seq::<NamedGeometryView>::empty());
    } else {
        assert forall|i: int| 0 <= i < names.drop_last().len() implies out.drop_last()[i].name
            == names.drop_last()[i] && grammar::geometry_of(o[#[trigger] names.drop_last()[i]])
            == Ok::<GeometryView, ErrorView>(out.drop_last()[i].geometry) by {
            assert(names.drop_last()[i] == names[i]);
        }
        lemma_named_ok(o, names.drop_last(), out.drop_last());
        assert(names.last() == names[names.len() - 1]);
        assert(out =~= out.drop_last().push(out.last()));
    }
}

/// The objects of the topology bear names in ascending order, and each
/// keeps its foreign members apart.
pub open spec fn topology_writable(t: Topology) -> bool {
    &&& ascending(object_names(t.objects@))
    &&& forall|i: int| 0 <= i < t.objects@.len() ==> writable(#[trigger] t.objects@[i].geometry)
}

/// Reading what was written for a topology gives the topology back: its
/// `bbox`, its objects under their names, its transform and its arcs.
///
/// A JSON object lists its members by name, in ascending order. So this
/// holds of every topology that holds its objects in that order, each under a
/// name of its own: of two objects named alike only the second is written,
/// and objects in another order are read back in the ascending one.
pub proof fn law_topology_round_trip(t: Topology)
    requires
        topology_writable(t),
    ensures
        grammar::topology(topology_json(t)) == Ok::<TopologyView, ErrorView>(t@),
{
    lemma_member_names();
    reveal_strlit("Topology");
    let m = topology_json(t);
    assert(m.contains_key("type"@) && m["type"@] == Json::String("Topology"@));
    assert(grammar::kind_name(m) == Ok::<Seq<char>, ErrorView>("Topology"@));
    match t.bbox {
        Some(b) => {
            assert(m.contains_key("bbox"@) && m["bbox"@] == numbers_json(b@));
            lemma_numbers_round_trip(b@, ErrorView::BboxExpectedNumericValues);
        },
        None => {
            assert(!m.contains_key("bbox"@));
        },
    }
    assert(grammar::bbox(m) == Ok::<Option<Seq<u64>>, ErrorView>(bbox_view(t.bbox)));
    let names = object_names(t.objects@);
    let o = objects_json(t.objects@);
    assert(m.contains_key("objects"@) && m["objects"@] == Json::Object(o));
    lemma_ascending_distinct(names);
    lemma_objects_json(t.objects@);
    lemma_key_order(names);
    assert forall|i: int| 0 <= i < names.len() implies objects_view(t.objects@)[i].name == names[i]
        && grammar::geometry_of(o[#[trigger] names[i]]) == Ok::<GeometryView, ErrorView>(
        objects_view(t.objects@)[i].geometry,
    ) by {
        law_geometry_round_trip(t.objects@[i].geometry);
        assert(o[t.objects@[i].name@] == Json::Object(geometry_json(t.objects@[i].geometry)));
    }
    lemma_named_ok(o, names, objects_view(t.objects@));
    assert(grammar::objects(m) == Ok::<Seq<NamedGeometryView>, ErrorView>(
        objects_view(t.objects@),
    ));
    match t.transform {
        Some(tr) => {
            let tm = transform_json(tr);
            assert(m.contains_key("transform"@) && m["transform"@] == Json::Object(tm));
            assert(tm.contains_key("scale"@) && tm["scale"@] == numbers_json(tr.scale@));
            assert(tm.contains_key("translate"@) && tm["translate"@] == numbers_json(
                tr.translate@,
            ));
            lemma_numbers_round_trip(tr.scale@, ErrorView::ScaleExpectedNumericValues);
            lemma_numbers_round_trip(tr.translate@, ErrorView::TranslateExpectedNumericValues);
            assert(grammar::transform_of(m["transform"@]) == Ok::<TransformView, ErrorView>(tr@));
        },
        None => {
            assert(!m.contains_key("transform"@));
        },
    }
    assert(grammar::transform(m) == Ok::<Option<TransformView>, ErrorView>(
        transform_view(t.transform),
    ));
    assert(m.contains_key("arcs"@) && m["arcs"@] == arcs_json(t.arcs@));
    lemma_arcs_round_trip(t.arcs@);
}

/// A TopoJSON object can be written and read back.
pub open spec fn topojson_writable(t: TopoJson) -> bool {
    match t {
        TopoJson::Geometry(g) => writable(g),
        TopoJson::Topology(t) => topology_writable(t),
    }
}

/// Reading what was written for a TopoJSON object gives the object back.
pub proof fn law_round_trip(t: TopoJson)
    requires
        topojson_writable(t),
    ensures
        grammar::topojson(topojson_json(t)) == Ok::<TopoJsonView, ErrorView>(t@),
{
    lemma_kind_names();
    reveal_strlit("Topology");
    match t {
        TopoJson::Geometry(g) => {
            law_geometry_round_trip(g);
            lemma_geometry_json_members(g);
            assert(kind_of(g.value) != Type::Topology);
        },
        TopoJson::Topology(t) => {
            law_topology_round_trip(t);
            assert(kind_text(Type::Topology) == "Topology"@);
        },
    }
}

/// A decoded arc has as many positions as the arc, and without a transform
/// it is the arc.
pub proof fn law_decoded_arc<A: Fn(u64, u64) -> u64, M: Fn(u64, u64) -> u64>(
    plus: A,
    times: M,
    arc: Seq<Seq<u64>>,
    tr: Option<TransformView>,
)
    ensures
        decoded_arc(plus, times, arc, tr).len() == arc.len(),
        tr is None ==> decoded_arc(plus, times, arc, tr) == arc,
{
}

/// An index that is not negative names the arc of that number, read
/// forwards; a negative index `i` names the arc `-i - 1`, and the ring it
/// gives is the ring of the index `-i - 1` with its points in reverse order.
pub proof fn law_arc_index<A: Fn(u64, u64) -> u64, M: Fn(u64, u64) -> u64>(
    plus: A,
    times: M,
    arcs: Seq<Seq<Seq<u64>>>,
    ix: i32,
    tr: Option<TransformView>,
)
    requires
        -arcs.len() <= ix < arcs.len(),
    ensures
        ix >= 0 ==> arc_offset(ix) == ix,
        ix < 0 ==> arc_offset(ix) == -ix - 1,
        ring(plus, times, arcs, seq![ix], tr) is Ok,
        ix < 0 ==> ring(plus, times, arcs, seq![ix], tr)->Ok_0 == ring(
            plus,
            times,
            arcs,
            seq![(-ix - 1) as i32],
            tr,
        )->Ok_0.reverse(),
{
    let forwards = (if ix < 0 {
        -ix - 1
    } else {
        ix as int
    }) as i32;
    assert(seq![ix].drop_last() =~= Seq::<i32>::empty());
    assert(seq![forwards].drop_last() =~= Seq::<i32>::empty());
    assert(seq![ix].last() == ix);
    assert(seq![forwards].last() == forwards);
    let arc = decoded_arc(plus, times, arcs[arc_offset(ix)], tr);
    let nothing = Seq::<i32>::empty();
    assert(ring(plus, times, arcs, nothing, tr) == Ok::<Seq<Seq<u64>>, ErrorView>(Seq::empty()));
    assert(arc_offset(forwards) == arc_offset(ix));
    assert(directed_arc(plus, times, arcs, forwards, tr) == Ok::<Seq<Seq<u64>>, ErrorView>(arc));
    assert(Seq::<Seq<u64>>::empty() + arc =~= arc);
    assert(Seq::<Seq<u64>>::empty() + arc.reverse() =~= arc.reverse());
    assert(ring(plus, times, arcs, seq![forwards], tr) == Ok::<Seq<Seq<u64>>, ErrorView>(arc));
}

/// Converting an object that the topology does not hold fails, and the
/// error carries the name that was asked for.
pub proof fn law_unknown_key<A: Fn(u64, u64) -> u64, M: Fn(u64, u64) -> u64>(
    plus: A,
    times: M,
    t: TopologyView,
    key: Seq<char>,
)
    requires
        forall|i: int| 0 <= i < t.objects.len() ==> (#[trigger] t.objects[i]).name != key,
    ensures
        converted(plus, times, t, key) == Err::<Seq<FeatureView>, ErrorView>(
            ErrorView::TopoToGeoUnknownKey(key),
        ),
{
    lemma_not_selected(t.objects, key);
}

/// No object is selected where none bears the name.
proof fn lemma_not_selected(objects: Seq<NamedGeometryView>, key: Seq<char>)
    requires
        forall|i: int| 0 <= i < objects.len() ==> (#[trigger] objects[i]).name != key,
    ensures
        selected(objects, key) is None,
    decreases objects.len(),
{
    if objects.len() > 0 {
        assert forall|i: int| 0 <= i < objects.skip(1).len() implies (#[trigger] objects.skip(
            1,
        )[i]).name != key by {
            assert(objects.skip(1)[i] == objects[i + 1]);
        }
        lemma_not_selected(objects.skip(1), key);
    }
}

/// Two lists of arcs hold the same arc wherever one of the indexes names
/// one.
pub open spec fn same_arcs_of_ring(
    arcs: Seq<Seq<Seq<u64>>>,
    other: Seq<Seq<Seq<u64>>>,
    ixs: Seq<i32>,
) -> bool {
    &&& arcs.len() == other.len()
    &&& forall|i: int|
        0 <= i < ixs.len() && arc_offset(#[trigger] ixs[i]) < arcs.len() ==> arcs[arc_offset(
            ixs[i],
        )] == other[arc_offset(ixs[i])]
}

/// Two lists of arcs hold the same arc wherever an index of one of the
/// lists names one.
pub open spec fn same_arcs_of_rings(
    arcs: Seq<Seq<Seq<u64>>>,
    other: Seq<Seq<Seq<u64>>>,
    lists: Seq<Seq<i32>>,
) -> bool {
    &&& arcs.len() == other.len()
    &&& forall|k: int| 0 <= k < lists.len() ==> same_arcs_of_ring(arcs, other, #[trigger] lists[k])
}

/// Two lists of arcs hold the same arc wherever an index of one of the
/// polygons names one.
pub open spec fn same_arcs_of_polygons(
    arcs: Seq<Seq<Seq<u64>>>,
    other: Seq<Seq<Seq<u64>>>,
    lists: Seq<Seq<Seq<i32>>>,
) -> bool {
    &&& arcs.len() == other.len()
    &&& forall|k: int| 0 <= k < lists.len() ==> same_arcs_of_rings(arcs, other, #[trigger] lists[k])
}

/// Two lists of arcs hold the same arc wherever the value names one.
pub open spec fn same_arcs_of_value(
    arcs: Seq<Seq<Seq<u64>>>,
    other: Seq<Seq<Seq<u64>>>,
    v: ValueView,
) -> bool {
    &&& arcs.len() == other.len()
    &&& match v {
        ValueView::LineString(ixs) => same_arcs_of_ring(arcs, other, ixs),
        ValueView::MultiLineString(lists) => same_arcs_of_rings(arcs, other, lists),
        ValueView::Polygon(lists) => same_arcs_of_rings(arcs, other, lists),
        ValueView::MultiPolygon(lists) => same_arcs_of_polygons(arcs, other, lists),
        _ => true,
    }
}

/// Two lists of arcs hold the same arc wherever the geometry, or a geometry
/// that it collects, names one.
pub open spec fn same_named_arcs(
    arcs: Seq<Seq<Seq<u64>>>,
    other: Seq<Seq<Seq<u64>>>,
    g: GeometryView,
) -> bool {
    &&& arcs.len() == other.len()
    &&& match g.value {
        ValueView::GeometryCollection(gs) => forall|k: int|
            0 <= k < gs.len() ==> same_arcs_of_value(arcs, other, (#[trigger] gs[k]).value),
        v => same_arcs_of_value(arcs, other, v),
    }
}

/// Two readings that agree on every item agree on the sequence.
pub proof fn lemma_each_same<S, T, E>(
    items: Seq<S>,
    f: spec_fn(S) -> Result<T, E>,
    g: spec_fn(S) -> Result<T, E>,
)
    requires
        forall|i: int| 0 <= i < items.len() ==> f(#[trigger] items[i]) == g(items[i]),
    ensures
        each(items, f) == each(items, g),
    decreases items.len(),
{
    if items.len() > 0 {
        assert forall|i: int| 0 <= i < items.drop_last().len() implies f(
            #[trigger] items.drop_last()[i],
        ) == g(items.drop_last()[i]) by {
            assert(items.drop_last()[i] == items[i]);
        }
        lemma_each_same(items.drop_last(), f, g);
        assert(items.last() == items[items.len() - 1]);
    }
}

/// A ring takes nothing from the arcs that its indexes do not name.
pub proof fn lemma_ring_same<A: Fn(u64, u64) -> u64, M: Fn(u64, u64) -> u64>(
    plus: A,
    times: M,
    arcs: Seq<Seq<Seq<u64>>>,
    other: Seq<Seq<Seq<u64>>>,
    ixs: Seq<i32>,
    tr: Option<TransformView>,
)
    requires
        same_arcs_of_ring(arcs, other, ixs),
    ensures
        ring(plus, times, arcs, ixs, tr) == ring(plus, times, other, ixs, tr),
        ring_read(arcs, ixs) == ring_read(other, ixs),
    decreases ixs.len(),
{
    assert forall|i: int| 0 <= i < ixs.len() implies arc_read(arcs, #[trigger] ixs[i]) == arc_read(
        other,
        ixs[i],
    ) by {}
    lemma_each_same(ixs, |ix: i32| arc_read(arcs, ix), |ix: i32| arc_read(other, ix));
    if ixs.len() > 0 {
        assert forall|i: int|
            0 <= i < ixs.drop_last().len() && arc_offset(#[trigger] ixs.drop_last()[i])
                < arcs.len() implies arcs[arc_offset(ixs.drop_last()[i])] == other[arc_offset(
            ixs.drop_last()[i],
        )] by {
            assert(ixs.drop_last()[i] == ixs[i]);
        }
        lemma_ring_same(plus, times, arcs, other, ixs.drop_last(), tr);
        assert(ixs.last() == ixs[ixs.len() - 1]);
    }
}

/// Rings take nothing from the arcs that their indexes do not name.
pub proof fn lemma_ring_list_same<A: Fn(u64, u64) -> u64, M: Fn(u64, u64) -> u64>(
    plus: A,
    times: M,
    arcs: Seq<Seq<Seq<u64>>>,
    other: Seq<Seq<Seq<u64>>>,
    lists: Seq<Seq<i32>>,
    tr: Option<TransformView>,
)
    requires
        same_arcs_of_rings(arcs, other, lists),
    ensures
        ring_list(plus, times, arcs, lists, tr) == ring_list(plus, times, other, lists, tr),
        ring_list_read(arcs, lists) == ring_list_read(other, lists),
{
    assert forall|k: int| 0 <= k < lists.len() implies ring(plus, times, arcs, #[trigger] lists[k], tr)
        == ring(plus, times, other, lists[k], tr) && ring_read(arcs, lists[k]) == ring_read(
        other,
        lists[k],
    ) by {
        lemma_ring_same(plus, times, arcs, other, lists[k], tr);
    }
    lemma_each_same(
        lists,
        |ixs: Seq<i32>| ring(plus, times, arcs, ixs, tr),
        |ixs: Seq<i32>| ring(plus, times, other, ixs, tr),
    );
    lemma_each_same(
        lists,
        |ixs: Seq<i32>| passes(ring_read(arcs, ixs)),
        |ixs: Seq<i32>| passes(ring_read(other, ixs)),
    );
}

/// Polygons take nothing from the arcs that their indexes do not name.
pub proof fn lemma_polygon_list_same<A: Fn(u64, u64) -> u64, M: Fn(u64, u64) -> u64>(
    plus: A,
    times: M,
    arcs: Seq<Seq<Seq<u64>>>,
    other: Seq<Seq<Seq<u64>>>,
    lists: Seq<Seq<Seq<i32>>>,
    tr: Option<TransformView>,
)
    requires
        same_arcs_of_polygons(arcs, other, lists),
    ensures
        polygon_list(plus, times, arcs, lists, tr) == polygon_list(plus, times, other, lists, tr),
        polygon_list_read(arcs, lists) == polygon_list_read(other, lists),
{
    assert forall|k: int| 0 <= k < lists.len() implies ring_list(
        plus,
        times,
        arcs,
        #[trigger] lists[k],
        tr,
    ) == ring_list(plus, times, other, lists[k], tr) && ring_list_read(arcs, lists[k])
        == ring_list_read(other, lists[k]) by {
        lemma_ring_list_same(plus, times, arcs, other, lists[k], tr);
    }
    lemma_each_same(
        lists,
        |rings: Seq<Seq<i32>>| ring_list(plus, times, arcs, rings, tr),
        |rings: Seq<Seq<i32>>| ring_list(plus, times, other, rings, tr),
    );
    lemma_each_same(
        lists,
        |rings: Seq<Seq<i32>>| passes(ring_list_read(arcs, rings)),
        |rings: Seq<Seq<i32>>| passes(ring_list_read(other, rings)),
    );
}

/// A feature takes nothing from the arcs that its geometry does not name.
pub proof fn lemma_feature_same<A: Fn(u64, u64) -> u64, M: Fn(u64, u64) -> u64>(
    plus: A,
    times: M,
    arcs: Seq<Seq<Seq<u64>>>,
    other: Seq<Seq<Seq<u64>>>,
    g: GeometryView,
    tr: Option<TransformView>,
)
    requires
        same_arcs_of_value(arcs, other, g.value),
    ensures
        feature(plus, times, g, arcs, tr) == feature(plus, times, g, other, tr),
        value_read(g.value, arcs) == value_read(g.value, other),
{
    match g.value {
        ValueView::LineString(ixs) => {
            lemma_ring_same(plus, times, arcs, other, ixs, tr);
        },
        ValueView::MultiLineString(lists) => {
            lemma_ring_list_same(plus, times, arcs, other, lists, tr);
        },
        ValueView::Polygon(lists) => {
            lemma_ring_list_same(plus, times, arcs, other, lists, tr);
        },
        ValueView::MultiPolygon(lists) => {
            lemma_polygon_list_same(plus, times, arcs, other, lists, tr);
        },
        _ => {},
    }
}

/// Converting an object takes nothing from the arcs that the object does
/// not name: of two topologies that differ only in such arcs, the object can
/// be converted in one if it can in the other, and it converts to the same
/// features.
pub proof fn law_unnamed_arcs_are_not_read<A: Fn(u64, u64) -> u64, M: Fn(u64, u64) -> u64>(
    plus: A,
    times: M,
    t: TopologyView,
    u: TopologyView,
    key: Seq<char>,
)
    requires
        t.objects == u.objects,
        t.transform == u.transform,
        t.arcs.len() == u.arcs.len(),
        selected(t.objects, key) matches Some(g) ==> same_named_arcs(t.arcs, u.arcs, g),
    ensures
        converted(plus, times, t, key) == converted(plus, times, u, key),
        decodable(t, key) == decodable(u, key),
{
    match selected(t.objects, key) {
        None => {},
        Some(g) => {
            match g.value {
                ValueView::GeometryCollection(gs) => {
                    assert forall|k: int| 0 <= k < gs.len() implies feature(
                        plus,
                        times,
                        #[trigger] gs[k],
                        t.arcs,
                        t.transform,
                    ) == feature(plus, times, gs[k], u.arcs, t.transform) && value_read(
                        gs[k].value,
                        t.arcs,
                    ) == value_read(gs[k].value, u.arcs) by {
                        lemma_feature_same(plus, times, t.arcs, u.arcs, gs[k], t.transform);
                    }
                    lemma_each_same(
                        gs,
                        |g: GeometryView| feature(plus, times, g, t.arcs, t.transform),
                        |g: GeometryView| feature(plus, times, g, u.arcs, t.transform),
                    );
                    lemma_each_same(
                        gs,
                        |g: GeometryView| passes(value_read(g.value, t.arcs)),
                        |g: GeometryView| passes(value_read(g.value, u.arcs)),
                    );
                },
                _ => {
                    lemma_feature_same(plus, times, t.arcs, u.arcs, g, t.transform);
                },
            }
        },
    }
}

} // verus!
