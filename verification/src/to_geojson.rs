//! From a topology to explicit features: arc indexes are resolved against the
//! arcs of the topology, quantized coordinates are decoded, and each geometry
//! comes out as a feature with its coordinates written out.
//!
//! The library computes nothing in floating point itself. A coordinate is
//! carried as the bit pattern of a binary64 number, and the two operations
//! that decoding needs, addition and multiplication on such patterns, are
//! handed in by the caller. Every contract here holds for whatever two
//! functions are handed in.

use crate::error::{outcome, Error, ErrorView};
use crate::grammar::{each, lemma_each_error, lemma_each_step};
use crate::geometry::{
    arcs_view, bbox_view, copy_bbox, copy_object, copy_value, geometries_view,
    lemma_geometries_view, object_view, objects_view, polygons_view, positions_view, rings_view,
    value_tree, Geometry, GeometryValue, GeometryView, NamedGeometryView, ValueView,
};
use crate::json::{number_bits, reals, Json, JsonNumber, JsonObject, JsonValue};
use crate::topology::{transform_view, Topology, TopologyView, TransformParams, TransformView};
use crate::{Arc, Bbox, Position};
use vstd::prelude::*;

verus! {

/// The coordinates of a feature, written out.
#[derive(Clone, Debug, PartialEq)]
pub enum FeatureValue {
    Point(Vec<u64>),
    MultiPoint(Vec<Vec<u64>>),
    LineString(Vec<Vec<u64>>),
    MultiLineString(Vec<Vec<Vec<u64>>>),
    Polygon(Vec<Vec<Vec<u64>>>),
    MultiPolygon(Vec<Vec<Vec<Vec<u64>>>>),
}

/// One converted geometry: its coordinates, and the members of the geometry
/// object that it came from.
#[derive(Clone, Debug, PartialEq)]
pub struct Feature {
    pub bbox: Option<Bbox>,
    pub value: FeatureValue,
    pub id: Option<JsonValue>,
    pub properties: Option<JsonObject>,
    pub foreign_members: Option<JsonObject>,
}

/// The features that one object of a topology converts to.
#[derive(Clone, Debug, PartialEq)]
pub struct FeatureCollection {
    pub features: Vec<Feature>,
}

/// A [`FeatureValue`] as mathematical data.
pub enum FeatureValueView {
    Point(Seq<u64>),
    MultiPoint(Seq<Seq<u64>>),
    LineString(Seq<Seq<u64>>),
    MultiLineString(Seq<Seq<Seq<u64>>>),
    Polygon(Seq<Seq<Seq<u64>>>),
    MultiPolygon(Seq<Seq<Seq<Seq<u64>>>>),
}

/// A [`Feature`] as mathematical data.
pub struct FeatureView {
    pub bbox: Option<Seq<u64>>,
    pub value: FeatureValueView,
    pub id: Option<Json>,
    pub properties: Option<Map<Seq<char>, Json>>,
    pub foreign_members: Option<Map<Seq<char>, Json>>,
}

/// The lists of a list.
pub open spec fn rows<T>(s: Seq<Vec<T>>) -> Seq<Seq<T>> {
    Seq::new(s.len(), |i: int| s[i]@)
}

/// The lists of lists of a list.
pub open spec fn grids<T>(s: Seq<Vec<Vec<T>>>) -> Seq<Seq<Seq<T>>> {
    Seq::new(s.len(), |i: int| rows(s[i]@))
}

/// The lists of lists of lists of a list.
pub open spec fn blocks<T>(s: Seq<Vec<Vec<Vec<T>>>>) -> Seq<Seq<Seq<Seq<T>>>> {
    Seq::new(s.len(), |i: int| grids(s[i]@))
}

impl View for FeatureValue {
    type V = FeatureValueView;

    open spec fn view(&self) -> FeatureValueView {
        match *self {
            FeatureValue::Point(p) => FeatureValueView::Point(p@),
            FeatureValue::MultiPoint(ps) => FeatureValueView::MultiPoint(rows(ps@)),
            FeatureValue::LineString(line) => FeatureValueView::LineString(rows(line@)),
            FeatureValue::MultiLineString(lines) => FeatureValueView::MultiLineString(
                grids(lines@),
            ),
            FeatureValue::Polygon(rings) => FeatureValueView::Polygon(grids(rings@)),
            FeatureValue::MultiPolygon(polygons) => FeatureValueView::MultiPolygon(
                blocks(polygons@),
            ),
        }
    }
}

impl View for Feature {
    type V = FeatureView;

    open spec fn view(&self) -> FeatureView {
        FeatureView {
            bbox: bbox_view(self.bbox),
            value: self.value@,
            id: value_tree(self.id),
            properties: object_view(self.properties),
            foreign_members: object_view(self.foreign_members),
        }
    }
}

/// The views of a list of features.
pub open spec fn features_view(s: Seq<Feature>) -> Seq<FeatureView> {
    Seq::new(s.len(), |i: int| s[i]@)
}

/// What `f` returns for `a` and `b`.
pub open spec fn apply<F: Fn(u64, u64) -> u64>(f: F, a: u64, b: u64) -> u64 {
    choose|r: u64| f.ensures((a, b), r)
}

/// `f` can be called on every two values, and what it returns depends on
/// them alone.
pub open spec fn is_operation<F: Fn(u64, u64) -> u64>(f: F) -> bool {
    &&& forall|a: u64, b: u64| #[trigger] f.requires((a, b))
    &&& forall|a: u64, b: u64, r: u64| #[trigger] f.ensures((a, b), r) ==> r == apply(f, a, b)
}

/// `x` times `s`, plus `t`.
pub open spec fn scaled<A: Fn(u64, u64) -> u64, M: Fn(u64, u64) -> u64>(
    plus: A,
    times: M,
    x: u64,
    s: u64,
    t: u64,
) -> u64 {
    apply(plus, apply(times, x, s), t)
}

/// A position has the two coordinates that a transform works on.
pub open spec fn planar(p: Seq<u64>) -> bool {
    p.len() >= 2
}

/// Every position of the arc is planar.
pub open spec fn planar_arc(arc: Seq<Seq<u64>>) -> bool {
    forall|j: int| 0 <= j < arc.len() ==> planar(#[trigger] arc[j])
}

/// The positions that the value holds itself are planar.
pub open spec fn planar_points(v: ValueView) -> bool {
    match v {
        ValueView::Point(p) => planar(p),
        ValueView::MultiPoint(ps) => planar_arc(ps),
        _ => true,
    }
}

/// A position under a transform: the first two coordinates scaled and
/// translated, the others as they are. Without a transform, the position
/// itself.
pub open spec fn point<A: Fn(u64, u64) -> u64, M: Fn(u64, u64) -> u64>(
    plus: A,
    times: M,
    p: Seq<u64>,
    tr: Option<TransformView>,
) -> Seq<u64> {
    match tr {
        None => p,
        Some(t) => p.update(0, scaled(plus, times, p[0], t.scale.0, t.translate.0)).update(
            1,
            scaled(plus, times, p[1], t.scale.1, t.translate.1),
        ),
    }
}

/// Positions under a transform, each for itself.
pub open spec fn points<A: Fn(u64, u64) -> u64, M: Fn(u64, u64) -> u64>(
    plus: A,
    times: M,
    ps: Seq<Seq<u64>>,
    tr: Option<TransformView>,
) -> Seq<Seq<u64>> {
    Seq::new(ps.len(), |j: int| point(plus, times, ps[j], tr))
}

/// The sum of the coordinates on one axis of the first `n` positions of an
/// arc: begun at zero, each coordinate added in turn.
pub open spec fn running<A: Fn(u64, u64) -> u64>(plus: A, arc: Seq<Seq<u64>>, axis: int, n: int) -> u64
    decreases n,
{
    if n <= 0 {
        0
    } else {
        apply(plus, running(plus, arc, axis, n - 1), arc[n - 1][axis])
    }
}

/// An arc decoded: under a transform each position holds, on its first two
/// axes, the running sum up to it, scaled and translated; its other
/// coordinates stay. Without a transform, the arc itself.
pub open spec fn decoded_arc<A: Fn(u64, u64) -> u64, M: Fn(u64, u64) -> u64>(
    plus: A,
    times: M,
    arc: Seq<Seq<u64>>,
    tr: Option<TransformView>,
) -> Seq<Seq<u64>> {
    match tr {
        None => arc,
        Some(t) => Seq::new(
            arc.len(),
            |j: int|
                arc[j].update(
                    0,
                    scaled(plus, times, running(plus, arc, 0, j + 1), t.scale.0, t.translate.0),
                ).update(
                    1,
                    scaled(plus, times, running(plus, arc, 1, j + 1), t.scale.1, t.translate.1),
                ),
        ),
    }
}

/// The arc that an index names: the index itself, or for a negative index
/// `i` the arc `-i - 1`.
pub open spec fn arc_offset(ix: i32) -> int {
    if ix < 0 {
        -ix - 1
    } else {
        ix as int
    }
}

/// The decoded arc that an index names, backwards for a negative index.
pub open spec fn directed_arc<A: Fn(u64, u64) -> u64, M: Fn(u64, u64) -> u64>(
    plus: A,
    times: M,
    arcs: Seq<Seq<Seq<u64>>>,
    ix: i32,
    tr: Option<TransformView>,
) -> Result<Seq<Seq<u64>>, ErrorView> {
    if arc_offset(ix) >= arcs.len() {
        Err(ErrorView::ArcIndexOutOfRange(ix))
    } else {
        let arc = decoded_arc(plus, times, arcs[arc_offset(ix)], tr);
        Ok(
            if ix < 0 {
                arc.reverse()
            } else {
                arc
            },
        )
    }
}

/// The ring that arc indexes name: their arcs one after the other, with
/// every point of every arc. The first index out of range is the outcome.
pub open spec fn ring<A: Fn(u64, u64) -> u64, M: Fn(u64, u64) -> u64>(
    plus: A,
    times: M,
    arcs: Seq<Seq<Seq<u64>>>,
    ixs: Seq<i32>,
    tr: Option<TransformView>,
) -> Result<Seq<Seq<u64>>, ErrorView>
    decreases ixs.len(),
{
    if ixs.len() == 0 {
        Ok(Seq::empty())
    } else {
        match ring(plus, times, arcs, ixs.drop_last(), tr) {
            Err(e) => Err(e),
            Ok(head) => match directed_arc(plus, times, arcs, ixs.last(), tr) {
                Err(e) => Err(e),
                Ok(arc) => Ok(head + arc),
            },
        }
    }
}

/// The rings that lists of arc indexes name; the first error is the outcome.
pub open spec fn ring_list<A: Fn(u64, u64) -> u64, M: Fn(u64, u64) -> u64>(
    plus: A,
    times: M,
    arcs: Seq<Seq<Seq<u64>>>,
    lists: Seq<Seq<i32>>,
    tr: Option<TransformView>,
) -> Result<Seq<Seq<Seq<u64>>>, ErrorView> {
    each(lists, |ixs: Seq<i32>| ring(plus, times, arcs, ixs, tr))
}

/// The polygons that lists of lists of arc indexes name; the first error is
/// the outcome.
pub open spec fn polygon_list<A: Fn(u64, u64) -> u64, M: Fn(u64, u64) -> u64>(
    plus: A,
    times: M,
    arcs: Seq<Seq<Seq<u64>>>,
    lists: Seq<Seq<Seq<i32>>>,
    tr: Option<TransformView>,
) -> Result<Seq<Seq<Seq<Seq<u64>>>>, ErrorView> {
    each(lists, |rings: Seq<Seq<i32>>| ring_list(plus, times, arcs, rings, tr))
}

/// The coordinates that a geometry converts to, a collection apart.
pub open spec fn feature_value<A: Fn(u64, u64) -> u64, M: Fn(u64, u64) -> u64>(
    plus: A,
    times: M,
    v: ValueView,
    arcs: Seq<Seq<Seq<u64>>>,
    tr: Option<TransformView>,
) -> Result<FeatureValueView, ErrorView> {
    match v {
        ValueView::Point(p) => Ok(FeatureValueView::Point(point(plus, times, p, tr))),
        ValueView::MultiPoint(ps) => Ok(FeatureValueView::MultiPoint(points(plus, times, ps, tr))),
        ValueView::LineString(ixs) => match ring(plus, times, arcs, ixs, tr) {
            Ok(line) => Ok(FeatureValueView::LineString(line)),
            Err(e) => Err(e),
        },
        ValueView::MultiLineString(lists) => match ring_list(plus, times, arcs, lists, tr) {
            Ok(lines) => Ok(FeatureValueView::MultiLineString(lines)),
            Err(e) => Err(e),
        },
        ValueView::Polygon(lists) => match ring_list(plus, times, arcs, lists, tr) {
            Ok(rings) => Ok(FeatureValueView::Polygon(rings)),
            Err(e) => Err(e),
        },
        ValueView::MultiPolygon(lists) => match polygon_list(plus, times, arcs, lists, tr) {
            Ok(polygons) => Ok(FeatureValueView::MultiPolygon(polygons)),
            Err(e) => Err(e),
        },
        ValueView::GeometryCollection(_) => Err(ErrorView::UnsupportedNestedCollection),
    }
}

/// The feature that a geometry converts to: its coordinates written out,
/// its other members as they are.
pub open spec fn feature<A: Fn(u64, u64) -> u64, M: Fn(u64, u64) -> u64>(
    plus: A,
    times: M,
    g: GeometryView,
    arcs: Seq<Seq<Seq<u64>>>,
    tr: Option<TransformView>,
) -> Result<FeatureView, ErrorView> {
    match feature_value(plus, times, g.value, arcs, tr) {
        Err(e) => Err(e),
        Ok(value) => Ok(
            FeatureView {
                bbox: g.bbox,
                value,
                id: g.id,
                properties: g.properties,
                foreign_members: g.foreign_members,
            },
        ),
    }
}

/// The features that geometries convert to, one each; the first error is the
/// outcome.
pub open spec fn feature_list<A: Fn(u64, u64) -> u64, M: Fn(u64, u64) -> u64>(
    plus: A,
    times: M,
    gs: Seq<GeometryView>,
    arcs: Seq<Seq<Seq<u64>>>,
    tr: Option<TransformView>,
) -> Result<Seq<FeatureView>, ErrorView> {
    each(gs, |g: GeometryView| feature(plus, times, g, arcs, tr))
}

/// The features that an object of a topology converts to: one for a plain
/// geometry, one for each member of a collection.
pub open spec fn features<A: Fn(u64, u64) -> u64, M: Fn(u64, u64) -> u64>(
    plus: A,
    times: M,
    g: GeometryView,
    arcs: Seq<Seq<Seq<u64>>>,
    tr: Option<TransformView>,
) -> Result<Seq<FeatureView>, ErrorView> {
    match g.value {
        ValueView::GeometryCollection(gs) => feature_list(plus, times, gs, arcs, tr),
        _ => match feature(plus, times, g, arcs, tr) {
            Ok(f) => Ok(seq![f]),
            Err(e) => Err(e),
        },
    }
}

/// The first object of the given name, if there is one.
pub open spec fn selected(objects: Seq<NamedGeometryView>, key: Seq<char>) -> Option<GeometryView>
    decreases objects.len(),
{
    if objects.len() == 0 {
        None
    } else if objects[0].name == key {
        Some(objects[0].geometry)
    } else {
        selected(objects.skip(1), key)
    }
}

/// The features that the object `key` of a topology converts to.
pub open spec fn converted<A: Fn(u64, u64) -> u64, M: Fn(u64, u64) -> u64>(
    plus: A,
    times: M,
    t: TopologyView,
    key: Seq<char>,
) -> Result<Seq<FeatureView>, ErrorView> {
    match selected(t.objects, key) {
        None => Err(ErrorView::TopoToGeoUnknownKey(key)),
        Some(g) => features(plus, times, g, t.arcs, t.transform),
    }
}

/// What ends the reading of positions that a conversion under a transform
/// does.
#[derive(Clone, Copy, Debug, PartialEq, Eq, Structural)]
pub enum Halt {
    /// A position of fewer than two coordinates is met.
    Short,
    /// The conversion fails, and reads no further.
    Stops,
}

/// What ended a reading, if anything did.
pub open spec fn halt<T>(r: Result<T, Halt>) -> Option<Halt> {
    match r {
        Ok(_) => None,
        Err(h) => Some(h),
    }
}

/// A reading that went through, or what ended it.
pub open spec fn passes(h: Option<Halt>) -> Result<(), Halt> {
    match h {
        None => Ok(()),
        Some(h) => Err(h),
    }
}

/// Reading the arc that an index names: an index out of range ends the
/// conversion, a position of fewer than two coordinates in the arc is met.
pub open spec fn arc_read(arcs: Seq<Seq<Seq<u64>>>, ix: i32) -> Result<(), Halt> {
    if arc_offset(ix) >= arcs.len() {
        Err(Halt::Stops)
    } else if planar_arc(arcs[arc_offset(ix)]) {
        Ok(())
    } else {
        Err(Halt::Short)
    }
}

/// Reading the arcs that arc indexes name, one after the other.
pub open spec fn ring_read(arcs: Seq<Seq<Seq<u64>>>, ixs: Seq<i32>) -> Option<Halt> {
    halt(each(ixs, |ix: i32| arc_read(arcs, ix)))
}

/// Reading the arcs that lists of arc indexes name, list after list.
pub open spec fn ring_list_read(arcs: Seq<Seq<Seq<u64>>>, lists: Seq<Seq<i32>>) -> Option<Halt> {
    halt(each(lists, |ixs: Seq<i32>| passes(ring_read(arcs, ixs))))
}

/// Reading the arcs that lists of lists of arc indexes name.
pub open spec fn polygon_list_read(arcs: Seq<Seq<Seq<u64>>>, lists: Seq<Seq<Seq<i32>>>) -> Option<
    Halt,
> {
    halt(each(lists, |rings: Seq<Seq<i32>>| passes(ring_list_read(arcs, rings))))
}

/// Reading the positions that converting a value takes: its own where it is
/// made of points, those of the arcs it names where it is made of arcs. A
/// collection is not converted.
pub open spec fn value_read(v: ValueView, arcs: Seq<Seq<Seq<u64>>>) -> Option<Halt> {
    match v {
        ValueView::Point(p) => if planar(p) {
            None
        } else {
            Some(Halt::Short)
        },
        ValueView::MultiPoint(ps) => if planar_arc(ps) {
            None
        } else {
            Some(Halt::Short)
        },
        ValueView::LineString(ixs) => ring_read(arcs, ixs),
        ValueView::MultiLineString(lists) => ring_list_read(arcs, lists),
        ValueView::Polygon(lists) => ring_list_read(arcs, lists),
        ValueView::MultiPolygon(lists) => polygon_list_read(arcs, lists),
        ValueView::GeometryCollection(_) => Some(Halt::Stops),
    }
}

/// Reading the positions that converting an object takes: for a collection
/// those of its geometries, one after the other.
pub open spec fn geometry_read(g: GeometryView, arcs: Seq<Seq<Seq<u64>>>) -> Option<Halt> {
    match g.value {
        ValueView::GeometryCollection(gs) => halt(
            each(gs, |g: GeometryView| passes(value_read(g.value, arcs))),
        ),
        v => value_read(v, arcs),
    }
}

/// The object `key` of a topology can be converted: under a transform, the
/// conversion meets no position of fewer than two coordinates, neither among
/// the points of the object nor in an arc that it reads before it ends.
pub open spec fn decodable(t: TopologyView, key: Seq<char>) -> bool {
    t.transform is Some ==> (match selected(t.objects, key) {
        Some(g) => geometry_read(g, t.arcs) != Some(Halt::Short),
        None => true,
    })
}

/// Where reading the arcs of a ring ends with the conversion, the ring is
/// an error.
pub proof fn lemma_ring_stops<A: Fn(u64, u64) -> u64, M: Fn(u64, u64) -> u64>(
    plus: A,
    times: M,
    arcs: Seq<Seq<Seq<u64>>>,
    ixs: Seq<i32>,
    tr: Option<TransformView>,
)
    requires
        ring_read(arcs, ixs) == Some(Halt::Stops),
    ensures
        ring(plus, times, arcs, ixs, tr) is Err,
    decreases ixs.len(),
{
    let g = |ix: i32| arc_read(arcs, ix);
    if ixs.len() > 0 {
        if each(ixs.drop_last(), g) is Err {
            lemma_ring_stops(plus, times, arcs, ixs.drop_last(), tr);
        }
    }
}

/// Where a second reading of the items ends with the conversion only at an
/// item that is an error, it ends so only where the items are an error.
pub proof fn lemma_each_stops<S, T, U>(
    items: Seq<S>,
    f: spec_fn(S) -> Result<T, ErrorView>,
    g: spec_fn(S) -> Result<U, Halt>,
)
    requires
        forall|i: int|
            0 <= i < items.len() && g(#[trigger] items[i]) == Err::<U, Halt>(Halt::Stops) ==> f(
                items[i],
            ) is Err,
        each(items, g) == Err::<Seq<U>, Halt>(Halt::Stops),
    ensures
        each(items, f) is Err,
    decreases items.len(),
{
    if items.len() > 0 {
        if each(items.drop_last(), g) is Err {
            assert forall|i: int|
                0 <= i < items.drop_last().len() && g(#[trigger] items.drop_last()[i]) == Err::<
                    U,
                    Halt,
                >(Halt::Stops) implies f(items.drop_last()[i]) is Err by {
                assert(items.drop_last()[i] == items[i]);
            }
            lemma_each_stops(items.drop_last(), f, g);
        } else {
            assert(items.last() == items[items.len() - 1]);
        }
    }
}

/// Where reading the arcs of rings ends with the conversion, the rings are
/// an error.
pub proof fn lemma_ring_list_stops<A: Fn(u64, u64) -> u64, M: Fn(u64, u64) -> u64>(
    plus: A,
    times: M,
    arcs: Seq<Seq<Seq<u64>>>,
    lists: Seq<Seq<i32>>,
    tr: Option<TransformView>,
)
    requires
        ring_list_read(arcs, lists) == Some(Halt::Stops),
    ensures
        ring_list(plus, times, arcs, lists, tr) is Err,
{
    let f = |ixs: Seq<i32>| ring(plus, times, arcs, ixs, tr);
    let g = |ixs: Seq<i32>| passes(ring_read(arcs, ixs));
    assert forall|i: int|
        0 <= i < lists.len() && g(#[trigger] lists[i]) == Err::<(), Halt>(Halt::Stops) implies f(
        lists[i],
    ) is Err by {
        lemma_ring_stops(plus, times, arcs, lists[i], tr);
    }
    lemma_each_stops(lists, f, g);
}

/// Where reading the arcs of polygons ends with the conversion, the
/// polygons are an error.
pub proof fn lemma_polygon_list_stops<A: Fn(u64, u64) -> u64, M: Fn(u64, u64) -> u64>(
    plus: A,
    times: M,
    arcs: Seq<Seq<Seq<u64>>>,
    lists: Seq<Seq<Seq<i32>>>,
    tr: Option<TransformView>,
)
    requires
        polygon_list_read(arcs, lists) == Some(Halt::Stops),
    ensures
        polygon_list(plus, times, arcs, lists, tr) is Err,
{
    let f = |rings: Seq<Seq<i32>>| ring_list(plus, times, arcs, rings, tr);
    let g = |rings: Seq<Seq<i32>>| passes(ring_list_read(arcs, rings));
    assert forall|i: int|
        0 <= i < lists.len() && g(#[trigger] lists[i]) == Err::<(), Halt>(Halt::Stops) implies f(
        lists[i],
    ) is Err by {
        lemma_ring_list_stops(plus, times, arcs, lists[i], tr);
    }
    lemma_each_stops(lists, f, g);
}

/// Where reading the positions of a value ends with the conversion, the
/// feature is an error.
pub proof fn lemma_value_stops<A: Fn(u64, u64) -> u64, M: Fn(u64, u64) -> u64>(
    plus: A,
    times: M,
    g: GeometryView,
    arcs: Seq<Seq<Seq<u64>>>,
    tr: Option<TransformView>,
)
    requires
        value_read(g.value, arcs) == Some(Halt::Stops),
    ensures
        feature(plus, times, g, arcs, tr) is Err,
{
    match g.value {
        ValueView::LineString(ixs) => {
            lemma_ring_stops(plus, times, arcs, ixs, tr);
        },
        ValueView::MultiLineString(lists) => {
            lemma_ring_list_stops(plus, times, arcs, lists, tr);
        },
        ValueView::Polygon(lists) => {
            lemma_ring_list_stops(plus, times, arcs, lists, tr);
        },
        ValueView::MultiPolygon(lists) => {
            lemma_polygon_list_stops(plus, times, arcs, lists, tr);
        },
        _ => {},
    }
}

/// The bit patterns of the numbers of a list.
fn bits_of(numbers: &Vec<JsonNumber>) -> (r: Vec<u64>)
    ensures
        r@ == reals(numbers@),
{
    let mut bits: Vec<u64> = Vec::with_capacity(numbers.len());
    let mut i: usize = 0;
    while i < numbers.len()
        invariant
            i <= numbers.len(),
            bits@ =~= reals(numbers@).subrange(0, i as int),
        decreases numbers.len() - i,
    {
        bits.push(number_bits(&numbers[i]).unwrap());
        i = i + 1;
    }
    assert(reals(numbers@).subrange(0, i as int) =~= reals(numbers@));
    bits
}

/// The feature of a geometry whose coordinates have been written out.
fn make_feature(geom: &Geometry, value: FeatureValue) -> (r: Feature)
    ensures
        r@ == (FeatureView {
            bbox: geom@.bbox,
            value: value@,
            id: geom@.id,
            properties: geom@.properties,
            foreign_members: geom@.foreign_members,
        }),
{
    Feature {
        bbox: copy_bbox(&geom.bbox),
        foreign_members: copy_object(&geom.foreign_members),
        value,
        id: copy_value(&geom.id),
        properties: copy_object(&geom.properties),
    }
}

/// Decodes one position: under a transform its first two coordinates are
/// scaled and translated, each for itself.
pub fn make_pt<A: Fn(u64, u64) -> u64, M: Fn(u64, u64) -> u64>(
    pos: &Vec<JsonNumber>,
    tr: &Option<TransformParams>,
    plus: &A,
    times: &M,
) -> (r: Vec<u64>)
    requires
        is_operation(*plus),
        is_operation(*times),
        tr is Some ==> planar(reals(pos@)),
    ensures
        r@ == point(*plus, *times, reals(pos@), transform_view(*tr)),
{
    let mut new_pos = bits_of(pos);
    match tr {
        None => new_pos,
        Some(t) => {
            let s0 = number_bits(&t.scale[0]).unwrap();
            let s1 = number_bits(&t.scale[1]).unwrap();
            let t0 = number_bits(&t.translate[0]).unwrap();
            let t1 = number_bits(&t.translate[1]).unwrap();
            let x = plus(times(new_pos[0], s0), t0);
            new_pos.set(0, x);
            let y = plus(times(new_pos[1], s1), t1);
            new_pos.set(1, y);
            new_pos
        },
    }
}

/// Decodes an arc. Under a transform the coordinates on the first two axes
/// are increments: they are summed up from zero along the arc, and each sum
/// is scaled and translated. Without a transform the positions come out as
/// they are.
pub fn decode_arc<A: Fn(u64, u64) -> u64, M: Fn(u64, u64) -> u64>(
    arc: &[Position],
    tr: &Option<TransformParams>,
    plus: &A,
    times: &M,
) -> (ring: Vec<Vec<u64>>)
    requires
        is_operation(*plus),
        is_operation(*times),
        tr is Some ==> planar_arc(positions_view(arc@)),
    ensures
        rows(ring@) == decoded_arc(*plus, *times, positions_view(arc@), transform_view(*tr)),
        ring@.len() == arc@.len(),
        tr is None ==> rows(ring@) == positions_view(arc@),
{
    let ghost raw = positions_view(arc@);
    let ghost target = decoded_arc(*plus, *times, raw, transform_view(*tr));
    let mut ring: Vec<Vec<u64>> = Vec::with_capacity(arc.len());
    match tr {
        None => {
            let mut j: usize = 0;
            while j < arc.len()
                invariant
                    j <= arc.len(),
                    raw == positions_view(arc@),
                    rows(ring@) =~= raw.subrange(0, j as int),
                decreases arc.len() - j,
            {
                let pt = bits_of(&arc[j]);
                assert(pt@ == raw[j as int]);
                assert(rows(ring@.push(pt)) =~= rows(ring@).push(pt@));
                ring.push(pt);
                j = j + 1;
            }
            assert(raw.subrange(0, j as int) =~= raw);
            ring
        },
        Some(t) => {
            let s0 = number_bits(&t.scale[0]).unwrap();
            let s1 = number_bits(&t.scale[1]).unwrap();
            let t0 = number_bits(&t.translate[0]).unwrap();
            let t1 = number_bits(&t.translate[1]).unwrap();
            let mut x: u64 = 0;
            let mut y: u64 = 0;
            let mut j: usize = 0;
            while j < arc.len()
                invariant
                    j <= arc.len(),
                    is_operation(*plus),
                    is_operation(*times),
                    raw == positions_view(arc@),
                    planar_arc(raw),
                    transform_view(*tr) == Some(t@),
                    s0 == t@.scale.0,
                    s1 == t@.scale.1,
                    t0 == t@.translate.0,
                    t1 == t@.translate.1,
                    target == decoded_arc(*plus, *times, raw, transform_view(*tr)),
                    x == running(*plus, raw, 0, j as int),
                    y == running(*plus, raw, 1, j as int),
                    rows(ring@) =~= target.subrange(0, j as int),
                decreases arc.len() - j,
            {
                let mut new_pt = bits_of(&arc[j]);
                assert(new_pt@ == raw[j as int]);
                assert(planar(raw[j as int]));
                x = plus(x, new_pt[0]);
                y = plus(y, new_pt[1]);
                assert(x == running(*plus, raw, 0, j as int + 1));
                assert(y == running(*plus, raw, 1, j as int + 1));
                let a = plus(times(x, s0), t0);
                new_pt.set(0, a);
                let b = plus(times(y, s1), t1);
                new_pt.set(1, b);
                assert(new_pt@ =~= target[j as int]);
                assert(rows(ring@.push(new_pt)) =~= rows(ring@).push(new_pt@));
                ring.push(new_pt);
                j = j + 1;
            }
            assert(target.subrange(0, j as int) =~= target);
            ring
        },
    }
}

/// The arc that an index names among `arcs` arcs, and whether it is to be
/// read backwards: a negative index `i` names the arc `-i - 1`, backwards.
pub fn resolve_arc_index(ix: i32, arcs: usize) -> (r: Result<(usize, bool), Error>)
    ensures
        match r {
            Ok((offset, reversed)) => offset == arc_offset(ix) && reversed == (ix < 0) && offset
                < arcs,
            Err(e) => e@ == ErrorView::ArcIndexOutOfRange(ix) && arc_offset(ix) >= arcs,
        },
{
    let reversed = ix < 0;
    let offset: usize = if reversed {
        (-(ix + 1)) as usize
    } else {
        ix as usize
    };
    if offset < arcs {
        Ok((offset, reversed))
    } else {
        Err(Error::ArcIndexOutOfRange(ix))
    }
}

/// The positions of a line, last first.
fn reversed_line(line: Vec<Vec<u64>>) -> (r: Vec<Vec<u64>>)
    ensures
        rows(r@) == rows(line@).reverse(),
{
    let ghost whole = rows(line@);
    let mut rest = line;
    let mut out: Vec<Vec<u64>> = Vec::with_capacity(rest.len());
    while rest.len() > 0
        invariant
            rest@.len() <= whole.len(),
            rows(rest@) =~= whole.subrange(0, rest@.len() as int),
            out@.len() == whole.len() - rest@.len(),
            forall|k: int|
                0 <= k < out@.len() ==> (#[trigger] out@[k])@ == whole[whole.len() - 1 - k],
        decreases rest@.len(),
    {
        let ghost before = rest@;
        let ghost n = rest@.len() as int;
        let p = rest.pop().unwrap();
        assert(p@ == rows(before)[n - 1]);
        assert(rows(rest@) =~= rows(before).subrange(0, n - 1));
        out.push(p);
    }
    assert(rows(out@) =~= whole.reverse());
    out
}

/// Builds the ring that arc indexes name: each arc decoded, read backwards
/// for a negative index, and all of them put one after the other, every
/// point of every arc included.
///
/// Under a transform the arcs that are read must hold positions of two
/// coordinates at least; of the arcs that no index names, and of those named
/// after an index out of range, nothing is asked.
pub fn make_ring<A: Fn(u64, u64) -> u64, M: Fn(u64, u64) -> u64>(
    arcs: &[Arc],
    ixs: &[i32],
    tr: &Option<TransformParams>,
    plus: &A,
    times: &M,
) -> (r: Result<Vec<Vec<u64>>, Error>)
    requires
        is_operation(*plus),
        is_operation(*times),
        tr is Some ==> ring_read(arcs_view(arcs@), ixs@) != Some(Halt::Short),
    ensures
        outcome(r, |line: Vec<Vec<u64>>| rows(line@)) == ring(
            *plus,
            *times,
            arcs_view(arcs@),
            ixs@,
            transform_view(*tr),
        ),
{
    let ghost all = arcs_view(arcs@);
    let ghost t = transform_view(*tr);
    let ghost read = |ix: i32| arc_read(all, ix);
    let mut result_line: Vec<Vec<u64>> = Vec::with_capacity(ixs.len());
    let mut i: usize = 0;
    assert(rows(result_line@) =~= Seq::<Seq<u64>>::empty());
    assert(ixs@.subrange(0, 0) =~= Seq::<i32>::empty());
    while i < ixs.len()
        invariant
            i <= ixs.len(),
            is_operation(*plus),
            is_operation(*times),
            all == arcs_view(arcs@),
            t == transform_view(*tr),
            read == |ix: i32| arc_read(all, ix),
            tr is Some ==> ring_read(all, ixs@) != Some(Halt::Short),
            tr is Some ==> each(ixs@.subrange(0, i as int), read) is Ok,
            ring(*plus, *times, all, ixs@.subrange(0, i as int), t) == Ok::<
                Seq<Seq<u64>>,
                ErrorView,
            >(rows(result_line@)),
        decreases ixs.len() - i,
    {
        proof {
            lemma_ring_step(*plus, *times, all, ixs@, t, i as int);
            lemma_each_step(ixs@, read, i as int);
        }
        let (offset, reversed) = match resolve_arc_index(ixs[i], arcs.len()) {
            Ok(found) => found,
            Err(e) => {
                proof {
                    lemma_ring_error(*plus, *times, all, ixs@, t, i as int + 1);
                }
                return Err(e);
            },
        };
        assert(all[offset as int] == positions_view(arcs@[offset as int]@));
        assert(tr is Some ==> planar_arc(all[offset as int])) by {
            if tr is Some && !planar_arc(all[offset as int]) {
                lemma_each_error(ixs@, read, i as int + 1);
            }
        }
        let decoded = decode_arc(arcs[offset].as_slice(), tr, plus, times);
        let mut line = if reversed {
            reversed_line(decoded)
        } else {
            decoded
        };
        assert(rows(result_line@) + rows(line@) =~= rows(result_line@ + line@));
        result_line.append(&mut line);
        i = i + 1;
    }
    assert(ixs@.subrange(0, i as int) =~= ixs@);
    Ok(result_line)
}

/// Converts a point or multi-point geometry to a feature.
pub fn convert_geom_coords<A: Fn(u64, u64) -> u64, M: Fn(u64, u64) -> u64>(
    geom: &Geometry,
    tr: &Option<TransformParams>,
    plus: &A,
    times: &M,
) -> (r: Result<Feature, Error>)
    requires
        is_operation(*plus),
        is_operation(*times),
        geom@.value is Point || geom@.value is MultiPoint,
        tr is Some ==> planar_points(geom@.value),
    ensures
        r is Ok,
        forall|arcs: Seq<Seq<Seq<u64>>>|
            outcome(r, |f: Feature| f@) == #[trigger] feature(
                *plus,
                *times,
                geom@,
                arcs,
                transform_view(*tr),
            ),
{
    let ghost t = transform_view(*tr);
    let value = match &geom.value {
        GeometryValue::Point(pos) => FeatureValue::Point(make_pt(pos, tr, plus, times)),
        GeometryValue::MultiPoint(positions) => {
            let ghost raw = positions_view(positions@);
            let ghost target = points(*plus, *times, raw, t);
            let mut decoded: Vec<Vec<u64>> = Vec::with_capacity(positions.len());
            let mut j: usize = 0;
            while j < positions.len()
                invariant
                    j <= positions.len(),
                    is_operation(*plus),
                    is_operation(*times),
                    raw == positions_view(positions@),
                    t == transform_view(*tr),
                    target == points(*plus, *times, raw, t),
                    tr is Some ==> planar_arc(raw),
                    rows(decoded@) =~= target.subrange(0, j as int),
                decreases positions.len() - j,
            {
                assert(tr is Some ==> planar(raw[j as int]));
                let pt = make_pt(&positions[j], tr, plus, times);
                assert(pt@ == target[j as int]);
                assert(rows(decoded@.push(pt)) =~= rows(decoded@).push(pt@));
                decoded.push(pt);
                j = j + 1;
            }
            assert(target.subrange(0, j as int) =~= target);
            FeatureValue::MultiPoint(decoded)
        },
        _ => {
            assert(false);
            FeatureValue::Point(Vec::new())
        },
    };
    Ok(make_feature(geom, value))
}

/// The rings that lists of arc indexes name.
fn make_rings<A: Fn(u64, u64) -> u64, M: Fn(u64, u64) -> u64>(
    arcs: &[Arc],
    lists: &Vec<Vec<i32>>,
    tr: &Option<TransformParams>,
    plus: &A,
    times: &M,
) -> (r: Result<Vec<Vec<Vec<u64>>>, Error>)
    requires
        is_operation(*plus),
        is_operation(*times),
        tr is Some ==> ring_list_read(arcs_view(arcs@), rings_view(lists@)) != Some(Halt::Short),
    ensures
        outcome(r, |rings: Vec<Vec<Vec<u64>>>| grids(rings@)) == ring_list(
            *plus,
            *times,
            arcs_view(arcs@),
            rings_view(lists@),
            transform_view(*tr),
        ),
{
    let ghost all = arcs_view(arcs@);
    let ghost t = transform_view(*tr);
    let ghost names = rings_view(lists@);
    let ghost f = |ixs: Seq<i32>| ring(*plus, *times, all, ixs, t);
    let ghost read = |ixs: Seq<i32>| passes(ring_read(all, ixs));
    let mut rings: Vec<Vec<Vec<u64>>> = Vec::with_capacity(lists.len());
    let mut i: usize = 0;
    assert(grids(rings@) =~= Seq::<Seq<Seq<u64>>>::empty());
    while i < lists.len()
        invariant
            i <= lists.len(),
            is_operation(*plus),
            is_operation(*times),
            all == arcs_view(arcs@),
            t == transform_view(*tr),
            names == rings_view(lists@),
            f == |ixs: Seq<i32>| ring(*plus, *times, all, ixs, t),
            read == |ixs: Seq<i32>| passes(ring_read(all, ixs)),
            tr is Some ==> ring_list_read(all, names) != Some(Halt::Short),
            tr is Some ==> each(names.subrange(0, i as int), read) is Ok,
            each(names.subrange(0, i as int), f) == Ok::<Seq<Seq<Seq<u64>>>, ErrorView>(
                grids(rings@),
            ),
        decreases lists.len() - i,
    {
        proof {
            lemma_each_step(names, f, i as int);
            lemma_each_step(names, read, i as int);
            if tr is Some && ring_read(all, names[i as int]) == Some(Halt::Short) {
                lemma_each_error(names, read, i as int + 1);
            }
        }
        match make_ring(arcs, lists[i].as_slice(), tr, plus, times) {
            Ok(line) => {
                proof {
                    if ring_read(all, names[i as int]) == Some(Halt::Stops) {
                        lemma_ring_stops(*plus, *times, all, names[i as int], t);
                    }
                }
                assert(grids(rings@).push(rows(line@)) =~= grids(rings@.push(line)));
                rings.push(line);
            },
            Err(e) => {
                proof {
                    lemma_each_error(names, f, i as int + 1);
                }
                return Err(e);
            },
        }
        i = i + 1;
    }
    assert(names.subrange(0, i as int) =~= names);
    Ok(rings)
}

/// Converts a geometry made of arcs to a feature: each list of arc indexes
/// becomes the ring of positions that it names.
///
/// Under a transform the arcs that are read must hold positions of two
/// coordinates at least.
pub fn convert_geom_arcs<A: Fn(u64, u64) -> u64, M: Fn(u64, u64) -> u64>(
    geom: &Geometry,
    arcs: &[Arc],
    tr: &Option<TransformParams>,
    plus: &A,
    times: &M,
) -> (r: Result<Feature, Error>)
    requires
        is_operation(*plus),
        is_operation(*times),
        geom@.value is LineString || geom@.value is MultiLineString || geom@.value is Polygon
            || geom@.value is MultiPolygon,
        tr is Some ==> value_read(geom@.value, arcs_view(arcs@)) != Some(Halt::Short),
    ensures
        outcome(r, |f: Feature| f@) == feature(
            *plus,
            *times,
            geom@,
            arcs_view(arcs@),
            transform_view(*tr),
        ),
{
    let ghost all = arcs_view(arcs@);
    let ghost t = transform_view(*tr);
    let value = match &geom.value {
        GeometryValue::LineString(arc_indexes) => {
            match make_ring(arcs, arc_indexes.as_slice(), tr, plus, times) {
                Ok(line) => FeatureValue::LineString(line),
                Err(e) => return Err(e),
            }
        },
        GeometryValue::MultiLineString(arc_indexes) => {
            match make_rings(arcs, arc_indexes, tr, plus, times) {
                Ok(lines) => FeatureValue::MultiLineString(lines),
                Err(e) => return Err(e),
            }
        },
        GeometryValue::Polygon(arc_indexes) => {
            match make_rings(arcs, arc_indexes, tr, plus, times) {
                Ok(rings) => FeatureValue::Polygon(rings),
                Err(e) => return Err(e),
            }
        },
        GeometryValue::MultiPolygon(arcs_indexes) => {
            let ghost names = polygons_view(arcs_indexes@);
            let ghost f = |rings: Seq<Seq<i32>>| ring_list(*plus, *times, all, rings, t);
            let ghost read = |rings: Seq<Seq<i32>>| passes(ring_list_read(all, rings));
            let mut polygons: Vec<Vec<Vec<Vec<u64>>>> = Vec::with_capacity(arcs_indexes.len());
            let mut i: usize = 0;
            assert(blocks(polygons@) =~= Seq::<Seq<Seq<Seq<u64>>>>::empty());
            while i < arcs_indexes.len()
                invariant
                    i <= arcs_indexes.len(),
                    is_operation(*plus),
                    is_operation(*times),
                    all == arcs_view(arcs@),
                    t == transform_view(*tr),
                    names == polygons_view(arcs_indexes@),
                    f == |rings: Seq<Seq<i32>>| ring_list(*plus, *times, all, rings, t),
                    read == |rings: Seq<Seq<i32>>| passes(ring_list_read(all, rings)),
                    geom@.value == ValueView::MultiPolygon(names),
                    tr is Some ==> polygon_list_read(all, names) != Some(Halt::Short),
                    tr is Some ==> each(names.subrange(0, i as int), read) is Ok,
                    each(names.subrange(0, i as int), f) == Ok::<
                        Seq<Seq<Seq<Seq<u64>>>>,
                        ErrorView,
                    >(blocks(polygons@)),
                decreases arcs_indexes.len() - i,
            {
                proof {
                    lemma_each_step(names, f, i as int);
                    lemma_each_step(names, read, i as int);
                    if tr is Some && ring_list_read(all, names[i as int]) == Some(Halt::Short) {
                        lemma_each_error(names, read, i as int + 1);
                    }
                }
                match make_rings(arcs, &arcs_indexes[i], tr, plus, times) {
                    Ok(rings) => {
                        proof {
                            if ring_list_read(all, names[i as int]) == Some(Halt::Stops) {
                                lemma_ring_list_stops(*plus, *times, all, names[i as int], t);
                            }
                        }
                        assert(blocks(polygons@).push(grids(rings@)) =~= blocks(
                            polygons@.push(rings),
                        ));
                        polygons.push(rings);
                    },
                    Err(e) => {
                        proof {
                            lemma_each_error(names, f, i as int + 1);
                        }
                        return Err(e);
                    },
                }
                i = i + 1;
            }
            assert(names.subrange(0, i as int) =~= names);
            FeatureValue::MultiPolygon(polygons)
        },
        _ => {
            assert(false);
            FeatureValue::Point(Vec::new())
        },
    };
    Ok(make_feature(geom, value))
}

/// Converts a geometry collection to features, one for each of its
/// geometries. A collection inside the collection is not converted: it gives
/// `UnsupportedNestedCollection`.
///
/// Under a transform the points and the arcs that are read before the
/// conversion ends must hold positions of two coordinates at least.
pub fn convert_geometry_collection<A: Fn(u64, u64) -> u64, M: Fn(u64, u64) -> u64>(
    geom: &Geometry,
    arcs: &[Arc],
    tr: &Option<TransformParams>,
    plus: &A,
    times: &M,
) -> (r: Result<Vec<Feature>, Error>)
    requires
        is_operation(*plus),
        is_operation(*times),
        geom@.value is GeometryCollection,
        tr is Some ==> geometry_read(geom@, arcs_view(arcs@)) != Some(Halt::Short),
    ensures
        outcome(r, |f: Vec<Feature>| features_view(f@)) == features(
            *plus,
            *times,
            geom@,
            arcs_view(arcs@),
            transform_view(*tr),
        ),
{
    let ghost all = arcs_view(arcs@);
    let ghost t = transform_view(*tr);
    match &geom.value {
        GeometryValue::GeometryCollection(geoms) => {
            let ghost gs = geometries_view(geoms@);
            let ghost f = |g: GeometryView| feature(*plus, *times, g, all, t);
            let ghost read = |g: GeometryView| passes(value_read(g.value, all));
            proof {
                lemma_geometries_view(geoms@);
            }
            let mut features: Vec<Feature> = Vec::with_capacity(geoms.len());
            let mut i: usize = 0;
            assert(features_view(features@) =~= Seq::<FeatureView>::empty());
            while i < geoms.len()
                invariant
                    i <= geoms.len(),
                    is_operation(*plus),
                    is_operation(*times),
                    all == arcs_view(arcs@),
                    t == transform_view(*tr),
                    gs == geometries_view(geoms@),
                    gs.len() == geoms@.len(),
                    f == |g: GeometryView| feature(*plus, *times, g, all, t),
                    geom@.value == ValueView::GeometryCollection(gs),
                    forall|k: int| 0 <= k < geoms@.len() ==> (#[trigger] gs[k]) == geoms@[k]@,
                    read == |g: GeometryView| passes(value_read(g.value, all)),
                    tr is Some ==> geometry_read(geom@, all) != Some(Halt::Short),
                    tr is Some ==> each(gs.subrange(0, i as int), read) is Ok,
                    each(gs.subrange(0, i as int), f) == Ok::<Seq<FeatureView>, ErrorView>(
                        features_view(features@),
                    ),
                decreases geoms.len() - i,
            {
                proof {
                    lemma_each_step(gs, f, i as int);
                    lemma_each_step(gs, read, i as int);
                    if tr is Some && value_read(gs[i as int].value, all) == Some(Halt::Short) {
                        lemma_each_error(gs, read, i as int + 1);
                    }
                }
                let g = &geoms[i];
                assert(g@ == gs[i as int]);
                assert(tr is Some ==> value_read(g@.value, all) != Some(Halt::Short));
                let converted = match &g.value {
                    GeometryValue::Point(..) | GeometryValue::MultiPoint(..) => {
                        convert_geom_coords(g, tr, plus, times)
                    },
                    GeometryValue::LineString(..)
                    | GeometryValue::MultiLineString(..)
                    | GeometryValue::Polygon(..)
                    | GeometryValue::MultiPolygon(..) => convert_geom_arcs(
                        g,
                        arcs,
                        tr,
                        plus,
                        times,
                    ),
                    GeometryValue::GeometryCollection(..) => Err(
                        Error::UnsupportedNestedCollection,
                    ),
                };
                assert(outcome(converted, |f: Feature| f@) == feature(*plus, *times, g@, all, t));
                match converted {
                    Ok(feature) => {
                        proof {
                            if value_read(g@.value, all) == Some(Halt::Stops) {
                                lemma_value_stops(*plus, *times, g@, all, t);
                            }
                        }
                        assert(features_view(features@).push(feature@) =~= features_view(
                            features@.push(feature),
                        ));
                        features.push(feature);
                    },
                    Err(e) => {
                        proof {
                            lemma_each_error(gs, f, i as int + 1);
                        }
                        return Err(e);
                    },
                }
                i = i + 1;
            }
            assert(gs.subrange(0, i as int) =~= gs);
            Ok(features)
        },
        _ => {
            assert(false);
            Ok(Vec::new())
        },
    }
}

/// A list that holds one feature.
fn single(feature: Feature) -> (r: Vec<Feature>)
    ensures
        features_view(r@) == seq![feature@],
{
    let mut features: Vec<Feature> = Vec::with_capacity(1);
    features.push(feature);
    assert(features_view(features@) =~= seq![feature@]);
    features
}

/// Converts the object `key` of a topology to the features it stands for:
/// one feature for a plain geometry, one for each member of a geometry
/// collection. Where several objects bear the name, the first is taken;
/// where none does, the error carries the name.
///
/// Under a transform the points of the object and the arcs that it names
/// must hold positions of two coordinates at least, as far as the conversion
/// reads them: [`can_convert`] tells whether they do. Of the other arcs of
/// the topology, and of its other objects, nothing is asked.
pub fn to_geojson<A: Fn(u64, u64) -> u64, M: Fn(u64, u64) -> u64>(
    topo: &Topology,
    key: &str,
    plus: &A,
    times: &M,
) -> (r: Result<FeatureCollection, Error>)
    requires
        is_operation(*plus),
        is_operation(*times),
        decodable(topo@, key@),
    ensures
        outcome(r, |c: FeatureCollection| features_view(c.features@)) == converted(
            *plus,
            *times,
            topo@,
            key@,
        ),
{
    let wanted = key.to_owned();
    let ghost objects = objects_view(topo.objects@);
    let mut i: usize = 0;
    assert(objects.skip(0) =~= objects);
    while i < topo.objects.len()
        invariant
            i <= topo.objects.len(),
            is_operation(*plus),
            is_operation(*times),
            decodable(topo@, key@),
            wanted@ == key@,
            objects == objects_view(topo.objects@),
            selected(objects, key@) == selected(objects.skip(i as int), key@),
        decreases topo.objects.len() - i,
    {
        assert(objects.skip(i as int)[0] == objects[i as int]);
        assert(objects.skip(i as int).skip(1) =~= objects.skip(i as int + 1));
        if topo.objects[i].name == wanted {
            let geometry = &topo.objects[i].geometry;
            assert(selected(objects, key@) == Some(geometry@));
            let features = match &geometry.value {
                GeometryValue::Point(..) | GeometryValue::MultiPoint(..) => {
                    match convert_geom_coords(geometry, &topo.transform, plus, times) {
                        Ok(feature) => single(feature),
                        Err(e) => return Err(e),
                    }
                },
                GeometryValue::LineString(..)
                | GeometryValue::MultiLineString(..)
                | GeometryValue::Polygon(..)
                | GeometryValue::MultiPolygon(..) => {
                    match convert_geom_arcs(
                        geometry,
                        topo.arcs.as_slice(),
                        &topo.transform,
                        plus,
                        times,
                    ) {
                        Ok(feature) => single(feature),
                        Err(e) => return Err(e),
                    }
                },
                GeometryValue::GeometryCollection(..) => {
                    match convert_geometry_collection(
                        geometry,
                        topo.arcs.as_slice(),
                        &topo.transform,
                        plus,
                        times,
                    ) {
                        Ok(features) => features,
                        Err(e) => return Err(e),
                    }
                },
            };
            return Ok(FeatureCollection { features });
        }
        i = i + 1;
    }
    Err(Error::TopoToGeoUnknownKey(wanted))
}

/// Whether the object `key` of a topology can be converted: where the
/// topology has a transform, whether every position that the conversion
/// decodes before it ends, be it a point of the object or a position of an
/// arc that the object names, has two coordinates.
pub fn can_convert(topo: &Topology, key: &str) -> (r: bool)
    ensures
        r == decodable(topo@, key@),
{
    if topo.transform.is_none() {
        return true;
    }
    let wanted = key.to_owned();
    let ghost objects = objects_view(topo.objects@);
    let mut i: usize = 0;
    assert(objects.skip(0) =~= objects);
    while i < topo.objects.len()
        invariant
            i <= topo.objects.len(),
            wanted@ == key@,
            topo@.transform is Some,
            objects == objects_view(topo.objects@),
            selected(objects, key@) == selected(objects.skip(i as int), key@),
        decreases topo.objects.len() - i,
    {
        assert(objects.skip(i as int)[0] == objects[i as int]);
        assert(objects.skip(i as int).skip(1) =~= objects.skip(i as int + 1));
        if topo.objects[i].name == wanted {
            assert(selected(objects, key@) == Some(topo.objects[i as int].geometry@));
            return match geometry_halt(&topo.objects[i].geometry, &topo.arcs) {
                Some(Halt::Short) => false,
                _ => true,
            };
        }
        i = i + 1;
    }
    true
}

/// Whether every position of the list has two coordinates.
fn all_planar(positions: &Vec<Position>) -> (r: bool)
    ensures
        r == planar_arc(positions_view(positions@)),
{
    let mut j: usize = 0;
    while j < positions.len()
        invariant
            j <= positions.len(),
            forall|k: int| 0 <= k < j ==> planar(#[trigger] positions_view(positions@)[k]),
        decreases positions.len() - j,
    {
        if positions[j].len() < 2 {
            assert(!planar(positions_view(positions@)[j as int]));
            return false;
        }
        j = j + 1;
    }
    true
}

/// What ends the reading of the arcs that arc indexes name.
fn ring_halt(arcs: &Vec<Arc>, ixs: &Vec<i32>) -> (r: Option<Halt>)
    ensures
        r == ring_read(arcs_view(arcs@), ixs@),
{
    let ghost all = arcs_view(arcs@);
    let ghost read = |ix: i32| arc_read(all, ix);
    let mut i: usize = 0;
    assert(ixs@.subrange(0, 0) =~= Seq::<i32>::empty());
    while i < ixs.len()
        invariant
            i <= ixs.len(),
            all == arcs_view(arcs@),
            read == |ix: i32| arc_read(all, ix),
            each(ixs@.subrange(0, i as int), read) is Ok,
        decreases ixs.len() - i,
    {
        proof {
            lemma_each_step(ixs@, read, i as int);
        }
        match resolve_arc_index(ixs[i], arcs.len()) {
            Err(_) => {
                proof {
                    lemma_each_error(ixs@, read, i as int + 1);
                }
                return Some(Halt::Stops);
            },
            Ok((offset, _)) => {
                assert(all[offset as int] == positions_view(arcs@[offset as int]@));
                if !all_planar(&arcs[offset]) {
                    proof {
                        lemma_each_error(ixs@, read, i as int + 1);
                    }
                    return Some(Halt::Short);
                }
            },
        }
        i = i + 1;
    }
    assert(ixs@.subrange(0, i as int) =~= ixs@);
    None
}

/// What ends the reading of the arcs that lists of arc indexes name.
fn ring_list_halt(arcs: &Vec<Arc>, lists: &Vec<Vec<i32>>) -> (r: Option<Halt>)
    ensures
        r == ring_list_read(arcs_view(arcs@), rings_view(lists@)),
{
    let ghost all = arcs_view(arcs@);
    let ghost names = rings_view(lists@);
    let ghost read = |ixs: Seq<i32>| passes(ring_read(all, ixs));
    let mut i: usize = 0;
    assert(names.subrange(0, 0) =~= Seq::<Seq<i32>>::empty());
    while i < lists.len()
        invariant
            i <= lists.len(),
            all == arcs_view(arcs@),
            names == rings_view(lists@),
            read == |ixs: Seq<i32>| passes(ring_read(all, ixs)),
            each(names.subrange(0, i as int), read) is Ok,
        decreases lists.len() - i,
    {
        proof {
            lemma_each_step(names, read, i as int);
        }
        match ring_halt(arcs, &lists[i]) {
            Some(h) => {
                proof {
                    lemma_each_error(names, read, i as int + 1);
                }
                return Some(h);
            },
            None => {},
        }
        i = i + 1;
    }
    assert(names.subrange(0, i as int) =~= names);
    None
}

/// What ends the reading of the arcs that lists of lists of arc indexes
/// name.
fn polygon_list_halt(arcs: &Vec<Arc>, lists: &Vec<Vec<Vec<i32>>>) -> (r: Option<Halt>)
    ensures
        r == polygon_list_read(arcs_view(arcs@), polygons_view(lists@)),
{
    let ghost all = arcs_view(arcs@);
    let ghost names = polygons_view(lists@);
    let ghost read = |rings: Seq<Seq<i32>>| passes(ring_list_read(all, rings));
    let mut i: usize = 0;
    assert(names.subrange(0, 0) =~= Seq::<Seq<Seq<i32>>>::empty());
    while i < lists.len()
        invariant
            i <= lists.len(),
            all == arcs_view(arcs@),
            names == polygons_view(lists@),
            read == |rings: Seq<Seq<i32>>| passes(ring_list_read(all, rings)),
            each(names.subrange(0, i as int), read) is Ok,
        decreases lists.len() - i,
    {
        proof {
            lemma_each_step(names, read, i as int);
        }
        match ring_list_halt(arcs, &lists[i]) {
            Some(h) => {
                proof {
                    lemma_each_error(names, read, i as int + 1);
                }
                return Some(h);
            },
            None => {},
        }
        i = i + 1;
    }
    assert(names.subrange(0, i as int) =~= names);
    None
}

/// What ends the reading of the positions that converting the value of a
/// geometry takes.
fn value_halt(geometry: &Geometry, arcs: &Vec<Arc>) -> (r: Option<Halt>)
    ensures
        r == value_read(geometry@.value, arcs_view(arcs@)),
{
    match &geometry.value {
        GeometryValue::Point(p) => {
            if p.len() >= 2 {
                None
            } else {
                Some(Halt::Short)
            }
        },
        GeometryValue::MultiPoint(ps) => {
            if all_planar(ps) {
                None
            } else {
                Some(Halt::Short)
            }
        },
        GeometryValue::LineString(ixs) => ring_halt(arcs, ixs),
        GeometryValue::MultiLineString(lists) => ring_list_halt(arcs, lists),
        GeometryValue::Polygon(lists) => ring_list_halt(arcs, lists),
        GeometryValue::MultiPolygon(lists) => polygon_list_halt(arcs, lists),
        GeometryValue::GeometryCollection(_) => Some(Halt::Stops),
    }
}

/// What ends the reading of the positions that converting an object takes.
fn geometry_halt(geometry: &Geometry, arcs: &Vec<Arc>) -> (r: Option<Halt>)
    ensures
        r == geometry_read(geometry@, arcs_view(arcs@)),
{
    match &geometry.value {
        GeometryValue::GeometryCollection(geoms) => {
            proof {
                lemma_geometries_view(geoms@);
            }
            let ghost all = arcs_view(arcs@);
            let ghost gs = geometries_view(geoms@);
            let ghost read = |g: GeometryView| passes(value_read(g.value, all));
            let mut i: usize = 0;
            assert(gs.subrange(0, 0) =~= Seq::<GeometryView>::empty());
            while i < geoms.len()
                invariant
                    i <= geoms.len(),
                    all == arcs_view(arcs@),
                    gs == geometries_view(geoms@),
                    gs.len() == geoms@.len(),
                    geometry@.value == ValueView::GeometryCollection(gs),
                    forall|k: int| 0 <= k < geoms@.len() ==> (#[trigger] gs[k]) == geoms@[k]@,
                    read == |g: GeometryView| passes(value_read(g.value, all)),
                    each(gs.subrange(0, i as int), read) is Ok,
                decreases geoms.len() - i,
            {
                proof {
                    lemma_each_step(gs, read, i as int);
                }
                match value_halt(&geoms[i], arcs) {
                    Some(h) => {
                        proof {
                            lemma_each_error(gs, read, i as int + 1);
                        }
                        return Some(h);
                    },
                    None => {},
                }
                i = i + 1;
            }
            assert(gs.subrange(0, i as int) =~= gs);
            None
        },
        _ => value_halt(geometry, arcs),
    }
}

/// Reading one index more.
pub proof fn lemma_ring_step<A: Fn(u64, u64) -> u64, M: Fn(u64, u64) -> u64>(
    plus: A,
    times: M,
    arcs: Seq<Seq<Seq<u64>>>,
    ixs: Seq<i32>,
    tr: Option<TransformView>,
    i: int,
)
    requires
        0 <= i < ixs.len(),
    ensures
        ring(plus, times, arcs, ixs.subrange(0, i + 1), tr) == (match ring(
            plus,
            times,
            arcs,
            ixs.subrange(0, i),
            tr,
        ) {
            Err(e) => Err(e),
            Ok(head) => match directed_arc(plus, times, arcs, ixs[i], tr) {
                Err(e) => Err(e),
                Ok(arc) => Ok(head + arc),
            },
        }),
{
    assert(ixs.subrange(0, i + 1).drop_last() =~= ixs.subrange(0, i));
}

/// An error met among the first indexes is the outcome for all of them.
pub proof fn lemma_ring_error<A: Fn(u64, u64) -> u64, M: Fn(u64, u64) -> u64>(
    plus: A,
    times: M,
    arcs: Seq<Seq<Seq<u64>>>,
    ixs: Seq<i32>,
    tr: Option<TransformView>,
    i: int,
)
    requires
        0 <= i <= ixs.len(),
        ring(plus, times, arcs, ixs.subrange(0, i), tr) is Err,
    ensures
        ring(plus, times, arcs, ixs, tr) == ring(plus, times, arcs, ixs.subrange(0, i), tr),
    decreases ixs.len() - i,
{
    if i == ixs.len() {
        assert(ixs.subrange(0, i) =~= ixs);
    } else {
        lemma_ring_step(plus, times, arcs, ixs, tr, i);
        lemma_ring_error(plus, times, arcs, ixs, tr, i + 1);
    }
}

} // verus!
