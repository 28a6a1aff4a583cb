//! Geometry objects: a kind with its coordinates or arc indexes, and the
//! members that travel with it.

use crate::encoding;
use crate::error::{outcome, Error};
use crate::grammar;
use crate::json::{
    array_value, clone_number, clone_object, clone_value, get_member, insert_member, int_value,
    json_int, json_of, jsons, member_names, members_of, new_object, number_of, number_value,
    object_value, reals, remove_member, string_value, texts, Json, JsonNumber, JsonObject,
    JsonValue,
};
use crate::topojson::Type;
use crate::util;
use crate::{Arc, ArcIndexes, Bbox, Position};
use vstd::prelude::*;

verus! {

/// What a geometry holds: positions for points, arc indexes for lines and
/// polygons, geometries for a collection.
#[derive(Debug, PartialEq)]
pub enum GeometryValue {
    Point(Position),
    MultiPoint(Vec<Position>),
    LineString(ArcIndexes),
    MultiLineString(Vec<ArcIndexes>),
    Polygon(Vec<ArcIndexes>),
    MultiPolygon(Vec<Vec<ArcIndexes>>),
    GeometryCollection(Vec<Geometry>),
}

/// A geometry object.
#[derive(Debug, PartialEq)]
pub struct Geometry {
    pub bbox: Option<Bbox>,
    pub value: GeometryValue,
    pub properties: Option<JsonObject>,
    pub id: Option<JsonValue>,
    /// The members of the object that the format does not name.
    pub foreign_members: Option<JsonObject>,
}

/// One member of the `objects` of a topology.
#[derive(Debug, PartialEq)]
pub struct NamedGeometry {
    pub name: String,
    pub geometry: Geometry,
}

/// A [`GeometryValue`] with each number as its binary64 bit pattern.
pub enum ValueView {
    Point(Seq<u64>),
    MultiPoint(Seq<Seq<u64>>),
    LineString(Seq<i32>),
    MultiLineString(Seq<Seq<i32>>),
    Polygon(Seq<Seq<i32>>),
    MultiPolygon(Seq<Seq<Seq<i32>>>),
    GeometryCollection(Seq<GeometryView>),
}

/// A [`Geometry`] as mathematical data.
pub struct GeometryView {
    pub bbox: Option<Seq<u64>>,
    pub value: ValueView,
    pub properties: Option<Map<Seq<char>, Json>>,
    pub id: Option<Json>,
    pub foreign_members: Option<Map<Seq<char>, Json>>,
}

/// A [`NamedGeometry`] as mathematical data.
pub struct NamedGeometryView {
    pub name: Seq<char>,
    pub geometry: GeometryView,
}

/// The bit patterns of the numbers of a list, where there is one.
pub open spec fn bbox_view(b: Option<Bbox>) -> Option<Seq<u64>> {
    match b {
        Some(numbers) => Some(reals(numbers@)),
        None => None,
    }
}

/// The members of a JSON object, where there is one.
pub open spec fn object_view(o: Option<JsonObject>) -> Option<Map<Seq<char>, Json>> {
    match o {
        Some(m) => Some(members_of(m)),
        None => None,
    }
}

/// The tree of a JSON value, where there is one.
pub open spec fn value_tree(v: Option<JsonValue>) -> Option<Json> {
    match v {
        Some(j) => Some(json_of(j)),
        None => None,
    }
}

/// The positions of a list, each as bit patterns.
pub open spec fn positions_view(s: Seq<Position>) -> Seq<Seq<u64>> {
    Seq::new(s.len(), |i: int| reals(s[i]@))
}

/// The arcs of a list, each as positions.
pub open spec fn arcs_view(s: Seq<Vec<Position>>) -> Seq<Seq<Seq<u64>>> {
    Seq::new(s.len(), |i: int| positions_view(s[i]@))
}

/// The index lists of a list.
pub open spec fn rings_view(s: Seq<ArcIndexes>) -> Seq<Seq<i32>> {
    Seq::new(s.len(), |i: int| s[i]@)
}

/// The lists of index lists of a list.
pub open spec fn polygons_view(s: Seq<Vec<ArcIndexes>>) -> Seq<Seq<Seq<i32>>> {
    Seq::new(s.len(), |i: int| rings_view(s[i]@))
}

/// The view of the value of a geometry.
pub open spec fn value_view(v: GeometryValue) -> ValueView
    decreases v,
{
    match v {
        GeometryValue::Point(p) => ValueView::Point(reals(p@)),
        GeometryValue::MultiPoint(ps) => ValueView::MultiPoint(positions_view(ps@)),
        GeometryValue::LineString(ixs) => ValueView::LineString(ixs@),
        GeometryValue::MultiLineString(rings) => ValueView::MultiLineString(rings_view(rings@)),
        GeometryValue::Polygon(rings) => ValueView::Polygon(rings_view(rings@)),
        GeometryValue::MultiPolygon(polygons) => ValueView::MultiPolygon(polygons_view(polygons@)),
        GeometryValue::GeometryCollection(geometries) => ValueView::GeometryCollection(
            geometries_view(geometries@),
        ),
    }
}

/// The view of a geometry.
pub open spec fn geometry_view(g: Geometry) -> GeometryView
    decreases g,
{
    GeometryView {
        bbox: bbox_view(g.bbox),
        value: value_view(g.value),
        properties: object_view(g.properties),
        id: value_tree(g.id),
        foreign_members: object_view(g.foreign_members),
    }
}

/// The views of a list of geometries.
pub open spec fn geometries_view(s: Seq<Geometry>) -> Seq<GeometryView>
    decreases s,
{
    if s.len() == 0 {
        Seq::empty()
    } else {
        geometries_view(s.drop_last()).push(geometry_view(s.last()))
    }
}

impl View for Geometry {
    type V = GeometryView;

    open spec fn view(&self) -> GeometryView {
        geometry_view(*self)
    }
}

impl View for GeometryValue {
    type V = ValueView;

    open spec fn view(&self) -> ValueView {
        value_view(*self)
    }
}

impl View for NamedGeometry {
    type V = NamedGeometryView;

    open spec fn view(&self) -> NamedGeometryView {
        NamedGeometryView { name: self.name@, geometry: self.geometry@ }
    }
}

/// The views of a list of named geometries.
pub open spec fn objects_view(s: Seq<NamedGeometry>) -> Seq<NamedGeometryView> {
    Seq::new(s.len(), |i: int| s[i]@)
}

/// The views of a list of geometries, item by item.
pub proof fn lemma_geometries_view(s: Seq<Geometry>)
    ensures
        geometries_view(s).len() == s.len(),
        forall|i: int| 0 <= i < s.len() ==> (#[trigger] geometries_view(s)[i]) == s[i]@,
    decreases s.len(),
{
    if s.len() > 0 {
        lemma_geometries_view(s.drop_last());
    }
}

/// Takes out of a geometry object what is left of the three members that
/// can hold a value.
fn take_out_value_members(object: &mut JsonObject)
    ensures
        members_of(*final(object)) == members_of(*old(object)).remove("coordinates"@).remove(
            "arcs"@,
        ).remove("geometries"@),
{
    let _ = remove_member(object, "coordinates");
    let _ = remove_member(object, "arcs");
    let _ = remove_member(object, "geometries");
}

impl Geometry {
    /// Reads a geometry object: its `type`, what a geometry of that type is
    /// made of, then `bbox`, `id` and `properties`. The members that bear
    /// none of the names of the format become the foreign members: a
    /// `coordinates`, `arcs` or `geometries` that a geometry of this type does
    /// not take is dropped.
    pub fn from_json_object(object: JsonObject) -> (r: Result<Geometry, Error>)
        ensures
            outcome(r, |g: Geometry| g@) == grammar::geometry(members_of(object)),
        decreases grammar::nesting(Json::Object(members_of(object))), 1nat,
    {
        let ghost m = members_of(object);
        let mut object = object;
        proof {
            grammar::lemma_member_names();
        }
        let name = util::expect_type(&mut object)?;
        let kind = match Type::from_str(name.as_str()) {
            Some(kind) => kind,
            None => return Err(Error::GeometryUnknownType),
        };
        let value = match kind {
            Type::Point => GeometryValue::Point(util::get_coords_one_pos(&mut object)?),
            Type::MultiPoint => GeometryValue::MultiPoint(util::get_coords_1d_pos(&mut object)?),
            Type::LineString => GeometryValue::LineString(util::get_arc_ix(&mut object)?),
            Type::MultiLineString => GeometryValue::MultiLineString(
                util::get_arc_ix_1d(&mut object)?,
            ),
            Type::Polygon => GeometryValue::Polygon(util::get_arc_ix_1d(&mut object)?),
            Type::MultiPolygon => GeometryValue::MultiPolygon(util::get_arc_ix_2d(&mut object)?),
            Type::GeometryCollection => {
                assert(grammar::nesting(Json::Object(members_of(object))) == grammar::nesting(
                    Json::Object(m),
                ));
                GeometryValue::GeometryCollection(util::get_geometries(&mut object)?)
            },
            Type::Topology => return Err(Error::GeometryUnknownType),
        };
        take_out_value_members(&mut object);
        assert(members_of(object) == m.remove("type"@).remove("coordinates"@).remove(
            "arcs"@,
        ).remove("geometries"@));
        let bbox = util::get_bbox(&mut object)?;
        let id = match util::get_id(&mut object) {
            Ok(id) => id,
            Err(e) => return Err(e),
        };
        let properties = util::get_properties(&mut object)?;
        assert(members_of(object) == grammar::geometry_rest(m));
        let foreign_members = match util::get_foreign_members(object) {
            Ok(rest) => rest,
            Err(e) => return Err(e),
        };
        Ok(Geometry { value, bbox, id, properties, foreign_members })
    }

    /// A geometry with the given value and nothing else.
    pub fn new(value: GeometryValue) -> (g: Geometry)
        ensures
            g == (Geometry { bbox: None, value, properties: None, id: None, foreign_members: None }),
    {
        Geometry { bbox: None, id: None, value, properties: None, foreign_members: None }
    }
}

/// Writes numbers as an array.
pub(crate) fn numbers_value(numbers: &Vec<JsonNumber>) -> (r: JsonValue)
    ensures
        json_of(r) == encoding::numbers_json(numbers@),
{
    let ghost target = Seq::new(numbers@.len(), |i: int| Json::Number(number_of(numbers@[i])));
    let mut items: Vec<JsonValue> = Vec::with_capacity(numbers.len());
    let mut i: usize = 0;
    while i < numbers.len()
        invariant
            i <= numbers.len(),
            target == Seq::new(numbers@.len(), |i: int| Json::Number(number_of(numbers@[i]))),
            jsons(items@) =~= target.subrange(0, i as int),
        decreases numbers.len() - i,
    {
        let item = number_value(clone_number(&numbers[i]));
        assert(jsons(items@.push(item)) =~= jsons(items@).push(json_of(item)));
        items.push(item);
        i = i + 1;
    }
    assert(target.subrange(0, i as int) =~= target);
    array_value(items)
}

/// Writes positions as an array of arrays of numbers.
pub(crate) fn positions_value(positions: &Vec<Position>) -> (r: JsonValue)
    ensures
        json_of(r) == encoding::positions_json(positions@),
{
    let ghost target = Seq::new(positions@.len(), |i: int| encoding::numbers_json(positions@[i]@));
    let mut items: Vec<JsonValue> = Vec::with_capacity(positions.len());
    let mut i: usize = 0;
    while i < positions.len()
        invariant
            i <= positions.len(),
            target == Seq::new(positions@.len(), |i: int| encoding::numbers_json(positions@[i]@)),
            jsons(items@) =~= target.subrange(0, i as int),
        decreases positions.len() - i,
    {
        let item = numbers_value(&positions[i]);
        assert(jsons(items@.push(item)) =~= jsons(items@).push(json_of(item)));
        items.push(item);
        i = i + 1;
    }
    assert(target.subrange(0, i as int) =~= target);
    array_value(items)
}

/// Writes arcs as an array of arrays of positions.
pub(crate) fn arcs_value(arcs: &Vec<Arc>) -> (r: JsonValue)
    ensures
        json_of(r) == encoding::arcs_json(arcs@),
{
    let ghost target = Seq::new(arcs@.len(), |i: int| encoding::positions_json(arcs@[i]@));
    let mut items: Vec<JsonValue> = Vec::with_capacity(arcs.len());
    let mut i: usize = 0;
    while i < arcs.len()
        invariant
            i <= arcs.len(),
            target == Seq::new(arcs@.len(), |i: int| encoding::positions_json(arcs@[i]@)),
            jsons(items@) =~= target.subrange(0, i as int),
        decreases arcs.len() - i,
    {
        let item = positions_value(&arcs[i]);
        assert(jsons(items@.push(item)) =~= jsons(items@).push(json_of(item)));
        items.push(item);
        i = i + 1;
    }
    assert(target.subrange(0, i as int) =~= target);
    array_value(items)
}

/// Writes arc indexes as an array of integers.
fn indexes_value(ixs: &Vec<i32>) -> (r: JsonValue)
    ensures
        json_of(r) == encoding::indexes_json(ixs@),
{
    let ghost target = Seq::new(ixs@.len(), |i: int| json_int(ixs@[i]));
    let mut items: Vec<JsonValue> = Vec::with_capacity(ixs.len());
    let mut i: usize = 0;
    while i < ixs.len()
        invariant
            i <= ixs.len(),
            target == Seq::new(ixs@.len(), |i: int| json_int(ixs@[i])),
            jsons(items@) =~= target.subrange(0, i as int),
        decreases ixs.len() - i,
    {
        let item = int_value(ixs[i]);
        assert(jsons(items@.push(item)) =~= jsons(items@).push(json_of(item)));
        items.push(item);
        i = i + 1;
    }
    assert(target.subrange(0, i as int) =~= target);
    array_value(items)
}

/// Writes lists of arc indexes as an array of arrays.
fn rings_value(rings: &Vec<ArcIndexes>) -> (r: JsonValue)
    ensures
        json_of(r) == encoding::rings_json(rings@),
{
    let ghost target = Seq::new(rings@.len(), |i: int| encoding::indexes_json(rings@[i]@));
    let mut items: Vec<JsonValue> = Vec::with_capacity(rings.len());
    let mut i: usize = 0;
    while i < rings.len()
        invariant
            i <= rings.len(),
            target == Seq::new(rings@.len(), |i: int| encoding::indexes_json(rings@[i]@)),
            jsons(items@) =~= target.subrange(0, i as int),
        decreases rings.len() - i,
    {
        let item = indexes_value(&rings[i]);
        assert(jsons(items@.push(item)) =~= jsons(items@).push(json_of(item)));
        items.push(item);
        i = i + 1;
    }
    assert(target.subrange(0, i as int) =~= target);
    array_value(items)
}

/// Writes lists of lists of arc indexes as an array of arrays of arrays.
fn polygons_value(polygons: &Vec<Vec<ArcIndexes>>) -> (r: JsonValue)
    ensures
        json_of(r) == encoding::polygons_json(polygons@),
{
    let ghost target = Seq::new(polygons@.len(), |i: int| encoding::rings_json(polygons@[i]@));
    let mut items: Vec<JsonValue> = Vec::with_capacity(polygons.len());
    let mut i: usize = 0;
    while i < polygons.len()
        invariant
            i <= polygons.len(),
            target == Seq::new(polygons@.len(), |i: int| encoding::rings_json(polygons@[i]@)),
            jsons(items@) =~= target.subrange(0, i as int),
        decreases polygons.len() - i,
    {
        let item = rings_value(&polygons[i]);
        assert(jsons(items@.push(item)) =~= jsons(items@).push(json_of(item)));
        items.push(item);
        i = i + 1;
    }
    assert(target.subrange(0, i as int) =~= target);
    array_value(items)
}

impl GeometryValue {
    /// The name of the kind of geometry that the value makes.
    pub fn kind_name(&self) -> (name: &'static str)
        ensures
            name@ == encoding::kind_text(encoding::kind_of(*self)),
    {
        match self {
            GeometryValue::Point(..) => "Point",
            GeometryValue::MultiPoint(..) => "MultiPoint",
            GeometryValue::LineString(..) => "LineString",
            GeometryValue::MultiLineString(..) => "MultiLineString",
            GeometryValue::Polygon(..) => "Polygon",
            GeometryValue::MultiPolygon(..) => "MultiPolygon",
            GeometryValue::GeometryCollection(..) => "GeometryCollection",
        }
    }

    /// The name of the member that holds the value.
    pub fn member_name(&self) -> (name: &'static str)
        ensures
            name@ == grammar::payload_name(encoding::kind_of(*self)),
    {
        match self {
            GeometryValue::GeometryCollection(..) => "geometries",
            GeometryValue::LineString(..)
            | GeometryValue::MultiLineString(..)
            | GeometryValue::Polygon(..)
            | GeometryValue::MultiPolygon(..) => "arcs",
            _ => "coordinates",
        }
    }

    /// Writes the value: positions and arc indexes as nested arrays, the
    /// geometries of a collection as an array of objects.
    pub fn to_json_value(&self) -> (r: JsonValue)
        ensures
            json_of(r) == encoding::value_json(*self),
        decreases *self,
    {
        match self {
            GeometryValue::Point(x) => numbers_value(x),
            GeometryValue::MultiPoint(x) => positions_value(x),
            GeometryValue::LineString(x) => indexes_value(x),
            GeometryValue::MultiLineString(x) => rings_value(x),
            GeometryValue::Polygon(x) => rings_value(x),
            GeometryValue::MultiPolygon(x) => polygons_value(x),
            GeometryValue::GeometryCollection(x) => {
                let ghost target = encoding::geometries_json(x@);
                proof {
                    encoding::lemma_geometries_json(x@);
                }
                let mut items: Vec<JsonValue> = Vec::with_capacity(x.len());
                let mut i: usize = 0;
                while i < x.len()
                    invariant
                        i <= x.len(),
                        *self == GeometryValue::GeometryCollection(*x),
                        target == encoding::geometries_json(x@),
                        target.len() == x@.len(),
                        forall|k: int|
                            0 <= k < x@.len() ==> (#[trigger] target[k]) == Json::Object(
                                encoding::geometry_json(x@[k]),
                            ),
                        jsons(items@) =~= target.subrange(0, i as int),
                    decreases x.len() - i,
                {
                    assert(decreases_to!(*self => x@[i as int])) by {
                        let v = *self;
                        assert(v->GeometryCollection_0 == *x);
                        assert(decreases_to!(v => v->GeometryCollection_0@[i as int]));
                    }
                    let item = object_value(x[i].to_json_object());
                    assert(jsons(items@.push(item)) =~= jsons(items@).push(json_of(item)));
                    items.push(item);
                    i = i + 1;
                }
                assert(target.subrange(0, i as int) =~= target);
                array_value(items)
            },
        }
    }
}

/// Puts every member of `extra` into `map`, over what `map` holds under the
/// same name.
pub(crate) fn insert_all(map: &mut JsonObject, extra: &JsonObject)
    ensures
        members_of(*final(map)) == members_of(*old(map)).union_prefer_right(members_of(*extra)),
{
    let ghost base = members_of(*map);
    let ghost f = members_of(*extra);
    let keys = member_names(extra);
    let ghost names = texts(keys@);
    let mut i: usize = 0;
    assert(names.subrange(0, 0).to_set() =~= Set::<Seq<char>>::empty());
    assert(base.union_prefer_right(f.restrict(Set::<Seq<char>>::empty())) =~= base);
    while i < keys.len()
        invariant
            i <= keys.len(),
            names == texts(keys@),
            names.to_set() == f.dom(),
            f == members_of(*extra),
            members_of(*map) == base.union_prefer_right(
                f.restrict(names.subrange(0, i as int).to_set()),
            ),
        decreases keys.len() - i,
    {
        let ghost done = names.subrange(0, i as int).to_set();
        let key = &keys[i];
        assert(names[i as int] == key@);
        assert(names.to_set().contains(key@));
        match get_member(extra, key.as_str()) {
            Some(value) => {
                insert_member(map, key.clone(), clone_value(value));
            },
            None => {
                assert(false);
            },
        }
        assert(names.subrange(0, i as int + 1).to_set() =~= done.insert(key@)) by {
            let longer = names.subrange(0, i as int + 1);
            let shorter = names.subrange(0, i as int);
            assert(longer =~= shorter.push(key@));
            assert forall|k: Seq<char>| longer.to_set().contains(k) implies done.insert(
                key@,
            ).contains(k) by {
                let j = choose|j: int| 0 <= j < longer.len() && longer[j] == k;
                if j < i {
                    assert(shorter[j] == k);
                }
            }
            assert forall|k: Seq<char>| done.insert(key@).contains(k) implies longer.to_set().contains(
                k,
            ) by {
                if k == key@ {
                    assert(longer[i as int] == k);
                } else {
                    let j = choose|j: int| 0 <= j < shorter.len() && shorter[j] == k;
                    assert(longer[j] == k);
                }
            }
        }
        assert(members_of(*map) =~= base.union_prefer_right(f.restrict(done.insert(key@))));
        i = i + 1;
    }
    assert(names.subrange(0, i as int) =~= names);
    assert(f.restrict(f.dom()) =~= f);
}

impl Geometry {
    /// Writes the geometry as a JSON object: `bbox` where there is one,
    /// `type`, the value under `coordinates`, `arcs` or `geometries`, `id` and
    /// `properties` where there are any, and last the foreign members.
    pub fn to_json_object(&self) -> (r: JsonObject)
        ensures
            members_of(r) == encoding::geometry_json(*self),
        decreases *self,
    {
        let mut map = new_object();
        if let Some(bbox) = &self.bbox {
            insert_member(&mut map, "bbox".to_owned(), numbers_value(bbox));
        }
        insert_member(&mut map, "type".to_owned(), string_value(self.value.kind_name().to_owned()));
        insert_member(&mut map, self.value.member_name().to_owned(), self.value.to_json_value());
        if let Some(id) = &self.id {
            insert_member(&mut map, "id".to_owned(), clone_value(id));
        }
        if let Some(properties) = &self.properties {
            insert_member(&mut map, "properties".to_owned(), object_value(clone_object(properties)));
        }
        assert(members_of(map) == encoding::geometry_members(*self));
        if let Some(foreign_members) = &self.foreign_members {
            insert_all(&mut map, foreign_members);
        }
        map
    }
}

/// A copy of a list of numbers.
pub(crate) fn copy_numbers(numbers: &Vec<JsonNumber>) -> (r: Vec<JsonNumber>)
    ensures
        r@ == numbers@,
{
    let mut copy: Vec<JsonNumber> = Vec::with_capacity(numbers.len());
    let mut i: usize = 0;
    while i < numbers.len()
        invariant
            i <= numbers.len(),
            copy@ =~= numbers@.subrange(0, i as int),
        decreases numbers.len() - i,
    {
        copy.push(clone_number(&numbers[i]));
        i = i + 1;
    }
    assert(numbers@.subrange(0, i as int) =~= numbers@);
    copy
}

/// A copy of a list of positions.
pub(crate) fn copy_positions(positions: &Vec<Position>) -> (r: Vec<Position>)
    ensures
        positions_view(r@) == positions_view(positions@),
{
    let mut copy: Vec<Position> = Vec::with_capacity(positions.len());
    let mut i: usize = 0;
    while i < positions.len()
        invariant
            i <= positions.len(),
            positions_view(copy@) =~= positions_view(positions@).subrange(0, i as int),
        decreases positions.len() - i,
    {
        let p = copy_numbers(&positions[i]);
        assert(positions_view(copy@.push(p)) =~= positions_view(copy@).push(reals(p@)));
        copy.push(p);
        i = i + 1;
    }
    assert(positions_view(positions@).subrange(0, i as int) =~= positions_view(positions@));
    copy
}

/// A copy of a list of arcs.
pub(crate) fn copy_arcs(arcs: &Vec<Arc>) -> (r: Vec<Arc>)
    ensures
        arcs_view(r@) == arcs_view(arcs@),
{
    let mut copy: Vec<Arc> = Vec::with_capacity(arcs.len());
    let mut i: usize = 0;
    while i < arcs.len()
        invariant
            i <= arcs.len(),
            arcs_view(copy@) =~= arcs_view(arcs@).subrange(0, i as int),
        decreases arcs.len() - i,
    {
        let a = copy_positions(&arcs[i]);
        assert(arcs_view(copy@.push(a)) =~= arcs_view(copy@).push(positions_view(a@)));
        copy.push(a);
        i = i + 1;
    }
    assert(arcs_view(arcs@).subrange(0, i as int) =~= arcs_view(arcs@));
    copy
}

/// A copy of arc indexes.
fn copy_indexes(ixs: &Vec<i32>) -> (r: Vec<i32>)
    ensures
        r@ == ixs@,
{
    let mut copy: Vec<i32> = Vec::with_capacity(ixs.len());
    let mut i: usize = 0;
    while i < ixs.len()
        invariant
            i <= ixs.len(),
            copy@ =~= ixs@.subrange(0, i as int),
        decreases ixs.len() - i,
    {
        copy.push(ixs[i]);
        i = i + 1;
    }
    assert(ixs@.subrange(0, i as int) =~= ixs@);
    copy
}

/// A copy of lists of arc indexes.
fn copy_rings(rings: &Vec<ArcIndexes>) -> (r: Vec<ArcIndexes>)
    ensures
        rings_view(r@) == rings_view(rings@),
{
    let mut copy: Vec<ArcIndexes> = Vec::with_capacity(rings.len());
    let mut i: usize = 0;
    while i < rings.len()
        invariant
            i <= rings.len(),
            rings_view(copy@) =~= rings_view(rings@).subrange(0, i as int),
        decreases rings.len() - i,
    {
        let ring = copy_indexes(&rings[i]);
        assert(rings_view(copy@.push(ring)) =~= rings_view(copy@).push(ring@));
        copy.push(ring);
        i = i + 1;
    }
    assert(rings_view(rings@).subrange(0, i as int) =~= rings_view(rings@));
    copy
}

/// A copy of lists of lists of arc indexes.
fn copy_polygons(polygons: &Vec<Vec<ArcIndexes>>) -> (r: Vec<Vec<ArcIndexes>>)
    ensures
        polygons_view(r@) == polygons_view(polygons@),
{
    let mut copy: Vec<Vec<ArcIndexes>> = Vec::with_capacity(polygons.len());
    let mut i: usize = 0;
    while i < polygons.len()
        invariant
            i <= polygons.len(),
            polygons_view(copy@) =~= polygons_view(polygons@).subrange(0, i as int),
        decreases polygons.len() - i,
    {
        let rings = copy_rings(&polygons[i]);
        assert(polygons_view(copy@.push(rings)) =~= polygons_view(copy@).push(rings_view(rings@)));
        copy.push(rings);
        i = i + 1;
    }
    assert(polygons_view(polygons@).subrange(0, i as int) =~= polygons_view(polygons@));
    copy
}

/// A copy of a bounding box, where there is one.
pub(crate) fn copy_bbox(bbox: &Option<Bbox>) -> (r: Option<Bbox>)
    ensures
        bbox_view(r) == bbox_view(*bbox),
{
    match bbox {
        None => None,
        Some(numbers) => Some(copy_numbers(numbers)),
    }
}

/// A copy of a JSON object, where there is one.
pub(crate) fn copy_object(object: &Option<JsonObject>) -> (r: Option<JsonObject>)
    ensures
        object_view(r) == object_view(*object),
{
    match object {
        None => None,
        Some(m) => Some(clone_object(m)),
    }
}

/// A copy of a JSON value, where there is one.
pub(crate) fn copy_value(value: &Option<JsonValue>) -> (r: Option<JsonValue>)
    ensures
        value_tree(r) == value_tree(*value),
{
    match value {
        None => None,
        Some(v) => Some(clone_value(v)),
    }
}

/// A copy of the value of a geometry.
fn copy_geometry_value(value: &GeometryValue) -> (r: GeometryValue)
    ensures
        r@ == value@,
    decreases *value,
{
    match value {
        GeometryValue::Point(p) => GeometryValue::Point(copy_numbers(p)),
        GeometryValue::MultiPoint(ps) => GeometryValue::MultiPoint(copy_positions(ps)),
        GeometryValue::LineString(ixs) => GeometryValue::LineString(copy_indexes(ixs)),
        GeometryValue::MultiLineString(rings) => GeometryValue::MultiLineString(
            copy_rings(rings),
        ),
        GeometryValue::Polygon(rings) => GeometryValue::Polygon(copy_rings(rings)),
        GeometryValue::MultiPolygon(polygons) => GeometryValue::MultiPolygon(
            copy_polygons(polygons),
        ),
        GeometryValue::GeometryCollection(geometries) => {
            let mut copy: Vec<Geometry> = Vec::with_capacity(geometries.len());
            let mut i: usize = 0;
            proof {
                lemma_geometries_view(geometries@);
            }
            while i < geometries.len()
                invariant
                    i <= geometries.len(),
                    *value == GeometryValue::GeometryCollection(*geometries),
                    copy@.len() == i,
                    forall|k: int| 0 <= k < i ==> (#[trigger] copy@[k])@ == geometries@[k]@,
                decreases geometries.len() - i,
            {
                assert(decreases_to!(*value => geometries@[i as int])) by {
                    let v = *value;
                    assert(v->GeometryCollection_0 == *geometries);
                    assert(decreases_to!(v => v->GeometryCollection_0@[i as int]));
                }
                copy.push(copy_geometry(&geometries[i]));
                i = i + 1;
            }
            proof {
                lemma_geometries_view(copy@);
                assert(geometries_view(copy@) =~= geometries_view(geometries@));
            }
            GeometryValue::GeometryCollection(copy)
        },
    }
}

/// A copy of a geometry.
fn copy_geometry(geometry: &Geometry) -> (r: Geometry)
    ensures
        r@ == geometry@,
    decreases *geometry,
{
    Geometry {
        bbox: copy_bbox(&geometry.bbox),
        value: copy_geometry_value(&geometry.value),
        properties: copy_object(&geometry.properties),
        id: copy_value(&geometry.id),
        foreign_members: copy_object(&geometry.foreign_members),
    }
}

impl Clone for GeometryValue {
    /// A copy that holds what the value holds.
    fn clone(&self) -> (r: GeometryValue)
        ensures
            r@ == self@,
    {
        copy_geometry_value(self)
    }
}

impl Clone for Geometry {
    /// A copy that holds what the geometry holds.
    fn clone(&self) -> (r: Geometry)
        ensures
            r@ == self@,
    {
        copy_geometry(self)
    }
}

impl Clone for NamedGeometry {
    /// A copy that holds what the named geometry holds.
    fn clone(&self) -> (r: NamedGeometry)
        ensures
            r@ == self@,
    {
        NamedGeometry { name: self.name.clone(), geometry: copy_geometry(&self.geometry) }
    }
}

impl<'a> From<&'a Geometry> for JsonObject {
    /// Writes the geometry as [`Geometry::to_json_object`] does.
    fn from(geometry: &'a Geometry) -> (r: JsonObject)
        ensures
            members_of(r) == encoding::geometry_json(*geometry),
    {
        geometry.to_json_object()
    }
}

impl<'a> vstd::std_specs::convert::FromSpecImpl<&'a Geometry> for JsonObject {
    open spec fn obeys_from_spec() -> bool {
        false
    }

    open spec fn from_spec(geometry: &'a Geometry) -> JsonObject {
        arbitrary()
    }
}

} // verus!
