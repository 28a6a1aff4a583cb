//! Topology objects: named geometries over a shared list of arcs, with the
//! transform that the arcs may be quantized by.

use crate::encoding;
use crate::error::{outcome, Error};
use crate::geometry::{
    arcs_value, arcs_view, bbox_view, copy_arcs, copy_bbox, numbers_value, objects_view,
    NamedGeometry, NamedGeometryView,
};
use crate::grammar;
use crate::json::{
    clone_number, insert_member, json_of, members_of, new_object, number_of, object_value,
    string_value, texts, JsonNumber, JsonObject, JsonValue,
};
use crate::util;
use crate::{Arc, Bbox};
use vstd::prelude::*;

verus! {

/// The scale and the translation that turn quantized coordinates into
/// positions, for the first axis and for the second.
#[derive(Debug, PartialEq)]
pub struct TransformParams {
    pub scale: [JsonNumber; 2],
    pub translate: [JsonNumber; 2],
}

/// A topology object.
#[derive(Debug, PartialEq)]
pub struct Topology {
    pub bbox: Option<Bbox>,
    pub objects: Vec<NamedGeometry>,
    pub transform: Option<TransformParams>,
    pub arcs: Vec<Arc>,
}

/// A [`TransformParams`] with each number as its binary64 bit pattern.
pub struct TransformView {
    pub scale: (u64, u64),
    pub translate: (u64, u64),
}

/// A [`Topology`] as mathematical data.
pub struct TopologyView {
    pub bbox: Option<Seq<u64>>,
    pub objects: Seq<NamedGeometryView>,
    pub transform: Option<TransformView>,
    pub arcs: Seq<Seq<Seq<u64>>>,
}

impl View for TransformParams {
    type V = TransformView;

    open spec fn view(&self) -> TransformView {
        TransformView {
            scale: (number_of(self.scale@[0]).real, number_of(self.scale@[1]).real),
            translate: (number_of(self.translate@[0]).real, number_of(self.translate@[1]).real),
        }
    }
}

/// The view of a transform, where there is one.
pub open spec fn transform_view(t: Option<TransformParams>) -> Option<TransformView> {
    match t {
        Some(t) => Some(t@),
        None => None,
    }
}

impl View for Topology {
    type V = TopologyView;

    open spec fn view(&self) -> TopologyView {
        TopologyView {
            bbox: bbox_view(self.bbox),
            objects: objects_view(self.objects@),
            transform: transform_view(self.transform),
            arcs: arcs_view(self.arcs@),
        }
    }
}

impl TransformParams {
    /// Reads the `transform` member of an object that has one.
    pub fn from_json_object(object: JsonObject) -> (r: Result<TransformParams, Error>)
        requires
            members_of(object).contains_key("transform"@),
        ensures
            outcome(r, |t: TransformParams| t@) == grammar::transform_of(
                members_of(object)["transform"@],
            ),
    {
        let mut object = object;
        match util::get_scale_translate(&mut object)? {
            Some(t) => Ok(t),
            None => {
                assert(false);
                Err(Error::TransformExpectedScale)
            },
        }
    }
}

/// Writes the two numbers of a scale or a translation as an array.
fn pair_value(pair: &[JsonNumber; 2]) -> (r: JsonValue)
    ensures
        json_of(r) == encoding::numbers_json(pair@),
{
    let mut numbers: Vec<JsonNumber> = Vec::with_capacity(2);
    numbers.push(clone_number(&pair[0]));
    numbers.push(clone_number(&pair[1]));
    assert(numbers@ =~= pair@);
    numbers_value(&numbers)
}

impl TransformParams {
    /// Writes the transform as a JSON object with `scale` and `translate`.
    pub fn to_json_object(&self) -> (r: JsonObject)
        ensures
            members_of(r) == encoding::transform_json(*self),
    {
        let mut map = new_object();
        insert_member(&mut map, "scale".to_owned(), pair_value(&self.scale));
        insert_member(&mut map, "translate".to_owned(), pair_value(&self.translate));
        map
    }
}

impl Topology {
    /// Writes the topology as a JSON object: `type`, `arcs` and `objects`,
    /// and `bbox` and `transform` where there are any. Of objects that bear
    /// the same name the last is written.
    pub fn to_json_object(&self) -> (r: JsonObject)
        ensures
            members_of(r) == encoding::topology_json(*self),
    {
        let mut map = new_object();
        insert_member(&mut map, "type".to_owned(), string_value("Topology".to_owned()));
        insert_member(&mut map, "arcs".to_owned(), arcs_value(&self.arcs));
        let mut objects = new_object();
        let mut i: usize = 0;
        assert(self.objects@.subrange(0, 0) =~= Seq::<NamedGeometry>::empty());
        while i < self.objects.len()
            invariant
                i <= self.objects.len(),
                members_of(objects) == encoding::objects_json(self.objects@.subrange(0, i as int)),
            decreases self.objects.len() - i,
        {
            let named_geom = &self.objects[i];
            assert(self.objects@.subrange(0, i as int + 1).drop_last() =~= self.objects@.subrange(
                0,
                i as int,
            ));
            insert_member(
                &mut objects,
                named_geom.name.clone(),
                object_value(named_geom.geometry.to_json_object()),
            );
            i = i + 1;
        }
        assert(self.objects@.subrange(0, i as int) =~= self.objects@);
        insert_member(&mut map, "objects".to_owned(), object_value(objects));
        if let Some(bbox) = &self.bbox {
            insert_member(&mut map, "bbox".to_owned(), numbers_value(bbox));
        }
        if let Some(transform_params) = &self.transform {
            insert_member(
                &mut map,
                "transform".to_owned(),
                object_value(transform_params.to_json_object()),
            );
        }
        map
    }

    /// Reads a topology object: its `type`, which must be `Topology`, then
    /// `bbox`, `objects`, `transform` and `arcs`.
    pub fn from_json_object(object: JsonObject) -> (r: Result<Topology, Error>)
        ensures
            outcome(r, |t: Topology| t@) == grammar::topology(members_of(object)),
    {
        let ghost m = members_of(object);
        let mut object = object;
        proof {
            grammar::lemma_member_names();
        }
        let name = util::expect_type(&mut object)?;
        if name == "Topology".to_owned() {
            let bbox = util::get_bbox(&mut object)?;
            let objects = util::get_objects(&mut object)?;
            let transform = util::get_scale_translate(&mut object)?;
            let arcs = util::get_arcs_position(&mut object)?;
            Ok(Topology { bbox, objects, transform, arcs })
        } else {
            Err(Error::ExpectedType { expected: "Topology".to_owned(), actual: name })
        }
    }

    /// The names of the objects, in the order in which the topology holds
    /// them.
    pub fn list_names(&self) -> (names: Vec<String>)
        ensures
            texts(names@) == Seq::new(self.objects@.len(), |i: int| self.objects@[i].name@),
    {
        let mut names: Vec<String> = Vec::with_capacity(self.objects.len());
        let mut i: usize = 0;
        while i < self.objects.len()
            invariant
                i <= self.objects.len(),
                names@.len() == i,
                forall|k: int| 0 <= k < i ==> (#[trigger] names@[k])@ == self.objects@[k].name@,
            decreases self.objects.len() - i,
        {
            names.push(self.objects[i].name.clone());
            i = i + 1;
        }
        assert(texts(names@) =~= Seq::new(self.objects@.len(), |i: int| self.objects@[i].name@));
        names
    }
}

impl Clone for TransformParams {
    /// A copy that holds what the transform holds.
    fn clone(&self) -> (r: TransformParams)
        ensures
            r@ == self@,
    {
        TransformParams {
            scale: [clone_number(&self.scale[0]), clone_number(&self.scale[1])],
            translate: [clone_number(&self.translate[0]), clone_number(&self.translate[1])],
        }
    }
}

impl Clone for Topology {
    /// A copy that holds what the topology holds.
    fn clone(&self) -> (r: Topology)
        ensures
            r@ == self@,
    {
        let mut objects: Vec<NamedGeometry> = Vec::with_capacity(self.objects.len());
        let mut i: usize = 0;
        while i < self.objects.len()
            invariant
                i <= self.objects.len(),
                objects_view(objects@) =~= objects_view(self.objects@).subrange(0, i as int),
            decreases self.objects.len() - i,
        {
            let named = self.objects[i].clone();
            assert(objects_view(objects@.push(named)) =~= objects_view(objects@).push(named@));
            objects.push(named);
            i = i + 1;
        }
        assert(objects_view(self.objects@).subrange(0, i as int) =~= objects_view(self.objects@));
        let transform = match &self.transform {
            Some(t) => Some(t.clone()),
            None => None,
        };
        Topology { bbox: copy_bbox(&self.bbox), objects, transform, arcs: copy_arcs(&self.arcs) }
    }
}

impl<'a> From<&'a TransformParams> for JsonObject {
    /// Writes the transform as [`TransformParams::to_json_object`] does.
    fn from(transform: &'a TransformParams) -> (r: JsonObject)
        ensures
            members_of(r) == encoding::transform_json(*transform),
    {
        transform.to_json_object()
    }
}

impl<'a> vstd::std_specs::convert::FromSpecImpl<&'a TransformParams> for JsonObject {
    open spec fn obeys_from_spec() -> bool {
        false
    }

    open spec fn from_spec(transform: &'a TransformParams) -> JsonObject {
        arbitrary()
    }
}

impl<'a> From<&'a Topology> for JsonObject {
    /// Writes the topology as [`Topology::to_json_object`] does.
    fn from(topo: &'a Topology) -> (r: JsonObject)
        ensures
            members_of(r) == encoding::topology_json(*topo),
    {
        topo.to_json_object()
    }
}

impl<'a> vstd::std_specs::convert::FromSpecImpl<&'a Topology> for JsonObject {
    open spec fn obeys_from_spec() -> bool {
        false
    }

    open spec fn from_spec(topo: &'a Topology) -> JsonObject {
        arbitrary()
    }
}

} // verus!
