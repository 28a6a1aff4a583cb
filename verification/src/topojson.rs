//! The two kinds of TopoJSON object and the `type` names that tell them apart.

use crate::encoding;
use crate::error::{outcome, Error};
use crate::geometry::{Geometry, GeometryView};
use crate::grammar;
use crate::json::{
    get_member, json_of, json_text, members_of, read_text, value_as_str, value_into_object, Json,
    JsonObject, JsonValue,
};
use crate::topology::{Topology, TopologyView};
use vstd::prelude::*;

verus! {

/// A TopoJSON object: a geometry or a topology.
#[derive(Debug, PartialEq)]
pub enum TopoJson {
    Geometry(Geometry),
    Topology(Topology),
}

/// A [`TopoJson`] as mathematical data.
pub enum TopoJsonView {
    Geometry(GeometryView),
    Topology(TopologyView),
}

impl View for TopoJson {
    type V = TopoJsonView;

    open spec fn view(&self) -> TopoJsonView {
        match *self {
            TopoJson::Geometry(g) => TopoJsonView::Geometry(g@),
            TopoJson::Topology(t) => TopoJsonView::Topology(t@),
        }
    }
}

impl Clone for TopoJson {
    /// A copy that holds what the object holds.
    fn clone(&self) -> (r: TopoJson)
        ensures
            r@ == self@,
    {
        match self {
            TopoJson::Geometry(geometry) => TopoJson::Geometry(geometry.clone()),
            TopoJson::Topology(topo) => TopoJson::Topology(topo.clone()),
        }
    }
}

impl From<Geometry> for TopoJson {
    fn from(geometry: Geometry) -> (r: TopoJson) {
        TopoJson::Geometry(geometry)
    }
}

impl vstd::std_specs::convert::FromSpecImpl<Geometry> for TopoJson {
    open spec fn obeys_from_spec() -> bool {
        true
    }

    open spec fn from_spec(geometry: Geometry) -> TopoJson {
        TopoJson::Geometry(geometry)
    }
}

impl From<Topology> for TopoJson {
    fn from(topo: Topology) -> (r: TopoJson) {
        TopoJson::Topology(topo)
    }
}

impl vstd::std_specs::convert::FromSpecImpl<Topology> for TopoJson {
    open spec fn obeys_from_spec() -> bool {
        true
    }

    open spec fn from_spec(topo: Topology) -> TopoJson {
        TopoJson::Topology(topo)
    }
}

impl From<TopoJson> for Option<Topology> {
    fn from(topo: TopoJson) -> (r: Option<Topology>) {
        match topo {
            TopoJson::Topology(i) => Some(i),
            _ => None,
        }
    }
}

impl vstd::std_specs::convert::FromSpecImpl<TopoJson> for Option<Topology> {
    open spec fn obeys_from_spec() -> bool {
        true
    }

    open spec fn from_spec(topo: TopoJson) -> Option<Topology> {
        match topo {
            TopoJson::Topology(i) => Some(i),
            _ => None,
        }
    }
}

impl core::str::FromStr for TopoJson {
    type Err = Error;

    /// Reads a TopoJSON document as [`TopoJson::parse`] does.
    fn from_str(s: &str) -> (r: Result<TopoJson, Error>)
        ensures
            outcome(r, |t: TopoJson| t@) == grammar::document(s@),
    {
        TopoJson::parse(s)
    }
}

impl<'a> From<&'a TopoJson> for JsonObject {
    /// Writes the object as [`TopoJson::to_json_object`] does.
    fn from(topo: &'a TopoJson) -> (r: JsonObject)
        ensures
            members_of(r) == encoding::topojson_json(*topo),
    {
        topo.to_json_object()
    }
}

impl<'a> vstd::std_specs::convert::FromSpecImpl<&'a TopoJson> for JsonObject {
    open spec fn obeys_from_spec() -> bool {
        false
    }

    open spec fn from_spec(topo: &'a TopoJson) -> JsonObject {
        arbitrary()
    }
}

/// The object kinds that a `type` member can name.
#[derive(PartialEq, Eq, Clone, Copy, Debug, Structural)]
pub enum Type {
    Point,
    MultiPoint,
    LineString,
    MultiLineString,
    Polygon,
    MultiPolygon,
    GeometryCollection,
    Topology,
}

impl Type {
    /// The kind that `s` names, if it names one.
    pub fn from_str(s: &str) -> (r: Option<Type>)
        ensures
            r == grammar::kind(s@),
    {
        let name = s.to_owned();
        if name == "Point".to_owned() {
            Some(Type::Point)
        } else if name == "MultiPoint".to_owned() {
            Some(Type::MultiPoint)
        } else if name == "LineString".to_owned() {
            Some(Type::LineString)
        } else if name == "MultiLineString".to_owned() {
            Some(Type::MultiLineString)
        } else if name == "Polygon".to_owned() {
            Some(Type::Polygon)
        } else if name == "MultiPolygon".to_owned() {
            Some(Type::MultiPolygon)
        } else if name == "GeometryCollection".to_owned() {
            Some(Type::GeometryCollection)
        } else if name == "Topology".to_owned() {
            Some(Type::Topology)
        } else {
            None
        }
    }
}

impl TopoJson {
    /// Writes the object as a JSON object.
    pub fn to_json_object(&self) -> (r: JsonObject)
        ensures
            members_of(r) == encoding::topojson_json(*self),
    {
        match self {
            TopoJson::Geometry(geometry) => geometry.to_json_object(),
            TopoJson::Topology(topo) => topo.to_json_object(),
        }
    }

    /// Reads a TopoJSON object: a topology where its `type` is `Topology`, a
    /// geometry where it names a kind of geometry.
    pub fn from_json_object(object: JsonObject) -> (r: Result<TopoJson, Error>)
        ensures
            outcome(r, |t: TopoJson| t@) == grammar::topojson(members_of(object)),
    {
        let kind = match get_member(&object, "type") {
            Some(value) => match value_as_str(value) {
                Some(t) => Type::from_str(t),
                None => return Err(Error::ExpectedProperty("type".to_owned())),
            },
            None => return Err(Error::ExpectedProperty("type".to_owned())),
        };
        let kind = match kind {
            Some(kind) => kind,
            None => return Err(Error::TopoJsonUnknownType),
        };
        match kind {
            Type::Topology => match Topology::from_json_object(object) {
                Ok(t) => Ok(TopoJson::Topology(t)),
                Err(e) => Err(e),
            },
            _ => match Geometry::from_json_object(object) {
                Ok(g) => Ok(TopoJson::Geometry(g)),
                Err(e) => Err(e),
            },
        }
    }

    /// Reads a TopoJSON document from its text.
    pub fn parse(s: &str) -> (r: Result<TopoJson, Error>)
        ensures
            outcome(r, |t: TopoJson| t@) == grammar::document(s@),
    {
        let object = get_object(s)?;
        TopoJson::from_json_object(object)
    }
}

/// The JSON object that a text holds, or `MalformedJson`.
pub fn get_object(s: &str) -> (r: Result<JsonObject, Error>)
    ensures
        match r {
            Ok(object) => json_text(s@) == Some(Json::Object(members_of(object))),
            Err(e) => e@ == crate::error::ErrorView::MalformedJson && !(json_text(s@) matches Some(
                Json::Object(_),
            )),
        },
{
    match read_text(s) {
        Some(value) => match json_value_into_json_object(value) {
            Some(object) => Ok(object),
            None => Err(Error::MalformedJson),
        },
        None => Err(Error::MalformedJson),
    }
}

/// The object that a value is, if it is one.
pub fn json_value_into_json_object(json_value: JsonValue) -> (r: Option<JsonObject>)
    ensures
        match r {
            Some(object) => json_of(json_value) == Json::Object(members_of(object)),
            None => !(json_of(json_value) is Object),
        },
{
    match value_into_object(json_value) {
        Ok(geo) => Some(geo),
        Err(_) => None,
    }
}

} // verus!
