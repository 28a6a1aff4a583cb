//! TopoJSON documents: a typed model, a strict parser from generic JSON, the
//! matching writer, and the expansion of a topology's shared arcs into the
//! explicit coordinates of a feature collection.
//!
//! Every function of the library is verified against a contract. The
//! contracts are stated over mathematical data: [`json::Json`] for JSON
//! values, the views of [`Geometry`], [`Topology`] and [`Feature`] for the
//! typed model. [`grammar`] says what a JSON tree means as a document,
//! [`encoding`] what is written for a value, [`to_geojson`] what an object of
//! a topology converts to, and [`laws`] what holds between them.
//!
//! A number is a [`JsonNumber`]. Where the library has to speak of its value
//! it speaks of the bit pattern of its binary64 reading; it does no
//! floating-point arithmetic of its own.

pub mod encoding;
pub mod error;
pub mod geometry;
pub mod grammar;
pub mod json;
pub mod laws;
pub mod order;
pub mod to_geojson;
pub mod topojson;
pub mod topology;
pub mod util;

pub use crate::error::{Error, ErrorView};
pub use crate::geometry::{
    Geometry, GeometryValue, GeometryView, NamedGeometry, NamedGeometryView, ValueView,
};
pub use crate::json::{JsonNumber, JsonObject, JsonValue};
pub use crate::to_geojson::{
    can_convert, convert_geom_arcs, convert_geom_coords, convert_geometry_collection, decode_arc,
    make_pt, make_ring, resolve_arc_index, to_geojson, Feature, FeatureCollection, FeatureValue,
    FeatureValueView, FeatureView,
};
pub use crate::topojson::{get_object, json_value_into_json_object, TopoJson, TopoJsonView, Type};
pub use crate::topology::{Topology, TopologyView, TransformParams, TransformView};

use vstd::prelude::*;

verus! {

/// A bounding box: numbers, as many as the document gave.
pub type Bbox = Vec<JsonNumber>;

/// A position: its coordinates, two at least where it is to be decoded
/// under a transform.
pub type Position = Vec<JsonNumber>;

/// An arc: the positions of one shared line, possibly quantized and
/// delta-encoded.
pub type Arc = Vec<Position>;

/// Arc indexes: each names an arc of the topology, a negative one the arc
/// `-i - 1` read backwards.
pub type ArcIndexes = Vec<i32>;

} // verus!
