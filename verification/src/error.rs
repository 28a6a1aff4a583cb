//! The one error type of the library: a variant for each expectation that a
//! document or a request can fail to meet.

use vstd::prelude::*;
use vstd::string::StringExecFns;

verus! {

/// Why a TopoJSON document could not be read or converted.
#[derive(Debug, PartialEq, Eq)]
#[non_exhaustive]
pub enum Error {
    BboxExpectedArray,
    BboxExpectedNumericValues,
    TopologyExpectedObjects,
    TopologyExpectedArcs,
    TransformExpectedScale,
    TransformExpectedTranslate,
    ScaleExpectedArray,
    ScaleExpectedNumericValues,
    TranslateExpectedArray,
    TranslateExpectedNumericValues,
    TopoJsonUnknownType,
    GeometryUnknownType,
    MalformedJson,
    PropertiesExpectedObjectOrNull,
    ExpectedType { expected: String, actual: String },
    TopoToGeoUnknownKey(String),
    /// An arc index that names no arc of the topology.
    ArcIndexOutOfRange(i32),
    /// A geometry collection inside the geometry collection being converted.
    UnsupportedNestedCollection,
    ExpectedStringValue,
    ExpectedProperty(String),
    Expectedi32Value,
    ExpectedF64Value,
    ExpectedArrayValue,
    ExpectedObjectValue,
}

/// An [`Error`] with its strings as sequences of characters.
pub enum ErrorView {
    BboxExpectedArray,
    BboxExpectedNumericValues,
    TopologyExpectedObjects,
    TopologyExpectedArcs,
    TransformExpectedScale,
    TransformExpectedTranslate,
    ScaleExpectedArray,
    ScaleExpectedNumericValues,
    TranslateExpectedArray,
    TranslateExpectedNumericValues,
    TopoJsonUnknownType,
    GeometryUnknownType,
    MalformedJson,
    PropertiesExpectedObjectOrNull,
    ExpectedType { expected: Seq<char>, actual: Seq<char> },
    TopoToGeoUnknownKey(Seq<char>),
    ArcIndexOutOfRange(i32),
    UnsupportedNestedCollection,
    ExpectedStringValue,
    ExpectedProperty(Seq<char>),
    Expectedi32Value,
    ExpectedF64Value,
    ExpectedArrayValue,
    ExpectedObjectValue,
}

impl View for Error {
    type V = ErrorView;

    open spec fn view(&self) -> ErrorView {
        match *self {
            Error::BboxExpectedArray => ErrorView::BboxExpectedArray,
            Error::BboxExpectedNumericValues => ErrorView::BboxExpectedNumericValues,
            Error::TopologyExpectedObjects => ErrorView::TopologyExpectedObjects,
            Error::TopologyExpectedArcs => ErrorView::TopologyExpectedArcs,
            Error::TransformExpectedScale => ErrorView::TransformExpectedScale,
            Error::TransformExpectedTranslate => ErrorView::TransformExpectedTranslate,
            Error::ScaleExpectedArray => ErrorView::ScaleExpectedArray,
            Error::ScaleExpectedNumericValues => ErrorView::ScaleExpectedNumericValues,
            Error::TranslateExpectedArray => ErrorView::TranslateExpectedArray,
            Error::TranslateExpectedNumericValues => ErrorView::TranslateExpectedNumericValues,
            Error::TopoJsonUnknownType => ErrorView::TopoJsonUnknownType,
            Error::GeometryUnknownType => ErrorView::GeometryUnknownType,
            Error::MalformedJson => ErrorView::MalformedJson,
            Error::PropertiesExpectedObjectOrNull => ErrorView::PropertiesExpectedObjectOrNull,
            Error::ExpectedType { expected, actual } => ErrorView::ExpectedType {
                expected: expected@,
                actual: actual@,
            },
            Error::TopoToGeoUnknownKey(key) => ErrorView::TopoToGeoUnknownKey(key@),
            Error::ArcIndexOutOfRange(ix) => ErrorView::ArcIndexOutOfRange(ix),
            Error::UnsupportedNestedCollection => ErrorView::UnsupportedNestedCollection,
            Error::ExpectedStringValue => ErrorView::ExpectedStringValue,
            Error::ExpectedProperty(name) => ErrorView::ExpectedProperty(name@),
            Error::Expectedi32Value => ErrorView::Expectedi32Value,
            Error::ExpectedF64Value => ErrorView::ExpectedF64Value,
            Error::ExpectedArrayValue => ErrorView::ExpectedArrayValue,
            Error::ExpectedObjectValue => ErrorView::ExpectedObjectValue,
        }
    }
}

/// The outcome of a fallible function as mathematical data: the value taken
/// by `view`, the error by its own view.
pub open spec fn outcome<T, V>(r: Result<T, Error>, view: spec_fn(T) -> V) -> Result<V, ErrorView> {
    match r {
        Ok(v) => Ok(view(v)),
        Err(e) => Err(e@),
    }
}

impl ErrorView {
    /// The sentence that reports this error.
    pub open spec fn message(self) -> Seq<char> {
        match self {
            ErrorView::BboxExpectedArray => "Encountered non-array type for a 'bbox' object."@,
            ErrorView::BboxExpectedNumericValues => "Encountered non-numeric value within 'bbox' array."@,
            ErrorView::TopologyExpectedObjects => "Expected member with the name 'objects' in Topology."@,
            ErrorView::TopologyExpectedArcs => "Expected member with the name 'arcs' in Topology."@,
            ErrorView::TransformExpectedScale => "Transform must have a member with the name 'scale'."@,
            ErrorView::TransformExpectedTranslate => "Transform must have a member with the name 'translate'."@,
            ErrorView::ScaleExpectedArray => "Encountered non-array type for a 'scale' object."@,
            ErrorView::ScaleExpectedNumericValues => "Encountered non-numeric value within 'scale' array."@,
            ErrorView::TranslateExpectedArray => "Encountered non-array type for a 'translate' object."@,
            ErrorView::TranslateExpectedNumericValues => "Encountered non-numeric value within 'translate' array."@,
            ErrorView::TopoJsonUnknownType => "Encountered unknown TopoJSON object type."@,
            ErrorView::GeometryUnknownType => "Encountered unknown 'geometry' object type."@,
            ErrorView::MalformedJson => "Encountered malformed JSON."@,
            ErrorView::PropertiesExpectedObjectOrNull => "Encountered neither object type nor null type for 'properties' object."@,
            ErrorView::ExpectedType { expected, actual } => "Expected TopoJSON type '"@ + expected
                + "', found '"@ + actual + "'"@,
            ErrorView::TopoToGeoUnknownKey(key) => "No object with key '"@ + key
                + "' in the given Topology."@,
            ErrorView::ArcIndexOutOfRange(_) => "Encountered an arc index outside the arcs of the Topology."@,
            ErrorView::UnsupportedNestedCollection => "Encountered a GeometryCollection nested in a GeometryCollection."@,
            ErrorView::ExpectedStringValue => "Expected a string value."@,
            ErrorView::ExpectedProperty(name) => "Expected TopoJSON property '"@ + name + "'."@,
            ErrorView::ExpectedF64Value => "Expected a floating-point value."@,
            ErrorView::Expectedi32Value => "Expected a positive integer."@,
            ErrorView::ExpectedArrayValue => "Expected an array."@,
            ErrorView::ExpectedObjectValue => "Expected an object."@,
        }
    }

    /// A few words that name the kind of this error.
    pub open spec fn description(self) -> Seq<char> {
        match self {
            ErrorView::BboxExpectedArray => "non-array 'bbox' type"@,
            ErrorView::BboxExpectedNumericValues => "non-numeric 'bbox' array"@,
            ErrorView::TopologyExpectedObjects => "no 'objects' member in topology"@,
            ErrorView::TopologyExpectedArcs => "no 'arcs' member in topology"@,
            ErrorView::TransformExpectedScale => "no 'scale' member in 'transform' member of topology"@,
            ErrorView::TransformExpectedTranslate => "no 'translate' member in 'transform' member of topology"@,
            ErrorView::ScaleExpectedArray => "non-array 'scale' type"@,
            ErrorView::ScaleExpectedNumericValues => "non-numeric 'scale' array"@,
            ErrorView::TranslateExpectedArray => "non-array 'translate' type"@,
            ErrorView::TranslateExpectedNumericValues => "non-numeric 'translate' array"@,
            ErrorView::TopoJsonUnknownType => "unknown TopoJSON object type"@,
            ErrorView::GeometryUnknownType => "unknown 'geometry' object type"@,
            ErrorView::MalformedJson => "malformed JSON"@,
            ErrorView::PropertiesExpectedObjectOrNull => "neither object type nor null type for properties' object."@,
            ErrorView::ExpectedType { .. } => "mismatched TopoJSON type"@,
            ErrorView::TopoToGeoUnknownKey(..) => "requested key not found"@,
            ErrorView::ArcIndexOutOfRange(..) => "arc index out of range"@,
            ErrorView::UnsupportedNestedCollection => "nested geometry collection"@,
            ErrorView::ExpectedStringValue => "expected a string value"@,
            ErrorView::ExpectedProperty(..) => "expected a TopoJSON property"@,
            ErrorView::ExpectedF64Value => "expected a floating-point value"@,
            ErrorView::Expectedi32Value => "expected a positive integer"@,
            ErrorView::ExpectedArrayValue => "expected an array"@,
            ErrorView::ExpectedObjectValue => "expected an object"@,
        }
    }
}

impl Error {
    /// The sentence that reports this error, with the names it carries.
    pub fn message(&self) -> (text: String)
        ensures
            text@ == self@.message(),
    {
        match self {
            Error::BboxExpectedArray => "Encountered non-array type for a 'bbox' object.".to_owned(),
            Error::BboxExpectedNumericValues => "Encountered non-numeric value within 'bbox' array.".to_owned(),
            Error::TopologyExpectedObjects => "Expected member with the name 'objects' in Topology.".to_owned(),
            Error::TopologyExpectedArcs => "Expected member with the name 'arcs' in Topology.".to_owned(),
            Error::TransformExpectedScale => "Transform must have a member with the name 'scale'.".to_owned(),
            Error::TransformExpectedTranslate => "Transform must have a member with the name 'translate'.".to_owned(),
            Error::ScaleExpectedArray => "Encountered non-array type for a 'scale' object.".to_owned(),
            Error::ScaleExpectedNumericValues => "Encountered non-numeric value within 'scale' array.".to_owned(),
            Error::TranslateExpectedArray => "Encountered non-array type for a 'translate' object.".to_owned(),
            Error::TranslateExpectedNumericValues => "Encountered non-numeric value within 'translate' array.".to_owned(),
            Error::TopoJsonUnknownType => "Encountered unknown TopoJSON object type.".to_owned(),
            Error::GeometryUnknownType => "Encountered unknown 'geometry' object type.".to_owned(),
            Error::MalformedJson => "Encountered malformed JSON.".to_owned(),
            Error::PropertiesExpectedObjectOrNull => "Encountered neither object type nor null type for 'properties' object.".to_owned(),
            Error::ExpectedType { expected, actual } => {
                "Expected TopoJSON type '".to_owned().concat(expected.as_str()).concat(
                    "', found '",
                ).concat(actual.as_str()).concat("'")
            },
            Error::TopoToGeoUnknownKey(key) => {
                "No object with key '".to_owned().concat(key.as_str()).concat(
                    "' in the given Topology.",
                )
            },
            Error::ArcIndexOutOfRange(_) => "Encountered an arc index outside the arcs of the Topology.".to_owned(),
            Error::UnsupportedNestedCollection => "Encountered a GeometryCollection nested in a GeometryCollection.".to_owned(),
            Error::ExpectedStringValue => "Expected a string value.".to_owned(),
            Error::ExpectedProperty(name) => {
                "Expected TopoJSON property '".to_owned().concat(name.as_str()).concat("'.")
            },
            Error::ExpectedF64Value => "Expected a floating-point value.".to_owned(),
            Error::Expectedi32Value => "Expected a positive integer.".to_owned(),
            Error::ExpectedArrayValue => "Expected an array.".to_owned(),
            Error::ExpectedObjectValue => "Expected an object.".to_owned(),
        }
    }

    /// A few words that name the kind of this error.
    pub fn description(&self) -> (text: &'static str)
        ensures
            text@ == self@.description(),
    {
        match self {
            Error::BboxExpectedArray => "non-array 'bbox' type",
            Error::BboxExpectedNumericValues => "non-numeric 'bbox' array",
            Error::TopologyExpectedObjects => "no 'objects' member in topology",
            Error::TopologyExpectedArcs => "no 'arcs' member in topology",
            Error::TransformExpectedScale => "no 'scale' member in 'transform' member of topology",
            Error::TransformExpectedTranslate => "no 'translate' member in 'transform' member of topology",
            Error::ScaleExpectedArray => "non-array 'scale' type",
            Error::ScaleExpectedNumericValues => "non-numeric 'scale' array",
            Error::TranslateExpectedArray => "non-array 'translate' type",
            Error::TranslateExpectedNumericValues => "non-numeric 'translate' array",
            Error::TopoJsonUnknownType => "unknown TopoJSON object type",
            Error::GeometryUnknownType => "unknown 'geometry' object type",
            Error::MalformedJson => "malformed JSON",
            Error::PropertiesExpectedObjectOrNull => "neither object type nor null type for properties' object.",
            Error::ExpectedType { .. } => "mismatched TopoJSON type",
            Error::TopoToGeoUnknownKey(..) => "requested key not found",
            Error::ArcIndexOutOfRange(..) => "arc index out of range",
            Error::UnsupportedNestedCollection => "nested geometry collection",
            Error::ExpectedStringValue => "expected a string value",
            Error::ExpectedProperty(..) => "expected a TopoJSON property",
            Error::ExpectedF64Value => "expected a floating-point value",
            Error::Expectedi32Value => "expected a positive integer",
            Error::ExpectedArrayValue => "expected an array",
            Error::ExpectedObjectValue => "expected an object",
        }
    }
}

} // verus!
