use serde_json::{Number, Value};
use topojson::{Error, Geometry, GeometryValue, JsonObject, TopoJson};

fn num(x: f64) -> Number {
    Number::from_f64(x).unwrap()
}

fn encode(geometry: &Geometry) -> String {
    serde_json::to_string(&geometry.to_json_object()).unwrap()
}

fn decode(json_string: String) -> TopoJson {
    json_string.parse().unwrap()
}

#[test]
fn decode_invalid_linestring() {
    let topo_json_str = "{\"coordinates\":[0],\"type\":\"LineString\"}";

    // Decode should fail due to the absence of the 'arcs' member:
    let result = topo_json_str.to_string().parse::<TopoJson>();
    assert!(result.is_err());
    match result {
        Err(e) => assert_eq!(e, Error::ExpectedProperty(String::from("arcs"))),
        _ => panic!(),
    }
}

#[test]
fn encode_decode_geometry_with_position() {
    let geometry_json_str = "{\"coordinates\":[1.1,2.1],\"type\":\"Point\"}";
    let geometry = Geometry {
        value: GeometryValue::Point(vec![num(1.1), num(2.1)]),
        bbox: None,
        id: None,
        properties: None,
        foreign_members: None,
    };

    // Test encode
    let json_string = encode(&geometry);
    assert_eq!(json_string, geometry_json_str);

    // Test decode
    let decoded_geometry = match decode(json_string) {
        TopoJson::Geometry(g) => g,
        _ => unreachable!(),
    };
    assert_eq!(decoded_geometry, geometry);
}

#[test]
fn encode_decode_geometry_with_arc_indexes_polygon() {
    let geometry_json_str = "{\"arcs\":[[1]],\"type\":\"Polygon\"}";
    let geometry = Geometry {
        value: GeometryValue::Polygon(vec![vec![1]]),
        bbox: None,
        id: None,
        properties: None,
        foreign_members: None,
    };

    // Test encode
    let json_string = encode(&geometry);
    assert_eq!(json_string, geometry_json_str);

    // Test decode
    let decoded_geometry = match decode(json_string) {
        TopoJson::Geometry(g) => g,
        _ => unreachable!(),
    };
    assert_eq!(decoded_geometry, geometry);
}

#[test]
fn encode_decode_geometry_with_arc_indexes_linestring() {
    let geometry_json_str = "{\"arcs\":[0],\"type\":\"LineString\"}";
    let geometry = Geometry {
        value: GeometryValue::LineString(vec![0]),
        bbox: None,
        id: None,
        properties: None,
        foreign_members: None,
    };

    // Test encode
    let json_string = encode(&geometry);
    assert_eq!(json_string, geometry_json_str);

    // Test decode
    let decoded_geometry = match decode(json_string) {
        TopoJson::Geometry(g) => g,
        _ => unreachable!(),
    };
    assert_eq!(decoded_geometry, geometry);
}

#[test]
fn encode_decode_geometry_with_foreign_member() {
    let geometry_json_str =
        "{\"coordinates\":[1.1,2.1],\"other_member\":true,\"type\":\"Point\"}";
    let mut foreign_members = JsonObject::new();
    foreign_members.insert(
        String::from("other_member"),
        serde_json::to_value(true).unwrap(),
    );
    let geometry = Geometry {
        value: GeometryValue::Point(vec![num(1.1), num(2.1)]),
        bbox: None,
        id: None,
        properties: None,
        foreign_members: Some(foreign_members),
    };

    // Test encode
    let json_string = encode(&geometry);
    assert_eq!(json_string, geometry_json_str);

    // Test decode
    let decoded_geometry = match decode(geometry_json_str.into()) {
        TopoJson::Geometry(g) => g,
        _ => unreachable!(),
    };
    assert_eq!(decoded_geometry, geometry);
}

#[test]
fn encode_decode_geometry_with_properties() {
    let geometry_json_str =
        "{\"coordinates\":[1.1,2.1],\"properties\":{\"prop0\":0},\"type\":\"Point\"}";
    let mut properties = JsonObject::new();
    properties.insert(String::from("prop0"), serde_json::to_value(0).unwrap());
    let geometry = Geometry {
        value: GeometryValue::Point(vec![num(1.1), num(2.1)]),
        bbox: None,
        id: None,
        properties: Some(properties),
        foreign_members: None,
    };

    // Test encode
    let json_string = encode(&geometry);
    assert_eq!(json_string, geometry_json_str);

    // Test decode
    let decoded_geometry = match decode(geometry_json_str.into()) {
        TopoJson::Geometry(g) => g,
        _ => unreachable!(),
    };
    assert_eq!(decoded_geometry, geometry);
}

#[test]
fn encode_decode_geometry_collection() {
    // Properties for the geometry collection:
    let mut properties0 = JsonObject::new();
    properties0.insert(String::from("prop0"), serde_json::to_value(0).unwrap());
    // Properties for one the geometry in the geometry collection:
    let mut properties1 = JsonObject::new();
    properties1.insert(String::from("prop1"), serde_json::to_value(1).unwrap());
    let geometry_collection = Geometry {
        bbox: None,
        id: None,
        value: GeometryValue::GeometryCollection(vec![
            Geometry {
                bbox: None,
                id: None,
                value: GeometryValue::Point(vec![num(100.0), num(0.0)]),
                properties: Some(properties1),
                foreign_members: None,
            },
            Geometry {
                bbox: None,
                id: None,
                value: GeometryValue::LineString(vec![0]),
                properties: None,
                foreign_members: None,
            },
        ]),
        properties: Some(properties0),
        foreign_members: None,
    };

    let geometry_collection_string =
        "{\"geometries\":[{\"coordinates\":[100.0,0.0],\"properties\":{\"prop1\":1},\"type\":\"Point\"},{\"arcs\":[0],\"type\":\"LineString\"}],\"properties\":{\"prop0\":0},\"type\":\"GeometryCollection\"}";

    // Test encode
    let json_string = encode(&geometry_collection);
    assert_eq!(json_string, geometry_collection_string);

    // Test decode
    let decoded_geometry = match decode(geometry_collection_string.into()) {
        TopoJson::Geometry(g) => g,
        _ => unreachable!(),
    };
    assert_eq!(decoded_geometry, geometry_collection);
}

fn parse(text: &str) -> Result<TopoJson, Error> {
    TopoJson::parse(text)
}

fn geometry_of(text: &str) -> Geometry {
    match parse(text).unwrap() {
        TopoJson::Geometry(g) => g,
        _ => panic!("not a geometry"),
    }
}

#[test]
fn new_geometry_has_only_its_value() {
    let geometry = Geometry::new(GeometryValue::LineString(vec![3, -4]));
    assert_eq!(geometry.value, GeometryValue::LineString(vec![3, -4]));
    assert_eq!(geometry.bbox, None);
    assert_eq!(geometry.id, None);
    assert_eq!(geometry.properties, None);
    assert_eq!(geometry.foreign_members, None);
}

#[test]
fn every_kind_of_geometry_is_read() {
    assert_eq!(
        geometry_of("{\"type\":\"Point\",\"coordinates\":[1,2,3]}").value,
        GeometryValue::Point(vec![num(1.0), num(2.0), num(3.0)])
    );
    assert_eq!(
        geometry_of("{\"type\":\"MultiPoint\",\"coordinates\":[[1,2],[3.5,4]]}").value,
        GeometryValue::MultiPoint(vec![vec![num(1.0), num(2.0)], vec![num(3.5), num(4.0)]])
    );
    assert_eq!(
        geometry_of("{\"type\":\"LineString\",\"arcs\":[0,-1,2]}").value,
        GeometryValue::LineString(vec![0, -1, 2])
    );
    assert_eq!(
        geometry_of("{\"type\":\"MultiLineString\",\"arcs\":[[0],[-2,1]]}").value,
        GeometryValue::MultiLineString(vec![vec![0], vec![-2, 1]])
    );
    assert_eq!(
        geometry_of("{\"type\":\"Polygon\",\"arcs\":[[0],[-2,1]]}").value,
        GeometryValue::Polygon(vec![vec![0], vec![-2, 1]])
    );
    assert_eq!(
        geometry_of("{\"type\":\"MultiPolygon\",\"arcs\":[[[0]],[[1,2],[-4]]]}").value,
        GeometryValue::MultiPolygon(vec![vec![vec![0]], vec![vec![1, 2], vec![-4]]])
    );
    assert_eq!(
        geometry_of("{\"type\":\"GeometryCollection\",\"geometries\":[]}").value,
        GeometryValue::GeometryCollection(vec![])
    );
}

#[test]
fn integer_coordinates_are_read_as_reals() {
    let geometry = geometry_of("{\"type\":\"Point\",\"coordinates\":[4000,-5]}");
    match geometry.value {
        GeometryValue::Point(p) => {
            assert_eq!(p.len(), 2);
            assert!(p[0].is_f64());
            assert_eq!(p[0].as_f64(), Some(4000.0));
            assert_eq!(p[1].as_f64(), Some(-5.0));
        }
        _ => panic!(),
    }
}

#[test]
fn members_travel_with_the_geometry() {
    let geometry = geometry_of(
        "{\"type\":\"Point\",\"coordinates\":[1,2],\"bbox\":[0,0,3,3],\"id\":7,\"properties\":{\"a\":[1]},\"extra\":null,\"more\":\"x\"}",
    );
    assert_eq!(
        geometry.bbox,
        Some(vec![num(0.0), num(0.0), num(3.0), num(3.0)])
    );
    assert_eq!(geometry.id, Some(Value::from(7)));
    let mut properties = JsonObject::new();
    properties.insert("a".to_string(), Value::Array(vec![Value::from(1)]));
    assert_eq!(geometry.properties, Some(properties));
    let mut foreign = JsonObject::new();
    foreign.insert("extra".to_string(), Value::Null);
    foreign.insert("more".to_string(), Value::String("x".to_string()));
    assert_eq!(geometry.foreign_members, Some(foreign));
}

#[test]
fn null_properties_are_no_properties() {
    let geometry = geometry_of("{\"type\":\"Point\",\"coordinates\":[1,2],\"properties\":null}");
    assert_eq!(geometry.properties, None);
    assert_eq!(geometry.foreign_members, None);
}

#[test]
fn a_null_id_is_an_id() {
    let geometry = geometry_of("{\"type\":\"Point\",\"coordinates\":[1,2],\"id\":null}");
    assert_eq!(geometry.id, Some(Value::Null));
}

#[test]
fn the_value_member_of_another_kind_is_no_foreign_member() {
    let geometry = geometry_of("{\"type\":\"LineString\",\"arcs\":[1],\"coordinates\":[0]}");
    assert_eq!(geometry.value, GeometryValue::LineString(vec![1]));
    assert_eq!(geometry.foreign_members, None);
    let geometry = geometry_of(
        "{\"type\":\"Point\",\"coordinates\":[1,2],\"arcs\":[[0]],\"geometries\":7,\"more\":1}",
    );
    let mut foreign = JsonObject::new();
    foreign.insert("more".to_string(), Value::from(1));
    assert_eq!(geometry.foreign_members, Some(foreign));
    let geometry = geometry_of(
        "{\"type\":\"GeometryCollection\",\"geometries\":[],\"arcs\":[0],\"coordinates\":null}",
    );
    assert_eq!(geometry.foreign_members, None);
}

#[test]
fn foreign_members_bear_no_name_of_the_format() {
    let geometry = geometry_of(
        "{\"type\":\"Polygon\",\"arcs\":[[0]],\"coordinates\":[1],\"geometries\":[],\"bbox\":[0],\"id\":1,\"properties\":{},\"Type\":1,\"arc\":2,\"ids\":3}",
    );
    let names: Vec<String> = geometry.foreign_members.unwrap().keys().cloned().collect();
    assert_eq!(names, vec!["Type", "arc", "ids"]);
}

#[test]
fn a_value_member_among_the_foreign_members_is_not_read_back() {
    let mut foreign = JsonObject::new();
    foreign.insert("arcs".to_string(), Value::from(1));
    foreign.insert("kept".to_string(), Value::from(2));
    let geometry = Geometry {
        bbox: None,
        value: GeometryValue::Point(vec![num(1.0), num(2.0)]),
        properties: None,
        id: None,
        foreign_members: Some(foreign),
    };
    let read = Geometry::from_json_object(geometry.to_json_object()).unwrap();
    let mut kept = JsonObject::new();
    kept.insert("kept".to_string(), Value::from(2));
    assert_eq!(read.foreign_members, Some(kept));
    assert_eq!(read.value, geometry.value);
}

#[test]
fn geometry_errors() {
    assert_eq!(
        parse("{\"type\":\"Point\"}"),
        Err(Error::ExpectedProperty("coordinates".to_string()))
    );
    assert_eq!(
        parse("{\"type\":\"Point\",\"coordinates\":3}"),
        Err(Error::ExpectedArrayValue)
    );
    assert_eq!(
        parse("{\"type\":\"Point\",\"coordinates\":[1,\"2\"]}"),
        Err(Error::ExpectedF64Value)
    );
    assert_eq!(
        parse("{\"type\":\"LineString\",\"arcs\":[1.5]}"),
        Err(Error::Expectedi32Value)
    );
    assert_eq!(
        parse("{\"type\":\"LineString\",\"arcs\":[\"1\"]}"),
        Err(Error::Expectedi32Value)
    );
    assert_eq!(
        parse("{\"type\":\"GeometryCollection\"}"),
        Err(Error::ExpectedProperty("geometries".to_string()))
    );
    assert_eq!(
        parse("{\"type\":\"GeometryCollection\",\"geometries\":{}}"),
        Err(Error::ExpectedArrayValue)
    );
    assert_eq!(
        parse("{\"type\":\"GeometryCollection\",\"geometries\":[1]}"),
        Err(Error::ExpectedObjectValue)
    );
    assert_eq!(
        parse("{\"type\":\"GeometryCollection\",\"geometries\":[{\"type\":\"Nothing\"}]}"),
        Err(Error::GeometryUnknownType)
    );
    assert_eq!(
        parse("{\"type\":\"GeometryCollection\",\"geometries\":[{\"type\":\"Topology\"}]}"),
        Err(Error::GeometryUnknownType)
    );
    assert_eq!(
        parse("{\"type\":\"GeometryCollection\",\"geometries\":[{\"coordinates\":[1,2]}]}"),
        Err(Error::ExpectedProperty("type".to_string()))
    );
    assert_eq!(
        parse("{\"type\":\"GeometryCollection\",\"geometries\":[{\"type\":1}]}"),
        Err(Error::ExpectedStringValue)
    );
    assert_eq!(
        parse("{\"type\":\"Point\",\"coordinates\":[1,2],\"bbox\":1}"),
        Err(Error::BboxExpectedArray)
    );
    assert_eq!(
        parse("{\"type\":\"Point\",\"coordinates\":[1,2],\"bbox\":[1,null]}"),
        Err(Error::BboxExpectedNumericValues)
    );
    assert_eq!(
        parse("{\"type\":\"Point\",\"coordinates\":[1,2],\"properties\":[]}"),
        Err(Error::PropertiesExpectedObjectOrNull)
    );
}

#[test]
fn the_first_error_is_reported() {
    // the value is read before `bbox`, `bbox` before `properties`
    assert_eq!(
        parse("{\"type\":\"Point\",\"coordinates\":[\"x\"],\"bbox\":1,\"properties\":1}"),
        Err(Error::ExpectedF64Value)
    );
    assert_eq!(
        parse("{\"type\":\"Point\",\"coordinates\":[1,2],\"bbox\":1,\"properties\":1}"),
        Err(Error::BboxExpectedArray)
    );
    // in a collection the earlier geometry is read first
    assert_eq!(
        parse("{\"type\":\"GeometryCollection\",\"geometries\":[{\"type\":\"Point\"},3]}"),
        Err(Error::ExpectedProperty("coordinates".to_string()))
    );
}

#[test]
fn top_level_errors() {
    assert_eq!(parse("not json"), Err(Error::MalformedJson));
    assert_eq!(parse("[1,2]"), Err(Error::MalformedJson));
    assert_eq!(parse("{}"), Err(Error::ExpectedProperty("type".to_string())));
    assert_eq!(
        parse("{\"type\":3}"),
        Err(Error::ExpectedProperty("type".to_string()))
    );
    assert_eq!(parse("{\"type\":\"foo\"}"), Err(Error::TopoJsonUnknownType));
}

#[test]
fn nested_collections_are_read_and_written() {
    let text = "{\"geometries\":[{\"geometries\":[{\"arcs\":[[[0]]],\"type\":\"MultiPolygon\"}],\"type\":\"GeometryCollection\"}],\"type\":\"GeometryCollection\"}";
    let geometry = geometry_of(text);
    match &geometry.value {
        GeometryValue::GeometryCollection(outer) => match &outer[0].value {
            GeometryValue::GeometryCollection(inner) => {
                assert_eq!(
                    inner[0].value,
                    GeometryValue::MultiPolygon(vec![vec![vec![0]]])
                );
            }
            _ => panic!(),
        },
        _ => panic!(),
    }
    assert_eq!(encode(&geometry), text);
}

#[test]
fn written_geometry_is_read_back() {
    let mut properties = JsonObject::new();
    properties.insert("name".to_string(), Value::String("x".to_string()));
    let mut foreign = JsonObject::new();
    foreign.insert("crs".to_string(), Value::Bool(false));
    let geometry = Geometry {
        bbox: Some(vec![num(-1.5), num(0.0), num(2.0), num(3.25)]),
        value: GeometryValue::GeometryCollection(vec![
            Geometry::new(GeometryValue::MultiPoint(vec![
                vec![num(0.5), num(1.0), num(9.0)],
                vec![num(-0.25), num(2.0)],
            ])),
            Geometry::new(GeometryValue::MultiPolygon(vec![vec![vec![
                0,
                -1,
                i32::MAX,
                i32::MIN,
            ]]])),
        ]),
        properties: Some(properties),
        id: Some(Value::String("one".to_string())),
        foreign_members: Some(foreign),
    };
    let written = geometry.to_json_object();
    assert_eq!(Geometry::from_json_object(written), Ok(geometry));
}

#[test]
fn from_impls_write_as_the_methods_do() {
    let geometry = geometry_of("{\"type\":\"Point\",\"coordinates\":[1,2],\"id\":1}");
    assert_eq!(JsonObject::from(&geometry), geometry.to_json_object());
    let object = JsonObject::from(&geometry);
    let both = TopoJson::from(geometry);
    assert_eq!(JsonObject::from(&both), object);
    assert_eq!(both.to_json_object(), object);
}

#[test]
fn value_is_written_by_kind() {
    let value = GeometryValue::MultiLineString(vec![vec![0, -1], vec![]]);
    assert_eq!(value.kind_name(), "MultiLineString");
    assert_eq!(value.member_name(), "arcs");
    assert_eq!(
        serde_json::to_string(&value.to_json_value()).unwrap(),
        "[[0,-1],[]]"
    );
    let point = GeometryValue::Point(vec![num(1.5), num(2.0)]);
    assert_eq!(point.kind_name(), "Point");
    assert_eq!(point.member_name(), "coordinates");
    assert_eq!(
        serde_json::to_string(&point.to_json_value()).unwrap(),
        "[1.5,2.0]"
    );
    let collection = GeometryValue::GeometryCollection(vec![]);
    assert_eq!(collection.kind_name(), "GeometryCollection");
    assert_eq!(collection.member_name(), "geometries");
}

#[test]
fn foreign_members_are_written_over_the_others() {
    let mut foreign = JsonObject::new();
    foreign.insert("type".to_string(), Value::String("Polygon".to_string()));
    let geometry = Geometry {
        bbox: None,
        value: GeometryValue::LineString(vec![0]),
        properties: None,
        id: None,
        foreign_members: Some(foreign),
    };
    assert_eq!(encode(&geometry), "{\"arcs\":[0],\"type\":\"Polygon\"}");
}
