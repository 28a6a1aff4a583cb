use serde_json::Number;
use topojson::{
    Error, Geometry, GeometryValue, JsonObject, NamedGeometry, TopoJson, Topology,
    TransformParams,
};

fn num(x: f64) -> Number {
    Number::from_f64(x).unwrap()
}

fn pos(x: f64, y: f64) -> Vec<Number> {
    vec![num(x), num(y)]
}

fn encode(topo: &Topology) -> String {
    serde_json::to_string(&topo.to_json_object()).unwrap()
}

fn decode(json_string: String) -> TopoJson {
    json_string.parse().unwrap()
}

#[test]
fn encode_decode_topology_arcs() {
    let topo_json_str =
        "{\"arcs\":[[[2.2,2.2],[3.3,3.3]]],\"objects\":{},\"type\":\"Topology\"}";
    let topo = Topology {
        arcs: vec![vec![pos(2.2, 2.2), pos(3.3, 3.3)]],
        objects: vec![],
        bbox: None,
        transform: None,
    };

    // Test encode
    let json_string = encode(&topo);
    assert_eq!(json_string, topo_json_str);

    // Test decode
    let decoded_topo = match decode(json_string) {
        TopoJson::Topology(t) => t,
        _ => unreachable!(),
    };
    assert_eq!(decoded_topo, topo);
}

#[test]
fn decode_invalid_topology_no_objects() {
    let topo_json_str = "{\"arcs\":[[[2.2,2.2],[3.3,3.3]]],\"type\":\"Topology\"}";

    // Decode should fail due to the absence of the 'objects' member:
    let result = topo_json_str.to_string().parse::<TopoJson>();
    assert!(result.is_err());
    match result {
        Err(e) => assert_eq!(e, Error::TopologyExpectedObjects),
        _ => panic!(),
    }
}

#[test]
fn decode_invalid_topology_no_arcs() {
    let topo_json_str = "{\"objects\":{},\"type\":\"Topology\"}";

    // Decode should fail due to the absence of the 'arcs' member:
    let result = topo_json_str.to_string().parse::<TopoJson>();
    assert!(result.is_err());
    match result {
        Err(e) => assert_eq!(e, Error::TopologyExpectedArcs),
        _ => panic!(),
    }
}

#[test]
fn decode_invalid_topology_bad_type() {
    let topo_json_str = "{\"arcs\":[[[2.2,2.2],[3.3,3.3]]],\"type\":\"foo\",\"objects\":{\"example\":{\"arcs\":[0],\"type\":\"LineString\"}}}";

    // Decode should fail due to the unknown type:
    let result = topo_json_str.to_string().parse::<TopoJson>();
    assert!(result.is_err());
    match result {
        Err(e) => assert_eq!(e, Error::TopoJsonUnknownType),
        _ => panic!(),
    }
}

#[test]
fn list_names_objects() {
    let topo = Topology {
        arcs: vec![vec![pos(2.2, 2.2), pos(3.3, 3.3)]],
        objects: vec![NamedGeometry {
            name: String::from("example"),
            geometry: Geometry {
                value: GeometryValue::LineString(vec![0]),
                bbox: None,
                id: None,
                properties: None,
                foreign_members: None,
            },
        }],
        bbox: None,
        transform: None,
    };
    let names = topo.list_names();
    assert_eq!(names.len(), 1);
    assert_eq!(names[0], "example");
}

#[test]
fn encode_decode_topology_arcs_object() {
    let topo_json_str = "{\"arcs\":[[[2.2,2.2],[3.3,3.3]]],\"objects\":{\"example\":{\"arcs\":[0],\"type\":\"LineString\"}},\"type\":\"Topology\"}";
    let topo = Topology {
        arcs: vec![vec![pos(2.2, 2.2), pos(3.3, 3.3)]],
        objects: vec![NamedGeometry {
            name: String::from("example"),
            geometry: Geometry {
                value: GeometryValue::LineString(vec![0]),
                bbox: None,
                id: None,
                properties: None,
                foreign_members: None,
            },
        }],
        bbox: None,
        transform: None,
    };

    // Test encode
    let json_string = encode(&topo);
    assert_eq!(json_string, topo_json_str);

    // Test decode
    let decoded_topo = match decode(json_string) {
        TopoJson::Topology(t) => t,
        _ => unreachable!(),
    };
    assert_eq!(decoded_topo, topo);
}

#[test]
fn encode_decode_topology_arcs_transform() {
    let topo_json_str = "{\"arcs\":[[[2.2,2.2],[3.3,3.3]]],\"objects\":{},\"transform\":{\"scale\":[0.12,0.12],\"translate\":[1.1,1.1]},\"type\":\"Topology\"}";
    let topo = Topology {
        arcs: vec![vec![pos(2.2, 2.2), pos(3.3, 3.3)]],
        objects: vec![],
        bbox: None,
        transform: Some(TransformParams {
            scale: [num(0.12), num(0.12)],
            translate: [num(1.1), num(1.1)],
        }),
    };

    // Test encode
    let json_string = encode(&topo);
    assert_eq!(json_string, topo_json_str);

    // Test decode
    let decoded_topo = match decode(json_string) {
        TopoJson::Topology(t) => t,
        _ => unreachable!(),
    };
    assert_eq!(decoded_topo, topo);
}

#[test]
fn encode_decode_topology_arcs_transform_geom_collection() {
    let topo_json_str = "{\"arcs\":[[[2.2,2.2],[3.3,3.3]]],\"objects\":{\"example\":{\"geometries\":[{\"coordinates\":[100.0,0.0],\"properties\":{\"prop1\":1},\"type\":\"Point\"},{\"arcs\":[0],\"type\":\"LineString\"}],\"properties\":{\"prop0\":0},\"type\":\"GeometryCollection\"}},\"transform\":{\"scale\":[0.12,0.12],\"translate\":[1.1,1.1]},\"type\":\"Topology\"}";
    // Properties for the geometry collection:
    let mut properties0 = JsonObject::new();
    properties0.insert(String::from("prop0"), serde_json::to_value(0).unwrap());
    // Properties for one the geometry in the geometry collection:
    let mut properties1 = JsonObject::new();
    properties1.insert(String::from("prop1"), serde_json::to_value(1).unwrap());

    let topo = Topology {
        arcs: vec![vec![pos(2.2, 2.2), pos(3.3, 3.3)]],
        objects: vec![NamedGeometry {
            name: String::from("example"),
            geometry: Geometry {
                bbox: None,
                id: None,
                value: GeometryValue::GeometryCollection(vec![
                    Geometry {
                        bbox: None,
                        id: None,
                        value: GeometryValue::Point(pos(100.0, 0.0)),
                        properties: Some(properties1),
                        foreign_members: None,
                    },
                    Geometry {
                        bbox: None,
                        id: None,
                        value: GeometryValue::LineString(vec![0]),
                        properties: None,
                        foreign_members: None,
                    },
                ]),
                properties: Some(properties0),
                foreign_members: None,
            },
        }],
        bbox: None,
        transform: Some(TransformParams {
            scale: [num(0.12), num(0.12)],
            translate: [num(1.1), num(1.1)],
        }),
    };

    // Test encode
    let json_string = encode(&topo);
    assert_eq!(json_string, topo_json_str);

    // Test decode
    let decoded_topo = match decode(json_string) {
        TopoJson::Topology(t) => t,
        _ => unreachable!(),
    };
    assert_eq!(decoded_topo, topo);
}

#[test]
fn encode_decode_topology_example_quantized_specifications() {
    let topo_json_str = "{\"arcs\":[[[4000.0,0.0],[1999.0,9999.0],[2000.0,-9999.0],[2000.0,9999.0]],[[0.0,0.0],[0.0,9999.0],[2000.0,0.0],[0.0,-9999.0],[-2000.0,0.0]]],\"objects\":{\"example\":{\"geometries\":[{\"coordinates\":[4000.0,5000.0],\"properties\":{\"prop0\":\"value0\"},\"type\":\"Point\"},{\"arcs\":[0],\"properties\":{\"prop0\":\"value0\",\"prop1\":0},\"type\":\"LineString\"},{\"arcs\":[[1]],\"properties\":{\"prop0\":\"value0\",\"prop1\":{\"this\":\"that\"}},\"type\":\"Polygon\"}],\"type\":\"GeometryCollection\"}},\"transform\":{\"scale\":[0.0005000500050005,0.0001000100010001],\"translate\":[100.0,0.0]},\"type\":\"Topology\"}";

    // Properties for the 1st geometry of the geometry collection:
    let mut properties0 = JsonObject::new();
    properties0.insert(
        String::from("prop0"),
        serde_json::to_value("value0").unwrap(),
    );
    // Properties for the 2nd geometry of the geometry collection:
    let mut properties1 = properties0.clone();
    properties1.insert(String::from("prop1"), serde_json::to_value(0).unwrap());
    // Properties for the 3rd geometry of the geometry collection:
    let mut properties2 = properties0.clone();
    let mut inner_prop = JsonObject::new();
    inner_prop.insert(
        String::from("this"),
        serde_json::to_value(String::from("that")).unwrap(),
    );
    properties2.insert(
        String::from("prop1"),
        serde_json::to_value(inner_prop).unwrap(),
    );

    let topo = Topology {
        bbox: None,
        objects: vec![NamedGeometry {
            name: String::from("example"),
            geometry: Geometry {
                bbox: None,
                id: None,
                value: GeometryValue::GeometryCollection(vec![
                    Geometry {
                        bbox: None,
                        id: None,
                        value: GeometryValue::Point(pos(4000.0, 5000.0)),
                        properties: Some(properties0),
                        foreign_members: None,
                    },
                    Geometry {
                        bbox: None,
                        id: None,
                        value: GeometryValue::LineString(vec![0]),
                        properties: Some(properties1),
                        foreign_members: None,
                    },
                    Geometry {
                        bbox: None,
                        id: None,
                        value: GeometryValue::Polygon(vec![vec![1]]),
                        properties: Some(properties2),
                        foreign_members: None,
                    },
                ]),
                properties: None,
                foreign_members: None,
            },
        }],
        transform: Some(TransformParams {
            scale: [num(0.0005000500050005), num(0.0001000100010001)],
            translate: [num(100.0), num(0.0)],
        }),
        arcs: vec![
            vec![
                pos(4000.0, 0.0),
                pos(1999.0, 9999.0),
                pos(2000.0, -9999.0),
                pos(2000.0, 9999.0),
            ],
            vec![
                pos(0.0, 0.0),
                pos(0.0, 9999.0),
                pos(2000.0, 0.0),
                pos(0.0, -9999.0),
                pos(-2000.0, 0.0),
            ],
        ],
    };

    // Test encode
    let json_string = encode(&topo);
    assert_eq!(json_string, topo_json_str);

    // Test decode
    let decoded_topo = match decode(json_string) {
        TopoJson::Topology(t) => t,
        _ => unreachable!(),
    };
    assert_eq!(decoded_topo, topo);
}

fn parse(text: &str) -> Result<TopoJson, Error> {
    TopoJson::parse(text)
}

fn topology_of(text: &str) -> Topology {
    match parse(text).unwrap() {
        TopoJson::Topology(t) => t,
        _ => panic!("not a topology"),
    }
}

fn line(ixs: Vec<i32>) -> Geometry {
    Geometry::new(GeometryValue::LineString(ixs))
}

fn named(name: &str, geometry: Geometry) -> NamedGeometry {
    NamedGeometry {
        name: name.to_string(),
        geometry,
    }
}

#[test]
fn objects_are_read_in_the_order_of_their_names() {
    let topo = topology_of(
        "{\"type\":\"Topology\",\"arcs\":[],\"objects\":{\"b\":{\"type\":\"LineString\",\"arcs\":[1]},\"a\":{\"type\":\"LineString\",\"arcs\":[0]},\"ab\":{\"type\":\"LineString\",\"arcs\":[2]},\"B\":{\"type\":\"LineString\",\"arcs\":[3]}}}",
    );
    assert_eq!(topo.list_names(), vec!["B", "a", "ab", "b"]);
    assert_eq!(
        topo.objects,
        vec![
            named("B", line(vec![3])),
            named("a", line(vec![0])),
            named("ab", line(vec![2])),
            named("b", line(vec![1])),
        ]
    );
}

#[test]
fn of_two_objects_named_alike_the_last_is_written() {
    let topo = Topology {
        bbox: None,
        objects: vec![named("a", line(vec![0])), named("a", line(vec![1]))],
        transform: None,
        arcs: vec![],
    };
    assert_eq!(topo.list_names(), vec!["a", "a"]);
    assert_eq!(
        encode(&topo),
        "{\"arcs\":[],\"objects\":{\"a\":{\"arcs\":[1],\"type\":\"LineString\"}},\"type\":\"Topology\"}"
    );
}

#[test]
fn written_topology_is_read_back() {
    let topo = Topology {
        bbox: Some(vec![num(0.0), num(-1.0), num(10.5), num(20.0)]),
        objects: vec![
            named("first", line(vec![0, -1])),
            named(
                "second",
                Geometry::new(GeometryValue::GeometryCollection(vec![
                    Geometry::new(GeometryValue::Point(pos(1.0, 2.0))),
                    Geometry::new(GeometryValue::Polygon(vec![vec![0], vec![-1]])),
                ])),
            ),
        ],
        transform: Some(TransformParams {
            scale: [num(0.5), num(0.25)],
            translate: [num(-3.0), num(4.0)],
        }),
        arcs: vec![vec![pos(0.0, 0.0), pos(1.0, 1.0)], vec![]],
    };
    let written = topo.to_json_object();
    assert_eq!(JsonObject::from(&topo), written);
    assert_eq!(Topology::from_json_object(written), Ok(topo));
}

#[test]
fn topology_errors() {
    assert_eq!(
        Topology::from_json_object(JsonObject::new()),
        Err(Error::ExpectedProperty("type".to_string()))
    );
    let geometry = match serde_json::from_str("{\"type\":\"Point\",\"coordinates\":[1,2]}") {
        Ok(serde_json::Value::Object(m)) => m,
        _ => panic!(),
    };
    assert_eq!(
        Topology::from_json_object(geometry),
        Err(Error::ExpectedType {
            expected: "Topology".to_string(),
            actual: "Point".to_string()
        })
    );
    assert_eq!(
        parse("{\"type\":\"Topology\",\"arcs\":[],\"objects\":[]}"),
        Err(Error::TopologyExpectedObjects)
    );
    assert_eq!(
        parse("{\"type\":\"Topology\",\"arcs\":[],\"objects\":{\"a\":1}}"),
        Err(Error::ExpectedObjectValue)
    );
    assert_eq!(
        parse("{\"type\":\"Topology\",\"arcs\":[],\"objects\":{\"a\":{\"type\":\"Line\"}}}"),
        Err(Error::GeometryUnknownType)
    );
    assert_eq!(
        parse("{\"type\":\"Topology\",\"arcs\":1,\"objects\":{}}"),
        Err(Error::ExpectedArrayValue)
    );
    assert_eq!(
        parse("{\"type\":\"Topology\",\"arcs\":[[[1,true]]],\"objects\":{}}"),
        Err(Error::ExpectedF64Value)
    );
    assert_eq!(
        parse("{\"type\":\"Topology\",\"arcs\":[],\"objects\":{},\"bbox\":{}}"),
        Err(Error::BboxExpectedArray)
    );
    assert_eq!(
        parse("{\"type\":\"Topology\",\"arcs\":[],\"objects\":{},\"bbox\":[\"1\"]}"),
        Err(Error::BboxExpectedNumericValues)
    );
}

#[test]
fn transform_errors() {
    let with = |transform: &str| {
        parse(&format!(
            "{{\"type\":\"Topology\",\"arcs\":[],\"objects\":{{}},\"transform\":{}}}",
            transform
        ))
    };
    assert_eq!(with("1"), Err(Error::ExpectedObjectValue));
    assert_eq!(with("{}"), Err(Error::TransformExpectedScale));
    assert_eq!(
        with("{\"translate\":[1,2]}"),
        Err(Error::TransformExpectedScale)
    );
    assert_eq!(
        with("{\"scale\":1,\"translate\":[1,2]}"),
        Err(Error::ScaleExpectedArray)
    );
    assert_eq!(
        with("{\"scale\":[1,\"x\"],\"translate\":[1,2]}"),
        Err(Error::ScaleExpectedNumericValues)
    );
    assert_eq!(
        with("{\"scale\":[1,2]}"),
        Err(Error::TransformExpectedTranslate)
    );
    assert_eq!(
        with("{\"scale\":[1,2],\"translate\":{}}"),
        Err(Error::TranslateExpectedArray)
    );
    assert_eq!(
        with("{\"scale\":[1,2],\"translate\":[null,2]}"),
        Err(Error::TranslateExpectedNumericValues)
    );
    // an array that is too short lacks a numeric value
    assert_eq!(
        with("{\"scale\":[1],\"translate\":[1,2]}"),
        Err(Error::ScaleExpectedNumericValues)
    );
    assert_eq!(
        with("{\"scale\":[1,2],\"translate\":[]}"),
        Err(Error::TranslateExpectedNumericValues)
    );
    // what is missing is reported before what is too short
    assert_eq!(with("{\"scale\":[1]}"), Err(Error::TransformExpectedTranslate));
}

#[test]
fn a_transform_takes_two_numbers_and_no_more() {
    let with = |transform: &str| {
        parse(&format!(
            "{{\"type\":\"Topology\",\"arcs\":[],\"objects\":{{}},\"transform\":{}}}",
            transform
        ))
    };
    assert_eq!(
        with("{\"scale\":[2,3,4],\"translate\":[5,6]}"),
        Err(Error::ScaleExpectedNumericValues)
    );
    assert_eq!(
        with("{\"scale\":[2,3],\"translate\":[5,6,7]}"),
        Err(Error::TranslateExpectedNumericValues)
    );
    assert_eq!(
        with("{\"scale\":[2,3,4],\"translate\":[5,6,7]}"),
        Err(Error::ScaleExpectedNumericValues)
    );
    // what is there but no number is reported before a wrong count
    assert_eq!(
        with("{\"scale\":[2,3,4],\"translate\":[5,\"6\"]}"),
        Err(Error::TranslateExpectedNumericValues)
    );
    assert_eq!(
        with("{\"scale\":[2,3,4]}"),
        Err(Error::TransformExpectedTranslate)
    );
    assert!(with("{\"scale\":[2,3],\"translate\":[5,6]}").is_ok());
}

#[test]
fn transform_is_read_from_and_written_to_an_object() {
    let object = match serde_json::from_str(
        "{\"transform\":{\"scale\":[0.5,2],\"translate\":[1,-1]}}",
    ) {
        Ok(serde_json::Value::Object(m)) => m,
        _ => panic!(),
    };
    let transform = TransformParams::from_json_object(object).unwrap();
    assert_eq!(
        transform,
        TransformParams {
            scale: [num(0.5), num(2.0)],
            translate: [num(1.0), num(-1.0)],
        }
    );
    assert_eq!(
        serde_json::to_string(&transform.to_json_object()).unwrap(),
        "{\"scale\":[0.5,2.0],\"translate\":[1.0,-1.0]}"
    );
    assert_eq!(JsonObject::from(&transform), transform.to_json_object());
}

#[test]
fn the_first_error_of_a_topology_is_reported() {
    // `bbox` is read before `objects`, `objects` before `transform`,
    // `transform` before `arcs`
    assert_eq!(
        parse("{\"type\":\"Topology\",\"bbox\":1,\"transform\":1}"),
        Err(Error::BboxExpectedArray)
    );
    assert_eq!(
        parse("{\"type\":\"Topology\",\"transform\":1}"),
        Err(Error::TopologyExpectedObjects)
    );
    assert_eq!(
        parse("{\"type\":\"Topology\",\"objects\":{},\"transform\":1}"),
        Err(Error::ExpectedObjectValue)
    );
    // among the objects the one whose name comes first is read first
    assert_eq!(
        parse("{\"type\":\"Topology\",\"arcs\":[],\"objects\":{\"b\":1,\"a\":{\"type\":\"Point\"}}}"),
        Err(Error::ExpectedProperty("coordinates".to_string()))
    );
}

#[test]
fn conversions_between_the_kinds_of_object() {
    let topo = topology_of("{\"type\":\"Topology\",\"arcs\":[],\"objects\":{}}");
    let both = TopoJson::from(topo);
    assert!(matches!(both, TopoJson::Topology(_)));
    let back: Option<Topology> = both.into();
    assert_eq!(
        back,
        Some(Topology {
            bbox: None,
            objects: vec![],
            transform: None,
            arcs: vec![]
        })
    );
    let geometry = TopoJson::from(line(vec![0]));
    let none: Option<Topology> = geometry.into();
    assert_eq!(none, None);
}
