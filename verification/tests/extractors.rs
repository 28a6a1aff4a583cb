use serde_json::{Number, Value};
use topojson::util::{
    expect_array, expect_f64, expect_i32, expect_object, expect_owned_array, expect_owned_object,
    expect_property, expect_string, expect_type, get_arc_ix, get_arc_ix_1d, get_arc_ix_2d,
    get_arcs_position, get_bbox, get_coords_1d_pos, get_coords_one_pos, get_foreign_members,
    get_geometries, get_id, get_objects, get_properties, get_scale_translate, json_to_1d_arc_indexes,
    json_to_1d_positions, json_to_2d_arc_indexes, json_to_arc_indexes, json_to_arc_positions,
    json_to_position,
};
use topojson::{
    get_object, json_value_into_json_object, Error, Geometry, GeometryValue, JsonObject,
    NamedGeometry, TransformParams, Type,
};

fn num(x: f64) -> Number {
    Number::from_f64(x).unwrap()
}

fn value(text: &str) -> Value {
    serde_json::from_str(text).unwrap()
}

fn object(text: &str) -> JsonObject {
    match value(text) {
        Value::Object(m) => m,
        _ => panic!("not an object"),
    }
}

#[test]
fn type_names() {
    assert_eq!(Type::from_str("Point"), Some(Type::Point));
    assert_eq!(Type::from_str("MultiPoint"), Some(Type::MultiPoint));
    assert_eq!(Type::from_str("LineString"), Some(Type::LineString));
    assert_eq!(Type::from_str("MultiLineString"), Some(Type::MultiLineString));
    assert_eq!(Type::from_str("Polygon"), Some(Type::Polygon));
    assert_eq!(Type::from_str("MultiPolygon"), Some(Type::MultiPolygon));
    assert_eq!(
        Type::from_str("GeometryCollection"),
        Some(Type::GeometryCollection)
    );
    assert_eq!(Type::from_str("Topology"), Some(Type::Topology));
    assert_eq!(Type::from_str("point"), None);
    assert_eq!(Type::from_str("Point "), None);
    assert_eq!(Type::from_str(""), None);
    assert_eq!(Type::from_str("Feature"), None);
}

#[test]
fn the_text_must_hold_an_object() {
    assert_eq!(get_object("{\"a\":1}"), Ok(object("{\"a\":1}")));
    assert_eq!(get_object("{}"), Ok(JsonObject::new()));
    assert_eq!(get_object("[]"), Err(Error::MalformedJson));
    assert_eq!(get_object("1"), Err(Error::MalformedJson));
    assert_eq!(get_object("{\"a\":"), Err(Error::MalformedJson));
    assert_eq!(get_object(""), Err(Error::MalformedJson));
    assert_eq!(
        json_value_into_json_object(value("{\"a\":[1]}")),
        Some(object("{\"a\":[1]}"))
    );
    assert_eq!(json_value_into_json_object(value("[{}]")), None);
    assert_eq!(json_value_into_json_object(Value::Null), None);
}

#[test]
fn expect_type_takes_the_member_out() {
    let mut o = object("{\"type\":\"Point\",\"rest\":1}");
    assert_eq!(expect_type(&mut o), Ok("Point".to_string()));
    assert_eq!(o, object("{\"rest\":1}"));
    assert_eq!(
        expect_type(&mut o),
        Err(Error::ExpectedProperty("type".to_string()))
    );
    let mut o = object("{\"type\":1,\"rest\":1}");
    assert_eq!(expect_type(&mut o), Err(Error::ExpectedStringValue));
    assert_eq!(o, object("{\"rest\":1}"));
}

#[test]
fn expect_property_takes_the_member_out() {
    let mut o = object("{\"a\":[1],\"b\":2}");
    assert_eq!(expect_property(&mut o, "a"), Ok(value("[1]")));
    assert_eq!(o, object("{\"b\":2}"));
    assert_eq!(
        expect_property(&mut o, "a"),
        Err(Error::ExpectedProperty("a".to_string()))
    );
    assert_eq!(o, object("{\"b\":2}"));
}

#[test]
fn expect_string_value() {
    assert_eq!(expect_string(value("\"a b\"")), Ok("a b".to_string()));
    assert_eq!(expect_string(value("\"\"")), Ok(String::new()));
    assert_eq!(expect_string(value("1")), Err(Error::ExpectedStringValue));
    assert_eq!(expect_string(Value::Null), Err(Error::ExpectedStringValue));
}

#[test]
fn expect_f64_reads_every_number_as_a_real() {
    assert_eq!(expect_f64(&value("1.5")), Ok(num(1.5)));
    assert_eq!(expect_f64(&value("3")), Ok(num(3.0)));
    assert_eq!(expect_f64(&value("-3")), Ok(num(-3.0)));
    assert_eq!(
        expect_f64(&value("18446744073709551615")),
        Ok(num(18446744073709551615.0))
    );
    assert_eq!(expect_f64(&value("\"1\"")), Err(Error::ExpectedF64Value));
    assert_eq!(expect_f64(&value("null")), Err(Error::ExpectedF64Value));
    assert_eq!(expect_f64(&value("[1]")), Err(Error::ExpectedF64Value));
}

#[test]
fn expect_i32_takes_the_integers_of_its_range() {
    assert_eq!(expect_i32(&value("0")), Ok(0));
    assert_eq!(expect_i32(&value("-7")), Ok(-7));
    assert_eq!(expect_i32(&value("2147483647")), Ok(i32::MAX));
    assert_eq!(expect_i32(&value("-2147483648")), Ok(i32::MIN));
    // an integer that is out of range is no arc index
    assert_eq!(expect_i32(&value("4294967296")), Err(Error::Expectedi32Value));
    assert_eq!(expect_i32(&value("4294967301")), Err(Error::Expectedi32Value));
    assert_eq!(expect_i32(&value("2147483648")), Err(Error::Expectedi32Value));
    assert_eq!(expect_i32(&value("-2147483649")), Err(Error::Expectedi32Value));
    assert_eq!(expect_i32(&value("-4294967297")), Err(Error::Expectedi32Value));
    assert_eq!(
        expect_i32(&value("9223372036854775807")),
        Err(Error::Expectedi32Value)
    );
    assert_eq!(
        expect_i32(&value("-9223372036854775808")),
        Err(Error::Expectedi32Value)
    );
    assert_eq!(expect_i32(&value("1.0")), Err(Error::Expectedi32Value));
    assert_eq!(
        expect_i32(&value("9223372036854775808")),
        Err(Error::Expectedi32Value)
    );
    assert_eq!(expect_i32(&value("\"1\"")), Err(Error::Expectedi32Value));
    assert_eq!(expect_i32(&value("true")), Err(Error::Expectedi32Value));
}

#[test]
fn expect_array_and_object() {
    let v = value("[1,\"a\"]");
    assert_eq!(
        expect_array(&v),
        Ok(&vec![Value::from(1), Value::String("a".to_string())])
    );
    assert_eq!(expect_array(&value("{}")), Err(Error::ExpectedArrayValue));
    assert_eq!(expect_array(&value("1")), Err(Error::ExpectedArrayValue));
    let v = value("{\"a\":1}");
    assert_eq!(expect_object(&v), Ok(&object("{\"a\":1}")));
    assert_eq!(expect_object(&value("[]")), Err(Error::ExpectedObjectValue));
    assert_eq!(
        expect_owned_array(value("[[],2]")),
        Ok(vec![Value::Array(vec![]), Value::from(2)])
    );
    assert_eq!(
        expect_owned_array(value("\"x\"")),
        Err(Error::ExpectedArrayValue)
    );
    assert_eq!(
        expect_owned_object(value("{\"k\":null}")),
        Ok(object("{\"k\":null}"))
    );
    assert_eq!(
        expect_owned_object(value("null")),
        Err(Error::ExpectedObjectValue)
    );
}

#[test]
fn nested_arrays_of_numbers() {
    assert_eq!(
        json_to_position(&value("[1,2.5,-3]")),
        Ok(vec![num(1.0), num(2.5), num(-3.0)])
    );
    assert_eq!(json_to_position(&value("[]")), Ok(vec![]));
    assert_eq!(
        json_to_position(&value("[1,[2]]")),
        Err(Error::ExpectedF64Value)
    );
    assert_eq!(json_to_position(&value("1")), Err(Error::ExpectedArrayValue));
    assert_eq!(
        json_to_1d_positions(&value("[[1,2],[3]]")),
        Ok(vec![vec![num(1.0), num(2.0)], vec![num(3.0)]])
    );
    assert_eq!(
        json_to_1d_positions(&value("[[1,2],3]")),
        Err(Error::ExpectedArrayValue)
    );
    assert_eq!(
        json_to_arc_positions(&value("[[[1,2]],[]]")),
        Ok(vec![vec![vec![num(1.0), num(2.0)]], vec![]])
    );
    assert_eq!(
        json_to_arc_positions(&value("[[[1,null]]]")),
        Err(Error::ExpectedF64Value)
    );
    // the first item that is not as expected gives the error
    assert_eq!(
        json_to_1d_positions(&value("[[\"x\"],3]")),
        Err(Error::ExpectedF64Value)
    );
    assert_eq!(
        json_to_1d_positions(&value("[3,[\"x\"]]")),
        Err(Error::ExpectedArrayValue)
    );
}

#[test]
fn nested_arrays_of_integers() {
    assert_eq!(json_to_arc_indexes(&value("[0,-1,7]")), Ok(vec![0, -1, 7]));
    assert_eq!(
        json_to_arc_indexes(&value("[0,1.5]")),
        Err(Error::Expectedi32Value)
    );
    assert_eq!(
        json_to_arc_indexes(&value("[0,4294967296]")),
        Err(Error::Expectedi32Value)
    );
    assert_eq!(
        json_to_arc_indexes(&value("{}")),
        Err(Error::ExpectedArrayValue)
    );
    assert_eq!(
        json_to_1d_arc_indexes(&value("[[0],[],[1,2]]")),
        Ok(vec![vec![0], vec![], vec![1, 2]])
    );
    assert_eq!(
        json_to_1d_arc_indexes(&value("[0]")),
        Err(Error::ExpectedArrayValue)
    );
    assert_eq!(
        json_to_2d_arc_indexes(&value("[[[0]],[[1],[2]]]")),
        Ok(vec![vec![vec![0]], vec![vec![1], vec![2]]])
    );
    assert_eq!(
        json_to_2d_arc_indexes(&value("[[[0]],[[\"1\"]]]")),
        Err(Error::Expectedi32Value)
    );
}

#[test]
fn members_of_a_geometry_are_taken_out() {
    let mut o = object("{\"coordinates\":[1,2],\"x\":0}");
    assert_eq!(get_coords_one_pos(&mut o), Ok(vec![num(1.0), num(2.0)]));
    assert_eq!(o, object("{\"x\":0}"));
    assert_eq!(
        get_coords_one_pos(&mut o),
        Err(Error::ExpectedProperty("coordinates".to_string()))
    );

    let mut o = object("{\"coordinates\":[[1,2]],\"x\":0}");
    assert_eq!(get_coords_1d_pos(&mut o), Ok(vec![vec![num(1.0), num(2.0)]]));
    assert_eq!(o, object("{\"x\":0}"));

    let mut o = object("{\"arcs\":[1,-2],\"x\":0}");
    assert_eq!(get_arc_ix(&mut o), Ok(vec![1, -2]));
    assert_eq!(o, object("{\"x\":0}"));
    assert_eq!(
        get_arc_ix(&mut o),
        Err(Error::ExpectedProperty("arcs".to_string()))
    );

    let mut o = object("{\"arcs\":[[1],[-2]]}");
    assert_eq!(get_arc_ix_1d(&mut o), Ok(vec![vec![1], vec![-2]]));
    assert_eq!(o, JsonObject::new());

    let mut o = object("{\"arcs\":[[[1]]]}");
    assert_eq!(get_arc_ix_2d(&mut o), Ok(vec![vec![vec![1]]]));
    assert_eq!(o, JsonObject::new());

    // the member is taken out even where it is not as expected
    let mut o = object("{\"arcs\":[[[1.5]]],\"x\":0}");
    assert_eq!(get_arc_ix_2d(&mut o), Err(Error::Expectedi32Value));
    assert_eq!(o, object("{\"x\":0}"));
}

#[test]
fn geometries_are_taken_out() {
    let mut o = object(
        "{\"geometries\":[{\"type\":\"Point\",\"coordinates\":[1,2]},{\"type\":\"LineString\",\"arcs\":[0]}],\"x\":0}",
    );
    assert_eq!(
        get_geometries(&mut o),
        Ok(vec![
            Geometry::new(GeometryValue::Point(vec![num(1.0), num(2.0)])),
            Geometry::new(GeometryValue::LineString(vec![0])),
        ])
    );
    assert_eq!(o, object("{\"x\":0}"));
    assert_eq!(
        get_geometries(&mut o),
        Err(Error::ExpectedProperty("geometries".to_string()))
    );
}

#[test]
fn id_bbox_and_properties_are_taken_out() {
    let mut o = object("{\"id\":\"a\",\"bbox\":[1,2],\"properties\":{\"p\":1},\"x\":0}");
    assert_eq!(get_id(&mut o), Ok(Some(Value::String("a".to_string()))));
    assert_eq!(get_id(&mut o), Ok(None));
    assert_eq!(get_bbox(&mut o), Ok(Some(vec![num(1.0), num(2.0)])));
    assert_eq!(get_bbox(&mut o), Ok(None));
    assert_eq!(get_properties(&mut o), Ok(Some(object("{\"p\":1}"))));
    assert_eq!(get_properties(&mut o), Ok(None));
    assert_eq!(o, object("{\"x\":0}"));
    assert_eq!(get_foreign_members(o), Ok(Some(object("{\"x\":0}"))));
    assert_eq!(get_foreign_members(JsonObject::new()), Ok(None));

    let mut o = object("{\"bbox\":[],\"properties\":null}");
    assert_eq!(get_bbox(&mut o), Ok(Some(vec![])));
    assert_eq!(get_properties(&mut o), Ok(None));
    assert_eq!(o, JsonObject::new());

    let mut o = object("{\"bbox\":\"no\",\"properties\":3}");
    assert_eq!(get_bbox(&mut o), Err(Error::BboxExpectedArray));
    assert_eq!(
        get_properties(&mut o),
        Err(Error::PropertiesExpectedObjectOrNull)
    );
    assert_eq!(o, JsonObject::new());
}

#[test]
fn members_of_a_topology_are_taken_out() {
    let mut o = object(
        "{\"arcs\":[[[1,2]]],\"objects\":{\"b\":{\"type\":\"LineString\",\"arcs\":[0]},\"a\":{\"type\":\"Point\",\"coordinates\":[0,0]}},\"transform\":{\"scale\":[1,2],\"translate\":[3,4]},\"x\":0}",
    );
    assert_eq!(
        get_objects(&mut o),
        Ok(vec![
            NamedGeometry {
                name: "a".to_string(),
                geometry: Geometry::new(GeometryValue::Point(vec![num(0.0), num(0.0)])),
            },
            NamedGeometry {
                name: "b".to_string(),
                geometry: Geometry::new(GeometryValue::LineString(vec![0])),
            },
        ])
    );
    assert_eq!(get_objects(&mut o), Err(Error::TopologyExpectedObjects));
    assert_eq!(
        get_scale_translate(&mut o),
        Ok(Some(TransformParams {
            scale: [num(1.0), num(2.0)],
            translate: [num(3.0), num(4.0)],
        }))
    );
    assert_eq!(get_scale_translate(&mut o), Ok(None));
    assert_eq!(
        get_arcs_position(&mut o),
        Ok(vec![vec![vec![num(1.0), num(2.0)]]])
    );
    assert_eq!(get_arcs_position(&mut o), Err(Error::TopologyExpectedArcs));
    assert_eq!(o, object("{\"x\":0}"));
}
