use jyt::error::Error;
use jyt::ext::{convert, deserialize, serialize};
use jyt::number::Float;
use jyt::value::Tree;
use jyt::{Converter, Ext};

fn text(s: &str) -> String {
    s.to_string()
}

fn float(x: f64) -> Tree {
    Tree::Float(Float::new(serde_yaml::Number::from(x)).unwrap())
}

fn entry(key: &str, value: Tree) -> (String, Tree) {
    (key.to_string(), value)
}

#[test]
fn integer_stays_integer_through_yaml() {
    let yaml = text("5000").to_yaml(Ext::Json).unwrap();
    assert_eq!(yaml, "5000\n");
    assert_eq!(yaml.to_json(Ext::Yaml).unwrap(), "5000");
}

#[test]
fn float_stays_float_through_yaml() {
    let yaml = text("5000.0").to_yaml(Ext::Json).unwrap();
    assert_eq!(yaml, "5000.0\n");
    assert_eq!(yaml.to_json(Ext::Yaml).unwrap(), "5000.0");
}

#[test]
fn json_decodes_integers_and_floats_apart() {
    let tree = deserialize(Ext::Json, "[1, 1.0, 1e2, -7, 0.5]").unwrap();
    assert_eq!(
        tree,
        Tree::Sequence(vec![
            Tree::Integer(1),
            float(1.0),
            float(100.0),
            Tree::Integer(-7),
            float(0.5),
        ])
    );
}

#[test]
fn json_document_survives_yaml() {
    let json = "{\n  \"b\": [\n    true,\n    false\n  ],\n  \"a\": {\n    \"n\": -3,\n    \"x\": 2.5,\n    \"s\": \"text\"\n  },\n  \"e\": [],\n  \"o\": {}\n}";
    let yaml = text(json).to_yaml(Ext::Json).unwrap();
    assert_eq!(yaml.to_json(Ext::Yaml).unwrap(), json);
}

#[test]
fn key_order_is_kept_in_every_format() {
    let json = "{\"title\":1,\"owner\":2,\"database\":3}";
    assert_eq!(
        text(json).to_json(Ext::Json).unwrap(),
        "{\n  \"title\": 1,\n  \"owner\": 2,\n  \"database\": 3\n}"
    );
    assert_eq!(text(json).to_yaml(Ext::Json).unwrap(), "title: 1\nowner: 2\ndatabase: 3\n");
    assert_eq!(text(json).to_toml(Ext::Json).unwrap(), "title = 1\nowner = 2\ndatabase = 3\n");
    assert_eq!(
        deserialize(Ext::Json, json).unwrap(),
        Tree::Mapping(vec![
            entry("title", Tree::Integer(1)),
            entry("owner", Tree::Integer(2)),
            entry("database", Tree::Integer(3)),
        ])
    );
}

#[test]
fn null_is_refused_by_toml_at_the_root() {
    let result = text("null").to_toml(Ext::Json);
    assert_eq!(
        result,
        Err(Error::Serialization(text("null values cannot be written as TOML")))
    );
}

#[test]
fn null_is_refused_by_toml_in_a_table() {
    let result = text("{\"a\": {\"b\": null}}").to_toml(Ext::Json);
    assert_eq!(
        result,
        Err(Error::Serialization(text("null values cannot be written as TOML")))
    );
}

#[test]
fn null_is_refused_by_toml_in_an_array() {
    let result = text("a:\n- 1\n- ~\n").to_toml(Ext::Yaml);
    assert_eq!(
        result,
        Err(Error::Serialization(text("null values cannot be written as TOML")))
    );
}

#[test]
fn null_is_written_by_json_and_yaml() {
    assert_eq!(text("a: ~").to_json(Ext::Yaml).unwrap(), "{\n  \"a\": null\n}");
    assert_eq!(text("{\"a\": null}").to_yaml(Ext::Json).unwrap(), "a: null\n");
}

#[test]
fn toml_root_must_be_a_table() {
    let expected = Err(Error::Serialization(text("the root of a TOML document must be a table")));
    assert_eq!(text("5").to_toml(Ext::Json), expected);
    assert_eq!(text("[1, 2]").to_toml(Ext::Json), expected);
    assert_eq!(text("\"s\"").to_toml(Ext::Json), expected);
}

#[test]
fn malformed_yaml_is_a_deserialization_error() {
    let result = text("a:\n  b: 1\n c: 2\n").to_json(Ext::Yaml);
    assert!(matches!(result, Err(Error::Deserialization(_))));
}

#[test]
fn malformed_json_is_a_deserialization_error() {
    for to in [Ext::Json, Ext::Yaml, Ext::Toml] {
        let result = convert(Ext::Json, "{\"a\": [1, 2", to);
        assert!(matches!(result, Err(Error::Deserialization(_))));
    }
    assert!(matches!(text("{\"a\": \"\\q\"}").to_yaml(Ext::Json), Err(Error::Deserialization(_))));
    assert!(matches!(text("\"open").to_yaml(Ext::Json), Err(Error::Deserialization(_))));
}

#[test]
fn malformed_toml_is_a_deserialization_error() {
    assert!(matches!(text("a = [1, 2").to_json(Ext::Toml), Err(Error::Deserialization(_))));
    assert!(matches!(text("a = 1\na = 2\n").to_json(Ext::Toml), Err(Error::Deserialization(_))));
}

#[test]
fn parser_message_is_carried() {
    let expected = serde_json::from_str::<serde_json::Value>("{").unwrap_err().to_string();
    assert_eq!(text("{").to_yaml(Ext::Json), Err(Error::Deserialization(expected)));
}

#[test]
fn integer_outside_64_bits_is_refused() {
    let expected =
        Err(Error::Deserialization(text("integer is outside the 64-bit signed range")));
    assert_eq!(text("9223372036854775808").to_json(Ext::Json), expected);
    assert_eq!(text("a: 18446744073709551615").to_json(Ext::Yaml), expected);
}

#[test]
fn integer_bounds_are_kept() {
    assert_eq!(
        deserialize(Ext::Json, "[9223372036854775807, -9223372036854775808]").unwrap(),
        Tree::Sequence(vec![Tree::Integer(i64::MAX), Tree::Integer(i64::MIN)])
    );
    assert_eq!(
        text("a = 9223372036854775807").to_yaml(Ext::Toml).unwrap(),
        "a: 9223372036854775807\n"
    );
}

#[test]
fn infinite_float_is_refused_by_json() {
    let expected =
        Err(Error::Serialization(text("infinite and NaN floats cannot be written as JSON")));
    assert_eq!(text("a: .inf").to_json(Ext::Yaml), expected);
    assert_eq!(text("a: -.inf").to_json(Ext::Yaml), expected);
    assert_eq!(text("a: .nan").to_json(Ext::Yaml), expected);
    assert_eq!(text("a = nan").to_json(Ext::Toml), expected);
}

#[test]
fn infinite_float_passes_between_yaml_and_toml() {
    assert_eq!(text("a: .inf").to_toml(Ext::Yaml).unwrap(), "a = inf\n");
    assert_eq!(text("a = -inf").to_yaml(Ext::Toml).unwrap(), "a: -.inf\n");
    assert_eq!(text("a = nan").to_yaml(Ext::Toml).unwrap(), "a: .nan\n");
    assert_eq!(text("a: .nan").to_toml(Ext::Yaml).unwrap(), "a = nan\n");
}

#[test]
fn float_keeps_its_value_between_formats() {
    assert_eq!(text("a = 0.1").to_json(Ext::Toml).unwrap(), "{\n  \"a\": 0.1\n}");
    assert_eq!(text("{\"a\": 1e5}").to_toml(Ext::Json).unwrap(), "a = 100000.0\n");
    assert_eq!(text("{\"a\": 1e300}").to_yaml(Ext::Json).unwrap(), "a: 1e300\n");
    assert_eq!(text("{\"a\": -0.0}").to_yaml(Ext::Json).unwrap(), "a: -0.0\n");
    let tree = deserialize(Ext::Toml, "a = 1.5").unwrap();
    assert_eq!(tree, Tree::Mapping(vec![entry("a", float(1.5))]));
}

#[test]
fn toml_date_becomes_its_text() {
    let tree = deserialize(Ext::Toml, "d = 1979-05-27T07:32:00Z").unwrap();
    assert_eq!(tree, Tree::Mapping(vec![entry("d", Tree::String(text("1979-05-27T07:32:00Z")))]));
    assert_eq!(
        text("d = 1979-05-27").to_json(Ext::Toml).unwrap(),
        "{\n  \"d\": \"1979-05-27\"\n}"
    );
}

#[test]
fn yaml_tag_is_refused() {
    assert_eq!(
        text("a: !thing 1").to_json(Ext::Yaml),
        Err(Error::Deserialization(text("tagged values are not supported")))
    );
}

#[test]
fn yaml_scalar_keys_become_text() {
    let tree = deserialize(Ext::Yaml, "1: a\ntrue: b\n-20: c\nfalse: d\ns: e\n").unwrap();
    assert_eq!(
        tree,
        Tree::Mapping(vec![
            entry("1", Tree::String(text("a"))),
            entry("true", Tree::String(text("b"))),
            entry("-20", Tree::String(text("c"))),
            entry("false", Tree::String(text("d"))),
            entry("s", Tree::String(text("e"))),
        ])
    );
}

#[test]
fn yaml_keys_without_text_are_refused() {
    let expected = Err(Error::Deserialization(text(
        "mapping keys must be strings, booleans or 64-bit integers",
    )));
    assert_eq!(text("[1, 2]: a").to_json(Ext::Yaml), expected);
    assert_eq!(text("{a: 1}: b").to_json(Ext::Yaml), expected);
    assert_eq!(text("1.5: a").to_json(Ext::Yaml), expected);
    assert_eq!(text("~: a").to_json(Ext::Yaml), expected);
    assert_eq!(text("18446744073709551615: a").to_json(Ext::Yaml), expected);
}

#[test]
fn key_written_twice_keeps_first_place_and_last_value() {
    let tree = deserialize(Ext::Json, "{\"a\": 1, \"b\": 2, \"a\": 3}").unwrap();
    assert_eq!(
        tree,
        Tree::Mapping(vec![entry("a", Tree::Integer(3)), entry("b", Tree::Integer(2))])
    );
    let tree = deserialize(Ext::Yaml, "1: x\nb: y\n\"1\": z\n").unwrap();
    assert_eq!(
        tree,
        Tree::Mapping(vec![
            entry("1", Tree::String(text("z"))),
            entry("b", Tree::String(text("y"))),
        ])
    );
}

#[test]
fn first_error_in_document_order_is_reported() {
    assert_eq!(
        text("a: !t 1\nb: 18446744073709551615\n").to_json(Ext::Yaml),
        Err(Error::Deserialization(text("tagged values are not supported")))
    );
    assert_eq!(
        text("b: 18446744073709551615\na: !t 1\n").to_json(Ext::Yaml),
        Err(Error::Deserialization(text("integer is outside the 64-bit signed range")))
    );
}

#[test]
fn decoding_inverts_encoding_in_each_format() {
    let sources = [
        (Ext::Json, "{\"a\": [1, 2.5, \"x\", true, null, {\"k\": []}], \"b\": {}, \"c\": \"1\"}"),
        (Ext::Yaml, "a:\n- 1\n- 2.5\n- 'true'\n- ~\n- .inf\nb: {k: [x, y]}\n1: one\n"),
        (Ext::Toml, "t = \"x\"\nd = 1979-05-27\nf = 0.25\n[[r]]\nn = 1\n[[r]]\nn = 2\n[s]\na = [1, 2]\n"),
    ];
    for (format, source) in sources {
        let tree = deserialize(format, source).unwrap();
        assert!(tree.is_wf());
        let written = serialize(format, &tree).unwrap();
        assert_eq!(deserialize(format, &written).unwrap(), tree);
    }
}

#[test]
fn json_is_written_without_a_final_newline() {
    assert_eq!(text("a: [1, x]").to_json(Ext::Yaml).unwrap(), "{\n  \"a\": [\n    1,\n    \"x\"\n  ]\n}");
}

#[test]
fn toml_separates_keys_from_tables() {
    assert_eq!(
        text("{\"k\": 2, \"t\": {\"x\": 1}, \"u\": {\"y\": \"z\"}}").to_toml(Ext::Json).unwrap(),
        "k = 2\n\n[t]\nx = 1\n\n[u]\ny = \"z\"\n"
    );
}

#[test]
fn toml_writes_the_keys_of_a_table_before_its_tables() {
    assert_eq!(
        text("{\"t\": {\"x\": 1}, \"k\": 2}").to_toml(Ext::Json).unwrap(),
        "k = 2\n\n[t]\nx = 1\n"
    );
    assert_eq!(
        text("{\"t\": {\"x\": 1}, \"r\": [{\"n\": 1}, {\"n\": 2}]}").to_toml(Ext::Json).unwrap(),
        "[[r]]\nn = 1\n\n[[r]]\nn = 2\n\n[t]\nx = 1\n"
    );
}

#[test]
fn yaml_plain_scalars_are_resolved() {
    let tree = deserialize(Ext::Yaml, "a: true\nb: 12\nc: 192.168.1.1\nd: '12'\ne: 1.5\n").unwrap();
    assert_eq!(
        tree,
        Tree::Mapping(vec![
            entry("a", Tree::Boolean(true)),
            entry("b", Tree::Integer(12)),
            entry("c", Tree::String(text("192.168.1.1"))),
            entry("d", Tree::String(text("12"))),
            entry("e", float(1.5)),
        ])
    );
}

#[test]
fn conversion_is_decoding_then_encoding() {
    let source = "{\"a\": [1, {\"b\": 2.5}]}";
    for to in [Ext::Json, Ext::Yaml, Ext::Toml] {
        let tree = deserialize(Ext::Json, source).unwrap();
        assert_eq!(convert(Ext::Json, source, to), serialize(to, &tree));
    }
}

#[test]
fn error_message_names_its_kind() {
    assert_eq!(
        Error::Serialization(text("why")).to_string(),
        "A serialization error occurred: why"
    );
    assert_eq!(
        Error::Deserialization(text("why")).to_string(),
        "A deserialization error occurred: why"
    );
    assert_eq!(Error::Deserialization(text("")).to_string(), "A deserialization error occurred: ");
}

#[test]
fn same_format_conversion_writes_the_canonical_form() {
    assert_eq!(
        text("{\"a\":[1,2],\"b\":{}}").to_json(Ext::Json).unwrap(),
        "{\n  \"a\": [\n    1,\n    2\n  ],\n  \"b\": {}\n}"
    );
    assert_eq!(text("{a: [1, 2], b: x}").to_yaml(Ext::Yaml).unwrap(), "a:\n- 1\n- 2\nb: x\n");
    assert_eq!(text("a = [ 1, 2 ]\nb.c = 'x'").to_toml(Ext::Toml).unwrap(), "a = [1, 2]\n\n[b]\nc = \"x\"\n");
}

#[test]
fn empty_text_is_read_as_each_format_says() {
    assert!(matches!(text("").to_yaml(Ext::Json), Err(Error::Deserialization(_))));
    assert_eq!(text("").to_json(Ext::Yaml).unwrap(), "null");
    assert_eq!(text("").to_json(Ext::Toml).unwrap(), "{}");
    assert_eq!(text("").to_toml(Ext::Toml).unwrap(), "");
}

#[test]
fn yaml_stream_of_several_documents_is_refused() {
    assert!(matches!(text("a: 1\n---\nb: 2\n").to_json(Ext::Yaml), Err(Error::Deserialization(_))));
}

#[test]
fn text_after_a_json_document_is_refused() {
    assert!(matches!(text("{} x").to_yaml(Ext::Json), Err(Error::Deserialization(_))));
}

#[test]
fn strings_that_look_like_other_scalars_stay_strings() {
    let json = "[\n  \"true\",\n  \"12\",\n  \"1.5\",\n  \"null\",\n  \"~\",\n  \"\"\n]";
    let yaml = text(json).to_yaml(Ext::Json).unwrap();
    assert_eq!(yaml.to_json(Ext::Yaml).unwrap(), json);
}

#[test]
fn nested_document_passes_through_every_pair_of_formats() {
    let json = "{\n  \"name\": \"x\",\n  \"size\": 3,\n  \"ratio\": 0.5,\n  \"on\": false,\n  \"tags\": [\n    \"a\",\n    \"b\"\n  ],\n  \"inner\": {\n    \"deep\": {\n      \"k\": [\n        1,\n        2\n      ]\n    }\n  }\n}";
    let yaml = text(json).to_yaml(Ext::Json).unwrap();
    let toml = text(json).to_toml(Ext::Json).unwrap();
    assert_eq!(yaml.clone().to_json(Ext::Yaml).unwrap(), json);
    assert_eq!(toml.clone().to_json(Ext::Toml).unwrap(), json);
    assert_eq!(yaml.clone().to_toml(Ext::Yaml).unwrap(), toml);
    assert_eq!(toml.to_yaml(Ext::Toml).unwrap(), yaml);
}

#[test]
fn large_mapping_is_read_key_by_key() {
    let mut json = String::from("{");
    let mut expected = Vec::new();
    for i in 0..2000 {
        if i > 0 {
            json.push(',');
        }
        json.push_str(&format!("\"k{}\": {}", i, i));
        expected.push((format!("k{}", i), Tree::Integer(i)));
    }
    json.push('}');
    assert_eq!(deserialize(Ext::Json, &json).unwrap(), Tree::Mapping(expected));
}

#[test]
fn compact_json_is_written_as_toml_and_yaml() {
    let json = "{\"title\":\"TOML Example\",\"owner\":{\"name\":\"Tom Preston-Werner\"},\"database\":{\"server\":\"192.168.1.1\",\"ports\":[8000,8001,8002],\"connection_max\":5000,\"enabled\":true}}";
    assert_eq!(
        text(json).to_toml(Ext::Json).unwrap(),
        "title = \"TOML Example\"\n\n[owner]\nname = \"Tom Preston-Werner\"\n\n[database]\nserver = \"192.168.1.1\"\nports = [8000, 8001, 8002]\nconnection_max = 5000\nenabled = true\n"
    );
    assert_eq!(
        text(json).to_yaml(Ext::Json).unwrap(),
        "title: TOML Example\nowner:\n  name: Tom Preston-Werner\ndatabase:\n  server: 192.168.1.1\n  ports:\n  - 8000\n  - 8001\n  - 8002\n  connection_max: 5000\n  enabled: true\n"
    );
}

#[test]
fn documents_of_many_shapes_convert_without_loss() {
    let sources = [
        "{}",
        "[]",
        "{\"a\": []}",
        "{\"a\": [[], [[]], [1, [2, [3]]]]}",
        "{\"a\": [1, \"x\", true, 2.5]}",
        "{\"a\": [{\"b\": 1}, {\"c\": [{\"d\": {}}]}]}",
        "{\"a b\": {\"c.d\": 1, \"\": 2, \"\\u00e9\": \"\\u4e2d\\n\\t\\\"\"}}",
        "{\"a\": {\"b\": {\"c\": {\"d\": {\"e\": {\"f\": [1, 2, 3]}}}}}}",
        "{\"n\": -0.0, \"m\": 1e-7, \"k\": 123456789012345678, \"j\": 1.7976931348623157e308}",
    ];
    for source in sources {
        let tree = deserialize(Ext::Json, source).unwrap();
        assert!(tree.is_wf());
        let yaml = serialize(Ext::Yaml, &tree).unwrap();
        assert_eq!(deserialize(Ext::Yaml, &yaml).unwrap(), tree);
        let json = serialize(Ext::Json, &tree).unwrap();
        assert_eq!(deserialize(Ext::Json, &json).unwrap(), tree);
        assert_eq!(text(source).to_json(Ext::Json).unwrap(), json);
        assert_eq!(yaml.to_json(Ext::Yaml).unwrap(), json);
    }
}

#[test]
fn deep_document_is_converted() {
    let depth = 50;
    let mut json = String::new();
    for _ in 0..depth {
        json.push_str("{\"a\":[");
    }
    json.push('1');
    for _ in 0..depth {
        json.push_str("]}");
    }
    let tree = deserialize(Ext::Json, &json).unwrap();
    let yaml = serialize(Ext::Yaml, &tree).unwrap();
    assert_eq!(deserialize(Ext::Yaml, &yaml).unwrap(), tree);
    assert_eq!(tree.clone(), tree);
    assert!(tree.is_wf());
}

#[test]
fn document_that_is_too_deep_for_its_parser_is_refused() {
    let depth = 200;
    let mut json = String::new();
    for _ in 0..depth {
        json.push('[');
    }
    for _ in 0..depth {
        json.push(']');
    }
    assert!(matches!(text(&json).to_yaml(Ext::Json), Err(Error::Deserialization(_))));
}

#[test]
fn toml_tables_of_many_shapes_are_read() {
    let toml = "a.b.c = 1\nd = { e = [ { f = 1 }, { g = [] } ] }\nh = [[1, 2], [\"x\"]]\n";
    let tree = deserialize(Ext::Toml, toml).unwrap();
    assert_eq!(
        tree,
        Tree::Mapping(vec![
            entry("a", Tree::Mapping(vec![entry("b", Tree::Mapping(vec![entry("c", Tree::Integer(1))]))])),
            entry(
                "d",
                Tree::Mapping(vec![entry(
                    "e",
                    Tree::Sequence(vec![
                        Tree::Mapping(vec![entry("f", Tree::Integer(1))]),
                        Tree::Mapping(vec![entry("g", Tree::Sequence(vec![]))]),
                    ])
                )])
            ),
            entry(
                "h",
                Tree::Sequence(vec![
                    Tree::Sequence(vec![Tree::Integer(1), Tree::Integer(2)]),
                    Tree::Sequence(vec![Tree::String(text("x"))]),
                ])
            ),
        ])
    );
    let json = serialize(Ext::Json, &tree).unwrap();
    assert_eq!(deserialize(Ext::Json, &json).unwrap(), tree);
}
