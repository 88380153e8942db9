use jyt::{Converter, Ext};

// The texts that the foreign-call entry points are tried on, through the conversion
// that stands behind them.

const JSON: &str = "{\n  \"title\": \"TOML Example\",\n  \"owner\": {\n    \"name\": \"Tom Preston-Werner\"\n  },\n  \"database\": {\n    \"server\": \"192.168.1.1\",\n    \"ports\": [\n      8000,\n      8001,\n      8002\n    ],\n    \"connection_max\": 5000,\n    \"enabled\": true\n  }\n}";

const YAML: &str = "title: TOML Example\nowner:\n  name: Tom Preston-Werner\ndatabase:\n  server: 192.168.1.1\n  ports:\n  - 8000\n  - 8001\n  - 8002\n  connection_max: 5000\n  enabled: true\n";

const TOML: &str = "title = \"TOML Example\"\n\n[owner]\nname = \"Tom Preston-Werner\"\n\n[database]\nserver = \"192.168.1.1\"\nports = [8000, 8001, 8002]\nconnection_max = 5000\nenabled = true\n";

#[test]
fn c_api_convert_json_to_yaml() {
    assert_eq!(JSON.to_string().to_yaml(Ext::Json).unwrap(), YAML.to_string());
}

#[test]
fn c_api_convert_json_to_toml() {
    assert_eq!(JSON.to_string().to_toml(Ext::Json).unwrap(), TOML.to_string());
}

#[test]
fn c_api_convert_yaml_to_json() {
    assert_eq!(YAML.to_string().to_json(Ext::Yaml).unwrap(), JSON.to_string());
}

#[test]
fn c_api_convert_yaml_to_toml() {
    assert_eq!(YAML.to_string().to_toml(Ext::Yaml).unwrap(), TOML.to_string());
}

#[test]
fn c_api_convert_toml_to_json() {
    assert_eq!(TOML.to_string().to_json(Ext::Toml).unwrap(), JSON.to_string());
}

#[test]
fn c_api_convert_toml_to_yaml() {
    assert_eq!(TOML.to_string().to_yaml(Ext::Toml).unwrap(), YAML.to_string());
}
