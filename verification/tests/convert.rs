use jyt::{Converter, Ext};

const JSON: &str = r#"{
  "title": "TOML Example",
  "owner": {
    "name": "Tom Preston-Werner"
  },
  "database": {
    "server": "192.168.1.1",
    "ports": [
      8000,
      8001,
      8002
    ],
    "connection_max": 5000,
    "enabled": true
  }
}"#;

const YAML: &str = r#"title: TOML Example
owner:
  name: Tom Preston-Werner
database:
  server: 192.168.1.1
  ports:
  - 8000
  - 8001
  - 8002
  connection_max: 5000
  enabled: true
"#;

const TOML: &str = r#"title = "TOML Example"

[owner]
name = "Tom Preston-Werner"

[database]
server = "192.168.1.1"
ports = [8000, 8001, 8002]
connection_max = 5000
enabled = true
"#;

#[test]
fn convert_json_to_yaml() {
    let output = JSON.to_string().to_yaml(Ext::Json);
    assert!(output.is_ok());
    assert_eq!(output.unwrap(), YAML.to_string());
}

#[test]
fn convert_json_to_toml() {
    let output = JSON.to_string().to_toml(Ext::Json);
    assert!(output.is_ok());
    assert_eq!(output.unwrap(), TOML.to_string());
}

#[test]
fn convert_yaml_to_json() {
    let output = YAML.to_string().to_json(Ext::Yaml);
    assert!(output.is_ok());
    assert_eq!(output.unwrap(), JSON.to_string());
}

#[test]
fn convert_yaml_to_toml() {
    let output = YAML.to_string().to_toml(Ext::Yaml);
    assert!(output.is_ok());
    assert_eq!(output.unwrap(), TOML.to_string());
}

#[test]
fn convert_toml_to_json() {
    let output = TOML.to_string().to_json(Ext::Toml);
    assert!(output.is_ok());
    assert_eq!(output.unwrap(), JSON.to_string());
}

#[test]
fn convert_toml_to_yaml() {
    let output = TOML.to_string().to_yaml(Ext::Toml);
    assert!(output.is_ok());
    assert_eq!(output.unwrap(), YAML.to_string());
}
