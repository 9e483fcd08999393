use i2c_mqtt_gateway::config::ConfigParser;

#[test]
fn test_parse_config_success() {
    let yaml_str = r#"
mqtt:
  connection:
    host: "localhost"
    port: 1883
    id: "mqtt_client"
  credentials:
    user: "user"
    password: "pass"
i2c:
  device: /dev/i2c-0
ios:
  inputs:
  - address: 0x20
    chip: PCF8574
    pins: []
  outputs:
  - address: 0x21
    chip: MAX7311
    pins:
      - one
      - two
      - three
  - address: 0x22
    chip: PCF8574
"#;

    let result = yaml_str.parse_config();
    assert!(result.is_ok());

    let config = result.unwrap();
    assert_eq!(config.mqtt.connection.host, "localhost");
    assert_eq!(config.mqtt.connection.port, 1883);
    assert_eq!(config.mqtt.connection.id, "mqtt_client");
    assert_eq!(config.mqtt.credentials.user, "user");
    assert_eq!(config.mqtt.credentials.password, "pass");
}

#[test]
fn test_parse_config_failure() {
    let invalid_yaml_str = r#"
mqtt:
  connection:
    host: "localhost"
    port: "not_a_number"
    id: "mqtt_client"
  credentials:
    user: "user"
    password: "pass"
"#;

    let result = invalid_yaml_str.parse_config();
    assert!(result.is_err());

    if let Err(error) = result {
        let error_msg = format!("{:#}", error);
        assert!(
            error_msg.contains("Failed to parse YAML document"),
            "Unexpected error message: {}",
            error_msg
        );
        assert!(
            error_msg.contains("invalid type: string \"not_a_number\", expected u16"),
            "Unexpected error message: {}",
            error_msg
        );
    }
}

#[test]
fn test_parse_config_defaults() {
    let yaml_str = r#"
mqtt:
  connection:
    host: "localhost"
    port: 1883
    id: "mqtt_client"
  credentials:
    user: "user"
    password: "pass"
i2c: {}
ios:
  inputs: []
  outputs: []
"#;

    let config = yaml_str.parse_config().unwrap();
    assert_eq!(config.i2c.device, "/dev/i2c-1");
    assert!(config.ios.inputs.is_empty());
    assert!(config.ios.outputs.is_empty());
}

#[test]
fn test_parse_config_missing_field() {
    let yaml_str = r#"
mqtt:
  connection:
    host: "localhost"
    port: 1883
  credentials:
    user: "user"
    password: "pass"
i2c: {}
ios:
  inputs: []
  outputs: []
"#;

    let result = yaml_str.parse_config();
    match result {
        Ok(_) => panic!("expected a missing-field error"),
        Err(msg) => {
            assert!(msg.contains("missing field `id`"), "Unexpected error message: {}", msg);
        }
    }
}

#[test]
fn test_parse_config_pins_default_to_empty() {
    let yaml_str = r#"
mqtt:
  connection:
    host: "h"
    port: 1
    id: "i"
  credentials:
    user: "u"
    password: "p"
i2c: {}
ios:
  inputs: []
  outputs:
  - address: 0x22
    chip: PCF8574
"#;

    let config = yaml_str.parse_config().unwrap();
    assert_eq!(config.ios.outputs.len(), 1);
    assert_eq!(config.ios.outputs[0].address, 0x22);
    assert_eq!(config.ios.outputs[0].chip, "PCF8574");
    assert!(config.ios.outputs[0].pins.is_empty());
}
