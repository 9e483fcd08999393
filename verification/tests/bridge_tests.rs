use i2c_mqtt_gateway::bridge::{handle_command, state_message};
use i2c_mqtt_gateway::config::{Config, Connection, Credentials, Mqtt, IOs, I2C, IO};
use i2c_mqtt_gateway::homeassistant::{discovery_messages, entity_info_for_pin};
use i2c_mqtt_gateway::i2c::{I2CDeviceTree, I2COutput};

fn config_with_output_pins(pins: Vec<String>) -> Config {
    Config {
        mqtt: Mqtt {
            connection: Connection {
                host: "localhost".to_string(),
                port: 1883,
                id: "mqtt_client".to_string(),
            },
            credentials: Credentials { user: "user".to_string(), password: "pass".to_string() },
        },
        i2c: I2C { device: "/dev/i2c-1".to_string() },
        ios: IOs {
            inputs: Vec::new(),
            outputs: vec![IO { address: 0x21, chip: "PCF8574".to_string(), pins }],
        },
    }
}

#[test]
fn round_trip_on() {
    let config = config_with_output_pins(vec!["p1".to_string()]);
    let mut tree = I2CDeviceTree::new(&config).unwrap();
    let ev = handle_command(&mut tree, "hmd/switch/p1/command", "ON").unwrap();
    assert_eq!(ev.io_name, "p1");
    assert!(ev.state);
    let (topic, payload) = state_message(&ev);
    assert_eq!(topic, "hmd/switch/p1/state");
    assert_eq!(payload, "ON");
}

#[test]
fn round_trip_off() {
    let config = config_with_output_pins(vec!["p1".to_string()]);
    let mut tree = I2CDeviceTree::new(&config).unwrap();
    let ev = handle_command(&mut tree, "hmd/switch/p1/command", "OFF").unwrap();
    assert_eq!(ev.io_name, "p1");
    assert!(!ev.state);
    let (topic, payload) = state_message(&ev);
    assert_eq!(topic, "hmd/switch/p1/state");
    assert_eq!(payload, "OFF");
}

#[test]
fn unrecognized_payload_is_ignored() {
    let config = config_with_output_pins(vec!["p1".to_string()]);
    let mut tree = I2CDeviceTree::new(&config).unwrap();
    assert!(handle_command(&mut tree, "hmd/switch/p1/command", "TOGGLE").is_none());
    assert!(!tree.outputs[0].is_dirty());
    assert_eq!(tree.outputs[0].register(), 0);
}

#[test]
fn unmapped_pin_yields_no_event() {
    let config = config_with_output_pins(vec!["p1".to_string()]);
    let mut tree = I2CDeviceTree::new(&config).unwrap();
    assert!(handle_command(&mut tree, "hmd/switch/p9/command", "ON").is_none());
    assert!(!tree.outputs[0].is_dirty());
    assert_eq!(tree.outputs[0].register(), 0);
}

#[test]
fn malformed_topic_yields_no_event() {
    let config = config_with_output_pins(vec!["p1".to_string()]);
    let mut tree = I2CDeviceTree::new(&config).unwrap();
    assert!(handle_command(&mut tree, "hmd/switch", "ON").is_none());
    assert!(!tree.outputs[0].is_dirty());
}

#[test]
fn repeated_command_repeats_the_event() {
    let config = config_with_output_pins(vec!["p1".to_string()]);
    let mut tree = I2CDeviceTree::new(&config).unwrap();
    let first = handle_command(&mut tree, "hmd/switch/p1/command", "ON").unwrap();
    let second = handle_command(&mut tree, "hmd/switch/p1/command", "ON").unwrap();
    assert_eq!(first.io_name, second.io_name);
    assert_eq!(first.state, second.state);
    assert_eq!(tree.outputs[0].register(), 0b0000_0001);
}

#[test]
fn command_then_sweep_clears_dirty() {
    let config = config_with_output_pins(vec!["p1".to_string()]);
    let mut tree = I2CDeviceTree::new(&config).unwrap();
    handle_command(&mut tree, "hmd/switch/p1/command", "ON").unwrap();
    assert!(tree.outputs[0].is_dirty());
    let writes = tree.poll_outputs();
    assert_eq!(writes, vec![(0x21, 0b0000_0001)]);
    assert!(!tree.outputs[0].is_dirty());
    assert_eq!(tree.outputs[0].register(), 0b0000_0001);
}

#[test]
fn entity_info_fields_derive_from_pin_name() {
    let e = entity_info_for_pin("p1", "fixed-id".to_string());
    assert_eq!(e.component, "switch");
    assert_eq!(e.name, "p1");
    assert_eq!(e.payload_on, "ON");
    assert_eq!(e.payload_off, "OFF");
    assert_eq!(e.state_topic, "hmd/switch/p1/state");
    assert_eq!(e.command_topic, "hmd/switch/p1/command");
    assert_eq!(e.json_attributes_topic, "hmd/switch/p1/attributes");
    assert_eq!(e.unique_id, "fixed-id");
}

#[test]
fn discovery_covers_every_output_pin() {
    let config = config_with_output_pins(vec!["p1".to_string(), "p2".to_string()]);
    let msgs = discovery_messages(&config.ios.outputs);
    assert_eq!(msgs.len(), 2);
    assert_eq!(msgs[0].entity.name, "p1");
    assert_eq!(msgs[0].discovery_topic, "homeassistant/switch/p1/config");
    assert_eq!(msgs[1].entity.name, "p2");
    assert_eq!(msgs[1].discovery_topic, "homeassistant/switch/p2/config");
    assert!(!msgs[0].entity.unique_id.is_empty());
}
