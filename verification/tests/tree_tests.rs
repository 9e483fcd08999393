use i2c_mqtt_gateway::config::{Config, Connection, Credentials, Mqtt, IOs, I2C, IO};
use i2c_mqtt_gateway::i2c::{I2CDeviceTree, I2CError, I2COutput, PCF8574};

fn config_with_ios(inputs: Vec<IO>, outputs: Vec<IO>) -> Config {
    Config {
        mqtt: Mqtt {
            connection: Connection {
                host: "localhost".to_string(),
                port: 1883,
                id: "mqtt_client".to_string(),
            },
            credentials: Credentials { user: "user".to_string(), password: "pass".to_string() },
        },
        i2c: I2C { device: "/dev/i2c-1".to_string() },
        ios: IOs { inputs, outputs },
    }
}

fn one_chip_two_pins() -> Config {
    config_with_ios(
        Vec::new(),
        vec![IO {
            address: 0x21,
            chip: "PCF8574".to_string(),
            pins: vec!["p1".to_string(), "p2".to_string()],
        }],
    )
}

#[test]
fn update_sets_bit_and_marks_dirty() {
    let config = one_chip_two_pins();
    let mut tree = I2CDeviceTree::new(&config).unwrap();
    assert!(!tree.outputs[0].is_dirty());
    assert!(tree.update("p1", true));
    assert!(tree.outputs[0].is_dirty());
    assert_eq!(tree.outputs[0].register(), 0b0000_0001);
    assert_eq!(tree.outputs[0].address(), 0x21);
}

#[test]
fn no_cross_pin_clobber() {
    let config = one_chip_two_pins();
    let mut tree = I2CDeviceTree::new(&config).unwrap();
    assert!(tree.update("p1", true));
    assert!(tree.update("p2", false));
    assert_eq!(tree.outputs[0].register(), 0b0000_0001);
    assert!(tree.update("p2", true));
    assert_eq!(tree.outputs[0].register(), 0b0000_0011);
    assert!(tree.update("p1", false));
    assert_eq!(tree.outputs[0].register(), 0b0000_0010);
}

#[test]
fn unmapped_pin_changes_nothing() {
    let config = one_chip_two_pins();
    let mut tree = I2CDeviceTree::new(&config).unwrap();
    assert!(tree.update("p1", true));
    assert!(!tree.update("p9", true));
    assert_eq!(tree.outputs[0].register(), 0b0000_0001);
    let writes = tree.poll_outputs();
    assert_eq!(writes, vec![(0x21, 0b0000_0001)]);
    assert!(!tree.update("p9", false));
    assert!(!tree.outputs[0].is_dirty());
}

#[test]
fn poll_drains_dirty_devices() {
    let config = config_with_ios(
        Vec::new(),
        vec![
            IO { address: 0x21, chip: "PCF8574".to_string(), pins: vec!["a".to_string()] },
            IO { address: 0x22, chip: "PCF8574".to_string(), pins: vec!["b".to_string()] },
        ],
    );
    let mut tree = I2CDeviceTree::new(&config).unwrap();
    assert!(tree.update("b", true));
    let writes = tree.poll_outputs();
    assert_eq!(writes, vec![(0x22, 0b0000_0001)]);
    assert!(!tree.outputs[0].is_dirty());
    assert!(!tree.outputs[1].is_dirty());
    assert_eq!(tree.outputs[1].register(), 0b0000_0001);
    let writes_again = tree.poll_outputs();
    assert!(writes_again.is_empty());
}

#[test]
fn updates_to_distinct_devices_commute() {
    let two_chips = || {
        vec![
            IO { address: 0x21, chip: "PCF8574".to_string(), pins: vec!["a".to_string()] },
            IO { address: 0x22, chip: "PCF8574".to_string(), pins: vec!["b".to_string()] },
        ]
    };
    let config_one = config_with_ios(Vec::new(), two_chips());
    let config_two = config_with_ios(Vec::new(), two_chips());

    let mut first = I2CDeviceTree::new(&config_one).unwrap();
    assert!(first.update("a", true));
    assert!(first.update("b", true));

    let mut second = I2CDeviceTree::new(&config_two).unwrap();
    assert!(second.update("b", true));
    assert!(second.update("a", true));

    assert_eq!(first.outputs[0].register(), second.outputs[0].register());
    assert_eq!(first.outputs[1].register(), second.outputs[1].register());
    assert_eq!(first.outputs[0].is_dirty(), second.outputs[0].is_dirty());
    assert_eq!(first.outputs[1].is_dirty(), second.outputs[1].is_dirty());
}

#[test]
fn unknown_chip_is_refused() {
    let config = config_with_ios(
        Vec::new(),
        vec![IO { address: 0x21, chip: "MAX7311".to_string(), pins: vec!["one".to_string()] }],
    );
    assert_eq!(I2CDeviceTree::new(&config).unwrap_err(), I2CError::UnknownChip);
}

#[test]
fn duplicate_pin_is_refused() {
    let config = config_with_ios(
        Vec::new(),
        vec![IO {
            address: 0x21,
            chip: "PCF8574".to_string(),
            pins: vec!["p1".to_string(), "p1".to_string()],
        }],
    );
    assert_eq!(I2CDeviceTree::new(&config).unwrap_err(), I2CError::DuplicatePin);
}

#[test]
fn duplicate_pin_across_chips_is_refused() {
    let config = config_with_ios(
        Vec::new(),
        vec![
            IO { address: 0x21, chip: "PCF8574".to_string(), pins: vec!["p1".to_string()] },
            IO { address: 0x22, chip: "PCF8574".to_string(), pins: vec!["p1".to_string()] },
        ],
    );
    assert_eq!(I2CDeviceTree::new(&config).unwrap_err(), I2CError::DuplicatePin);
}

#[test]
fn too_many_pins_is_refused() {
    let pins: Vec<String> = (0..9).map(|i| format!("p{}", i)).collect();
    let config = config_with_ios(
        Vec::new(),
        vec![IO { address: 0x21, chip: "PCF8574".to_string(), pins }],
    );
    assert_eq!(I2CDeviceTree::new(&config).unwrap_err(), I2CError::TooManyPins);
}

#[test]
fn input_and_output_may_share_a_name() {
    let config = config_with_ios(
        vec![IO { address: 0x20, chip: "PCF8574".to_string(), pins: vec!["p1".to_string()] }],
        vec![IO { address: 0x21, chip: "PCF8574".to_string(), pins: vec!["p1".to_string()] }],
    );
    let mut tree = I2CDeviceTree::new(&config).unwrap();
    assert!(tree.update("p1", true));
    assert_eq!(tree.outputs[0].register(), 0b0000_0001);
    assert!(!tree.inputs[0].is_dirty());
}

#[test]
fn set_at_out_of_range_is_recoverable() {
    let mut d = PCF8574::new(0x21);
    assert_eq!(d.set_at(9, true), Err(I2CError::OffsetOutOfRange));
    assert!(!d.is_dirty());
    assert_eq!(d.register(), 0);
    assert_eq!(d.set_at(7, true), Ok(()));
    assert!(d.is_dirty());
    assert_eq!(d.register(), 0b1000_0000);
}
