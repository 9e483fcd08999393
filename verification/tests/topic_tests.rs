use i2c_mqtt_gateway::util::{
    io_name_from_mqtt_topic, mqtt_command_topic_from_io_name, mqtt_state_topic_from_io_name,
};

#[test]
fn topic_with_four_segments_names_the_io() {
    assert_eq!(io_name_from_mqtt_topic("hmd/switch/my_io/state"), Some("my_io"));
    assert_eq!(io_name_from_mqtt_topic("hmd/switch/p1/state"), Some("p1"));
    assert_eq!(io_name_from_mqtt_topic("hmd/switch/p1/command"), Some("p1"));
}

#[test]
fn short_topic_names_no_io() {
    assert_eq!(io_name_from_mqtt_topic("hmd/switch"), None);
    assert_eq!(io_name_from_mqtt_topic(""), None);
    assert_eq!(io_name_from_mqtt_topic("hmd/switch/p1"), None);
}

#[test]
fn extra_segments_keep_the_third() {
    assert_eq!(io_name_from_mqtt_topic("a/b/c/d/e"), Some("c"));
    assert_eq!(io_name_from_mqtt_topic("///"), Some(""));
}

#[test]
fn state_topic_from_io_name() {
    assert_eq!(mqtt_state_topic_from_io_name("my_io"), "hmd/switch/my_io/state");
}

#[test]
fn command_topic_from_io_name() {
    assert_eq!(mqtt_command_topic_from_io_name("my_io"), "hmd/switch/my_io/command");
}
