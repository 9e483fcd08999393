use crate::i2c::{lemma_seq_lookup_wf, lemma_set_bit, seq_lookup, spec_bit, spec_poll, spec_update};
use crate::i2c::{I2CDeviceTree, TreeV};
use crate::util::{io_name_from_mqtt_topic, mqtt_state_topic_from_io_name, spec_split,
    spec_state_topic, str_eq};
use vstd::prelude::*;

verus! {

/// One commanded or observed change of a pin's logical state. Created once,
/// sent over the internal channel, published, then discarded.
pub struct StateChange {
    pub io_name: String,
    pub state: bool,
}

impl View for StateChange {
    type V = (Seq<char>, bool);

    open spec fn view(&self) -> (Seq<char>, bool) {
        (self.io_name@, self.state)
    }
}

/// The boolean a command payload stands for; only the two recognized
/// literals command anything, every other payload is ignored.
pub open spec fn spec_payload_value(p: Seq<char>) -> Option<bool> {
    if p == "ON"@ {
        Some(true)
    } else if p == "OFF"@ {
        Some(false)
    } else {
        None
    }
}

/// What one inbound broker message does to the tree, and the state-change
/// event it emits: a topic of at least four segments whose third segment
/// names a mapped output pin, together with a recognized payload, updates
/// that pin and echoes the change; everything else changes nothing and
/// emits nothing.
pub open spec fn spec_handle_command(t: TreeV, topic: Seq<char>, payload: Seq<char>) -> (
    TreeV,
    Option<(Seq<char>, bool)>,
) {
    let parts = spec_split(topic);
    if parts.len() < 4 {
        (t, None)
    } else {
        let name = parts[2];
        match spec_payload_value(payload) {
            None => (t, None),
            Some(v) => if seq_lookup(t.out_pins, name) is Some {
                (spec_update(t, name, v), Some((name, v)))
            } else {
                (t, None)
            },
        }
    }
}

/// Applies one inbound command message to the device tree and returns the
/// state-change event to echo back, if the message commanded anything.
pub fn handle_command(tree: &mut I2CDeviceTree, topic: &str, payload: &str) -> (r: Option<
    StateChange,
>)
    requires
        old(tree)@.wf(),
    ensures
        final(tree)@.wf(),
        final(tree)@ == spec_handle_command(old(tree)@, topic@, payload@).0,
        match r {
            Some(ev) => spec_handle_command(old(tree)@, topic@, payload@).1 == Some(ev@),
            None => spec_handle_command(old(tree)@, topic@, payload@).1 is None,
        },
{
    let name = match io_name_from_mqtt_topic(topic) {
        Some(n) => n,
        None => {
            return None;
        },
    };
    let value: bool;
    if str_eq(payload, "ON") {
        value = true;
    } else if str_eq(payload, "OFF") {
        value = false;
    } else {
        return None;
    }
    if tree.update(name, value) {
        Some(StateChange { io_name: name.to_owned(), state: value })
    } else {
        None
    }
}

/// The retained message that echoes one state change: the pin's state topic
/// and the payload literal for its new value.
pub fn state_message(change: &StateChange) -> (m: (String, String))
    ensures
        m.0@ == spec_state_topic(change.io_name@),
        m.1@ == if change.state {
            "ON"@
        } else {
            "OFF"@
        },
{
    let topic = mqtt_state_topic_from_io_name(change.io_name.as_str());
    let payload = if change.state {
        String::from_str("ON")
    } else {
        String::from_str("OFF")
    };
    (topic, payload)
}

// ------------------------------------------------------------------
// Laws of the bridge
// ------------------------------------------------------------------

/// A valid command addressed at a mapped output pin emits exactly one
/// state-change event, carrying that pin's name and the commanded value;
/// the pin's device is dirty immediately afterwards, and the next poll
/// sweep leaves it clean with the commanded register value intact.
pub proof fn lemma_command_event_and_flush(t: TreeV, topic: Seq<char>, payload: Seq<char>)
    requires
        t.wf(),
        spec_split(topic).len() >= 4,
        spec_payload_value(payload) is Some,
        seq_lookup(t.out_pins, spec_split(topic)[2]) is Some,
    ensures
        ({
            let name = spec_split(topic)[2];
            let value = spec_payload_value(payload)->Some_0;
            let pin = seq_lookup(t.out_pins, name)->Some_0;
            let t1 = spec_handle_command(t, topic, payload).0;
            &&& spec_handle_command(t, topic, payload).1 == Some((name, value))
            &&& t1.outputs[pin.dev].dirty
            &&& spec_bit(t1.outputs[pin.dev].states, pin.pos) == value
            &&& !spec_poll(t1).outputs[pin.dev].dirty
            &&& spec_poll(t1).outputs[pin.dev].states == t1.outputs[pin.dev].states
        }),
{
    let name = spec_split(topic)[2];
    let value = spec_payload_value(payload)->Some_0;
    let pin = seq_lookup(t.out_pins, name)->Some_0;
    lemma_seq_lookup_wf(t.out_pins, name, t.outputs.len() as int);
    lemma_set_bit(t.outputs[pin.dev].states, pin.pos, value);
}

/// A message with a malformed topic, an unrecognized payload, or an
/// unmapped pin name mutates no device and emits no event.
pub proof fn lemma_unmapped_command_is_ignored(t: TreeV, topic: Seq<char>, payload: Seq<char>)
    requires
        spec_split(topic).len() < 4 || spec_payload_value(payload) is None || seq_lookup(
            t.out_pins,
            spec_split(topic)[2],
        ) is None,
    ensures
        spec_handle_command(t, topic, payload) == (t, None::<(Seq<char>, bool)>),
{
}

/// Repeating one command is not deduplicated: the second identical command
/// emits the same event as the first, since handling a command never
/// changes the pin mappings.
pub proof fn lemma_repeated_command_same_event(t: TreeV, topic: Seq<char>, payload: Seq<char>)
    requires
        t.wf(),
    ensures
        spec_handle_command(spec_handle_command(t, topic, payload).0, topic, payload).1
            == spec_handle_command(t, topic, payload).1,
{
    let t1 = spec_handle_command(t, topic, payload).0;
    assert(t1.out_pins == t.out_pins);
}

} // verus!
