use crate::config::{ios_view, IoV, IO};
use crate::util::{mqtt_command_topic_from_io_name, mqtt_state_topic_from_io_name,
    spec_command_topic, spec_state_topic};
use vstd::prelude::*;

verus! {

/// The announcement record for one switch entity, as the hub expects it.
pub struct EntityInfo {
    pub component: String,
    pub name: String,
    pub payload_off: String,
    pub payload_on: String,
    pub state_topic: String,
    pub json_attributes_topic: String,
    pub command_topic: String,
    pub unique_id: String,
}

/// The attributes topic for one I/O name.
pub open spec fn spec_attributes_topic(io_name: Seq<char>) -> Seq<char> {
    "hmd/switch/"@ + io_name + "/attributes"@
}

/// The hub's discovery topic for one switch entity.
pub open spec fn spec_discovery_topic(io_name: Seq<char>) -> Seq<char> {
    "homeassistant/switch/"@ + io_name + "/config"@
}

/// Relies on uuid::Uuid::new_v4 and its hyphenated text form: a fresh
/// identifier, random per process start; nothing is promised of its value.
#[verifier::external_body]
fn generate_uuid() -> (r: String) {
    uuid::Uuid::new_v4().to_string()
}

/// The announcement record for one output pin, with the given unique
/// identifier and every other field derived from the pin name.
pub fn entity_info_for_pin(pin: &str, unique_id: String) -> (e: EntityInfo)
    ensures
        e.component@ == "switch"@,
        e.name@ == pin@,
        e.payload_off@ == "OFF"@,
        e.payload_on@ == "ON"@,
        e.state_topic@ == spec_state_topic(pin@),
        e.json_attributes_topic@ == spec_attributes_topic(pin@),
        e.command_topic@ == spec_command_topic(pin@),
        e.unique_id == unique_id,
{
    let mut attrs = String::from_str("hmd/switch/");
    attrs.append(pin);
    attrs.append("/attributes");
    EntityInfo {
        component: String::from_str("switch"),
        name: pin.to_owned(),
        payload_off: String::from_str("OFF"),
        payload_on: String::from_str("ON"),
        state_topic: mqtt_state_topic_from_io_name(pin),
        json_attributes_topic: attrs,
        command_topic: mqtt_command_topic_from_io_name(pin),
        unique_id,
    }
}

/// One discovery announcement: where to publish it, and the entity record
/// that becomes its payload.
pub struct Discovery {
    pub discovery_topic: String,
    pub entity: EntityInfo,
}

/// All pin names of a list of device specifications, in announcement order.
pub open spec fn spec_all_pins(ios: Seq<IoV>) -> Seq<Seq<char>>
    decreases ios.len(),
{
    if ios.len() == 0 {
        Seq::empty()
    } else {
        ios[0].pins + spec_all_pins(ios.drop_first())
    }
}

/// A discovery announcement is consistent: its topic and every field of its
/// entity record, except the fresh unique identifier, derive from the
/// entity's pin name.
pub open spec fn spec_discovery_ok(m: Discovery) -> bool {
    &&& m.discovery_topic@ == spec_discovery_topic(m.entity.name@)
    &&& m.entity.component@ == "switch"@
    &&& m.entity.payload_off@ == "OFF"@
    &&& m.entity.payload_on@ == "ON"@
    &&& m.entity.state_topic@ == spec_state_topic(m.entity.name@)
    &&& m.entity.json_attributes_topic@ == spec_attributes_topic(m.entity.name@)
    &&& m.entity.command_topic@ == spec_command_topic(m.entity.name@)
}

/// One consistent discovery announcement per configured output pin, in
/// configuration order, each with a fresh unique identifier.
pub fn discovery_messages(ios: &Vec<IO>) -> (msgs: Vec<Discovery>)
    ensures
        msgs@.map_values(|m: Discovery| m.entity.name@) == spec_all_pins(ios_view(ios@)),
        forall|j: int| 0 <= j < msgs@.len() ==> spec_discovery_ok(#[trigger] msgs@[j]),
{
    let ghost iv = ios_view(ios@);
    let mut msgs: Vec<Discovery> = Vec::new();
    let mut k: usize = 0;
    proof {
        assert(iv.skip(0) =~= iv);
        assert(msgs@.map_values(|m: Discovery| m.entity.name@) =~= Seq::<Seq<char>>::empty());
        assert(msgs@.map_values(|m: Discovery| m.entity.name@) + spec_all_pins(iv.skip(0)) =~=
        spec_all_pins(iv));
    }
    while k < ios.len()
        invariant
            k <= ios.len(),
            iv == ios_view(ios@),
            iv.len() == ios@.len(),
            msgs@.map_values(|m: Discovery| m.entity.name@) + spec_all_pins(iv.skip(k as int))
                == spec_all_pins(iv),
            forall|j: int| 0 <= j < msgs@.len() ==> spec_discovery_ok(#[trigger] msgs@[j]),
        decreases ios.len() - k,
    {
        proof {
            assert(iv.skip(k as int)[0] == iv[k as int]);
            assert(iv[k as int] == ios@[k as int]@);
            assert(iv.skip(k as int).drop_first() =~= iv.skip(k as int + 1));
        }
        let io = &ios[k];
        let ghost done0 = msgs@.map_values(|m: Discovery| m.entity.name@);
        let mut p: usize = 0;
        proof {
            assert(iv[k as int].pins.skip(0) =~= iv[k as int].pins);
            assert(done0 + iv[k as int].pins.skip(0) + spec_all_pins(iv.skip(k as int + 1)) =~=
            spec_all_pins(iv));
        }
        while p < io.pins.len()
            invariant
                p <= io.pins.len(),
                iv == ios_view(ios@),
                k < ios@.len() == iv.len(),
                io == ios@[k as int],
                iv[k as int] == ios@[k as int]@,
                iv[k as int].pins.len() == io.pins@.len(),
                msgs@.map_values(|m: Discovery| m.entity.name@) + iv[k as int].pins.skip(p as int)
                    + spec_all_pins(iv.skip(k as int + 1)) == spec_all_pins(iv),
                forall|j: int| 0 <= j < msgs@.len() ==> spec_discovery_ok(#[trigger] msgs@[j]),
            decreases io.pins.len() - p,
        {
            proof {
                assert(iv[k as int].pins[p as int] == io.pins@[p as int].deep_view());
                assert(iv[k as int].pins.skip(p as int)[0] == iv[k as int].pins[p as int]);
                assert(iv[k as int].pins.skip(p as int).drop_first() =~= iv[k as int].pins.skip(
                    p as int + 1,
                ));
            }
            let pin = &io.pins[p];
            let ghost pre = msgs@.map_values(|m: Discovery| m.entity.name@);
            let uid = generate_uuid();
            let entity = entity_info_for_pin(pin.as_str(), uid);
            let mut dt = String::from_str("homeassistant/switch/");
            dt.append(pin.as_str());
            dt.append("/config");
            msgs.push(Discovery { discovery_topic: dt, entity });
            proof {
                assert(msgs@.map_values(|m: Discovery| m.entity.name@) =~= pre.push(
                    iv[k as int].pins[p as int],
                ));
                assert(pre.push(iv[k as int].pins[p as int]) + iv[k as int].pins.skip(p as int + 1)
                    =~= pre + iv[k as int].pins.skip(p as int));
                assert(msgs@.map_values(|m: Discovery| m.entity.name@) + iv[k as int].pins.skip(
                    p as int + 1,
                ) + spec_all_pins(iv.skip(k as int + 1)) =~= spec_all_pins(iv));
            }
            p = p + 1;
        }
        proof {
            assert(iv[k as int].pins.skip(p as int) =~= Seq::<Seq<char>>::empty());
            assert(msgs@.map_values(|m: Discovery| m.entity.name@) + spec_all_pins(
                iv.skip(k as int + 1),
            ) =~= spec_all_pins(iv));
        }
        k = k + 1;
    }
    proof {
        assert(iv.skip(k as int) =~= Seq::<IoV>::empty());
        assert(msgs@.map_values(|m: Discovery| m.entity.name@) =~= spec_all_pins(iv));
    }
    msgs
}

} // verus!
