use crate::config::{Config, IoV, IO};
use crate::config::ios_view;
use crate::util::str_eq;
use vstd::prelude::*;

verus! {

// ------------------------------------------------------------------
// Register bits
// ------------------------------------------------------------------

/// Value of bit `pos` in register byte `b`.
pub open spec fn spec_bit(b: u8, pos: u8) -> bool {
    b & (1u8 << pos) != 0
}

/// Register byte `b` with bit `pos` set to `value` and every other bit kept.
pub open spec fn spec_set_bit(b: u8, pos: u8, value: bool) -> u8 {
    if value {
        b | (1u8 << pos)
    } else {
        b & !(1u8 << pos)
    }
}

/// Setting one bit changes that bit to the given value and no other bit.
pub proof fn lemma_set_bit(b: u8, pos: u8, value: bool)
    requires
        pos < 8,
    ensures
        spec_bit(spec_set_bit(b, pos, value), pos) == value,
        forall|k: u8| k < 8 && k != pos ==> spec_bit(spec_set_bit(b, pos, value), k) == spec_bit(
            b,
            k,
        ),
{
    if value {
        assert((b | (1u8 << pos)) & (1u8 << pos) != 0) by (bit_vector)
            requires
                pos < 8,
        ;
        assert(forall|k: u8|
            k < 8 && k != pos ==> ((b | (1u8 << pos)) & (1u8 << k) != 0) == (b & (1u8 << k)
                != 0)) by (bit_vector)
            requires
                pos < 8,
        ;
    } else {
        assert((b & !(1u8 << pos)) & (1u8 << pos) == 0) by (bit_vector)
            requires
                pos < 8,
        ;
        assert(forall|k: u8|
            k < 8 && k != pos ==> ((b & !(1u8 << pos)) & (1u8 << k) != 0) == (b & (1u8 << k)
                != 0)) by (bit_vector)
            requires
                pos < 8,
        ;
    }
}

/// Setting bit `i` and then clearing bit `j` of the same register leaves
/// bit `i` set, bit `j` clear, and every other bit as it was: pins on one
/// chip never clobber each other.
pub proof fn lemma_no_cross_pin_clobber(b: u8, i: u8, j: u8)
    requires
        i < 8,
        j < 8,
        i != j,
    ensures
        spec_bit(spec_set_bit(spec_set_bit(b, i, true), j, false), i),
        !spec_bit(spec_set_bit(spec_set_bit(b, i, true), j, false), j),
        forall|k: u8|
            k < 8 && k != i && k != j ==> spec_bit(
                spec_set_bit(spec_set_bit(b, i, true), j, false),
                k,
            ) == spec_bit(b, k),
{
    lemma_set_bit(b, i, true);
    lemma_set_bit(spec_set_bit(b, i, true), j, false);
}

// ------------------------------------------------------------------
// Errors
// ------------------------------------------------------------------

/// Everything the device layer can refuse.
#[derive(Debug, Clone, Copy, PartialEq, Eq, Structural)]
pub enum I2CError {
    /// A bit offset beyond the device's addressable width.
    OffsetOutOfRange,
    /// A configured chip kind this driver layer does not know.
    UnknownChip,
    /// More pins configured on one chip than it has bit offsets.
    TooManyPins,
    /// A pin name configured twice within the inputs or within the outputs.
    DuplicatePin,
}

// ------------------------------------------------------------------
// Chip capability traits
// ------------------------------------------------------------------

/// Input capability of a chip driver.
pub trait I2CInput {
    /// The last-sampled logical input state.
    spec fn sampled(&self) -> bool;

    /// Samples the physical input state into the device's cache.
    fn read(&self);

    /// Reports the last-sampled state.
    fn state(&self) -> (s: bool)
        ensures
            s == self.sampled(),
    ;
}

/// Output capability of a chip driver.
pub trait I2COutput: Sized {
    /// The commanded register value.
    spec fn reg(&self) -> u8;

    /// Whether a commanded value still awaits its physical write.
    spec fn pending(&self) -> bool;

    /// The bus address the device answers to.
    spec fn addr(&self) -> u8;

    /// How many bit offsets the device can address.
    spec fn width(&self) -> nat;

    /// Sets or clears one bit of the commanded register value and marks the
    /// device dirty. An offset beyond the device's width is a recoverable
    /// error that leaves the device unchanged.
    fn set_at(&mut self, pos: usize, value: bool) -> (r: Result<(), I2CError>)
        ensures
            r is Ok <==> pos < old(self).width(),
            r is Ok ==> final(self).width() == old(self).width() && final(self).addr() == old(
                self,
            ).addr() && final(self).reg() == spec_set_bit(old(self).reg(), pos as u8, value)
                && final(self).pending(),
            r is Err ==> *final(self) == *old(self),
    ;

    /// Hands the commanded register value to the physical write and clears
    /// the dirty flag.
    fn write(&mut self)
        ensures
            final(self).width() == old(self).width(),
            final(self).addr() == old(self).addr(),
            final(self).reg() == old(self).reg(),
            !final(self).pending(),
    ;

    /// Reports pending-write status without mutating anything.
    fn is_dirty(&self) -> (d: bool)
        ensures
            d == self.pending(),
    ;
}

// ------------------------------------------------------------------
// The reference chip driver
// ------------------------------------------------------------------

/// Ghost state of one chip: bus address, commanded register value, dirty flag.
pub ghost struct DeviceV {
    pub address: u8,
    pub states: u8,
    pub dirty: bool,
}

/// An 8-bit quasi-bidirectional port expander.
#[derive(Debug, Clone, Copy)]
pub struct PCF8574 {
    address: u8,
    states: u8,
    dirty: bool,
}

impl View for PCF8574 {
    type V = DeviceV;

    closed spec fn view(&self) -> DeviceV {
        DeviceV { address: self.address, states: self.states, dirty: self.dirty }
    }
}

impl PCF8574 {
    /// A fresh device: all bits clear, nothing pending.
    pub fn new(addr: u8) -> (d: Self)
        ensures
            d@ == (DeviceV { address: addr, states: 0, dirty: false }),
    {
        PCF8574 { address: addr, states: 0, dirty: false }
    }
}

impl I2CInput for PCF8574 {
    closed spec fn sampled(&self) -> bool {
        true
    }

    fn read(&self) {
    }

    fn state(&self) -> bool {
        true
    }
}

impl I2COutput for PCF8574 {
    closed spec fn reg(&self) -> u8 {
        self.states
    }

    closed spec fn pending(&self) -> bool {
        self.dirty
    }

    closed spec fn addr(&self) -> u8 {
        self.address
    }

    closed spec fn width(&self) -> nat {
        8
    }

    fn set_at(&mut self, pos: usize, value: bool) -> (r: Result<(), I2CError>) {
        if pos > 7 {
            return Err(I2CError::OffsetOutOfRange);
        }
        let mask: u8 = 1u8 << (pos as u8);
        if value {
            self.states = self.states | mask;
        } else {
            self.states = self.states & !mask;
        }
        self.dirty = true;
        Ok(())
    }

    fn write(&mut self) {
        self.dirty = false;
    }

    fn is_dirty(&self) -> bool {
        self.dirty
    }
}

// ------------------------------------------------------------------
// Pin mappings and the device tree model
// ------------------------------------------------------------------

/// Ghost view of one pin mapping entry: a name mapped to a device index and
/// a bit offset.
pub ghost struct PinV {
    pub name: Seq<char>,
    pub dev: int,
    pub pos: u8,
}

/// Ghost state of the whole device tree.
pub ghost struct TreeV {
    pub inputs: Seq<DeviceV>,
    pub outputs: Seq<DeviceV>,
    pub in_pins: Seq<PinV>,
    pub out_pins: Seq<PinV>,
}

/// First mapping entry carrying the given name, if any.
pub open spec fn seq_lookup(pins: Seq<PinV>, name: Seq<char>) -> Option<PinV>
    decreases pins.len(),
{
    if pins.len() == 0 {
        None
    } else if pins[0].name == name {
        Some(pins[0])
    } else {
        seq_lookup(pins.drop_first(), name)
    }
}

/// Every mapping entry points at an owned device and a bit offset inside it.
pub open spec fn wf_pins(pins: Seq<PinV>, ndev: int) -> bool {
    forall|k: int|
        0 <= k < pins.len() ==> 0 <= #[trigger] pins[k].dev < ndev && pins[k].pos < 8
}

/// A looked-up entry of a well-formed mapping carries the name and points at
/// an owned device, at an offset inside its register.
pub proof fn lemma_seq_lookup_wf(pins: Seq<PinV>, name: Seq<char>, ndev: int)
    requires
        wf_pins(pins, ndev),
    ensures
        match seq_lookup(pins, name) {
            Some(p) => p.name == name && 0 <= p.dev < ndev && p.pos < 8,
            None => true,
        },
    decreases pins.len(),
{
    if pins.len() > 0 {
        assert(0 <= pins[0].dev < ndev && pins[0].pos < 8);
        if pins[0].name != name {
            assert forall|k: int| 0 <= k < pins.drop_first().len() implies 0 <= #[trigger] pins.drop_first()[k].dev < ndev && pins.drop_first()[k].pos < 8 by {
                assert(pins.drop_first()[k] == pins[k + 1]);
                assert(0 <= pins[k + 1].dev < ndev && pins[k + 1].pos < 8);
            }
            lemma_seq_lookup_wf(pins.drop_first(), name, ndev);
        }
    }
}

impl TreeV {
    /// Well-formedness: both mappings point only at owned devices, at
    /// offsets inside an 8-bit register.
    pub open spec fn wf(self) -> bool {
        wf_pins(self.in_pins, self.inputs.len() as int) && wf_pins(
            self.out_pins,
            self.outputs.len() as int,
        )
    }
}

/// The tree after a name-addressed output update: the named pin's bit takes
/// the value and its device becomes dirty; an unmapped name changes nothing.
pub open spec fn spec_update(t: TreeV, name: Seq<char>, value: bool) -> TreeV {
    match seq_lookup(t.out_pins, name) {
        None => t,
        Some(pin) => TreeV {
            outputs: t.outputs.update(
                pin.dev,
                (DeviceV {
                    address: t.outputs[pin.dev].address,
                    states: spec_set_bit(t.outputs[pin.dev].states, pin.pos, value),
                    dirty: true,
                }),
            ),
            ..t
        },
    }
}

/// The tree after one poll sweep: every output device clean, registers kept.
pub open spec fn spec_poll(t: TreeV) -> TreeV {
    TreeV {
        outputs: Seq::new(
            t.outputs.len(),
            |k: int|
                (DeviceV {
                    address: t.outputs[k].address,
                    states: t.outputs[k].states,
                    dirty: false,
                }),
        ),
        ..t
    }
}

/// The physical writes one poll sweep performs: one `(address, value)`
/// transaction per dirty output device, in device order.
pub open spec fn spec_writes(outputs: Seq<DeviceV>) -> Seq<(u8, u8)>
    decreases outputs.len(),
{
    if outputs.len() == 0 {
        Seq::empty()
    } else {
        let rest = spec_writes(outputs.drop_last());
        if outputs.last().dirty {
            rest.push((outputs.last().address, outputs.last().states))
        } else {
            rest
        }
    }
}

// ------------------------------------------------------------------
// Building the tree from configuration
// ------------------------------------------------------------------

/// The one chip kind this driver layer knows.
pub open spec fn chip_recognized(chip: Seq<char>) -> bool {
    chip == "PCF8574"@
}

/// Mapping entries for one device's pin list, added left to right; a name
/// already mapped is a configuration error.
pub open spec fn spec_add_pins(
    pins: Seq<Seq<char>>,
    dev: int,
    pos: u8,
    entries: Seq<PinV>,
) -> Result<Seq<PinV>, I2CError>
    decreases pins.len(),
{
    if pins.len() == 0 {
        Ok(entries)
    } else if seq_lookup(entries, pins[0]) is Some {
        Err(I2CError::DuplicatePin)
    } else {
        spec_add_pins(
            pins.drop_first(),
            dev,
            (pos + 1) as u8,
            entries.push(PinV { name: pins[0], dev, pos }),
        )
    }
}

/// A fresh device's ghost state.
pub open spec fn spec_new_device(address: u8) -> DeviceV {
    DeviceV { address, states: 0, dirty: false }
}

/// Devices and mapping entries built from a list of device specifications,
/// scanned in order; the first configuration error is reported.
pub open spec fn spec_build(ios: Seq<IoV>, devs: Seq<DeviceV>, entries: Seq<PinV>) -> Result<
    (Seq<DeviceV>, Seq<PinV>),
    I2CError,
>
    decreases ios.len(),
{
    if ios.len() == 0 {
        Ok((devs, entries))
    } else if !chip_recognized(ios[0].chip) {
        Err(I2CError::UnknownChip)
    } else if ios[0].pins.len() > 8 {
        Err(I2CError::TooManyPins)
    } else {
        match spec_add_pins(ios[0].pins, devs.len() as int, 0, entries) {
            Err(e) => Err(e),
            Ok(es) => spec_build(ios.drop_first(), devs.push(spec_new_device(ios[0].address)), es),
        }
    }
}

/// The whole tree built from the configured inputs and outputs, or the
/// first configuration error found.
pub open spec fn spec_tree(inputs: Seq<IoV>, outputs: Seq<IoV>) -> Result<TreeV, I2CError> {
    match spec_build(inputs, Seq::empty(), Seq::empty()) {
        Err(e) => Err(e),
        Ok(ins) => match spec_build(outputs, Seq::empty(), Seq::empty()) {
            Err(e) => Err(e),
            Ok(outs) => Ok(
                TreeV { inputs: ins.0, outputs: outs.0, in_pins: ins.1, out_pins: outs.1 },
            ),
        },
    }
}

// ------------------------------------------------------------------
// The device tree
// ------------------------------------------------------------------

#[derive(Debug)]
struct PinEntry {
    name: String,
    dev: usize,
    pos: u8,
}

impl View for PinEntry {
    type V = PinV;

    closed spec fn view(&self) -> PinV {
        PinV { name: self.name@, dev: self.dev as int, pos: self.pos }
    }
}

/// Owns one driver instance per configured device and maps symbolic pin
/// names to `(device, bit offset)` pairs, inputs and outputs separately.
#[derive(Debug)]
pub struct I2CDeviceTree {
    pub inputs: Vec<PCF8574>,
    pub outputs: Vec<PCF8574>,
    in_pin_mapping: Vec<PinEntry>,
    out_pin_mapping: Vec<PinEntry>,
}

impl View for I2CDeviceTree {
    type V = TreeV;

    closed spec fn view(&self) -> TreeV {
        TreeV {
            inputs: self.inputs@.map_values(|d: PCF8574| d@),
            outputs: self.outputs@.map_values(|d: PCF8574| d@),
            in_pins: self.in_pin_mapping@.map_values(|e: PinEntry| e@),
            out_pins: self.out_pin_mapping@.map_values(|e: PinEntry| e@),
        }
    }
}

/// Linear scan for a pin name among the mapping entries.
fn lookup_pin(entries: &Vec<PinEntry>, name: &str) -> (r: Option<(usize, u8)>)
    ensures
        match r {
            Some(hit) => seq_lookup(entries@.map_values(|e: PinEntry| e@), name@) == Some(
                (PinV { name: name@, dev: hit.0 as int, pos: hit.1 }),
            ),
            None => seq_lookup(entries@.map_values(|e: PinEntry| e@), name@) is None,
        },
{
    let ghost es = entries@.map_values(|e: PinEntry| e@);
    let mut i: usize = 0;
    proof {
        assert(es.skip(0) =~= es);
    }
    while i < entries.len()
        invariant
            i <= entries.len(),
            es == entries@.map_values(|e: PinEntry| e@),
            seq_lookup(es, name@) == seq_lookup(es.skip(i as int), name@),
        decreases entries.len() - i,
    {
        proof {
            assert(es.skip(i as int)[0] == es[i as int]);
            assert(es[i as int] == entries@[i as int]@);
        }
        let e = &entries[i];
        if str_eq(e.name.as_str(), name) {
            return Some((e.dev, e.pos));
        }
        proof {
            assert(es.skip(i as int).drop_first() =~= es.skip(i as int + 1));
        }
        i = i + 1;
    }
    proof {
        assert(es.skip(entries.len() as int) =~= Seq::<PinV>::empty());
    }
    None
}

/// Devices and mapping entries for one half (inputs or outputs) of the
/// configuration.
fn build_half(ios: &Vec<IO>) -> (r: Result<(Vec<PCF8574>, Vec<PinEntry>), I2CError>)
    ensures
        match r {
            Ok(half) => spec_build(ios_view(ios@), Seq::empty(), Seq::empty()) == Ok::<
                _,
                I2CError,
            >(
                (half.0@.map_values(|d: PCF8574| d@), half.1@.map_values(|e: PinEntry| e@)),
            ) && wf_pins(half.1@.map_values(|e: PinEntry| e@), half.0@.len() as int),
            Err(e) => spec_build(ios_view(ios@), Seq::empty(), Seq::empty()) == Err::<
                (Seq<DeviceV>, Seq<PinV>),
                _,
            >(e),
        },
{
    let ghost iv = ios_view(ios@);
    let mut devs: Vec<PCF8574> = Vec::new();
    let mut entries: Vec<PinEntry> = Vec::new();
    let mut k: usize = 0;
    proof {
        assert(iv.skip(0) =~= iv);
        assert(devs@.map_values(|d: PCF8574| d@) =~= Seq::<DeviceV>::empty());
        assert(entries@.map_values(|e: PinEntry| e@) =~= Seq::<PinV>::empty());
    }
    while k < ios.len()
        invariant
            k <= ios.len(),
            iv == ios_view(ios@),
            iv.len() == ios@.len(),
            spec_build(iv, Seq::empty(), Seq::empty()) == spec_build(
                iv.skip(k as int),
                devs@.map_values(|d: PCF8574| d@),
                entries@.map_values(|e: PinEntry| e@),
            ),
            wf_pins(entries@.map_values(|e: PinEntry| e@), devs@.len() as int),
        decreases ios.len() - k,
    {
        proof {
            assert(iv.skip(k as int)[0] == iv[k as int]);
            assert(iv[k as int] == ios@[k as int]@);
        }
        let io = &ios[k];
        if !str_eq(io.chip.as_str(), "PCF8574") {
            proof {
                assert(spec_build(iv.skip(k as int), devs@.map_values(|d: PCF8574| d@), entries@.map_values(|e: PinEntry| e@)) == Err::<(Seq<DeviceV>, Seq<PinV>), I2CError>(I2CError::UnknownChip));
            }
            return Err(I2CError::UnknownChip);
        }
        if io.pins.len() > 8 {
            proof {
                assert(iv[k as int].pins.len() == io.pins@.len());
                assert(spec_build(iv.skip(k as int), devs@.map_values(|d: PCF8574| d@), entries@.map_values(|e: PinEntry| e@)) == Err::<(Seq<DeviceV>, Seq<PinV>), I2CError>(I2CError::TooManyPins));
            }
            return Err(I2CError::TooManyPins);
        }
        let ghost entries0 = entries@.map_values(|e: PinEntry| e@);
        let ghost devs_map = devs@.map_values(|d: PCF8574| d@);
        let ghost dev0 = devs@.len() as int;
        let mut p: usize = 0;
        proof {
            assert(iv[k as int].pins.skip(0) =~= iv[k as int].pins);
            assert(iv[k as int].pins.len() == io.pins@.len());
        }
        while p < io.pins.len()
            invariant
                p <= io.pins.len() <= 8,
                iv == ios_view(ios@),
                k < ios@.len() == iv.len(),
                iv[k as int] == ios@[k as int]@,
                io == ios@[k as int],
                iv[k as int].pins.len() == io.pins@.len(),
                chip_recognized(iv[k as int].chip),
                dev0 == devs@.len() as int,
                devs_map == devs@.map_values(|d: PCF8574| d@),
                spec_build(iv, Seq::empty(), Seq::empty()) == spec_build(
                    iv.skip(k as int),
                    devs_map,
                    entries0,
                ),
                spec_add_pins(iv[k as int].pins, dev0, 0, entries0) == spec_add_pins(
                    iv[k as int].pins.skip(p as int),
                    dev0,
                    p as u8,
                    entries@.map_values(|e: PinEntry| e@),
                ),
                wf_pins(entries@.map_values(|e: PinEntry| e@), dev0 + 1),
            decreases io.pins.len() - p,
        {
            proof {
                assert(iv[k as int].pins[p as int] == io.pins@[p as int].deep_view());
                assert(iv[k as int].pins.skip(p as int)[0] == iv[k as int].pins[p as int]);
            }
            let pin = &io.pins[p];
            let ghost pre_map = entries@.map_values(|e: PinEntry| e@);
            if lookup_pin(&entries, pin.as_str()).is_some() {
                proof {
                    assert(spec_add_pins(iv[k as int].pins.skip(p as int), dev0, p as u8, pre_map)
                        == Err::<Seq<PinV>, I2CError>(I2CError::DuplicatePin));
                    assert(spec_build(iv.skip(k as int), devs_map, entries0)
                        == Err::<(Seq<DeviceV>, Seq<PinV>), I2CError>(I2CError::DuplicatePin));
                }
                return Err(I2CError::DuplicatePin);
            }
            entries.push(PinEntry { name: pin.clone(), dev: devs.len(), pos: p as u8 });
            proof {
                let newv = PinV { name: iv[k as int].pins[p as int], dev: dev0, pos: p as u8 };
                assert(entries@.map_values(|e: PinEntry| e@) =~= pre_map.push(newv));
                assert(iv[k as int].pins.skip(p as int).drop_first() =~= iv[k as int].pins.skip(
                    p as int + 1,
                ));
                assert(spec_add_pins(iv[k as int].pins.skip(p as int), dev0, p as u8, pre_map)
                    == spec_add_pins(iv[k as int].pins.skip(p as int + 1), dev0, (p + 1) as u8, pre_map.push(newv)));
                assert forall|j: int| 0 <= j < pre_map.push(newv).len() implies 0 <= #[trigger] pre_map.push(newv)[j].dev < dev0 + 1 && pre_map.push(newv)[j].pos < 8 by {
                    if j < pre_map.len() {
                        assert(pre_map.push(newv)[j] == pre_map[j]);
                        assert(0 <= pre_map[j].dev < dev0 + 1 && pre_map[j].pos < 8);
                    }
                }
            }
            p = p + 1;
        }
        proof {
            assert(iv[k as int].pins.skip(p as int) =~= Seq::<Seq<char>>::empty());
            assert(spec_add_pins(iv[k as int].pins, dev0, 0, entries0) == Ok::<Seq<PinV>, I2CError>(
                entries@.map_values(|e: PinEntry| e@),
            ));
        }
        let ghost pre_devs = devs@.map_values(|d: PCF8574| d@);
        devs.push(PCF8574::new(io.address));
        proof {
            assert(devs@.map_values(|d: PCF8574| d@) =~= pre_devs.push(
                spec_new_device(iv[k as int].address),
            ));
            assert(iv.skip(k as int).drop_first() =~= iv.skip(k as int + 1));
            assert(spec_build(iv.skip(k as int), pre_devs, entries0) == spec_build(
                iv.skip(k as int + 1),
                devs@.map_values(|d: PCF8574| d@),
                entries@.map_values(|e: PinEntry| e@),
            ));
            let final_map = entries@.map_values(|e: PinEntry| e@);
            assert forall|j: int| 0 <= j < final_map.len() implies 0 <= #[trigger] final_map[j].dev
                < devs@.len() && final_map[j].pos < 8 by {
                assert(0 <= final_map[j].dev < dev0 + 1 && final_map[j].pos < 8);
            }
            assert(wf_pins(final_map, devs@.len() as int));
        }
        k = k + 1;
    }
    proof {
        assert(iv.skip(k as int) =~= Seq::<IoV>::empty());
    }
    Ok((devs, entries))
}

impl I2CDeviceTree {
    /// Builds the tree from configuration, before any worker starts.
    ///
    /// Construction fails closed: an unknown chip kind, a pin list longer
    /// than the chip's register, or a duplicated pin name is reported as the
    /// configuration error it is, and no tree is produced.
    pub fn new(config: &Config) -> (r: Result<Self, I2CError>)
        ensures
            match r {
                Ok(t) => spec_tree(ios_view(config.ios.inputs@), ios_view(config.ios.outputs@))
                    == Ok::<_, I2CError>(t@) && t@.wf(),
                Err(e) => spec_tree(ios_view(config.ios.inputs@), ios_view(config.ios.outputs@))
                    == Err::<TreeV, _>(e),
            },
    {
        let ins = match build_half(&config.ios.inputs) {
            Ok(half) => half,
            Err(e) => {
                return Err(e);
            },
        };
        let outs = match build_half(&config.ios.outputs) {
            Ok(half) => half,
            Err(e) => {
                return Err(e);
            },
        };
        let t = I2CDeviceTree {
            inputs: ins.0,
            outputs: outs.0,
            in_pin_mapping: ins.1,
            out_pin_mapping: outs.1,
        };
        Ok(t)
    }

    /// Looks the pin name up among the output mappings; if mapped, sets its
    /// bit on its device under that device alone and marks the device dirty;
    /// if unmapped, changes nothing and reports the miss. The physical write
    /// is deferred to the poll sweep.
    pub fn update(&mut self, output_name: &str, value: bool) -> (found: bool)
        requires
            old(self)@.wf(),
        ensures
            final(self)@ == spec_update(old(self)@, output_name@, value),
            final(self)@.wf(),
            found == (seq_lookup(old(self)@.out_pins, output_name@) is Some),
    {
        match lookup_pin(&self.out_pin_mapping, output_name) {
            Some(hit) => {
                let (dev, pos) = hit;
                proof {
                    lemma_seq_lookup_wf(
                        old(self)@.out_pins,
                        output_name@,
                        old(self)@.outputs.len() as int,
                    );
                    assert(old(self)@.outputs.len() == self.outputs@.len());
                }
                let mut d = self.outputs[dev];
                let r = d.set_at(pos as usize, value);
                proof {
                    assert(r is Ok);
                }
                self.outputs.set(dev, d);
                proof {
                    assert(old(self)@.outputs[dev as int] == old(self).outputs@[dev as int]@);
                    assert(self@.outputs =~= old(self)@.outputs.update(dev as int, d@));
                    assert(self@ == spec_update(old(self)@, output_name@, value));
                }
                true
            },
            None => false,
        }
    }

    /// One poll sweep: drains every dirty output device by performing its
    /// physical write, and returns the `(address, value)` transactions
    /// performed, in device order.
    pub fn poll_outputs(&mut self) -> (writes: Vec<(u8, u8)>)
        ensures
            final(self)@ == spec_poll(old(self)@),
            writes@ == spec_writes(old(self)@.outputs),
            old(self)@.wf() ==> final(self)@.wf(),
    {
        let mut writes: Vec<(u8, u8)> = Vec::new();
        let mut k: usize = 0;
        let n = self.outputs.len();
        proof {
            assert(old(self)@.outputs.subrange(0, 0) =~= Seq::<DeviceV>::empty());
        }
        while k < n
            invariant
                k <= n,
                n == self.outputs@.len(),
                n == old(self).outputs@.len(),
                n == old(self)@.outputs.len(),
                self.inputs@ == old(self).inputs@,
                self.in_pin_mapping@ == old(self).in_pin_mapping@,
                self.out_pin_mapping@ == old(self).out_pin_mapping@,
                forall|j: int| k <= j < n ==> self.outputs@[j] == old(self).outputs@[j],
                forall|j: int|
                    0 <= j < k ==> #[trigger] self.outputs@[j]@ == (DeviceV {
                        address: old(self)@.outputs[j].address,
                        states: old(self)@.outputs[j].states,
                        dirty: false,
                    }),
                writes@ == spec_writes(old(self)@.outputs.subrange(0, k as int)),
            decreases n - k,
        {
            let mut d = self.outputs[k];
            proof {
                assert(old(self)@.outputs[k as int] == old(self).outputs@[k as int]@);
                assert(d@ == old(self)@.outputs[k as int]);
            }
            if d.is_dirty() {
                writes.push((d.address(), d.register()));
                d.write();
                self.outputs.set(k, d);
            }
            proof {
                assert(old(self)@.outputs.subrange(0, k as int + 1).drop_last() =~= old(
                    self,
                )@.outputs.subrange(0, k as int));
                assert(old(self)@.outputs[k as int] == old(self).outputs@[k as int]@);
                assert(writes@ == spec_writes(old(self)@.outputs.subrange(0, k as int + 1)));
            }
            k = k + 1;
        }
        proof {
            assert(old(self)@.outputs.subrange(0, n as int) =~= old(self)@.outputs);
            assert(self@.outputs =~= spec_poll(old(self)@).outputs);
        }
        writes
    }
}

impl PCF8574 {
    /// The bus address, for the physical write.
    pub fn address(&self) -> (a: u8)
        ensures
            a == self@.address,
    {
        self.address
    }

    /// The commanded register value, for the physical write.
    pub fn register(&self) -> (v: u8)
        ensures
            v == self@.states,
    {
        self.states
    }
}

// ------------------------------------------------------------------
// Laws of the tree
// ------------------------------------------------------------------

/// Updates addressed at pins of two distinct devices commute: neither
/// touches the other's device, so the two orders end in the same tree.
pub proof fn lemma_independent_updates(t: TreeV, a: Seq<char>, va: bool, b: Seq<char>, vb: bool)
    requires
        t.wf(),
        seq_lookup(t.out_pins, a) is Some,
        seq_lookup(t.out_pins, b) is Some,
        seq_lookup(t.out_pins, a)->Some_0.dev != seq_lookup(t.out_pins, b)->Some_0.dev,
    ensures
        spec_update(spec_update(t, a, va), b, vb) == spec_update(spec_update(t, b, vb), a, va),
{
    let pa = seq_lookup(t.out_pins, a)->Some_0;
    let pb = seq_lookup(t.out_pins, b)->Some_0;
    lemma_seq_lookup_wf(t.out_pins, a, t.outputs.len() as int);
    lemma_seq_lookup_wf(t.out_pins, b, t.outputs.len() as int);
    let tab = spec_update(spec_update(t, a, va), b, vb);
    let tba = spec_update(spec_update(t, b, vb), a, va);
    assert(tab.outputs =~= tba.outputs);
    assert(tab == tba);
}

/// Two pins of one chip at distinct offsets never clobber each other:
/// setting pin `a` and then clearing pin `b` leaves pin `a`'s bit set,
/// pin `b`'s bit clear, and every other bit of the register unchanged.
pub proof fn lemma_update_no_cross_pin_clobber(t: TreeV, a: Seq<char>, b: Seq<char>)
    requires
        t.wf(),
        seq_lookup(t.out_pins, a) is Some,
        seq_lookup(t.out_pins, b) is Some,
        seq_lookup(t.out_pins, a)->Some_0.dev == seq_lookup(t.out_pins, b)->Some_0.dev,
        seq_lookup(t.out_pins, a)->Some_0.pos != seq_lookup(t.out_pins, b)->Some_0.pos,
    ensures
        ({
            let pa = seq_lookup(t.out_pins, a)->Some_0;
            let pb = seq_lookup(t.out_pins, b)->Some_0;
            let t2 = spec_update(spec_update(t, a, true), b, false);
            &&& spec_bit(t2.outputs[pa.dev].states, pa.pos)
            &&& !spec_bit(t2.outputs[pa.dev].states, pb.pos)
            &&& forall|k: u8|
                k < 8 && k != pa.pos && k != pb.pos ==> spec_bit(t2.outputs[pa.dev].states, k)
                    == spec_bit(t.outputs[pa.dev].states, k)
        }),
{
    let pa = seq_lookup(t.out_pins, a)->Some_0;
    let pb = seq_lookup(t.out_pins, b)->Some_0;
    lemma_seq_lookup_wf(t.out_pins, a, t.outputs.len() as int);
    lemma_seq_lookup_wf(t.out_pins, b, t.outputs.len() as int);
    lemma_no_cross_pin_clobber(t.outputs[pa.dev].states, pa.pos, pb.pos);
}

} // verus!
