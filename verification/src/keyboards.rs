//! The keyboards among the serial ports of the host.

use crate::devices::{devices_physical, table, DEVICE_COUNT};
use crate::focus::Focus;
use crate::hardware::{Device, Usb};
use vstd::prelude::*;

verus! {

/// A serial port of the host that is a USB port.
#[derive(Debug, Clone, PartialEq, Eq)]
pub struct PortCandidate {
    /// The name by which the port is opened.
    pub port_name: String,
    /// The USB vendor of what is plugged in.
    pub vendor_id: u16,
    /// The USB product of what is plugged in.
    pub product_id: u16,
}

/// Supported device.
#[derive(Debug, Clone, Copy, PartialEq, Eq)]
pub struct SupportedDevice {
    /// The name of the device.
    pub name: &'static str,
    /// The vendor ID of the device.
    pub vendor_id: u16,
    /// The product ID of the device.
    pub product_id: u16,
}

impl SupportedDevice {
    pub fn new(name: &'static str, vendor_id: u16, product_id: u16) -> (device: SupportedDevice)
        ensures
            device.name == name,
            device.vendor_id == vendor_id,
            device.product_id == product_id,
    {
        SupportedDevice { name, vendor_id, product_id }
    }
}

/// Dygma keyboard information.
#[derive(Debug, Clone, PartialEq, Eq)]
pub struct Keyboard {
    /// The name of the keyboard.
    pub name: &'static str,
    /// The port of the keyboard.
    pub port: String,
}

/// What a `Keyboard` holds.
pub struct KeyboardView {
    pub name: Seq<char>,
    pub port: Seq<char>,
}

impl View for Keyboard {
    type V = KeyboardView;

    open spec fn view(&self) -> KeyboardView {
        KeyboardView { name: self.name@, port: self.port@ }
    }
}

/// The name of the first supported device with the USB identity given, if
/// there is one.
pub open spec fn supported_name(vendor_id: u16, product_id: u16) -> Option<Seq<char>> {
    if vendor_id == 0x35ef && product_id == 0x0010 {
        Some("Dygma Defy Wired"@)
    } else if vendor_id == 0x35ef && product_id == 0x0012 {
        Some("Dygma Defy Wireless"@)
    } else if vendor_id == 0x1209 && product_id == 0x2201 {
        Some("Dygma Raise ANSI"@)
    } else {
        None
    }
}

/// The supported devices. Two of them share one USB identity; the one that
/// stands first is the one that is found.
pub open spec fn devices_table() -> [SupportedDevice; 4] {
    [
        SupportedDevice { name: "Dygma Defy Wired", vendor_id: 0x35ef, product_id: 0x0010 },
        SupportedDevice { name: "Dygma Defy Wireless", vendor_id: 0x35ef, product_id: 0x0012 },
        SupportedDevice { name: "Dygma Raise ANSI", vendor_id: 0x1209, product_id: 0x2201 },
        SupportedDevice { name: "Dygma Raise ISO", vendor_id: 0x1209, product_id: 0x2201 },
    ]
}

/// The supported devices.
pub fn devices() -> (table: [SupportedDevice; 4])
    ensures
        table == devices_table(),
{
    [
        SupportedDevice::new("Dygma Defy Wired", 0x35ef, 0x0010),
        SupportedDevice::new("Dygma Defy Wireless", 0x35ef, 0x0012),
        SupportedDevice::new("Dygma Raise ANSI", 0x1209, 0x2201),
        SupportedDevice::new("Dygma Raise ISO", 0x1209, 0x2201),
    ]
}

/// The keyboards among the ports: for each port of a supported device, in
/// the order of the ports, the name of the device and the name of the port.
pub open spec fn keyboards_among(ports: Seq<PortCandidate>) -> Seq<KeyboardView>
    decreases ports.len(),
{
    if ports.len() == 0 {
        Seq::empty()
    } else {
        let port = ports.last();
        match supported_name(port.vendor_id, port.product_id) {
            Some(name) => keyboards_among(ports.drop_last()).push(
                KeyboardView { name, port: port.port_name@ },
            ),
            None => keyboards_among(ports.drop_last()),
        }
    }
}

/// What the keyboards of a vector hold.
pub open spec fn keyboards_of(v: Seq<Keyboard>) -> Seq<KeyboardView> {
    Seq::new(v.len(), |i: int| v[i]@)
}

/// The name of the first supported device with the USB identity given.
fn find_supported(vendor_id: u16, product_id: u16) -> (name: Option<&'static str>)
    ensures
        match supported_name(vendor_id, product_id) {
            Some(text) => name matches Some(n) && n@ == text,
            None => name is None,
        },
{
    let table = devices();
    let mut i: usize = 0;
    while i < 4
        invariant
            0 <= i <= 4,
            table == devices_table(),
            forall|j: int|
                0 <= j < i ==> !((#[trigger] table[j]).vendor_id == vendor_id && table[j].product_id
                    == product_id),
        decreases 4 - i,
    {
        if table[i].vendor_id == vendor_id && table[i].product_id == product_id {
            return Some(table[i].name);
        }
        i += 1;
    }
    assert(!(table[0].vendor_id == vendor_id && table[0].product_id == product_id));
    assert(!(table[1].vendor_id == vendor_id && table[1].product_id == product_id));
    assert(!(table[2].vendor_id == vendor_id && table[2].product_id == product_id));
    None
}

impl Keyboard {
    /// Find all supported keyboards among the USB serial ports of the host.
    pub fn find_all_keyboards(ports: &Vec<PortCandidate>) -> (keyboards: Vec<Keyboard>)
        ensures
            keyboards_of(keyboards@) == keyboards_among(ports@),
    {
        let mut keyboards: Vec<Keyboard> = Vec::new();
        let mut i: usize = 0;
        assert(ports@.take(0) == Seq::<PortCandidate>::empty());
        while i < ports.len()
            invariant
                0 <= i <= ports.len(),
                keyboards_of(keyboards@) == keyboards_among(ports@.take(i as int)),
            decreases ports.len() - i,
        {
            let port = &ports[i];
            proof {
                assert(ports@.take(i + 1).drop_last() == ports@.take(i as int));
                assert(ports@.take(i + 1).last() == *port);
            }
            match find_supported(port.vendor_id, port.product_id) {
                Some(name) => {
                    let ghost before = keyboards_of(keyboards@);
                    let found = Keyboard { name, port: port.port_name.clone() };
                    keyboards.push(found);
                    assert(keyboards_of(keyboards@) == before.push(found@));
                },
                None => {},
            }
            i += 1;
        }
        assert(ports@.take(ports.len() as int) == ports@);
        keyboards
    }

    /// Find the first supported keyboard among the USB serial ports of the
    /// host, if there is one.
    pub fn find_first_keyboard(ports: &Vec<PortCandidate>) -> (keyboard: Option<Keyboard>)
        ensures
            match keyboard {
                Some(k) => keyboards_among(ports@).len() > 0 && k@ == keyboards_among(ports@)[0],
                None => keyboards_among(ports@).len() == 0,
            },
    {
        let mut all = Self::find_all_keyboards(ports);
        if all.len() == 0 {
            None
        } else {
            assert(keyboards_of(all@)[0] == all[0]@);
            Some(all.swap_remove(0))
        }
    }
}

/// The descriptors that fit a port, among the first `upto` of the table
/// and in its order: each by its position, with the name of the port.
pub open spec fn matches_upto(port: PortCandidate, upto: int) -> Seq<(int, Seq<char>)>
    decreases upto,
{
    if upto <= 0 {
        Seq::empty()
    } else if table(upto - 1).usb == (Usb {
        vendor_id: port.vendor_id,
        product_id: port.product_id,
    }) {
        matches_upto(port, upto - 1).push((upto - 1, port.port_name@))
    } else {
        matches_upto(port, upto - 1)
    }
}

/// The devices among the ports: for each port in order, every descriptor of
/// the table with the USB identity of what is plugged in.
pub open spec fn devices_among(ports: Seq<PortCandidate>) -> Seq<(int, Seq<char>)>
    decreases ports.len(),
{
    if ports.len() == 0 {
        Seq::empty()
    } else {
        devices_among(ports.drop_last()) + matches_upto(ports.last(), DEVICE_COUNT as int)
    }
}

/// Whether a device is the descriptor at a position of the table, at the
/// port with the name given.
pub open spec fn is_found(device: Device, found: (int, Seq<char>)) -> bool {
    &&& device.hardware == table(found.0)
    &&& device.serial_port@ == found.1
}

/// Whether the devices are the descriptors found, one by one.
pub open spec fn are_found(devices: Seq<Device>, found: Seq<(int, Seq<char>)>) -> bool {
    &&& devices.len() == found.len()
    &&& forall|k: int| 0 <= k < devices.len() ==> is_found(#[trigger] devices[k], found[k])
}

impl Focus {
    /// Find all supported devices among the USB serial ports of the host.
    pub fn find_all_devices(ports: &Vec<PortCandidate>) -> (devices: Vec<Device>)
        ensures
            are_found(devices@, devices_among(ports@)),
    {
        let all = devices_physical();
        let mut devices: Vec<Device> = Vec::new();
        let mut i: usize = 0;
        assert(ports@.take(0) == Seq::<PortCandidate>::empty());
        while i < ports.len()
            invariant
                0 <= i <= ports.len(),
                all.len() == DEVICE_COUNT,
                forall|j: int| 0 <= j < DEVICE_COUNT ==> #[trigger] all[j] == table(j),
                are_found(devices@, devices_among(ports@.take(i as int))),
            decreases ports.len() - i,
        {
            let port = &ports[i];
            let ghost before = devices_among(ports@.take(i as int));
            proof {
                assert(ports@.take(i + 1).drop_last() == ports@.take(i as int));
                assert(ports@.take(i + 1).last() == *port);
                assert(before + matches_upto(*port, 0) == before);
            }
            let mut k: usize = 0;
            while k < DEVICE_COUNT
                invariant
                    0 <= k <= DEVICE_COUNT,
                    all.len() == DEVICE_COUNT,
                    forall|j: int| 0 <= j < DEVICE_COUNT ==> #[trigger] all[j] == table(j),
                    are_found(devices@, before + matches_upto(*port, k as int)),
                decreases DEVICE_COUNT - k,
            {
                let entry = all[k];
                let ghost so_far = before + matches_upto(*port, k as int);
                if entry.usb.vendor_id == port.vendor_id && entry.usb.product_id
                    == port.product_id {
                    let found = Device { hardware: entry, serial_port: port.port_name.clone() };
                    devices.push(found);
                    proof {
                        let next = before + matches_upto(*port, k + 1);
                        assert(next == so_far.push((k as int, port.port_name@)));
                        assert forall|j: int| 0 <= j < devices.len() implies is_found(
                            #[trigger] devices@[j],
                            next[j],
                        ) by {
                            if j < so_far.len() {
                                assert(next[j] == so_far[j]);
                            }
                        }
                    }
                } else {
                    assert(entry.usb != (Usb {
                        vendor_id: port.vendor_id,
                        product_id: port.product_id,
                    }));
                }
                k += 1;
            }
            i += 1;
        }
        assert(ports@.take(ports.len() as int) == ports@);
        devices
    }

    /// Find the first supported device among the USB serial ports of the
    /// host, if there is one.
    pub fn find_first_device(ports: &Vec<PortCandidate>) -> (device: Option<Device>)
        ensures
            match device {
                Some(d) => devices_among(ports@).len() > 0 && is_found(d, devices_among(ports@)[0]),
                None => devices_among(ports@).len() == 0,
            },
    {
        let mut all = Self::find_all_devices(ports);
        if all.len() == 0 {
            None
        } else {
            Some(all.swap_remove(0))
        }
    }
}

} // verus!
