//! The models of keyboard: one descriptor for each model in each of its
//! states, and the table of all of them.

use crate::hardware::{
    Dialog, Grid, Hardware, Info, KeyboardType, Languages, Product, Url, Urls, Usb, Vendor,
};
use vstd::prelude::*;

verus! {

/// The number of descriptors in the table.
pub const DEVICE_COUNT: usize = 8;

/// The descriptor at position `index` of the table.
pub open spec fn table(index: int) -> Hardware {
    if index == 0 {
        Hardware {
            info: Info {
                vendor: Vendor::Dygma,
                product: Product::Defy,
                keyboard_type: KeyboardType::Wired,
                display_name: "Dygma Defy Wired",
                urls: Urls { homepage: Url { name: "Homepage", url: "https://www.dygma.com/defy/" } },
            },
            usb: Usb { vendor_id: 0x35ef, product_id: 0x0010 },
            bootloader: false,
            keyboard: Some(Grid { rows: 5, columns: 16 }),
            keyboard_underglow: Some(Grid { rows: 2, columns: 89 }),
            rgbw_mode: Some(true),
            instructions: Languages {
                en: Dialog {
                    update_instructions: "To update the firmware, the keyboard needs a special reset. When the countdown starts, press and hold the Escape key. Soon after the countdown finished, the Neuron's light should start a blue pulsing pattern, and the flashing will proceed. At this point, you should release the Escape key.",
                },
            },
            virtual_info: None,
        }
    } else if index == 1 {
        Hardware {
            info: Info {
                vendor: Vendor::Dygma,
                product: Product::Defy,
                keyboard_type: KeyboardType::Wired,
                display_name: "Dygma Defy Wired (Bootloader)",
                urls: Urls { homepage: Url { name: "Homepage", url: "https://www.dygma.com/defy/" } },
            },
            usb: Usb { vendor_id: 0x35ef, product_id: 0x0011 },
            bootloader: true,
            keyboard: None,
            keyboard_underglow: None,
            rgbw_mode: None,
            instructions: Languages {
                en: Dialog {
                    update_instructions: "To update the firmware, press the button at the bottom. You must not hold any key on the keyboard while the countdown is in progress, nor afterwards, until the flashing is finished. When the countdown reaches zero, the Neuron's light should start a blue pulsing pattern, and flashing will then proceed.",
                },
            },
            virtual_info: None,
        }
    } else if index == 2 {
        Hardware {
            info: Info {
                vendor: Vendor::Dygma,
                product: Product::Defy,
                keyboard_type: KeyboardType::Wireless,
                display_name: "Dygma Defy Wireless",
                urls: Urls { homepage: Url { name: "Homepage", url: "https://www.dygma.com/defy/" } },
            },
            usb: Usb { vendor_id: 0x35ef, product_id: 0x0012 },
            bootloader: false,
            keyboard: Some(Grid { rows: 5, columns: 16 }),
            keyboard_underglow: Some(Grid { rows: 2, columns: 89 }),
            rgbw_mode: Some(true),
            instructions: Languages {
                en: Dialog {
                    update_instructions: "To update the firmware, the keyboard needs a special reset. When the countdown starts, press and hold the Escape key. Soon after the countdown finished, the Neuron's light should start a blue pulsing pattern, and the flashing will proceed. At this point, you should release the Escape key.",
                },
            },
            virtual_info: None,
        }
    } else if index == 3 {
        Hardware {
            info: Info {
                vendor: Vendor::Dygma,
                product: Product::Defy,
                keyboard_type: KeyboardType::Wireless,
                display_name: "Dygma Defy Wireless (Bootloader)",
                urls: Urls { homepage: Url { name: "Homepage", url: "https://www.dygma.com/defy/" } },
            },
            usb: Usb { vendor_id: 0x35ef, product_id: 0x0013 },
            bootloader: true,
            keyboard: None,
            keyboard_underglow: None,
            rgbw_mode: None,
            instructions: Languages {
                en: Dialog {
                    update_instructions: "To update the firmware, press the button at the bottom. You must not hold any key on the keyboard while the countdown is in progress, nor afterwards, until the flashing is finished. When the countdown reaches zero, the Neuron's light should start a blue pulsing pattern, and flashing will then proceed.",
                },
            },
            virtual_info: None,
        }
    } else if index == 4 {
        Hardware {
            info: Info {
                vendor: Vendor::Dygma,
                product: Product::Raise,
                keyboard_type: KeyboardType::ANSI,
                display_name: "Dygma Raise ANSI",
                urls: Urls { homepage: Url { name: "Homepage", url: "https://www.dygma.com/raise/" } },
            },
            usb: Usb { vendor_id: 0x1209, product_id: 0x2201 },
            bootloader: false,
            keyboard: Some(Grid { rows: 5, columns: 16 }),
            keyboard_underglow: Some(Grid { rows: 6, columns: 22 }),
            rgbw_mode: Some(true),
            instructions: Languages {
                en: Dialog {
                    update_instructions: "To update the firmware, the keyboard needs a special reset. When the countdown starts, press and hold the Escape key. Soon after the countdown finished, the Neuron's light should start a blue pulsing pattern, and the flashing will proceed. At this point, you should release the Escape key.",
                },
            },
            virtual_info: None,
        }
    } else if index == 5 {
        Hardware {
            info: Info {
                vendor: Vendor::Dygma,
                product: Product::Raise,
                keyboard_type: KeyboardType::ANSI,
                display_name: "Dygma Raise ANSI (Bootloader)",
                urls: Urls { homepage: Url { name: "Homepage", url: "https://www.dygma.com/raise/" } },
            },
            usb: Usb { vendor_id: 0x1209, product_id: 0x2200 },
            bootloader: true,
            keyboard: None,
            keyboard_underglow: None,
            rgbw_mode: None,
            instructions: Languages {
                en: Dialog {
                    update_instructions: "To update the firmware, press the button at the bottom. You must not hold any key on the keyboard while the countdown is in progress, nor afterwards, until the flashing is finished. When the countdown reaches zero, the Neuron's light should start a blue pulsing pattern, and flashing will then proceed.",
                },
            },
            virtual_info: None,
        }
    } else if index == 6 {
        Hardware {
            info: Info {
                vendor: Vendor::Dygma,
                product: Product::Raise,
                keyboard_type: KeyboardType::ISO,
                display_name: "Dygma Raise ISO",
                urls: Urls { homepage: Url { name: "Homepage", url: "https://www.dygma.com/raise/" } },
            },
            usb: Usb { vendor_id: 0x1209, product_id: 0x2201 },
            bootloader: false,
            keyboard: Some(Grid { rows: 5, columns: 16 }),
            keyboard_underglow: Some(Grid { rows: 6, columns: 22 }),
            rgbw_mode: Some(true),
            instructions: Languages {
                en: Dialog {
                    update_instructions: "To update the firmware, the keyboard needs a special reset. When the countdown starts, press and hold the Escape key. Soon after the countdown finished, the Neuron's light should start a blue pulsing pattern, and the flashing will proceed. At this point, you should release the Escape key.",
                },
            },
            virtual_info: None,
        }
    } else {
        Hardware {
            info: Info {
                vendor: Vendor::Dygma,
                product: Product::Raise,
                keyboard_type: KeyboardType::ISO,
                display_name: "Dygma Raise ISO (Bootloader)",
                urls: Urls { homepage: Url { name: "Homepage", url: "https://www.dygma.com/raise/" } },
            },
            usb: Usb { vendor_id: 0x1209, product_id: 0x2200 },
            bootloader: true,
            keyboard: None,
            keyboard_underglow: None,
            rgbw_mode: None,
            instructions: Languages {
                en: Dialog {
                    update_instructions: "To update the firmware, press the button at the bottom. You must not hold any key on the keyboard while the countdown is in progress, nor afterwards, until the flashing is finished. When the countdown reaches zero, the Neuron's light should start a blue pulsing pattern, and flashing will then proceed.",
                },
            },
            virtual_info: None,
        }
    }
}

/// The wired Defy.
pub fn defy_wired() -> (hardware: Hardware)
    ensures
        hardware == table(0),
{
    Hardware {
        info: Info {
            vendor: Vendor::Dygma,
            product: Product::Defy,
            keyboard_type: KeyboardType::Wired,
            display_name: "Dygma Defy Wired",
            urls: Urls { homepage: Url { name: "Homepage", url: "https://www.dygma.com/defy/" } },
        },
        usb: Usb { vendor_id: 0x35ef, product_id: 0x0010 },
        bootloader: false,
        keyboard: Some(Grid { rows: 5, columns: 16 }),
        keyboard_underglow: Some(Grid { rows: 2, columns: 89 }),
        rgbw_mode: Some(true),
        instructions: Languages {
            en: Dialog {
                update_instructions: "To update the firmware, the keyboard needs a special reset. When the countdown starts, press and hold the Escape key. Soon after the countdown finished, the Neuron's light should start a blue pulsing pattern, and the flashing will proceed. At this point, you should release the Escape key.",
            },
        },
        virtual_info: None,
    }
}

/// The wired Defy while its bootloader runs.
pub fn defy_wired_bootloader() -> (hardware: Hardware)
    ensures
        hardware == table(1),
{
    Hardware {
        info: Info {
            vendor: Vendor::Dygma,
            product: Product::Defy,
            keyboard_type: KeyboardType::Wired,
            display_name: "Dygma Defy Wired (Bootloader)",
            urls: Urls { homepage: Url { name: "Homepage", url: "https://www.dygma.com/defy/" } },
        },
        usb: Usb { vendor_id: 0x35ef, product_id: 0x0011 },
        bootloader: true,
        keyboard: None,
        keyboard_underglow: None,
        rgbw_mode: None,
        instructions: Languages {
            en: Dialog {
                update_instructions: "To update the firmware, press the button at the bottom. You must not hold any key on the keyboard while the countdown is in progress, nor afterwards, until the flashing is finished. When the countdown reaches zero, the Neuron's light should start a blue pulsing pattern, and flashing will then proceed.",
            },
        },
        virtual_info: None,
    }
}

/// The wireless Defy.
pub fn defy_wireless() -> (hardware: Hardware)
    ensures
        hardware == table(2),
{
    Hardware {
        info: Info {
            vendor: Vendor::Dygma,
            product: Product::Defy,
            keyboard_type: KeyboardType::Wireless,
            display_name: "Dygma Defy Wireless",
            urls: Urls { homepage: Url { name: "Homepage", url: "https://www.dygma.com/defy/" } },
        },
        usb: Usb { vendor_id: 0x35ef, product_id: 0x0012 },
        bootloader: false,
        keyboard: Some(Grid { rows: 5, columns: 16 }),
        keyboard_underglow: Some(Grid { rows: 2, columns: 89 }),
        rgbw_mode: Some(true),
        instructions: Languages {
            en: Dialog {
                update_instructions: "To update the firmware, the keyboard needs a special reset. When the countdown starts, press and hold the Escape key. Soon after the countdown finished, the Neuron's light should start a blue pulsing pattern, and the flashing will proceed. At this point, you should release the Escape key.",
            },
        },
        virtual_info: None,
    }
}

/// The wireless Defy while its bootloader runs.
pub fn defy_wireless_bootloader() -> (hardware: Hardware)
    ensures
        hardware == table(3),
{
    Hardware {
        info: Info {
            vendor: Vendor::Dygma,
            product: Product::Defy,
            keyboard_type: KeyboardType::Wireless,
            display_name: "Dygma Defy Wireless (Bootloader)",
            urls: Urls { homepage: Url { name: "Homepage", url: "https://www.dygma.com/defy/" } },
        },
        usb: Usb { vendor_id: 0x35ef, product_id: 0x0013 },
        bootloader: true,
        keyboard: None,
        keyboard_underglow: None,
        rgbw_mode: None,
        instructions: Languages {
            en: Dialog {
                update_instructions: "To update the firmware, press the button at the bottom. You must not hold any key on the keyboard while the countdown is in progress, nor afterwards, until the flashing is finished. When the countdown reaches zero, the Neuron's light should start a blue pulsing pattern, and flashing will then proceed.",
            },
        },
        virtual_info: None,
    }
}

/// The Raise with the ANSI layout.
pub fn raise_ansi() -> (hardware: Hardware)
    ensures
        hardware == table(4),
{
    Hardware {
        info: Info {
            vendor: Vendor::Dygma,
            product: Product::Raise,
            keyboard_type: KeyboardType::ANSI,
            display_name: "Dygma Raise ANSI",
            urls: Urls { homepage: Url { name: "Homepage", url: "https://www.dygma.com/raise/" } },
        },
        usb: Usb { vendor_id: 0x1209, product_id: 0x2201 },
        bootloader: false,
        keyboard: Some(Grid { rows: 5, columns: 16 }),
        keyboard_underglow: Some(Grid { rows: 6, columns: 22 }),
        rgbw_mode: Some(true),
        instructions: Languages {
            en: Dialog {
                update_instructions: "To update the firmware, the keyboard needs a special reset. When the countdown starts, press and hold the Escape key. Soon after the countdown finished, the Neuron's light should start a blue pulsing pattern, and the flashing will proceed. At this point, you should release the Escape key.",
            },
        },
        virtual_info: None,
    }
}

/// The Raise with the ANSI layout while its bootloader runs.
pub fn raise_ansi_bootloader() -> (hardware: Hardware)
    ensures
        hardware == table(5),
{
    Hardware {
        info: Info {
            vendor: Vendor::Dygma,
            product: Product::Raise,
            keyboard_type: KeyboardType::ANSI,
            display_name: "Dygma Raise ANSI (Bootloader)",
            urls: Urls { homepage: Url { name: "Homepage", url: "https://www.dygma.com/raise/" } },
        },
        usb: Usb { vendor_id: 0x1209, product_id: 0x2200 },
        bootloader: true,
        keyboard: None,
        keyboard_underglow: None,
        rgbw_mode: None,
        instructions: Languages {
            en: Dialog {
                update_instructions: "To update the firmware, press the button at the bottom. You must not hold any key on the keyboard while the countdown is in progress, nor afterwards, until the flashing is finished. When the countdown reaches zero, the Neuron's light should start a blue pulsing pattern, and flashing will then proceed.",
            },
        },
        virtual_info: None,
    }
}

/// The Raise with the ISO layout.
pub fn raise_iso() -> (hardware: Hardware)
    ensures
        hardware == table(6),
{
    Hardware {
        info: Info {
            vendor: Vendor::Dygma,
            product: Product::Raise,
            keyboard_type: KeyboardType::ISO,
            display_name: "Dygma Raise ISO",
            urls: Urls { homepage: Url { name: "Homepage", url: "https://www.dygma.com/raise/" } },
        },
        usb: Usb { vendor_id: 0x1209, product_id: 0x2201 },
        bootloader: false,
        keyboard: Some(Grid { rows: 5, columns: 16 }),
        keyboard_underglow: Some(Grid { rows: 6, columns: 22 }),
        rgbw_mode: Some(true),
        instructions: Languages {
            en: Dialog {
                update_instructions: "To update the firmware, the keyboard needs a special reset. When the countdown starts, press and hold the Escape key. Soon after the countdown finished, the Neuron's light should start a blue pulsing pattern, and the flashing will proceed. At this point, you should release the Escape key.",
            },
        },
        virtual_info: None,
    }
}

/// The Raise with the ISO layout while its bootloader runs.
pub fn raise_iso_bootloader() -> (hardware: Hardware)
    ensures
        hardware == table(7),
{
    Hardware {
        info: Info {
            vendor: Vendor::Dygma,
            product: Product::Raise,
            keyboard_type: KeyboardType::ISO,
            display_name: "Dygma Raise ISO (Bootloader)",
            urls: Urls { homepage: Url { name: "Homepage", url: "https://www.dygma.com/raise/" } },
        },
        usb: Usb { vendor_id: 0x1209, product_id: 0x2200 },
        bootloader: true,
        keyboard: None,
        keyboard_underglow: None,
        rgbw_mode: None,
        instructions: Languages {
            en: Dialog {
                update_instructions: "To update the firmware, press the button at the bottom. You must not hold any key on the keyboard while the countdown is in progress, nor afterwards, until the flashing is finished. When the countdown reaches zero, the Neuron's light should start a blue pulsing pattern, and flashing will then proceed.",
            },
        },
        virtual_info: None,
    }
}

/// The table of all descriptors, in a fixed order.
pub fn devices_physical() -> (all: Vec<Hardware>)
    ensures
        all.len() == DEVICE_COUNT,
        forall|i: int| 0 <= i < DEVICE_COUNT ==> #[trigger] all[i] == table(i),
{
    let mut all: Vec<Hardware> = Vec::new();
    all.push(defy_wired());
    all.push(defy_wired_bootloader());
    all.push(defy_wireless());
    all.push(defy_wireless_bootloader());
    all.push(raise_ansi());
    all.push(raise_ansi_bootloader());
    all.push(raise_iso());
    all.push(raise_iso_bootloader());
    all
}

} // verus!
