//! The settings of a device as one record, and the two operations that
//! read all of them from a device and write all of them to one.

use crate::api::{
    color_map_set_step, keymap_custom_set_step, keymap_default_set_step,
    keymap_only_custom_set_step, led_brightness_top_set_step, led_brightness_underglow_set_step,
    led_brightness_wireless_top_set_step, led_brightness_wireless_underglow_set_step,
    led_fade_set_step, led_idle_time_limit_set_step, led_idle_true_sleep_set_step,
    led_idle_true_sleep_time_set_step, led_idle_wireless_set_step, led_mode_set_step,
    led_theme_set_step, macros_map_set_step, mouse_acceleration_delay_set_step,
    mouse_acceleration_speed_set_step, mouse_delay_set_step, mouse_speed_limit_set_step,
    mouse_speed_set_step, mouse_wheel_delay_set_step, mouse_wheel_speed_set_step,
    palette_rgb_set_step, palette_rgbw_set_step, qukeys_hold_timeout_set_step,
    qukeys_overlap_threshold_set_step, settings_default_layer_set_step,
    superkeys_hold_start_set_step, superkeys_map_set_step, superkeys_overlap_set_step,
    superkeys_repeat_set_step, superkeys_timeout_set_step, superkeys_wait_for_set_step,
    wireless_battery_saving_mode_set_step, wireless_rf_channel_hop_set_step,
    wireless_rf_power_level_set_step,
};
use crate::color::{RGB, RGBW};
use crate::enums::{Duration, LedMode, TimeUnit, WirelessPowerMode};
use crate::error::ProtocolError;
use crate::focus::{
    duration_of, flag_of, led_mode_in, number_of, power_mode_in, query_line, read_duration,
    read_flag, read_led_mode, read_number, read_power_mode, text_of, Focus, Outcome, Step,
    MAX_LAYERS,
};
use crate::helpers::{
    numerical_vector, rgb_vector, rgbw_vector, string_to_numerical_vec, string_to_rgb_vec,
    string_to_rgbw_vec,
};
use vstd::prelude::*;

verus! {

/// The number of settings in a record.
pub const SETTINGS_COUNT: usize = 37;

/// Every attribute of a device that can be configured. An attribute that the
/// hardware may lack is optional: it is absent where the device did not
/// answer for it, and is then left alone when the record is written to a
/// device.
#[derive(Debug, Clone, PartialEq, Eq)]
pub struct Settings {
    pub keymap_custom: Vec<u16>,
    pub keymap_default: Vec<u16>,
    pub keymap_only_custom: bool,
    pub settings_default_layer: u8,
    pub superkeys_map: Vec<u16>,
    pub superkeys_wait_for: Duration,
    pub superkeys_timeout: Duration,
    pub superkeys_repeat: Duration,
    pub superkeys_hold_start: Duration,
    pub superkeys_overlap: u8,
    pub led_mode: LedMode,
    pub led_brightness_top: u8,
    pub led_brightness_underglow: Option<u8>,
    pub led_brightness_wireless_top: Option<u8>,
    pub led_brightness_wireless_underglow: Option<u8>,
    pub led_fade: Option<u16>,
    pub led_theme: Vec<RGB>,
    pub palette_rgb: Option<Vec<RGB>>,
    pub palette_rgbw: Option<Vec<RGBW>>,
    pub color_map: Vec<u8>,
    pub led_idle_true_sleep: Option<bool>,
    pub led_idle_true_sleep_time: Option<Duration>,
    pub led_idle_time_limit: Duration,
    pub led_idle_wireless: Option<bool>,
    pub qukeys_hold_timeout: Duration,
    pub qukeys_overlap_threshold: Duration,
    pub macros_map: Vec<u8>,
    pub mouse_speed: u8,
    pub mouse_delay: Duration,
    pub mouse_acceleration_speed: u8,
    pub mouse_acceleration_delay: Duration,
    pub mouse_wheel_speed: u8,
    pub mouse_wheel_delay: Duration,
    pub mouse_speed_limit: u8,
    pub wireless_battery_saving_mode: Option<bool>,
    pub wireless_rf_power_level: Option<WirelessPowerMode>,
    pub wireless_rf_channel_hop: Option<bool>,
}

/// What a record of settings holds.
pub struct SettingsView {
    pub keymap_custom: Seq<u16>,
    pub keymap_default: Seq<u16>,
    pub keymap_only_custom: bool,
    pub settings_default_layer: u8,
    pub superkeys_map: Seq<u16>,
    pub superkeys_wait_for: Duration,
    pub superkeys_timeout: Duration,
    pub superkeys_repeat: Duration,
    pub superkeys_hold_start: Duration,
    pub superkeys_overlap: u8,
    pub led_mode: LedMode,
    pub led_brightness_top: u8,
    pub led_brightness_underglow: Option<u8>,
    pub led_brightness_wireless_top: Option<u8>,
    pub led_brightness_wireless_underglow: Option<u8>,
    pub led_fade: Option<u16>,
    pub led_theme: Seq<RGB>,
    pub palette_rgb: Option<Seq<RGB>>,
    pub palette_rgbw: Option<Seq<RGBW>>,
    pub color_map: Seq<u8>,
    pub led_idle_true_sleep: Option<bool>,
    pub led_idle_true_sleep_time: Option<Duration>,
    pub led_idle_time_limit: Duration,
    pub led_idle_wireless: Option<bool>,
    pub qukeys_hold_timeout: Duration,
    pub qukeys_overlap_threshold: Duration,
    pub macros_map: Seq<u8>,
    pub mouse_speed: u8,
    pub mouse_delay: Duration,
    pub mouse_acceleration_speed: u8,
    pub mouse_acceleration_delay: Duration,
    pub mouse_wheel_speed: u8,
    pub mouse_wheel_delay: Duration,
    pub mouse_speed_limit: u8,
    pub wireless_battery_saving_mode: Option<bool>,
    pub wireless_rf_power_level: Option<WirelessPowerMode>,
    pub wireless_rf_channel_hop: Option<bool>,
}

impl View for Settings {
    type V = SettingsView;

    open spec fn view(&self) -> SettingsView {
        SettingsView {
            keymap_custom: self.keymap_custom@,
            keymap_default: self.keymap_default@,
            keymap_only_custom: self.keymap_only_custom,
            settings_default_layer: self.settings_default_layer,
            superkeys_map: self.superkeys_map@,
            superkeys_wait_for: self.superkeys_wait_for,
            superkeys_timeout: self.superkeys_timeout,
            superkeys_repeat: self.superkeys_repeat,
            superkeys_hold_start: self.superkeys_hold_start,
            superkeys_overlap: self.superkeys_overlap,
            led_mode: self.led_mode,
            led_brightness_top: self.led_brightness_top,
            led_brightness_underglow: self.led_brightness_underglow,
            led_brightness_wireless_top: self.led_brightness_wireless_top,
            led_brightness_wireless_underglow: self.led_brightness_wireless_underglow,
            led_fade: self.led_fade,
            led_theme: self.led_theme@,
            palette_rgb: match self.palette_rgb {
                Some(v) => Some(v@),
                None => None,
            },
            palette_rgbw: match self.palette_rgbw {
                Some(v) => Some(v@),
                None => None,
            },
            color_map: self.color_map@,
            led_idle_true_sleep: self.led_idle_true_sleep,
            led_idle_true_sleep_time: self.led_idle_true_sleep_time,
            led_idle_time_limit: self.led_idle_time_limit,
            led_idle_wireless: self.led_idle_wireless,
            qukeys_hold_timeout: self.qukeys_hold_timeout,
            qukeys_overlap_threshold: self.qukeys_overlap_threshold,
            macros_map: self.macros_map@,
            mouse_speed: self.mouse_speed,
            mouse_delay: self.mouse_delay,
            mouse_acceleration_speed: self.mouse_acceleration_speed,
            mouse_acceleration_delay: self.mouse_acceleration_delay,
            mouse_wheel_speed: self.mouse_wheel_speed,
            mouse_wheel_delay: self.mouse_wheel_delay,
            mouse_speed_limit: self.mouse_speed_limit,
            wireless_battery_saving_mode: self.wireless_battery_saving_mode,
            wireless_rf_power_level: self.wireless_rf_power_level,
            wireless_rf_channel_hop: self.wireless_rf_channel_hop,
        }
    }
}

/// The record in which nothing is set: every list is empty, every number
/// zero, every span of time nothing, every switch off, the LED mode the
/// first, and every optional attribute absent.
pub open spec fn blank_settings() -> SettingsView {
    SettingsView {
        keymap_custom: Seq::empty(),
        keymap_default: Seq::empty(),
        keymap_only_custom: false,
        settings_default_layer: 0,
        superkeys_map: Seq::empty(),
        superkeys_wait_for: Duration { secs: 0, nanos: 0 },
        superkeys_timeout: Duration { secs: 0, nanos: 0 },
        superkeys_repeat: Duration { secs: 0, nanos: 0 },
        superkeys_hold_start: Duration { secs: 0, nanos: 0 },
        superkeys_overlap: 0,
        led_mode: LedMode::PerLayer,
        led_brightness_top: 0,
        led_brightness_underglow: None,
        led_brightness_wireless_top: None,
        led_brightness_wireless_underglow: None,
        led_fade: None,
        led_theme: Seq::empty(),
        palette_rgb: None,
        palette_rgbw: None,
        color_map: Seq::empty(),
        led_idle_true_sleep: None,
        led_idle_true_sleep_time: None,
        led_idle_time_limit: Duration { secs: 0, nanos: 0 },
        led_idle_wireless: None,
        qukeys_hold_timeout: Duration { secs: 0, nanos: 0 },
        qukeys_overlap_threshold: Duration { secs: 0, nanos: 0 },
        macros_map: Seq::empty(),
        mouse_speed: 0,
        mouse_delay: Duration { secs: 0, nanos: 0 },
        mouse_acceleration_speed: 0,
        mouse_acceleration_delay: Duration { secs: 0, nanos: 0 },
        mouse_wheel_speed: 0,
        mouse_wheel_delay: Duration { secs: 0, nanos: 0 },
        mouse_speed_limit: 0,
        wireless_battery_saving_mode: None,
        wireless_rf_power_level: None,
        wireless_rf_channel_hop: None,
    }
}

impl Settings {
    /// A record to read the settings of a device into, in which nothing is
    /// set.
    pub fn new() -> (settings: Settings)
        ensures
            settings@ == blank_settings(),
    {
        Settings {
            keymap_custom: Vec::new(),
            keymap_default: Vec::new(),
            keymap_only_custom: false,
            settings_default_layer: 0,
            superkeys_map: Vec::new(),
            superkeys_wait_for: Duration::from_secs(0),
            superkeys_timeout: Duration::from_secs(0),
            superkeys_repeat: Duration::from_secs(0),
            superkeys_hold_start: Duration::from_secs(0),
            superkeys_overlap: 0,
            led_mode: LedMode::PerLayer,
            led_brightness_top: 0,
            led_brightness_underglow: None,
            led_brightness_wireless_top: None,
            led_brightness_wireless_underglow: None,
            led_fade: None,
            led_theme: Vec::new(),
            palette_rgb: None,
            palette_rgbw: None,
            color_map: Vec::new(),
            led_idle_true_sleep: None,
            led_idle_true_sleep_time: None,
            led_idle_time_limit: Duration::from_secs(0),
            led_idle_wireless: None,
            qukeys_hold_timeout: Duration::from_secs(0),
            qukeys_overlap_threshold: Duration::from_secs(0),
            macros_map: Vec::new(),
            mouse_speed: 0,
            mouse_delay: Duration::from_secs(0),
            mouse_acceleration_speed: 0,
            mouse_acceleration_delay: Duration::from_secs(0),
            mouse_wheel_speed: 0,
            mouse_wheel_delay: Duration::from_secs(0),
            mouse_speed_limit: 0,
            wireless_battery_saving_mode: None,
            wireless_rf_power_level: None,
            wireless_rf_channel_hop: None,
        }
    }
}

/// The command that asks for the setting at position `index`.
pub open spec fn backup_command(index: int) -> Seq<char> {
    if index == 0 {
        "keymap.custom"@
    } else if index == 1 {
        "keymap.default"@
    } else if index == 2 {
        "keymap.onlyCustom"@
    } else if index == 3 {
        "settings.defaultLayer"@
    } else if index == 4 {
        "superkeys.map"@
    } else if index == 5 {
        "superkeys.waitfor"@
    } else if index == 6 {
        "superkeys.timeout"@
    } else if index == 7 {
        "superkeys.repeat"@
    } else if index == 8 {
        "superkeys.holdstart"@
    } else if index == 9 {
        "superkeys.overlap"@
    } else if index == 10 {
        "led.mode"@
    } else if index == 11 {
        "led.brightness"@
    } else if index == 12 {
        "led.brightnessUG"@
    } else if index == 13 {
        "led.brightness.wireless"@
    } else if index == 14 {
        "led.brightnessUG.wireless"@
    } else if index == 15 {
        "led.fade"@
    } else if index == 16 {
        "led.theme"@
    } else if index == 17 {
        "palette"@
    } else if index == 18 {
        "palette"@
    } else if index == 19 {
        "colormap.map"@
    } else if index == 20 {
        "idleleds.true_sleep"@
    } else if index == 21 {
        "idleleds.true_sleep_time"@
    } else if index == 22 {
        "idleleds.time_limit"@
    } else if index == 23 {
        "idleleds.wireless"@
    } else if index == 24 {
        "qukeys.holdTimeout"@
    } else if index == 25 {
        "qukeys.overlapThreshold"@
    } else if index == 26 {
        "macros.map"@
    } else if index == 27 {
        "mouse.speed"@
    } else if index == 28 {
        "mouse.speedDelay"@
    } else if index == 29 {
        "mouse.accelSpeed"@
    } else if index == 30 {
        "mouse.accelDelay"@
    } else if index == 31 {
        "mouse.wheelSpeed"@
    } else if index == 32 {
        "mouse.wheelDelay"@
    } else if index == 33 {
        "mouse.speedLimit"@
    } else if index == 34 {
        "wireless.battery.savingMode"@
    } else if index == 35 {
        "wireless.rf.power"@
    } else {
        "wireless.rf.channelHop"@
    }
}

/// The record after the response `r` has been read as the setting at
/// position `index`. A response that cannot be read is an error for a
/// setting that every device has, and leaves an optional setting absent.
pub open spec fn stored(snapshot: SettingsView, index: int, r: Seq<char>) -> Result<
    SettingsView,
    ProtocolError,
> {
    if index == 0 {
        match numerical_vector::<u16>(r) {
            Ok(v) => Ok(SettingsView { keymap_custom: v, ..snapshot }),
            Err(e) => Err(e),
        }
    } else if index == 1 {
        match numerical_vector::<u16>(r) {
            Ok(v) => Ok(SettingsView { keymap_default: v, ..snapshot }),
            Err(e) => Err(e),
        }
    } else if index == 2 {
        match flag_of(r) {
            Ok(v) => Ok(SettingsView { keymap_only_custom: v, ..snapshot }),
            Err(e) => Err(e),
        }
    } else if index == 3 {
        match number_of::<u8>(r) {
            Ok(v) => Ok(SettingsView { settings_default_layer: v, ..snapshot }),
            Err(e) => Err(e),
        }
    } else if index == 4 {
        match numerical_vector::<u16>(r) {
            Ok(v) => Ok(SettingsView { superkeys_map: v, ..snapshot }),
            Err(e) => Err(e),
        }
    } else if index == 5 {
        match duration_of(r, TimeUnit::Milliseconds) {
            Ok(v) => Ok(SettingsView { superkeys_wait_for: v, ..snapshot }),
            Err(e) => Err(e),
        }
    } else if index == 6 {
        match duration_of(r, TimeUnit::Milliseconds) {
            Ok(v) => Ok(SettingsView { superkeys_timeout: v, ..snapshot }),
            Err(e) => Err(e),
        }
    } else if index == 7 {
        match duration_of(r, TimeUnit::Milliseconds) {
            Ok(v) => Ok(SettingsView { superkeys_repeat: v, ..snapshot }),
            Err(e) => Err(e),
        }
    } else if index == 8 {
        match duration_of(r, TimeUnit::Milliseconds) {
            Ok(v) => Ok(SettingsView { superkeys_hold_start: v, ..snapshot }),
            Err(e) => Err(e),
        }
    } else if index == 9 {
        match number_of::<u8>(r) {
            Ok(v) => Ok(SettingsView { superkeys_overlap: v, ..snapshot }),
            Err(e) => Err(e),
        }
    } else if index == 10 {
        match led_mode_in(r) {
            Ok(v) => Ok(SettingsView { led_mode: v, ..snapshot }),
            Err(e) => Err(e),
        }
    } else if index == 11 {
        match number_of::<u8>(r) {
            Ok(v) => Ok(SettingsView { led_brightness_top: v, ..snapshot }),
            Err(e) => Err(e),
        }
    } else if index == 12 {
        Ok(
            SettingsView {
                led_brightness_underglow: match number_of::<u8>(r) {
                    Ok(v) => Some(v),
                    Err(_) => None,
                },
                ..snapshot
            },
        )
    } else if index == 13 {
        Ok(
            SettingsView {
                led_brightness_wireless_top: match number_of::<u8>(r) {
                    Ok(v) => Some(v),
                    Err(_) => None,
                },
                ..snapshot
            },
        )
    } else if index == 14 {
        Ok(
            SettingsView {
                led_brightness_wireless_underglow: match number_of::<u8>(r) {
                    Ok(v) => Some(v),
                    Err(_) => None,
                },
                ..snapshot
            },
        )
    } else if index == 15 {
        Ok(
            SettingsView {
                led_fade: match number_of::<u16>(r) {
                    Ok(v) => Some(v),
                    Err(_) => None,
                },
                ..snapshot
            },
        )
    } else if index == 16 {
        match rgb_vector(r) {
            Ok(v) => Ok(SettingsView { led_theme: v, ..snapshot }),
            Err(e) => Err(e),
        }
    } else if index == 17 {
        Ok(
            SettingsView {
                palette_rgb: match rgb_vector(r) {
                    Ok(v) => Some(v),
                    Err(_) => None,
                },
                ..snapshot
            },
        )
    } else if index == 18 {
        Ok(
            SettingsView {
                palette_rgbw: match rgbw_vector(r) {
                    Ok(v) => Some(v),
                    Err(_) => None,
                },
                ..snapshot
            },
        )
    } else if index == 19 {
        match numerical_vector::<u8>(r) {
            Ok(v) => Ok(SettingsView { color_map: v, ..snapshot }),
            Err(e) => Err(e),
        }
    } else if index == 20 {
        Ok(
            SettingsView {
                led_idle_true_sleep: match flag_of(r) {
                    Ok(v) => Some(v),
                    Err(_) => None,
                },
                ..snapshot
            },
        )
    } else if index == 21 {
        Ok(
            SettingsView {
                led_idle_true_sleep_time: match duration_of(r, TimeUnit::Seconds) {
                    Ok(v) => Some(v),
                    Err(_) => None,
                },
                ..snapshot
            },
        )
    } else if index == 22 {
        match duration_of(r, TimeUnit::Seconds) {
            Ok(v) => Ok(SettingsView { led_idle_time_limit: v, ..snapshot }),
            Err(e) => Err(e),
        }
    } else if index == 23 {
        Ok(
            SettingsView {
                led_idle_wireless: match flag_of(r) {
                    Ok(v) => Some(v),
                    Err(_) => None,
                },
                ..snapshot
            },
        )
    } else if index == 24 {
        match duration_of(r, TimeUnit::Milliseconds) {
            Ok(v) => Ok(SettingsView { qukeys_hold_timeout: v, ..snapshot }),
            Err(e) => Err(e),
        }
    } else if index == 25 {
        match duration_of(r, TimeUnit::Milliseconds) {
            Ok(v) => Ok(SettingsView { qukeys_overlap_threshold: v, ..snapshot }),
            Err(e) => Err(e),
        }
    } else if index == 26 {
        match numerical_vector::<u8>(r) {
            Ok(v) => Ok(SettingsView { macros_map: v, ..snapshot }),
            Err(e) => Err(e),
        }
    } else if index == 27 {
        match number_of::<u8>(r) {
            Ok(v) => Ok(SettingsView { mouse_speed: v, ..snapshot }),
            Err(e) => Err(e),
        }
    } else if index == 28 {
        match duration_of(r, TimeUnit::Milliseconds) {
            Ok(v) => Ok(SettingsView { mouse_delay: v, ..snapshot }),
            Err(e) => Err(e),
        }
    } else if index == 29 {
        match number_of::<u8>(r) {
            Ok(v) => Ok(SettingsView { mouse_acceleration_speed: v, ..snapshot }),
            Err(e) => Err(e),
        }
    } else if index == 30 {
        match duration_of(r, TimeUnit::Milliseconds) {
            Ok(v) => Ok(SettingsView { mouse_acceleration_delay: v, ..snapshot }),
            Err(e) => Err(e),
        }
    } else if index == 31 {
        match number_of::<u8>(r) {
            Ok(v) => Ok(SettingsView { mouse_wheel_speed: v, ..snapshot }),
            Err(e) => Err(e),
        }
    } else if index == 32 {
        match duration_of(r, TimeUnit::Milliseconds) {
            Ok(v) => Ok(SettingsView { mouse_wheel_delay: v, ..snapshot }),
            Err(e) => Err(e),
        }
    } else if index == 33 {
        match number_of::<u8>(r) {
            Ok(v) => Ok(SettingsView { mouse_speed_limit: v, ..snapshot }),
            Err(e) => Err(e),
        }
    } else if index == 34 {
        Ok(
            SettingsView {
                wireless_battery_saving_mode: match flag_of(r) {
                    Ok(v) => Some(v),
                    Err(_) => None,
                },
                ..snapshot
            },
        )
    } else if index == 35 {
        Ok(
            SettingsView {
                wireless_rf_power_level: match power_mode_in(r) {
                    Ok(v) => Some(v),
                    Err(_) => None,
                },
                ..snapshot
            },
        )
    } else {
        Ok(
            SettingsView {
                wireless_rf_channel_hop: match flag_of(r) {
                    Ok(v) => Some(v),
                    Err(_) => None,
                },
                ..snapshot
            },
        )
    }
}

/// What `settings_get` does at each step: the position that it leaves, the
/// record that it leaves, and what it asks for.
///
/// With no response the backup starts at the first setting and asks for it.
/// With a response, the setting at the position is read from it; then the
/// next setting is asked for, or the backup is done after the last. A
/// failure leaves the position and the record as they were.
pub open spec fn backup(cursor: int, reply: Option<Seq<char>>, snapshot: SettingsView) -> (
    int,
    SettingsView,
    Outcome,
) {
    match reply {
        None => (0, snapshot, Outcome::Send(query_line(backup_command(0)))),
        Some(r) => if cursor >= SETTINGS_COUNT {
            (cursor, snapshot, Outcome::Done(Ok(())))
        } else {
            match stored(snapshot, cursor, r) {
                Err(e) => (cursor, snapshot, Outcome::Done(Err(e))),
                Ok(next) => if cursor + 1 < SETTINGS_COUNT {
                    (cursor + 1, next, Outcome::Send(query_line(backup_command(cursor + 1))))
                } else {
                    (cursor + 1, next, Outcome::Done(Ok(())))
                },
            }
        },
    }
}

/// What the guarded write of the setting at position `index` does at a
/// step, or nothing where the record does not hold that setting.
pub open spec fn restore_field(
    index: int,
    awaiting: bool,
    reply: Option<Seq<char>>,
    settings: SettingsView,
) -> Option<(bool, Outcome)> {
    if index == 0 {
        Some(keymap_custom_set_step(awaiting, reply, settings.keymap_custom))
    } else if index == 1 {
        Some(keymap_default_set_step(awaiting, reply, settings.keymap_default))
    } else if index == 2 {
        Some(keymap_only_custom_set_step(awaiting, reply, settings.keymap_only_custom))
    } else if index == 3 {
        Some(settings_default_layer_set_step(awaiting, reply, settings.settings_default_layer))
    } else if index == 4 {
        Some(superkeys_map_set_step(awaiting, reply, settings.superkeys_map))
    } else if index == 5 {
        Some(superkeys_wait_for_set_step(awaiting, reply, settings.superkeys_wait_for))
    } else if index == 6 {
        Some(superkeys_timeout_set_step(awaiting, reply, settings.superkeys_timeout))
    } else if index == 7 {
        Some(superkeys_repeat_set_step(awaiting, reply, settings.superkeys_repeat))
    } else if index == 8 {
        Some(superkeys_hold_start_set_step(awaiting, reply, settings.superkeys_hold_start))
    } else if index == 9 {
        Some(superkeys_overlap_set_step(awaiting, reply, settings.superkeys_overlap))
    } else if index == 10 {
        Some(led_mode_set_step(awaiting, reply, settings.led_mode))
    } else if index == 11 {
        Some(led_brightness_top_set_step(awaiting, reply, settings.led_brightness_top))
    } else if index == 12 {
        match settings.led_brightness_underglow {
            Some(v) => Some(led_brightness_underglow_set_step(awaiting, reply, v)),
            None => None,
        }
    } else if index == 13 {
        match settings.led_brightness_wireless_top {
            Some(v) => Some(led_brightness_wireless_top_set_step(awaiting, reply, v)),
            None => None,
        }
    } else if index == 14 {
        match settings.led_brightness_wireless_underglow {
            Some(v) => Some(led_brightness_wireless_underglow_set_step(awaiting, reply, v)),
            None => None,
        }
    } else if index == 15 {
        match settings.led_fade {
            Some(v) => Some(led_fade_set_step(awaiting, reply, v)),
            None => None,
        }
    } else if index == 16 {
        Some(led_theme_set_step(awaiting, reply, settings.led_theme))
    } else if index == 17 {
        match settings.palette_rgb {
            Some(v) => Some(palette_rgb_set_step(awaiting, reply, v)),
            None => None,
        }
    } else if index == 18 {
        match settings.palette_rgbw {
            Some(v) => Some(palette_rgbw_set_step(awaiting, reply, v)),
            None => None,
        }
    } else if index == 19 {
        Some(color_map_set_step(awaiting, reply, settings.color_map))
    } else if index == 20 {
        match settings.led_idle_true_sleep {
            Some(v) => Some(led_idle_true_sleep_set_step(awaiting, reply, v)),
            None => None,
        }
    } else if index == 21 {
        match settings.led_idle_true_sleep_time {
            Some(v) => Some(led_idle_true_sleep_time_set_step(awaiting, reply, v)),
            None => None,
        }
    } else if index == 22 {
        Some(led_idle_time_limit_set_step(awaiting, reply, settings.led_idle_time_limit))
    } else if index == 23 {
        match settings.led_idle_wireless {
            Some(v) => Some(led_idle_wireless_set_step(awaiting, reply, v)),
            None => None,
        }
    } else if index == 24 {
        Some(qukeys_hold_timeout_set_step(awaiting, reply, settings.qukeys_hold_timeout))
    } else if index == 25 {
        Some(qukeys_overlap_threshold_set_step(awaiting, reply, settings.qukeys_overlap_threshold))
    } else if index == 26 {
        Some(macros_map_set_step(awaiting, reply, settings.macros_map))
    } else if index == 27 {
        Some(mouse_speed_set_step(awaiting, reply, settings.mouse_speed))
    } else if index == 28 {
        Some(mouse_delay_set_step(awaiting, reply, settings.mouse_delay))
    } else if index == 29 {
        Some(mouse_acceleration_speed_set_step(awaiting, reply, settings.mouse_acceleration_speed))
    } else if index == 30 {
        Some(mouse_acceleration_delay_set_step(awaiting, reply, settings.mouse_acceleration_delay))
    } else if index == 31 {
        Some(mouse_wheel_speed_set_step(awaiting, reply, settings.mouse_wheel_speed))
    } else if index == 32 {
        Some(mouse_wheel_delay_set_step(awaiting, reply, settings.mouse_wheel_delay))
    } else if index == 33 {
        Some(mouse_speed_limit_set_step(awaiting, reply, settings.mouse_speed_limit))
    } else if index == 34 {
        match settings.wireless_battery_saving_mode {
            Some(v) => Some(wireless_battery_saving_mode_set_step(awaiting, reply, v)),
            None => None,
        }
    } else if index == 35 {
        match settings.wireless_rf_power_level {
            Some(v) => Some(wireless_rf_power_level_set_step(awaiting, reply, v)),
            None => None,
        }
    } else {
        match settings.wireless_rf_channel_hop {
            Some(v) => Some(wireless_rf_channel_hop_set_step(awaiting, reply, v)),
            None => None,
        }
    }
}

/// What `settings_set` does from position `cursor` on: the position that
/// it leaves, whether a confirmation is awaited then, and what it asks for.
///
/// The settings are written in order, each by its guarded write. A setting
/// that the record does not hold is passed over. A write that ends well is
/// followed by the start of the next; a write that fails ends the restore
/// at its position; after the last setting the restore is done.
pub open spec fn restore(
    cursor: int,
    awaiting: bool,
    reply: Option<Seq<char>>,
    settings: SettingsView,
) -> (int, bool, Outcome)
    decreases SETTINGS_COUNT - cursor,
{
    if cursor < 0 || cursor >= SETTINGS_COUNT {
        (cursor, awaiting, Outcome::Done(Ok(())))
    } else {
        match restore_field(cursor, awaiting, reply, settings) {
            None => restore(cursor + 1, awaiting, None, settings),
            Some((after, Outcome::Done(Ok(())))) => restore(cursor + 1, after, None, settings),
            Some((after, outcome)) => (cursor, after, outcome),
        }
    }
}

/// The command that asks for the setting at position `index`.
fn backup_verb(index: usize) -> (command: &'static str)
    ensures
        command@ == backup_command(index as int),
{
    match index {
        0 => "keymap.custom",
        1 => "keymap.default",
        2 => "keymap.onlyCustom",
        3 => "settings.defaultLayer",
        4 => "superkeys.map",
        5 => "superkeys.waitfor",
        6 => "superkeys.timeout",
        7 => "superkeys.repeat",
        8 => "superkeys.holdstart",
        9 => "superkeys.overlap",
        10 => "led.mode",
        11 => "led.brightness",
        12 => "led.brightnessUG",
        13 => "led.brightness.wireless",
        14 => "led.brightnessUG.wireless",
        15 => "led.fade",
        16 => "led.theme",
        17 => "palette",
        18 => "palette",
        19 => "colormap.map",
        20 => "idleleds.true_sleep",
        21 => "idleleds.true_sleep_time",
        22 => "idleleds.time_limit",
        23 => "idleleds.wireless",
        24 => "qukeys.holdTimeout",
        25 => "qukeys.overlapThreshold",
        26 => "macros.map",
        27 => "mouse.speed",
        28 => "mouse.speedDelay",
        29 => "mouse.accelSpeed",
        30 => "mouse.accelDelay",
        31 => "mouse.wheelSpeed",
        32 => "mouse.wheelDelay",
        33 => "mouse.speedLimit",
        34 => "wireless.battery.savingMode",
        35 => "wireless.rf.power",
        _ => "wireless.rf.channelHop",
    }
}

/// Reads the response `r` as the setting at position `index` into the
/// record.
#[verifier::rlimit(60)]
fn store(index: usize, r: &str, snapshot: &mut Settings) -> (done: Result<(), ProtocolError>)
    ensures
        match stored(old(snapshot)@, index as int, r@) {
            Ok(next) => done is Ok && final(snapshot)@ == next,
            Err(e) => done == Err::<(), ProtocolError>(e) && final(snapshot)@ == old(snapshot)@,
        },
{
    match index {
        0 => match string_to_numerical_vec::<u16>(r) {
            Ok(v) => {
                snapshot.keymap_custom = v;
                Ok(())
            },
            Err(e) => Err(e),
        },
        1 => match string_to_numerical_vec::<u16>(r) {
            Ok(v) => {
                snapshot.keymap_default = v;
                Ok(())
            },
            Err(e) => Err(e),
        },
        2 => match read_flag(r) {
            Ok(v) => {
                snapshot.keymap_only_custom = v;
                Ok(())
            },
            Err(e) => Err(e),
        },
        3 => match read_number::<u8>(r) {
            Ok(v) => {
                snapshot.settings_default_layer = v;
                Ok(())
            },
            Err(e) => Err(e),
        },
        4 => match string_to_numerical_vec::<u16>(r) {
            Ok(v) => {
                snapshot.superkeys_map = v;
                Ok(())
            },
            Err(e) => Err(e),
        },
        5 => match read_duration(r, TimeUnit::Milliseconds) {
            Ok(v) => {
                snapshot.superkeys_wait_for = v;
                Ok(())
            },
            Err(e) => Err(e),
        },
        6 => match read_duration(r, TimeUnit::Milliseconds) {
            Ok(v) => {
                snapshot.superkeys_timeout = v;
                Ok(())
            },
            Err(e) => Err(e),
        },
        7 => match read_duration(r, TimeUnit::Milliseconds) {
            Ok(v) => {
                snapshot.superkeys_repeat = v;
                Ok(())
            },
            Err(e) => Err(e),
        },
        8 => match read_duration(r, TimeUnit::Milliseconds) {
            Ok(v) => {
                snapshot.superkeys_hold_start = v;
                Ok(())
            },
            Err(e) => Err(e),
        },
        9 => match read_number::<u8>(r) {
            Ok(v) => {
                snapshot.superkeys_overlap = v;
                Ok(())
            },
            Err(e) => Err(e),
        },
        10 => match read_led_mode(r) {
            Ok(v) => {
                snapshot.led_mode = v;
                Ok(())
            },
            Err(e) => Err(e),
        },
        11 => match read_number::<u8>(r) {
            Ok(v) => {
                snapshot.led_brightness_top = v;
                Ok(())
            },
            Err(e) => Err(e),
        },
        12 => {
            snapshot.led_brightness_underglow = match read_number::<u8>(r) {
                Ok(v) => Some(v),
                Err(_) => None,
            };
            Ok(())
        },
        13 => {
            snapshot.led_brightness_wireless_top = match read_number::<u8>(r) {
                Ok(v) => Some(v),
                Err(_) => None,
            };
            Ok(())
        },
        14 => {
            snapshot.led_brightness_wireless_underglow = match read_number::<u8>(r) {
                Ok(v) => Some(v),
                Err(_) => None,
            };
            Ok(())
        },
        15 => {
            snapshot.led_fade = match read_number::<u16>(r) {
                Ok(v) => Some(v),
                Err(_) => None,
            };
            Ok(())
        },
        16 => match string_to_rgb_vec(r) {
            Ok(v) => {
                snapshot.led_theme = v;
                Ok(())
            },
            Err(e) => Err(e),
        },
        17 => {
            snapshot.palette_rgb = match string_to_rgb_vec(r) {
                Ok(v) => Some(v),
                Err(_) => None,
            };
            Ok(())
        },
        18 => {
            snapshot.palette_rgbw = match string_to_rgbw_vec(r) {
                Ok(v) => Some(v),
                Err(_) => None,
            };
            Ok(())
        },
        19 => match string_to_numerical_vec::<u8>(r) {
            Ok(v) => {
                snapshot.color_map = v;
                Ok(())
            },
            Err(e) => Err(e),
        },
        20 => {
            snapshot.led_idle_true_sleep = match read_flag(r) {
                Ok(v) => Some(v),
                Err(_) => None,
            };
            Ok(())
        },
        21 => {
            snapshot.led_idle_true_sleep_time = match read_duration(r, TimeUnit::Seconds) {
                Ok(v) => Some(v),
                Err(_) => None,
            };
            Ok(())
        },
        22 => match read_duration(r, TimeUnit::Seconds) {
            Ok(v) => {
                snapshot.led_idle_time_limit = v;
                Ok(())
            },
            Err(e) => Err(e),
        },
        23 => {
            snapshot.led_idle_wireless = match read_flag(r) {
                Ok(v) => Some(v),
                Err(_) => None,
            };
            Ok(())
        },
        24 => match read_duration(r, TimeUnit::Milliseconds) {
            Ok(v) => {
                snapshot.qukeys_hold_timeout = v;
                Ok(())
            },
            Err(e) => Err(e),
        },
        25 => match read_duration(r, TimeUnit::Milliseconds) {
            Ok(v) => {
                snapshot.qukeys_overlap_threshold = v;
                Ok(())
            },
            Err(e) => Err(e),
        },
        26 => match string_to_numerical_vec::<u8>(r) {
            Ok(v) => {
                snapshot.macros_map = v;
                Ok(())
            },
            Err(e) => Err(e),
        },
        27 => match read_number::<u8>(r) {
            Ok(v) => {
                snapshot.mouse_speed = v;
                Ok(())
            },
            Err(e) => Err(e),
        },
        28 => match read_duration(r, TimeUnit::Milliseconds) {
            Ok(v) => {
                snapshot.mouse_delay = v;
                Ok(())
            },
            Err(e) => Err(e),
        },
        29 => match read_number::<u8>(r) {
            Ok(v) => {
                snapshot.mouse_acceleration_speed = v;
                Ok(())
            },
            Err(e) => Err(e),
        },
        30 => match read_duration(r, TimeUnit::Milliseconds) {
            Ok(v) => {
                snapshot.mouse_acceleration_delay = v;
                Ok(())
            },
            Err(e) => Err(e),
        },
        31 => match read_number::<u8>(r) {
            Ok(v) => {
                snapshot.mouse_wheel_speed = v;
                Ok(())
            },
            Err(e) => Err(e),
        },
        32 => match read_duration(r, TimeUnit::Milliseconds) {
            Ok(v) => {
                snapshot.mouse_wheel_delay = v;
                Ok(())
            },
            Err(e) => Err(e),
        },
        33 => match read_number::<u8>(r) {
            Ok(v) => {
                snapshot.mouse_speed_limit = v;
                Ok(())
            },
            Err(e) => Err(e),
        },
        34 => {
            snapshot.wireless_battery_saving_mode = match read_flag(r) {
                Ok(v) => Some(v),
                Err(_) => None,
            };
            Ok(())
        },
        35 => {
            snapshot.wireless_rf_power_level = match read_power_mode(r) {
                Ok(v) => Some(v),
                Err(_) => None,
            };
            Ok(())
        },
        _ => {
            snapshot.wireless_rf_channel_hop = match read_flag(r) {
                Ok(v) => Some(v),
                Err(_) => None,
            };
            Ok(())
        },
    }
}

/// What a device answers when it is asked for the setting at position
/// `index`. A device whose state does not change answers the same line with
/// the same text every time.
pub open spec fn answer(device: spec_fn(Seq<char>) -> Seq<char>, index: int) -> Seq<char> {
    device(query_line(backup_command(index)))
}

/// Whether the record holds, for the setting at position `index`, what the
/// device answers for it: reading the answer into the record changes
/// nothing.
pub open spec fn holds_at(
    device: spec_fn(Seq<char>) -> Seq<char>,
    settings: SettingsView,
    index: int,
) -> bool {
    stored(settings, index, answer(device, index)) == Ok::<SettingsView, ProtocolError>(settings)
}

/// Whether the record holds what the device answers for each of the first
/// `upto` settings.
pub open spec fn holds_upto(
    device: spec_fn(Seq<char>) -> Seq<char>,
    settings: SettingsView,
    upto: int,
) -> bool {
    forall|i: int| 0 <= i < upto ==> #[trigger] holds_at(device, settings, i)
}

/// Whether every value of the record that a setter checks is one that the
/// setter takes.
pub open spec fn in_range(settings: SettingsView) -> bool {
    &&& settings.settings_default_layer <= MAX_LAYERS
    &&& settings.superkeys_overlap <= 80
    &&& settings.mouse_speed <= 127
    &&& settings.led_idle_time_limit.secs <= 65000
    &&& settings.led_idle_true_sleep_time matches Some(span) ==> span.secs <= 65000
}

/// Whether a line asks for a setting and carries no value.
pub open spec fn is_query(line: Seq<char>) -> bool {
    exists|j: int| 0 <= j < SETTINGS_COUNT && line == query_line(#[trigger] backup_command(j))
}

/// The backup as its caller runs it, for at most `fuel` steps: each line
/// that a step asks for is answered by the device, and the answer is handed
/// to the next step. The result is the record where the backup ends well,
/// the error where it fails, and nothing where the steps run out or a line
/// is sent after which no response is read.
pub open spec fn backup_run(
    device: spec_fn(Seq<char>) -> Seq<char>,
    cursor: int,
    reply: Option<Seq<char>>,
    snapshot: SettingsView,
    fuel: nat,
) -> Option<Result<SettingsView, ProtocolError>>
    decreases fuel,
{
    if fuel == 0 {
        None
    } else {
        let step = backup(cursor, reply, snapshot);
        match step.2 {
            Outcome::Send(line) => backup_run(
                device,
                step.0,
                Some(device(line)),
                step.1,
                (fuel - 1) as nat,
            ),
            Outcome::Tell(_) => None,
            Outcome::Done(Ok(())) => Some(Ok(step.1)),
            Outcome::Done(Err(e)) => Some(Err(e)),
        }
    }
}

/// The restore as its caller runs it, for at most `fuel` steps: the lines
/// that it sends, in order, and how it ends, if it ends within the steps. A
/// line after which no response is read leaves the run without an end.
pub open spec fn restore_run(
    device: spec_fn(Seq<char>) -> Seq<char>,
    cursor: int,
    awaiting: bool,
    reply: Option<Seq<char>>,
    settings: SettingsView,
    fuel: nat,
) -> (Seq<Seq<char>>, Option<Result<(), ProtocolError>>)
    decreases fuel,
{
    if fuel == 0 {
        (Seq::empty(), None)
    } else {
        let step = restore(cursor, awaiting, reply, settings);
        match step.2 {
            Outcome::Send(line) => {
                let rest = restore_run(
                    device,
                    step.0,
                    step.1,
                    Some(device(line)),
                    settings,
                    (fuel - 1) as nat,
                );
                (seq![line] + rest.0, rest.1)
            },
            Outcome::Tell(line) => (seq![line], None),
            Outcome::Done(end) => (Seq::empty(), Some(end)),
        }
    }
}

/// A setting that was read from an answer reads the same from the same
/// answer again.
#[verifier::rlimit(100)]
pub proof fn lemma_stored_again(snapshot: SettingsView, index: int, r: Seq<char>)
    requires
        0 <= index < SETTINGS_COUNT,
        stored(snapshot, index, r) is Ok,
    ensures
        stored(stored(snapshot, index, r).unwrap(), index, r) == stored(snapshot, index, r),
{
}

/// Reading one of the settings from position 0 up to position 13 leaves
/// what the record holds for another.
#[verifier::rlimit(100)]
#[verifier::spinoff_prover]
proof fn lemma_stored_keeps_low(snapshot: SettingsView, index: int, r: Seq<char>, other: int, held: Seq<char>)
    requires
        0 <= index < 13,
        0 <= other < SETTINGS_COUNT,
        index != other,
        stored(snapshot, index, r) is Ok,
        stored(snapshot, other, held) == Ok::<SettingsView, ProtocolError>(snapshot),
    ensures
        stored(stored(snapshot, index, r).unwrap(), other, held) == stored(snapshot, index, r),
{
}

/// Reading one of the settings from position 13 up to position 25 leaves
/// what the record holds for another.
#[verifier::rlimit(100)]
#[verifier::spinoff_prover]
proof fn lemma_stored_keeps_mid(snapshot: SettingsView, index: int, r: Seq<char>, other: int, held: Seq<char>)
    requires
        13 <= index < 25,
        0 <= other < SETTINGS_COUNT,
        index != other,
        stored(snapshot, index, r) is Ok,
        stored(snapshot, other, held) == Ok::<SettingsView, ProtocolError>(snapshot),
    ensures
        stored(stored(snapshot, index, r).unwrap(), other, held) == stored(snapshot, index, r),
{
}

/// Reading one of the settings from position 25 up to position 37 leaves
/// what the record holds for another.
#[verifier::rlimit(100)]
#[verifier::spinoff_prover]
proof fn lemma_stored_keeps_high(snapshot: SettingsView, index: int, r: Seq<char>, other: int, held: Seq<char>)
    requires
        25 <= index < 37,
        0 <= other < SETTINGS_COUNT,
        index != other,
        stored(snapshot, index, r) is Ok,
        stored(snapshot, other, held) == Ok::<SettingsView, ProtocolError>(snapshot),
    ensures
        stored(stored(snapshot, index, r).unwrap(), other, held) == stored(snapshot, index, r),
{
}

/// Reading one setting leaves what the record holds for another.
pub proof fn lemma_stored_keeps(
    snapshot: SettingsView,
    index: int,
    r: Seq<char>,
    other: int,
    held: Seq<char>,
)
    requires
        0 <= index < SETTINGS_COUNT,
        0 <= other < SETTINGS_COUNT,
        index != other,
        stored(snapshot, index, r) is Ok,
        stored(snapshot, other, held) == Ok::<SettingsView, ProtocolError>(snapshot),
    ensures
        stored(stored(snapshot, index, r).unwrap(), other, held) == stored(snapshot, index, r),
{
    if index < 13 {
        lemma_stored_keeps_low(snapshot, index, r, other, held);
    } else if index < 25 {
        lemma_stored_keeps_mid(snapshot, index, r, other, held);
    } else {
        lemma_stored_keeps_high(snapshot, index, r, other, held);
    }
}

/// A backup that ends well ends with a record that holds what the device
/// answers for every setting.
pub proof fn lemma_backup_holds(
    device: spec_fn(Seq<char>) -> Seq<char>,
    cursor: int,
    snapshot: SettingsView,
    fuel: nat,
)
    requires
        0 <= cursor < SETTINGS_COUNT,
        holds_upto(device, snapshot, cursor),
        backup_run(device, cursor, Some(answer(device, cursor)), snapshot, fuel) matches Some(
            Ok(_),
        ),
    ensures
        backup_run(device, cursor, Some(answer(device, cursor)), snapshot, fuel) matches Some(
            Ok(s),
        ) && holds_upto(device, s, SETTINGS_COUNT as int),
    decreases fuel,
{
    let r = answer(device, cursor);
    let next = stored(snapshot, cursor, r).unwrap();
    assert(stored(snapshot, cursor, r) is Ok);
    assert forall|i: int| 0 <= i < cursor + 1 implies #[trigger] holds_at(device, next, i) by {
        if i == cursor {
            lemma_stored_again(snapshot, cursor, r);
        } else {
            assert(holds_at(device, snapshot, i));
            lemma_stored_keeps(snapshot, cursor, r, i, answer(device, i));
        }
    }
    if cursor + 1 < SETTINGS_COUNT {
        lemma_backup_holds(device, cursor + 1, next, (fuel - 1) as nat);
    }
}

/// Where the record holds what the device answers for a setting, and its
/// values are in range, the guarded write of that setting asks for the
/// setting and ends well at the answer, without a write; a setting that the
/// record does not hold is passed over either way.
#[verifier::rlimit(100)]
#[verifier::spinoff_prover]
pub proof fn lemma_restore_field_of_held(
    device: spec_fn(Seq<char>) -> Seq<char>,
    settings: SettingsView,
    index: int,
)
    requires
        0 <= index < SETTINGS_COUNT,
        holds_at(device, settings, index),
        in_range(settings),
    ensures
        restore_field(index, false, None, settings) is None || restore_field(
            index,
            false,
            None,
            settings,
        ) == Some((false, Outcome::Send(query_line(backup_command(index))))),
        restore_field(index, false, Some(answer(device, index)), settings) == if restore_field(
            index,
            false,
            None,
            settings,
        ) is None {
            None
        } else {
            Some((false, Outcome::Done(Ok(()))))
        },
{
}

/// From any position, the restore of a record that holds what the device
/// answers either ends well or asks for a setting; and at the answer it
/// stands where it stands at the start of the next position.
pub proof fn lemma_restore_asks(
    device: spec_fn(Seq<char>) -> Seq<char>,
    settings: SettingsView,
    cursor: int,
)
    requires
        0 <= cursor,
        holds_upto(device, settings, SETTINGS_COUNT as int),
        in_range(settings),
    ensures
        ({
            let step = restore(cursor, false, None, settings);
            &&& !step.1
            &&& cursor <= step.0
            &&& step.2 == Outcome::Done(Ok(())) || {
                &&& step.0 < SETTINGS_COUNT
                &&& step.2 == Outcome::Send(query_line(backup_command(step.0)))
                &&& restore(step.0, false, Some(answer(device, step.0)), settings) == restore(
                    step.0 + 1,
                    false,
                    None,
                    settings,
                )
            }
        }),
    decreases SETTINGS_COUNT - cursor,
{
    if cursor < SETTINGS_COUNT {
        assert(holds_at(device, settings, cursor));
        lemma_restore_field_of_held(device, settings, cursor);
        if restore_field(cursor, false, None, settings) is None {
            lemma_restore_asks(device, settings, cursor + 1);
        }
    }
}

/// A restore of a record that holds what the device answers, with values in
/// range, writes nothing: however many steps are run, every line that is
/// sent asks for a setting, and the restore does not fail. It ends well
/// within one step for each setting and one more.
pub proof fn lemma_restore_is_quiet(
    device: spec_fn(Seq<char>) -> Seq<char>,
    settings: SettingsView,
    cursor: int,
    fuel: nat,
)
    requires
        0 <= cursor,
        holds_upto(device, settings, SETTINGS_COUNT as int),
        in_range(settings),
    ensures
        ({
            let run = restore_run(device, cursor, false, None, settings, fuel);
            &&& forall|k: int| 0 <= k < run.0.len() ==> is_query(#[trigger] run.0[k])
            &&& run.1 is None || run.1 == Some(Ok::<(), ProtocolError>(()))
            &&& fuel > 0 && fuel > SETTINGS_COUNT - cursor ==> run.1 is Some
        }),
    decreases fuel,
{
    if fuel > 0 {
        lemma_restore_asks(device, settings, cursor);
        let step = restore(cursor, false, None, settings);
        if step.2 != Outcome::Done(Ok(())) {
            let line = query_line(backup_command(step.0));
            let left = (fuel - 1) as nat;
            assert(device(line) == answer(device, step.0));
            assert(restore_run(device, step.0, false, Some(answer(device, step.0)), settings, left)
                == restore_run(device, step.0 + 1, false, None, settings, left));
            lemma_restore_is_quiet(device, settings, step.0 + 1, left);
            let rest = restore_run(device, step.0 + 1, false, None, settings, left);
            let run = restore_run(device, cursor, false, None, settings, fuel);
            assert(run.0 == seq![line] + rest.0);
            assert(is_query(line));
            assert forall|k: int| 0 <= k < run.0.len() implies is_query(#[trigger] run.0[k]) by {
                if k > 0 {
                    assert(run.0[k] == rest.0[k - 1]);
                }
            }
        }
    }
}

/// A restore of a fresh backup writes nothing. Where a backup of a device
/// has ended well with a record, the values of the record are in range,
/// and the device answers as it did, the restore of the record sends only
/// lines that ask for a setting, does not fail, and ends well.
pub proof fn lemma_restore_of_fresh_backup_writes_nothing(
    device: spec_fn(Seq<char>) -> Seq<char>,
    start: SettingsView,
    at: int,
    steps: nat,
    awaiting: bool,
    fuel: nat,
)
    requires
        backup_run(device, at, None, start, steps) matches Some(Ok(s)) && in_range(s),
    ensures
        ({
            let settings = backup_run(device, at, None, start, steps).unwrap().unwrap();
            let run = restore_run(device, 0, awaiting, None, settings, fuel);
            &&& forall|k: int| 0 <= k < run.0.len() ==> is_query(#[trigger] run.0[k])
            &&& run.1 is None || run.1 == Some(Ok::<(), ProtocolError>(()))
            &&& fuel > SETTINGS_COUNT ==> run.1 == Some(Ok::<(), ProtocolError>(()))
        }),
{
    let first = (steps - 1) as nat;
    assert(backup_run(device, at, None, start, steps) == backup_run(
        device,
        0,
        Some(answer(device, 0)),
        start,
        first,
    ));
    lemma_backup_holds(device, 0, start, first);
    let settings = backup_run(device, at, None, start, steps).unwrap().unwrap();
    lemma_restore_is_quiet(device, settings, 0, fuel);
    lemma_restore_starts_alike(settings, awaiting);
    assert(restore_run(device, 0, awaiting, None, settings, fuel) == restore_run(
        device,
        0,
        false,
        None,
        settings,
        fuel,
    ));
}

/// At its start a restore does not look at what was awaited before.
pub proof fn lemma_restore_starts_alike(settings: SettingsView, awaiting: bool)
    ensures
        restore(0, awaiting, None, settings) == restore(0, false, None, settings),
{
    lemma_restore_start(settings, 0, awaiting);
}

/// With no response, a restore does the same whatever was awaited before,
/// from any position at which a setting is started.
pub proof fn lemma_restore_start(settings: SettingsView, cursor: int, awaiting: bool)
    requires
        0 <= cursor,
    ensures
        restore(cursor, awaiting, None, settings).2 == restore(cursor, false, None, settings).2,
        restore(cursor, awaiting, None, settings).0 == restore(cursor, false, None, settings).0,
    decreases SETTINGS_COUNT - cursor,
{
    if cursor < SETTINGS_COUNT {
        lemma_restore_start(settings, cursor + 1, awaiting);
    }
}

impl Focus {
    /// One step of the guarded write of the setting at the position of the
    /// restore, or nothing where the record does not hold that setting.
    fn restore_one(&mut self, reply: Option<&str>, settings: &Settings) -> (step: Option<Step<()>>)
        ensures
            match restore_field(
                old(self).cursor as int,
                old(self).awaiting_ack,
                text_of(reply),
                settings@,
            ) {
                None => step is None && final(self).awaiting_ack == old(self).awaiting_ack,
                Some((after, outcome)) => step matches Some(s) && s.outcome() == outcome
                    && final(self).awaiting_ack == after,
            },
            final(self).response_buffer == old(self).response_buffer,
            final(self).cursor == old(self).cursor,
    {
        match self.cursor {
            0 => Some(self.keymap_custom_set(reply, settings.keymap_custom.as_slice())),
            1 => Some(self.keymap_default_set(reply, settings.keymap_default.as_slice())),
            2 => Some(self.keymap_only_custom_set(reply, settings.keymap_only_custom)),
            3 => Some(self.settings_default_layer_set(reply, settings.settings_default_layer)),
            4 => Some(self.superkeys_map_set(reply, settings.superkeys_map.as_slice())),
            5 => Some(self.superkeys_wait_for_set(reply, settings.superkeys_wait_for)),
            6 => Some(self.superkeys_timeout_set(reply, settings.superkeys_timeout)),
            7 => Some(self.superkeys_repeat_set(reply, settings.superkeys_repeat)),
            8 => Some(self.superkeys_hold_start_set(reply, settings.superkeys_hold_start)),
            9 => Some(self.superkeys_overlap_set(reply, settings.superkeys_overlap)),
            10 => Some(self.led_mode_set(reply, settings.led_mode)),
            11 => Some(self.led_brightness_top_set(reply, settings.led_brightness_top)),
            12 => match settings.led_brightness_underglow {
                Some(v) => Some(self.led_brightness_underglow_set(reply, v)),
                None => None,
            },
            13 => match settings.led_brightness_wireless_top {
                Some(v) => Some(self.led_brightness_wireless_top_set(reply, v)),
                None => None,
            },
            14 => match settings.led_brightness_wireless_underglow {
                Some(v) => Some(self.led_brightness_wireless_underglow_set(reply, v)),
                None => None,
            },
            15 => match settings.led_fade {
                Some(v) => Some(self.led_fade_set(reply, v)),
                None => None,
            },
            16 => Some(self.led_theme_set(reply, settings.led_theme.as_slice())),
            17 => match &settings.palette_rgb {
                Some(v) => Some(self.palette_rgb_set(reply, v.as_slice())),
                None => None,
            },
            18 => match &settings.palette_rgbw {
                Some(v) => Some(self.palette_rgbw_set(reply, v.as_slice())),
                None => None,
            },
            19 => Some(self.color_map_set(reply, settings.color_map.as_slice())),
            20 => match settings.led_idle_true_sleep {
                Some(v) => Some(self.led_idle_true_sleep_set(reply, v)),
                None => None,
            },
            21 => match settings.led_idle_true_sleep_time {
                Some(v) => Some(self.led_idle_true_sleep_time_set(reply, v)),
                None => None,
            },
            22 => Some(self.led_idle_time_limit_set(reply, settings.led_idle_time_limit)),
            23 => match settings.led_idle_wireless {
                Some(v) => Some(self.led_idle_wireless_set(reply, v)),
                None => None,
            },
            24 => Some(self.qukeys_hold_timeout_set(reply, settings.qukeys_hold_timeout)),
            25 => Some(self.qukeys_overlap_threshold_set(reply, settings.qukeys_overlap_threshold)),
            26 => Some(self.macros_map_set(reply, settings.macros_map.as_slice())),
            27 => Some(self.mouse_speed_set(reply, settings.mouse_speed)),
            28 => Some(self.mouse_delay_set(reply, settings.mouse_delay)),
            29 => Some(self.mouse_acceleration_speed_set(reply, settings.mouse_acceleration_speed)),
            30 => Some(self.mouse_acceleration_delay_set(reply, settings.mouse_acceleration_delay)),
            31 => Some(self.mouse_wheel_speed_set(reply, settings.mouse_wheel_speed)),
            32 => Some(self.mouse_wheel_delay_set(reply, settings.mouse_wheel_delay)),
            33 => Some(self.mouse_speed_limit_set(reply, settings.mouse_speed_limit)),
            34 => match settings.wireless_battery_saving_mode {
                Some(v) => Some(self.wireless_battery_saving_mode_set(reply, v)),
                None => None,
            },
            35 => match settings.wireless_rf_power_level {
                Some(v) => Some(self.wireless_rf_power_level_set(reply, v)),
                None => None,
            },
            _ => match settings.wireless_rf_channel_hop {
                Some(v) => Some(self.wireless_rf_channel_hop_set(reply, v)),
                None => None,
            },
        }
    }

    /// Gets the settings from the device.
    ///
    /// One step of the backup. Called with no response, it starts with the
    /// first setting; called with a response, it reads the setting that it
    /// asked for into `snapshot` and asks for the next. When it says that
    /// the operation is done, `snapshot` holds every setting.
    pub fn settings_get(&mut self, reply: Option<&str>, snapshot: &mut Settings) -> (step: Step<()>)
        ensures
            (final(self).cursor as int, final(snapshot)@, step.outcome()) == backup(
                old(self).cursor as int,
                text_of(reply),
                old(snapshot)@,
            ),
            final(self).response_buffer == old(self).response_buffer,
            final(self).awaiting_ack == old(self).awaiting_ack,
    {
        match reply {
            None => {
                self.cursor = 0;
                Step::Send(Self::command_new_line(backup_verb(0), true))
            },
            Some(r) => {
                if self.cursor >= SETTINGS_COUNT {
                    return Step::Done(Ok(()));
                }
                match store(self.cursor, r, snapshot) {
                    Err(e) => Step::Done(Err(e)),
                    Ok(()) => {
                        self.cursor = self.cursor + 1;
                        if self.cursor < SETTINGS_COUNT {
                            Step::Send(Self::command_new_line(backup_verb(self.cursor), true))
                        } else {
                            Step::Done(Ok(()))
                        }
                    },
                }
            },
        }
    }

    /// Sets the settings for the device.
    ///
    /// One step of the restore. Called with no response, it starts with the
    /// first setting; called with a response, it goes on with the guarded
    /// write that asked for it, and with the settings after that one.
    pub fn settings_set(&mut self, reply: Option<&str>, settings: &Settings) -> (step: Step<()>)
        ensures
            (final(self).cursor as int, final(self).awaiting_ack, step.outcome()) == restore(
                if reply is None {
                    0
                } else {
                    old(self).cursor as int
                },
                old(self).awaiting_ack,
                text_of(reply),
                settings@,
            ),
            final(self).response_buffer == old(self).response_buffer,
    {
        let mut event = reply;
        if event.is_none() {
            self.cursor = 0;
        }
        let ghost goal = restore(self.cursor as int, self.awaiting_ack, text_of(event), settings@);
        while self.cursor < SETTINGS_COUNT
            invariant
                goal == restore(self.cursor as int, self.awaiting_ack, text_of(event), settings@),
                goal == restore(
                    if reply is None {
                        0
                    } else {
                        old(self).cursor as int
                    },
                    old(self).awaiting_ack,
                    text_of(reply),
                    settings@,
                ),
                self.response_buffer == old(self).response_buffer,
            decreases SETTINGS_COUNT - self.cursor,
        {
            match self.restore_one(event, settings) {
                None => {},
                Some(Step::Done(Ok(()))) => {},
                Some(Step::Send(c)) => {
                    return Step::Send(c);
                },
                Some(Step::Done(Err(e))) => {
                    return Step::Done(Err(e));
                },
            }
            self.cursor = self.cursor + 1;
            event = None;
        }
        Step::Done(Ok(()))
    }
}

} // verus!
