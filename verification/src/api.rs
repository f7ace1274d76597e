//! The operations of the device, one function for each.
//!
//! Each function is one step of its operation. It is called first with no
//! response, and then again with each response that it asked for, until it
//! says that the operation is done.

use crate::color::RGB;
use crate::color::RGBW;
use crate::enums::{Duration, LedMode, Side, TimeUnit, WirelessPowerMode};
use crate::error::ProtocolError;
use crate::focus::{
    colors_match, colors_verdict, confirmed, duration_match, duration_of, duration_string, duration_text,
    duration_verdict, flag_match, flag_of, flag_string, flag_text, flag_verdict, guard,
    layer_flags, led_color_match, led_color_of, led_color_verdict, led_mode_in, led_mode_match,
    led_mode_verdict, lemma_numbers_write_is_idempotent, number_match, number_of,
    number_verdict, numbers_match, numbers_verdict,
    plain_lines, power_mode_in, power_mode_match, power_mode_verdict, query_line, ranged,
    read_layer_flags, read_led_color, read_led_mode, read_power_mode,
    text_match, text_of, text_verdict, texts_of, wide_colors_match, wide_colors_verdict,
    with_argument, with_number, Command, Focus, Outcome, Step, MAX_LAYERS,
};
use crate::helpers::{
    numbers_text, numerical_vec_to_string, numerical_vector, rgb_components, rgb_vec_to_string,
    rgb_vector, rgbw_components, rgbw_vec_to_string, rgbw_vector, values_of,
};
use crate::text::{decimal, decimal_string};
use vstd::prelude::*;

verus! {

/// What `keymap_custom_set` does at each step.
pub open spec fn keymap_custom_set_step(awaiting: bool, reply: Option<Seq<char>>, data: Seq<u16>) -> (
    bool,
    Outcome,
) {
    guard(
        awaiting,
        numbers_match::<u16>(reply, data),
        "keymap.custom"@,
        numbers_text(values_of(data)),
    )
}

/// What `keymap_default_set` does at each step.
pub open spec fn keymap_default_set_step(awaiting: bool, reply: Option<Seq<char>>, data: Seq<u16>) -> (
    bool,
    Outcome,
) {
    guard(
        awaiting,
        numbers_match::<u16>(reply, data),
        "keymap.default"@,
        numbers_text(values_of(data)),
    )
}

/// What `keymap_only_custom_set` does at each step.
pub open spec fn keymap_only_custom_set_step(awaiting: bool, reply: Option<Seq<char>>, state: bool) -> (
    bool,
    Outcome,
) {
    guard(
        awaiting,
        flag_match(reply, state),
        "keymap.onlyCustom"@,
        flag_text(state),
    )
}

/// What `settings_default_layer_set` does at each step.
pub open spec fn settings_default_layer_set_step(awaiting: bool, reply: Option<Seq<char>>, layer: u8) -> (
    bool,
    Outcome,
) {
    ranged(
        "settings.defaultLayer",
        layer as nat,
        MAX_LAYERS as nat,
        awaiting,
        guard(
            awaiting,
            number_match::<u8>(reply, layer),
            "settings.defaultLayer"@,
            decimal(layer as nat),
        ),
    )
}

/// What `settings_version_set` does at each step.
pub open spec fn settings_version_set_step(awaiting: bool, reply: Option<Seq<char>>, version: Seq<char>) -> (
    bool,
    Outcome,
) {
    guard(
        awaiting,
        text_match(reply, version),
        "settings.version"@,
        version,
    )
}

/// What `eeprom_contents_set` does at each step.
pub open spec fn eeprom_contents_set_step(awaiting: bool, reply: Option<Seq<char>>, data: Seq<char>) -> (
    bool,
    Outcome,
) {
    guard(
        awaiting,
        text_match(reply, data),
        "eeprom.contents"@,
        data,
    )
}

/// What `superkeys_map_set` does at each step.
pub open spec fn superkeys_map_set_step(awaiting: bool, reply: Option<Seq<char>>, data: Seq<u16>) -> (
    bool,
    Outcome,
) {
    guard(
        awaiting,
        numbers_match::<u16>(reply, data),
        "superkeys.map"@,
        numbers_text(values_of(data)),
    )
}

/// What `superkeys_wait_for_set` does at each step.
pub open spec fn superkeys_wait_for_set_step(awaiting: bool, reply: Option<Seq<char>>, duration: Duration) -> (
    bool,
    Outcome,
) {
    guard(
        awaiting,
        duration_match(reply, TimeUnit::Milliseconds, duration),
        "superkeys.waitfor"@,
        duration_text(TimeUnit::Milliseconds, duration),
    )
}

/// What `superkeys_timeout_set` does at each step.
pub open spec fn superkeys_timeout_set_step(awaiting: bool, reply: Option<Seq<char>>, duration: Duration) -> (
    bool,
    Outcome,
) {
    guard(
        awaiting,
        duration_match(reply, TimeUnit::Milliseconds, duration),
        "superkeys.timeout"@,
        duration_text(TimeUnit::Milliseconds, duration),
    )
}

/// What `superkeys_repeat_set` does at each step.
pub open spec fn superkeys_repeat_set_step(awaiting: bool, reply: Option<Seq<char>>, duration: Duration) -> (
    bool,
    Outcome,
) {
    guard(
        awaiting,
        duration_match(reply, TimeUnit::Milliseconds, duration),
        "superkeys.repeat"@,
        duration_text(TimeUnit::Milliseconds, duration),
    )
}

/// What `superkeys_hold_start_set` does at each step.
pub open spec fn superkeys_hold_start_set_step(awaiting: bool, reply: Option<Seq<char>>, duration: Duration) -> (
    bool,
    Outcome,
) {
    guard(
        awaiting,
        duration_match(reply, TimeUnit::Milliseconds, duration),
        "superkeys.holdstart"@,
        duration_text(TimeUnit::Milliseconds, duration),
    )
}

/// What `superkeys_overlap_set` does at each step.
pub open spec fn superkeys_overlap_set_step(awaiting: bool, reply: Option<Seq<char>>, percentage: u8) -> (
    bool,
    Outcome,
) {
    ranged(
        "superkeys.overlap",
        percentage as nat,
        80 as nat,
        awaiting,
        guard(
            awaiting,
            number_match::<u8>(reply, percentage),
            "superkeys.overlap"@,
            decimal(percentage as nat),
        ),
    )
}

/// What `led_mode_set` does at each step.
pub open spec fn led_mode_set_step(awaiting: bool, reply: Option<Seq<char>>, mode: LedMode) -> (
    bool,
    Outcome,
) {
    guard(
        awaiting,
        led_mode_match(reply, mode),
        "led.mode"@,
        decimal(mode.number()),
    )
}

/// What `led_brightness_top_set` does at each step.
pub open spec fn led_brightness_top_set_step(awaiting: bool, reply: Option<Seq<char>>, brightness: u8) -> (
    bool,
    Outcome,
) {
    guard(
        awaiting,
        number_match::<u8>(reply, brightness),
        "led.brightness"@,
        decimal(brightness as nat),
    )
}

/// What `led_brightness_underglow_set` does at each step.
pub open spec fn led_brightness_underglow_set_step(awaiting: bool, reply: Option<Seq<char>>, brightness: u8) -> (
    bool,
    Outcome,
) {
    guard(
        awaiting,
        number_match::<u8>(reply, brightness),
        "led.brightnessUG"@,
        decimal(brightness as nat),
    )
}

/// What `led_brightness_wireless_top_set` does at each step.
pub open spec fn led_brightness_wireless_top_set_step(awaiting: bool, reply: Option<Seq<char>>, brightness: u8) -> (
    bool,
    Outcome,
) {
    guard(
        awaiting,
        number_match::<u8>(reply, brightness),
        "led.brightness.wireless"@,
        decimal(brightness as nat),
    )
}

/// What `led_brightness_wireless_underglow_set` does at each step.
pub open spec fn led_brightness_wireless_underglow_set_step(awaiting: bool, reply: Option<Seq<char>>, brightness: u8) -> (
    bool,
    Outcome,
) {
    guard(
        awaiting,
        number_match::<u8>(reply, brightness),
        "led.brightnessUG.wireless"@,
        decimal(brightness as nat),
    )
}

/// What `led_fade_set` does at each step.
pub open spec fn led_fade_set_step(awaiting: bool, reply: Option<Seq<char>>, fade: u16) -> (
    bool,
    Outcome,
) {
    guard(
        awaiting,
        number_match::<u16>(reply, fade),
        "led.fade"@,
        decimal(fade as nat),
    )
}

/// What `led_theme_set` does at each step.
pub open spec fn led_theme_set_step(awaiting: bool, reply: Option<Seq<char>>, data: Seq<RGB>) -> (
    bool,
    Outcome,
) {
    guard(
        awaiting,
        colors_match(reply, data),
        "led.theme"@,
        numbers_text(rgb_components(data)),
    )
}

/// What `palette_rgb_set` does at each step.
pub open spec fn palette_rgb_set_step(awaiting: bool, reply: Option<Seq<char>>, data: Seq<RGB>) -> (
    bool,
    Outcome,
) {
    guard(
        awaiting,
        colors_match(reply, data),
        "palette"@,
        numbers_text(rgb_components(data)),
    )
}

/// What `palette_rgbw_set` does at each step.
pub open spec fn palette_rgbw_set_step(awaiting: bool, reply: Option<Seq<char>>, data: Seq<RGBW>) -> (
    bool,
    Outcome,
) {
    guard(
        awaiting,
        wide_colors_match(reply, data),
        "palette"@,
        numbers_text(rgbw_components(data)),
    )
}

/// What `color_map_set` does at each step.
pub open spec fn color_map_set_step(awaiting: bool, reply: Option<Seq<char>>, data: Seq<u8>) -> (
    bool,
    Outcome,
) {
    guard(
        awaiting,
        numbers_match::<u8>(reply, data),
        "colormap.map"@,
        numbers_text(values_of(data)),
    )
}

/// What `led_idle_true_sleep_set` does at each step.
pub open spec fn led_idle_true_sleep_set_step(awaiting: bool, reply: Option<Seq<char>>, state: bool) -> (
    bool,
    Outcome,
) {
    guard(
        awaiting,
        flag_match(reply, state),
        "idleleds.true_sleep"@,
        flag_text(state),
    )
}

/// What `led_idle_true_sleep_time_set` does at each step.
pub open spec fn led_idle_true_sleep_time_set_step(awaiting: bool, reply: Option<Seq<char>>, duration: Duration) -> (
    bool,
    Outcome,
) {
    ranged(
        "idleleds.true_sleep_time",
        duration.secs as nat,
        65000 as nat,
        awaiting,
        guard(
            awaiting,
            duration_match(reply, TimeUnit::Seconds, duration),
            "idleleds.true_sleep_time"@,
            duration_text(TimeUnit::Seconds, duration),
        ),
    )
}

/// What `led_idle_time_limit_set` does at each step.
pub open spec fn led_idle_time_limit_set_step(awaiting: bool, reply: Option<Seq<char>>, duration: Duration) -> (
    bool,
    Outcome,
) {
    ranged(
        "idleleds.time_limit",
        duration.secs as nat,
        65000 as nat,
        awaiting,
        guard(
            awaiting,
            duration_match(reply, TimeUnit::Seconds, duration),
            "idleleds.time_limit"@,
            duration_text(TimeUnit::Seconds, duration),
        ),
    )
}

/// What `led_idle_wireless_set` does at each step.
pub open spec fn led_idle_wireless_set_step(awaiting: bool, reply: Option<Seq<char>>, state: bool) -> (
    bool,
    Outcome,
) {
    guard(
        awaiting,
        flag_match(reply, state),
        "idleleds.wireless"@,
        flag_text(state),
    )
}

/// What `hardware_version_set` does at each step.
pub open spec fn hardware_version_set_step(awaiting: bool, reply: Option<Seq<char>>, data: Seq<char>) -> (
    bool,
    Outcome,
) {
    guard(
        awaiting,
        text_match(reply, data),
        "hardware.version"@,
        data,
    )
}

/// What `qukeys_hold_timeout_set` does at each step.
pub open spec fn qukeys_hold_timeout_set_step(awaiting: bool, reply: Option<Seq<char>>, duration: Duration) -> (
    bool,
    Outcome,
) {
    guard(
        awaiting,
        duration_match(reply, TimeUnit::Milliseconds, duration),
        "qukeys.holdTimeout"@,
        duration_text(TimeUnit::Milliseconds, duration),
    )
}

/// What `qukeys_overlap_threshold_set` does at each step.
pub open spec fn qukeys_overlap_threshold_set_step(awaiting: bool, reply: Option<Seq<char>>, duration: Duration) -> (
    bool,
    Outcome,
) {
    guard(
        awaiting,
        duration_match(reply, TimeUnit::Milliseconds, duration),
        "qukeys.overlapThreshold"@,
        duration_text(TimeUnit::Milliseconds, duration),
    )
}

/// What `macros_map_set` does at each step.
pub open spec fn macros_map_set_step(awaiting: bool, reply: Option<Seq<char>>, data: Seq<u8>) -> (
    bool,
    Outcome,
) {
    guard(
        awaiting,
        numbers_match::<u8>(reply, data),
        "macros.map"@,
        numbers_text(values_of(data)),
    )
}

/// What `mouse_speed_set` does at each step.
pub open spec fn mouse_speed_set_step(awaiting: bool, reply: Option<Seq<char>>, speed: u8) -> (
    bool,
    Outcome,
) {
    ranged(
        "mouse.speed",
        speed as nat,
        127 as nat,
        awaiting,
        guard(
            awaiting,
            number_match::<u8>(reply, speed),
            "mouse.speed"@,
            decimal(speed as nat),
        ),
    )
}

/// What `mouse_delay_set` does at each step.
pub open spec fn mouse_delay_set_step(awaiting: bool, reply: Option<Seq<char>>, duration: Duration) -> (
    bool,
    Outcome,
) {
    guard(
        awaiting,
        duration_match(reply, TimeUnit::Milliseconds, duration),
        "mouse.speedDelay"@,
        duration_text(TimeUnit::Milliseconds, duration),
    )
}

/// What `mouse_acceleration_speed_set` does at each step.
pub open spec fn mouse_acceleration_speed_set_step(awaiting: bool, reply: Option<Seq<char>>, speed: u8) -> (
    bool,
    Outcome,
) {
    guard(
        awaiting,
        number_match::<u8>(reply, speed),
        "mouse.accelSpeed"@,
        decimal(speed as nat),
    )
}

/// What `mouse_acceleration_delay_set` does at each step.
pub open spec fn mouse_acceleration_delay_set_step(awaiting: bool, reply: Option<Seq<char>>, duration: Duration) -> (
    bool,
    Outcome,
) {
    guard(
        awaiting,
        duration_match(reply, TimeUnit::Milliseconds, duration),
        "mouse.accelDelay"@,
        duration_text(TimeUnit::Milliseconds, duration),
    )
}

/// What `mouse_wheel_speed_set` does at each step.
pub open spec fn mouse_wheel_speed_set_step(awaiting: bool, reply: Option<Seq<char>>, speed: u8) -> (
    bool,
    Outcome,
) {
    guard(
        awaiting,
        number_match::<u8>(reply, speed),
        "mouse.wheelSpeed"@,
        decimal(speed as nat),
    )
}

/// What `mouse_wheel_delay_set` does at each step.
pub open spec fn mouse_wheel_delay_set_step(awaiting: bool, reply: Option<Seq<char>>, duration: Duration) -> (
    bool,
    Outcome,
) {
    guard(
        awaiting,
        duration_match(reply, TimeUnit::Milliseconds, duration),
        "mouse.wheelDelay"@,
        duration_text(TimeUnit::Milliseconds, duration),
    )
}

/// What `mouse_speed_limit_set` does at each step.
pub open spec fn mouse_speed_limit_set_step(awaiting: bool, reply: Option<Seq<char>>, limit: u8) -> (
    bool,
    Outcome,
) {
    guard(
        awaiting,
        number_match::<u8>(reply, limit),
        "mouse.speedLimit"@,
        decimal(limit as nat),
    )
}

/// What `layer_deactivate` does at each step.
pub open spec fn layer_deactivate_step(awaiting: bool, reply: Option<Seq<char>>, layer: Option<u8>) -> (
    bool,
    Outcome,
) {
    match reply {
        None => match layer {
            Some(l) => if l > MAX_LAYERS {
                (
                    awaiting,
                    Outcome::Done(
                        Err(
                            ProtocolError::OutOfRange {
                                field: "layer.deactivate",
                                value: l as u64,
                                max: MAX_LAYERS as u64,
                            },
                        ),
                    ),
                )
            } else {
                (true, Outcome::Send(query_line("layer.deactivate"@.push(' ') + decimal(l as nat))))
            },
            None => (false, Outcome::Send(query_line("layer.deactivate"@))),
        },
        Some(_) => if awaiting {
            (false, Outcome::Send(query_line("layer.deactivate"@)))
        } else {
            (false, Outcome::Done(Ok(())))
        },
    }
}

/// What `wireless_battery_saving_mode_set` does at each step.
pub open spec fn wireless_battery_saving_mode_set_step(awaiting: bool, reply: Option<Seq<char>>, state: bool) -> (
    bool,
    Outcome,
) {
    guard(
        awaiting,
        flag_match(reply, state),
        "wireless.battery.savingMode"@,
        flag_text(state),
    )
}

/// What `wireless_rf_power_level_set` does at each step.
pub open spec fn wireless_rf_power_level_set_step(awaiting: bool, reply: Option<Seq<char>>, wireless_power_mode: WirelessPowerMode) -> (
    bool,
    Outcome,
) {
    guard(
        awaiting,
        power_mode_match(reply, wireless_power_mode),
        "wireless.rf.power"@,
        decimal(wireless_power_mode.number()),
    )
}

/// What `wireless_rf_channel_hop_set` does at each step.
pub open spec fn wireless_rf_channel_hop_set_step(awaiting: bool, reply: Option<Seq<char>>, state: bool) -> (
    bool,
    Outcome,
) {
    guard(
        awaiting,
        flag_match(reply, state),
        "wireless.rf.channelHop"@,
        flag_text(state),
    )
}

/// A default layer above the largest layer is refused as out of range,
/// whatever the device says and whatever was awaited, and nothing is sent.
pub proof fn lemma_default_layer_out_of_range(awaiting: bool, reply: Option<Seq<char>>, layer: u8)
    requires
        layer > MAX_LAYERS,
    ensures
        settings_default_layer_set_step(awaiting, reply, layer) == (
            awaiting,
            Outcome::Done(
                Err(
                    ProtocolError::OutOfRange {
                        field: "settings.defaultLayer",
                        value: layer as u64,
                        max: MAX_LAYERS as u64,
                    },
                ),
            ),
        ),
{
}

/// A device that holds the keymap that is to be written is not written to:
/// where it answers with the text that the write would send, the guarded
/// write ends well at once.
pub proof fn lemma_keymap_write_is_idempotent(data: Seq<u16>)
    ensures
        keymap_custom_set_step(false, Some(numbers_text(values_of(data))), data) == (
            false,
            Outcome::Done(Ok(())),
        ),
{
    lemma_numbers_write_is_idempotent::<u16>("keymap.custom"@, data);
}

impl Focus {
    /// Get the version of the firmware.
    ///
    /// https://github.com/Dygmalab/Bazecor/blob/development/FOCUS_API.md#version
    ///
    /// Called with no response, asks the device; called with the response, reads
    /// it.
    pub fn version(&self, reply: Option<&str>) -> (step: Step<String>)
        ensures
            match reply {
                None => step.asks(query_line("version"@)),
                Some(r) => step matches Step::Done(Ok(text)) && text@ == r@,
            },
    {
        Self::command_response_string(reply, "version")
    }

    /// Gets the whole custom keymap stored in the keyboard.
    ///
    /// Layers 0 and above, The layers are -1 to Bazecor.
    ///
    /// https://github.com/Dygmalab/Bazecor/blob/development/FOCUS_API.md#keymapcustom
    ///
    /// Called with no response, asks the device; called with the response, reads
    /// it.
    pub fn keymap_custom_get(&self, reply: Option<&str>) -> (step: Step<Vec<u16>>)
        ensures
            match reply {
                None => step.asks(query_line("keymap.custom"@)),
                Some(r) => match numerical_vector::<u16>(r@) {
                    Ok(seq) => step matches Step::Done(Ok(v)) && v@ == seq,
                    Err(e) => step.fails(e),
                },
            },
    {
        Self::query_numbers::<u16>(reply, "keymap.custom")
    }

    /// Sets the whole custom keymap stored in the keyboard.
    ///
    /// Layers 0 and above, The layers are -1 to Bazecor.
    ///
    /// https://github.com/Dygmalab/Bazecor/blob/development/FOCUS_API.md#keymapcustom
    ///
    /// A guarded write: the value on the device is read first, and written only
    /// where it differs.
    pub fn keymap_custom_set(&mut self, reply: Option<&str>, data: &[u16]) -> (step: Step<()>)
        ensures
            (final(self).awaiting_ack, step.outcome()) == keymap_custom_set_step(
                old(self).awaiting_ack,
                text_of(reply),
                data@,
            ),
            final(self).response_buffer == old(self).response_buffer,
            final(self).cursor == old(self).cursor,
    {
        let verdict = numbers_verdict(reply, data);
        let argument = numerical_vec_to_string(data);
        self.command_guarded("keymap.custom", verdict, argument.as_str())
    }

    /// Gets the default keymap stored in the keyboard.
    ///
    /// Layers -1 and -2, the layers are -1 to Bazecor.
    ///
    /// https://github.com/Dygmalab/Bazecor/blob/development/FOCUS_API.md#keymapdefault
    ///
    /// Called with no response, asks the device; called with the response, reads
    /// it.
    pub fn keymap_default_get(&self, reply: Option<&str>) -> (step: Step<Vec<u16>>)
        ensures
            match reply {
                None => step.asks(query_line("keymap.default"@)),
                Some(r) => match numerical_vector::<u16>(r@) {
                    Ok(seq) => step matches Step::Done(Ok(v)) && v@ == seq,
                    Err(e) => step.fails(e),
                },
            },
    {
        Self::query_numbers::<u16>(reply, "keymap.default")
    }

    /// Sets the default keymap stored in the keyboard.
    ///
    /// Layers -1 and -2, the layers are -1 to Bazecor.
    ///
    /// https://github.com/Dygmalab/Bazecor/blob/development/FOCUS_API.md#keymapdefault
    ///
    /// A guarded write: the value on the device is read first, and written only
    /// where it differs.
    pub fn keymap_default_set(&mut self, reply: Option<&str>, data: &[u16]) -> (step: Step<()>)
        ensures
            (final(self).awaiting_ack, step.outcome()) == keymap_default_set_step(
                old(self).awaiting_ack,
                text_of(reply),
                data@,
            ),
            final(self).response_buffer == old(self).response_buffer,
            final(self).cursor == old(self).cursor,
    {
        let verdict = numbers_verdict(reply, data);
        let argument = numerical_vec_to_string(data);
        self.command_guarded("keymap.default", verdict, argument.as_str())
    }

    /// Gets the user setting of hiding the default layers.
    ///
    /// It does not allow you to increment the number of available layers by start using the default ones.
    /// They are there so you can store a backup for two layers in your keyboard.
    ///
    /// https://github.com/Dygmalab/Bazecor/blob/development/FOCUS_API.md#keymaponlycustom
    ///
    /// Called with no response, asks the device; called with the response, reads
    /// it.
    pub fn keymap_only_custom_get(&self, reply: Option<&str>) -> (step: Step<bool>)
        ensures
            match reply {
                None => step.asks(query_line("keymap.onlyCustom"@)),
                Some(r) => step == Step::Done(flag_of(r@)),
            },
    {
        Self::command_response_bool(reply, "keymap.onlyCustom")
    }

    /// Sets the user setting of hiding the default layers.
    ///
    /// It does not allow you to increment the number of available layers by start using the default ones.
    /// They are there so you can store a backup for two layers in your keyboard.
    ///
    /// https://github.com/Dygmalab/Bazecor/blob/development/FOCUS_API.md#keymaponlycustom
    ///
    /// A guarded write: the value on the device is read first, and written only
    /// where it differs.
    pub fn keymap_only_custom_set(&mut self, reply: Option<&str>, state: bool) -> (step: Step<()>)
        ensures
            (final(self).awaiting_ack, step.outcome()) == keymap_only_custom_set_step(
                old(self).awaiting_ack,
                text_of(reply),
                state,
            ),
            final(self).response_buffer == old(self).response_buffer,
            final(self).cursor == old(self).cursor,
    {
        let verdict = flag_verdict(reply, state);
        let argument = flag_string(state);
        self.command_guarded("keymap.onlyCustom", verdict, argument.as_str())
    }

    /// Gets the default layer the keyboard will boot with.
    ///
    /// The layer is -1 to Bazecor.
    ///
    /// https://github.com/Dygmalab/Bazecor/blob/development/FOCUS_API.md#settingsdefaultlayer
    ///
    /// Called with no response, asks the device; called with the response, reads
    /// it.
    pub fn settings_default_layer_get(&self, reply: Option<&str>) -> (step: Step<u8>)
        ensures
            match reply {
                None => step.asks(query_line("settings.defaultLayer"@)),
                Some(r) => step == Step::Done(number_of::<u8>(r@)),
            },
    {
        Self::command_response_numerical::<u8>(reply, "settings.defaultLayer")
    }

    /// Sets the default layer the keyboard will boot with.
    ///
    /// https://github.com/Dygmalab/Bazecor/blob/development/FOCUS_API.md#settingsdefaultlayer
    ///
    /// A guarded write: the value on the device is read first, and written only
    /// where it differs.
    /// A value above the maximum is refused before anything is sent.
    pub fn settings_default_layer_set(&mut self, reply: Option<&str>, layer: u8) -> (step: Step<()>)
        ensures
            (final(self).awaiting_ack, step.outcome()) == settings_default_layer_set_step(
                old(self).awaiting_ack,
                text_of(reply),
                layer,
            ),
            final(self).response_buffer == old(self).response_buffer,
            final(self).cursor == old(self).cursor,
    {
        if layer > MAX_LAYERS {
            return Step::Done(
                Err(
                    ProtocolError::OutOfRange {
                        field: "settings.defaultLayer",
                        value: layer as u64,
                        max: MAX_LAYERS as u64,
                    },
                ),
            );
        }
        let verdict = number_verdict(reply, layer);
        let argument = decimal_string(layer as u128);
        self.command_guarded("settings.defaultLayer", verdict, argument.as_str())
    }

    /// Gets a boolean value that states true if all checks have been performed on the current settings, and its upload was done in the intended way.
    ///
    /// https://github.com/Dygmalab/Bazecor/blob/development/FOCUS_API.md#settingsvalid
    ///
    /// Called with no response, asks the device; called with the response, reads
    /// it.
    pub fn settings_valid(&self, reply: Option<&str>) -> (step: Step<bool>)
        ensures
            match reply {
                None => step.asks(query_line("settings.valid?"@)),
                Some(r) => step == Step::Done(flag_of(r@)),
            },
    {
        Self::command_response_bool(reply, "settings.valid?")
    }

    /// Gets the current settings version.
    ///
    /// https://github.com/Dygmalab/Bazecor/blob/development/FOCUS_API.md#settingsversion
    ///
    /// Called with no response, asks the device; called with the response, reads
    /// it.
    pub fn settings_version_get(&self, reply: Option<&str>) -> (step: Step<String>)
        ensures
            match reply {
                None => step.asks(query_line("settings.version"@)),
                Some(r) => step matches Step::Done(Ok(text)) && text@ == r@,
            },
    {
        Self::command_response_string(reply, "settings.version")
    }

    /// Sets the current settings version.
    ///
    /// https://github.com/Dygmalab/Bazecor/blob/development/FOCUS_API.md#settingsversion
    ///
    /// A guarded write: the value on the device is read first, and written only
    /// where it differs.
    pub fn settings_version_set(&mut self, reply: Option<&str>, version: &str) -> (step: Step<()>)
        ensures
            (final(self).awaiting_ack, step.outcome()) == settings_version_set_step(
                old(self).awaiting_ack,
                text_of(reply),
                version@,
            ),
            final(self).response_buffer == old(self).response_buffer,
            final(self).cursor == old(self).cursor,
    {
        let verdict = text_verdict(reply, version);
        self.command_guarded("settings.version", verdict, version)
    }

    /// Gets the CRC checksum of the layout.
    ///
    /// https://github.com/Dygmalab/Bazecor/blob/development/FOCUS_API.md#settingscrc
    ///
    /// Called with no response, asks the device; called with the response, reads
    /// it.
    pub fn settings_crc(&self, reply: Option<&str>) -> (step: Step<String>)
        ensures
            match reply {
                None => step.asks(query_line("settings.crc"@)),
                Some(r) => step matches Step::Done(Ok(text)) && text@ == r@,
            },
    {
        Self::command_response_string(reply, "settings.crc")
    }

    /// Gets the EEPROM's contents.
    ///
    /// https://github.com/Dygmalab/Bazecor/blob/development/FOCUS_API.md#eepromcontents
    ///
    /// Called with no response, asks the device; called with the response, reads
    /// it.
    pub fn eeprom_contents_get(&self, reply: Option<&str>) -> (step: Step<String>)
        ensures
            match reply {
                None => step.asks(query_line("eeprom.contents"@)),
                Some(r) => step matches Step::Done(Ok(text)) && text@ == r@,
            },
    {
        Self::command_response_string(reply, "eeprom.contents")
    }

    /// Sets the EEPROM's contents.
    ///
    /// https://github.com/Dygmalab/Bazecor/blob/development/FOCUS_API.md#eepromcontents
    ///
    /// A guarded write: the value on the device is read first, and written only
    /// where it differs.
    pub fn eeprom_contents_set(&mut self, reply: Option<&str>, data: &str) -> (step: Step<()>)
        ensures
            (final(self).awaiting_ack, step.outcome()) == eeprom_contents_set_step(
                old(self).awaiting_ack,
                text_of(reply),
                data@,
            ),
            final(self).response_buffer == old(self).response_buffer,
            final(self).cursor == old(self).cursor,
    {
        let verdict = text_verdict(reply, data);
        self.command_guarded("eeprom.contents", verdict, data)
    }

    /// Gets the EEPROM's free bytes.
    ///
    /// https://github.com/Dygmalab/Bazecor/blob/development/FOCUS_API.md#eepromfree
    ///
    /// Called with no response, asks the device; called with the response, reads
    /// it.
    pub fn eeprom_free(&self, reply: Option<&str>) -> (step: Step<String>)
        ensures
            match reply {
                None => step.asks(query_line("eeprom.free"@)),
                Some(r) => step matches Step::Done(Ok(text)) && text@ == r@,
            },
    {
        Self::command_response_string(reply, "eeprom.free")
    }


    ///
    /// Called with no response, sends the command; the response confirms it.
    pub fn upgrade_neuron(&self, reply: Option<&str>) -> (step: Step<()>)
        ensures
            step.outcome() == confirmed(text_of(reply), "upgrade.neuron"@),
    {
        Self::command_confirmed(reply, "upgrade.neuron")
    }

    ///
    /// Called with no response, asks the device; called with the response, reads
    /// it.
    pub fn upgrade_keyscanner_is_connected(&self, reply: Option<&str>, side: Side) -> (step: Step<bool>)
        ensures
            match reply {
                None => step.asks(
                    query_line("upgrade.keyscanner.isConnected"@.push(' ') + decimal(side.number())),
                ),
                Some(r) => step == Step::Done(flag_of(r@)),
            },
    {
        let command = with_number("upgrade.keyscanner.isConnected", side.value() as u64);
        Self::command_response_bool(reply, command.as_str())
    }

    ///
    /// Called with no response, asks the device; called with the response, reads
    /// it.
    pub fn upgrade_keyscanner_is_bootloader(&self, reply: Option<&str>, side: Side) -> (step: Step<bool>)
        ensures
            match reply {
                None => step.asks(
                    query_line("upgrade.keyscanner.isBootloader"@.push(' ') + decimal(side.number())),
                ),
                Some(r) => step == Step::Done(flag_of(r@)),
            },
    {
        let command = with_number("upgrade.keyscanner.isBootloader", side.value() as u64);
        Self::command_response_bool(reply, command.as_str())
    }

    ///
    /// Called with no response, asks the device; called with the response, reads
    /// it.
    pub fn upgrade_keyscanner_begin(&self, reply: Option<&str>, side: Side) -> (step: Step<bool>)
        ensures
            match reply {
                None => step.asks(
                    query_line("upgrade.keyscanner.begin"@.push(' ') + decimal(side.number())),
                ),
                Some(r) => step == Step::Done(flag_of(r@)),
            },
    {
        let command = with_number("upgrade.keyscanner.begin", side.value() as u64);
        Self::command_response_bool(reply, command.as_str())
    }


    ///
    /// The command ends with a space, and no response follows it.
    pub fn upgrade_keyscanner_send_write(&self) -> (c: Command)
        ensures
            c.text@ == "upgrade.keyscanner.sendWrite"@.push(' '),
            !c.wait_for_response,
    {
        Self::command_whitespace("upgrade.keyscanner.sendWrite")
    }

    /// Gets the Superkeys map.
    ///
    /// Each action in a Superkey is represented by a key code number that encodes the action, for example if you use the number 44, you are encoding space, etc...
    ///
    /// To know more about keycodes and to find the right one for your actions, check the key map database.
    ///
    /// https://github.com/Dygmalab/Bazecor/blob/development/FOCUS_API.md#superkeysmap
    ///
    /// Called with no response, asks the device; called with the response, reads
    /// it.
    pub fn superkeys_map_get(&self, reply: Option<&str>) -> (step: Step<Vec<u16>>)
        ensures
            match reply {
                None => step.asks(query_line("superkeys.map"@)),
                Some(r) => match numerical_vector::<u16>(r@) {
                    Ok(seq) => step matches Step::Done(Ok(v)) && v@ == seq,
                    Err(e) => step.fails(e),
                },
            },
    {
        Self::query_numbers::<u16>(reply, "superkeys.map")
    }

    /// Sets the Superkeys map.
    ///
    /// Each action in a Superkey is represented by a key code number that encodes the action, for example if you use the number 44, you are encoding space, etc...
    ///
    /// To know more about keycodes and to find the right one for your actions, check the key map database.
    ///
    /// https://github.com/Dygmalab/Bazecor/blob/development/FOCUS_API.md#superkeysmap
    ///
    /// A guarded write: the value on the device is read first, and written only
    /// where it differs.
    pub fn superkeys_map_set(&mut self, reply: Option<&str>, data: &[u16]) -> (step: Step<()>)
        ensures
            (final(self).awaiting_ack, step.outcome()) == superkeys_map_set_step(
                old(self).awaiting_ack,
                text_of(reply),
                data@,
            ),
            final(self).response_buffer == old(self).response_buffer,
            final(self).cursor == old(self).cursor,
    {
        let verdict = numbers_verdict(reply, data);
        let argument = numerical_vec_to_string(data);
        self.command_guarded("superkeys.map", verdict, argument.as_str())
    }

    /// Gets the Superkeys wait for duration.
    ///
    /// Wait for value specifies the time between the first and subsequent releases of the HOLD actions meanwhile is held,
    ///
    /// So for example,
    /// if the variable is set to 500ms, you can maintain the hold key, it will emmit a key code corresponding to the action that it triggers,
    /// then it will wait for wait for time for making another key press with that same key code.
    /// This enables the user to delay the hold "machinegun" to be able to release the key and achieve a single keypress from a hold action.
    ///
    /// https://github.com/Dygmalab/Bazecor/blob/development/FOCUS_API.md#superkeyswaitfor
    ///
    /// Called with no response, asks the device; called with the response, reads
    /// it.
    pub fn superkeys_wait_for_get(&self, reply: Option<&str>) -> (step: Step<Duration>)
        ensures
            match reply {
                None => step.asks(query_line("superkeys.waitfor"@)),
                Some(r) => step == Step::Done(duration_of(r@, TimeUnit::Milliseconds)),
            },
    {
        Self::command_response_duration(reply, "superkeys.waitfor", TimeUnit::Milliseconds)
    }

    /// Sets the Superkeys wait for duration.
    ///
    /// Wait for value specifies the time between the first and subsequent releases of the HOLD actions meanwhile is held,
    ///
    /// So for example,
    /// if the variable is set to 500ms, you can maintain the hold key, it will emmit a key code corresponding to the action that it triggers,
    /// then it will wait for wait for time for making another key press with that same key code.
    /// This enables the user to delay the hold "machinegun" to be able to release the key and achieve a single keypress from a hold action.
    ///
    /// https://github.com/Dygmalab/Bazecor/blob/development/FOCUS_API.md#superkeyswaitfor
    ///
    /// A guarded write: the value on the device is read first, and written only
    /// where it differs.
    pub fn superkeys_wait_for_set(&mut self, reply: Option<&str>, duration: Duration) -> (step: Step<()>)
        ensures
            (final(self).awaiting_ack, step.outcome()) == superkeys_wait_for_set_step(
                old(self).awaiting_ack,
                text_of(reply),
                duration,
            ),
            final(self).response_buffer == old(self).response_buffer,
            final(self).cursor == old(self).cursor,
    {
        let verdict = duration_verdict(reply, TimeUnit::Milliseconds, duration);
        let argument = duration_string(TimeUnit::Milliseconds, duration);
        self.command_guarded("superkeys.waitfor", verdict, argument.as_str())
    }

    /// Gets the Superkeys timeout of how long it waits for the next tap.
    ///
    /// https://github.com/Dygmalab/Bazecor/blob/development/FOCUS_API.md#superkeystimeout
    ///
    /// Called with no response, asks the device; called with the response, reads
    /// it.
    pub fn superkeys_timeout_get(&self, reply: Option<&str>) -> (step: Step<Duration>)
        ensures
            match reply {
                None => step.asks(query_line("superkeys.timeout"@)),
                Some(r) => step == Step::Done(duration_of(r@, TimeUnit::Milliseconds)),
            },
    {
        Self::command_response_duration(reply, "superkeys.timeout", TimeUnit::Milliseconds)
    }

    /// Sets the Superkeys timeout of how long it waits for the next tap.
    ///
    /// https://github.com/Dygmalab/Bazecor/blob/development/FOCUS_API.md#superkeystimeout
    ///
    /// A guarded write: the value on the device is read first, and written only
    /// where it differs.
    pub fn superkeys_timeout_set(&mut self, reply: Option<&str>, duration: Duration) -> (step: Step<()>)
        ensures
            (final(self).awaiting_ack, step.outcome()) == superkeys_timeout_set_step(
                old(self).awaiting_ack,
                text_of(reply),
                duration,
            ),
            final(self).response_buffer == old(self).response_buffer,
            final(self).cursor == old(self).cursor,
    {
        let verdict = duration_verdict(reply, TimeUnit::Milliseconds, duration);
        let argument = duration_string(TimeUnit::Milliseconds, duration);
        self.command_guarded("superkeys.timeout", verdict, argument.as_str())
    }

    /// Gets the Superkeys repeat duration.
    ///
    /// The repeat value specifies the time between the second and subsequent key code releases when on hold, it only takes effect after the wait for timer has been exceeded.
    ///
    /// https://github.com/Dygmalab/Bazecor/blob/development/FOCUS_API.md#superkeysrepeat
    ///
    /// Called with no response, asks the device; called with the response, reads
    /// it.
    pub fn superkeys_repeat_get(&self, reply: Option<&str>) -> (step: Step<Duration>)
        ensures
            match reply {
                None => step.asks(query_line("superkeys.repeat"@)),
                Some(r) => step == Step::Done(duration_of(r@, TimeUnit::Milliseconds)),
            },
    {
        Self::command_response_duration(reply, "superkeys.repeat", TimeUnit::Milliseconds)
    }

    /// Sets the Superkeys repeat duration.
    ///
    /// The repeat value specifies the time between the second and subsequent key code releases when on hold, it only takes effect after the wait for timer has been exceeded.
    ///
    /// https://github.com/Dygmalab/Bazecor/blob/development/FOCUS_API.md#superkeysrepeat
    ///
    /// A guarded write: the value on the device is read first, and written only
    /// where it differs.
    pub fn superkeys_repeat_set(&mut self, reply: Option<&str>, duration: Duration) -> (step: Step<()>)
        ensures
            (final(self).awaiting_ack, step.outcome()) == superkeys_repeat_set_step(
                old(self).awaiting_ack,
                text_of(reply),
                duration,
            ),
            final(self).response_buffer == old(self).response_buffer,
            final(self).cursor == old(self).cursor,
    {
        let verdict = duration_verdict(reply, TimeUnit::Milliseconds, duration);
        let argument = duration_string(TimeUnit::Milliseconds, duration);
        self.command_guarded("superkeys.repeat", verdict, argument.as_str())
    }

    /// Gets the Superkeys hold start duration.
    ///
    /// The hold start value specifies the minimum time that has to pass between the first key down and any other action to trigger a hold, if held it will emit a hold action.
    ///
    /// https://github.com/Dygmalab/Bazecor/blob/development/FOCUS_API.md#superkeysholdstart
    ///
    /// Called with no response, asks the device; called with the response, reads
    /// it.
    pub fn superkeys_hold_start_get(&self, reply: Option<&str>) -> (step: Step<Duration>)
        ensures
            match reply {
                None => step.asks(query_line("superkeys.holdstart"@)),
                Some(r) => step == Step::Done(duration_of(r@, TimeUnit::Milliseconds)),
            },
    {
        Self::command_response_duration(reply, "superkeys.holdstart", TimeUnit::Milliseconds)
    }

    /// Sets the Superkeys hold start duration.
    ///
    /// The hold start value specifies the minimum time that has to pass between the first key down and any other action to trigger a hold, if held it will emit a hold action.
    ///
    /// https://github.com/Dygmalab/Bazecor/blob/development/FOCUS_API.md#superkeysholdstart
    ///
    /// A guarded write: the value on the device is read first, and written only
    /// where it differs.
    pub fn superkeys_hold_start_set(&mut self, reply: Option<&str>, duration: Duration) -> (step: Step<()>)
        ensures
            (final(self).awaiting_ack, step.outcome()) == superkeys_hold_start_set_step(
                old(self).awaiting_ack,
                text_of(reply),
                duration,
            ),
            final(self).response_buffer == old(self).response_buffer,
            final(self).cursor == old(self).cursor,
    {
        let verdict = duration_verdict(reply, TimeUnit::Milliseconds, duration);
        let argument = duration_string(TimeUnit::Milliseconds, duration);
        self.command_guarded("superkeys.holdstart", verdict, argument.as_str())
    }

    /// Gets the Superkeys overlap percentage.
    ///
    /// The overlap value specifies the percentage of overlap when fast typing that is allowed to happen before triggering a hold action to the overlapped key pressed after the super key.
    ///
    /// https://github.com/Dygmalab/Bazecor/blob/development/FOCUS_API.md#superkeysoverlap
    ///
    /// Called with no response, asks the device; called with the response, reads
    /// it.
    pub fn superkeys_overlap_get(&self, reply: Option<&str>) -> (step: Step<u8>)
        ensures
            match reply {
                None => step.asks(query_line("superkeys.overlap"@)),
                Some(r) => step == Step::Done(number_of::<u8>(r@)),
            },
    {
        Self::command_response_numerical::<u8>(reply, "superkeys.overlap")
    }

    /// Sets the Superkeys overlap percentage.
    ///
    /// The overlap value specifies the percentage of overlap when fast typing that is allowed to happen before triggering a hold action to the overlapped key pressed after the super key.
    ///
    /// https://github.com/Dygmalab/Bazecor/blob/development/FOCUS_API.md#superkeysoverlap
    ///
    /// A guarded write: the value on the device is read first, and written only
    /// where it differs.
    /// A value above the maximum is refused before anything is sent.
    pub fn superkeys_overlap_set(&mut self, reply: Option<&str>, percentage: u8) -> (step: Step<()>)
        ensures
            (final(self).awaiting_ack, step.outcome()) == superkeys_overlap_set_step(
                old(self).awaiting_ack,
                text_of(reply),
                percentage,
            ),
            final(self).response_buffer == old(self).response_buffer,
            final(self).cursor == old(self).cursor,
    {
        if percentage > 80 {
            return Step::Done(
                Err(
                    ProtocolError::OutOfRange {
                        field: "superkeys.overlap",
                        value: percentage as u64,
                        max: 80 as u64,
                    },
                ),
            );
        }
        let verdict = number_verdict(reply, percentage);
        let argument = decimal_string(percentage as u128);
        self.command_guarded("superkeys.overlap", verdict, argument.as_str())
    }

    /// Gets the color of a specific LED.
    ///
    /// https://github.com/Dygmalab/Bazecor/blob/development/FOCUS_API.md#ledat
    ///
    /// Called with no response, asks the device; called with the response, reads
    /// it.
    pub fn led_at_get(&self, reply: Option<&str>, led: u8) -> (step: Step<RGB>)
        ensures
            match reply {
                None => step.asks(query_line("led.at"@.push(' ') + decimal(led as nat))),
                Some(r) => step == Step::Done(led_color_of(r@)),
            },
    {
        match reply {
            None => {
                let command = with_number("led.at", led as u64);
                Step::Send(Self::command_new_line(command.as_str(), true))
            },
            Some(r) => Step::Done(read_led_color(r)),
        }
    }

    /// Sets the color of a specific LED.
    ///
    /// https://github.com/Dygmalab/Bazecor/blob/development/FOCUS_API.md#ledat
    ///
    /// A guarded write: the value on the device is read first, and written only
    /// where it differs.
    pub fn led_at_set(&mut self, reply: Option<&str>, led: u8, color: &RGB) -> (step: Step<()>)
        ensures
            (final(self).awaiting_ack, step.outcome()) == guard(
                old(self).awaiting_ack,
                led_color_match(text_of(reply), *color),
                "led.at"@.push(' ') + decimal(led as nat),
                numbers_text(rgb_components(seq![*color])),
            ),
            final(self).response_buffer == old(self).response_buffer,
            final(self).cursor == old(self).cursor,
    {
        let verdict = led_color_verdict(reply, *color);
        let command = with_number("led.at", led as u64);
        let mut one: Vec<RGB> = Vec::new();
        one.push(*color);
        assert(one@ == seq![*color]);
        let argument = rgb_vec_to_string(one.as_slice());
        self.command_guarded(command.as_str(), verdict, argument.as_str())
    }

    /// Sets the color of all the LEDs.
    ///
    /// https://github.com/Dygmalab/Bazecor/blob/development/FOCUS_API.md#ledsetall
    ///
    /// Called with no response, sends the command; the response confirms it.
    pub fn led_all(&self, reply: Option<&str>, color: &RGB) -> (step: Step<()>)
        ensures
            step.outcome() == confirmed(
                text_of(reply),
                "led.setAll"@.push(' ') + numbers_text(rgb_components(seq![*color])),
            ),
    {
        let mut one: Vec<RGB> = Vec::new();
        one.push(*color);
        assert(one@ == seq![*color]);
        let argument = rgb_vec_to_string(one.as_slice());
        let command = with_argument("led.setAll", argument.as_str());
        Self::command_confirmed(reply, command.as_str())
    }

    /// Gets the LED mode.
    ///
    /// https://github.com/Dygmalab/Bazecor/blob/development/FOCUS_API.md#ledmode
    ///
    /// Called with no response, asks the device; called with the response, reads
    /// it.
    pub fn led_mode_get(&self, reply: Option<&str>) -> (step: Step<LedMode>)
        ensures
            match reply {
                None => step.asks(query_line("led.mode"@)),
                Some(r) => step == Step::Done(led_mode_in(r@)),
            },
    {
        match reply {
            None => Step::Send(Self::command_new_line("led.mode", true)),
            Some(r) => Step::Done(read_led_mode(r)),
        }
    }

    /// Sets the LED mode.
    ///
    /// https://github.com/Dygmalab/Bazecor/blob/development/FOCUS_API.md#ledmode
    ///
    /// A guarded write: the value on the device is read first, and written only
    /// where it differs.
    pub fn led_mode_set(&mut self, reply: Option<&str>, mode: LedMode) -> (step: Step<()>)
        ensures
            (final(self).awaiting_ack, step.outcome()) == led_mode_set_step(
                old(self).awaiting_ack,
                text_of(reply),
                mode,
            ),
            final(self).response_buffer == old(self).response_buffer,
            final(self).cursor == old(self).cursor,
    {
        let verdict = led_mode_verdict(reply, mode);
        let argument = decimal_string(mode.value() as u128);
        self.command_guarded("led.mode", verdict, argument.as_str())
    }

    /// Gets the top LED brightness.
    ///
    /// https://github.com/Dygmalab/Bazecor/blob/development/FOCUS_API.md#ledbrightness
    ///
    /// Called with no response, asks the device; called with the response, reads
    /// it.
    pub fn led_brightness_top_get(&self, reply: Option<&str>) -> (step: Step<u8>)
        ensures
            match reply {
                None => step.asks(query_line("led.brightness"@)),
                Some(r) => step == Step::Done(number_of::<u8>(r@)),
            },
    {
        Self::command_response_numerical::<u8>(reply, "led.brightness")
    }

    /// Sets the top LED brightness.
    ///
    /// https://github.com/Dygmalab/Bazecor/blob/development/FOCUS_API.md#ledbrightness
    ///
    /// A guarded write: the value on the device is read first, and written only
    /// where it differs.
    pub fn led_brightness_top_set(&mut self, reply: Option<&str>, brightness: u8) -> (step: Step<()>)
        ensures
            (final(self).awaiting_ack, step.outcome()) == led_brightness_top_set_step(
                old(self).awaiting_ack,
                text_of(reply),
                brightness,
            ),
            final(self).response_buffer == old(self).response_buffer,
            final(self).cursor == old(self).cursor,
    {
        let verdict = number_verdict(reply, brightness);
        let argument = decimal_string(brightness as u128);
        self.command_guarded("led.brightness", verdict, argument.as_str())
    }

    /// Gets the underglow LED brightness.
    ///
    /// https://github.com/Dygmalab/Bazecor/blob/development/FOCUS_API.md#ledbrightnessug
    ///
    /// Called with no response, asks the device; called with the response, reads
    /// it.
    pub fn led_brightness_underglow_get(&self, reply: Option<&str>) -> (step: Step<u8>)
        ensures
            match reply {
                None => step.asks(query_line("led.brightnessUG"@)),
                Some(r) => step == Step::Done(number_of::<u8>(r@)),
            },
    {
        Self::command_response_numerical::<u8>(reply, "led.brightnessUG")
    }

    /// Sets the underglow LED brightness.
    ///
    /// https://github.com/Dygmalab/Bazecor/blob/development/FOCUS_API.md#ledbrightnessug
    ///
    /// A guarded write: the value on the device is read first, and written only
    /// where it differs.
    pub fn led_brightness_underglow_set(&mut self, reply: Option<&str>, brightness: u8) -> (step: Step<()>)
        ensures
            (final(self).awaiting_ack, step.outcome()) == led_brightness_underglow_set_step(
                old(self).awaiting_ack,
                text_of(reply),
                brightness,
            ),
            final(self).response_buffer == old(self).response_buffer,
            final(self).cursor == old(self).cursor,
    {
        let verdict = number_verdict(reply, brightness);
        let argument = decimal_string(brightness as u128);
        self.command_guarded("led.brightnessUG", verdict, argument.as_str())
    }

    /// Gets the wireless top LED brightness.
    ///
    /// https://github.com/Dygmalab/Bazecor/blob/development/FOCUS_API.md#ledbrightness
    ///
    /// Called with no response, asks the device; called with the response, reads
    /// it.
    pub fn led_brightness_wireless_top_get(&self, reply: Option<&str>) -> (step: Step<u8>)
        ensures
            match reply {
                None => step.asks(query_line("led.brightness.wireless"@)),
                Some(r) => step == Step::Done(number_of::<u8>(r@)),
            },
    {
        Self::command_response_numerical::<u8>(reply, "led.brightness.wireless")
    }

    /// Sets the wireless top LED brightness.
    ///
    /// https://github.com/Dygmalab/Bazecor/blob/development/FOCUS_API.md#ledbrightness
    ///
    /// A guarded write: the value on the device is read first, and written only
    /// where it differs.
    pub fn led_brightness_wireless_top_set(&mut self, reply: Option<&str>, brightness: u8) -> (step: Step<()>)
        ensures
            (final(self).awaiting_ack, step.outcome()) == led_brightness_wireless_top_set_step(
                old(self).awaiting_ack,
                text_of(reply),
                brightness,
            ),
            final(self).response_buffer == old(self).response_buffer,
            final(self).cursor == old(self).cursor,
    {
        let verdict = number_verdict(reply, brightness);
        let argument = decimal_string(brightness as u128);
        self.command_guarded("led.brightness.wireless", verdict, argument.as_str())
    }

    /// Gets the wireless underglow LED brightness.
    ///
    /// https://github.com/Dygmalab/Bazecor/blob/development/FOCUS_API.md#ledbrightnessug
    ///
    /// Called with no response, asks the device; called with the response, reads
    /// it.
    pub fn led_brightness_wireless_underglow_get(&self, reply: Option<&str>) -> (step: Step<u8>)
        ensures
            match reply {
                None => step.asks(query_line("led.brightnessUG.wireless"@)),
                Some(r) => step == Step::Done(number_of::<u8>(r@)),
            },
    {
        Self::command_response_numerical::<u8>(reply, "led.brightnessUG.wireless")
    }

    /// Sets the wireless underglow LED brightness.
    ///
    /// https://github.com/Dygmalab/Bazecor/blob/development/FOCUS_API.md#ledbrightnessug
    ///
    /// A guarded write: the value on the device is read first, and written only
    /// where it differs.
    pub fn led_brightness_wireless_underglow_set(&mut self, reply: Option<&str>, brightness: u8) -> (step: Step<()>)
        ensures
            (final(self).awaiting_ack, step.outcome()) == led_brightness_wireless_underglow_set_step(
                old(self).awaiting_ack,
                text_of(reply),
                brightness,
            ),
            final(self).response_buffer == old(self).response_buffer,
            final(self).cursor == old(self).cursor,
    {
        let verdict = number_verdict(reply, brightness);
        let argument = decimal_string(brightness as u128);
        self.command_guarded("led.brightnessUG.wireless", verdict, argument.as_str())
    }

    /// Gets the LED fade.
    ///
    /// Called with no response, asks the device; called with the response, reads
    /// it.
    pub fn led_fade_get(&self, reply: Option<&str>) -> (step: Step<u16>)
        ensures
            match reply {
                None => step.asks(query_line("led.fade"@)),
                Some(r) => step == Step::Done(number_of::<u16>(r@)),
            },
    {
        Self::command_response_numerical::<u16>(reply, "led.fade")
    }

    /// Sets the LED fade.
    ///
    /// A guarded write: the value on the device is read first, and written only
    /// where it differs.
    pub fn led_fade_set(&mut self, reply: Option<&str>, fade: u16) -> (step: Step<()>)
        ensures
            (final(self).awaiting_ack, step.outcome()) == led_fade_set_step(
                old(self).awaiting_ack,
                text_of(reply),
                fade,
            ),
            final(self).response_buffer == old(self).response_buffer,
            final(self).cursor == old(self).cursor,
    {
        let verdict = number_verdict(reply, fade);
        let argument = decimal_string(fade as u128);
        self.command_guarded("led.fade", verdict, argument.as_str())
    }

    /// Gets the LED theme.
    ///
    /// https://github.com/Dygmalab/Bazecor/blob/development/FOCUS_API.md#ledtheme
    ///
    /// Called with no response, asks the device; called with the response, reads
    /// it.
    pub fn led_theme_get(&self, reply: Option<&str>) -> (step: Step<Vec<RGB>>)
        ensures
            match reply {
                None => step.asks(query_line("led.theme"@)),
                Some(r) => match rgb_vector(r@) {
                    Ok(seq) => step matches Step::Done(Ok(v)) && v@ == seq,
                    Err(e) => step.fails(e),
                },
            },
    {
        Self::query_colors(reply, "led.theme")
    }

    /// Sets the LED theme.
    ///
    /// https://github.com/Dygmalab/Bazecor/blob/development/FOCUS_API.md#ledtheme
    ///
    /// A guarded write: the value on the device is read first, and written only
    /// where it differs.
    pub fn led_theme_set(&mut self, reply: Option<&str>, data: &[RGB]) -> (step: Step<()>)
        ensures
            (final(self).awaiting_ack, step.outcome()) == led_theme_set_step(
                old(self).awaiting_ack,
                text_of(reply),
                data@,
            ),
            final(self).response_buffer == old(self).response_buffer,
            final(self).cursor == old(self).cursor,
    {
        let verdict = colors_verdict(reply, data);
        let argument = rgb_vec_to_string(data);
        self.command_guarded("led.theme", verdict, argument.as_str())
    }

    /// Gets the palette as RGB.
    ///
    /// The color palette is used by the color map to establish each color that can be assigned to the keyboard.
    ///
    /// https://github.com/Dygmalab/Bazecor/blob/development/FOCUS_API.md#palette
    ///
    /// Called with no response, asks the device; called with the response, reads
    /// it.
    pub fn palette_rgb_get(&self, reply: Option<&str>) -> (step: Step<Vec<RGB>>)
        ensures
            match reply {
                None => step.asks(query_line("palette"@)),
                Some(r) => match rgb_vector(r@) {
                    Ok(seq) => step matches Step::Done(Ok(v)) && v@ == seq,
                    Err(e) => step.fails(e),
                },
            },
    {
        Self::query_colors(reply, "palette")
    }

    /// Sets the palette as RGB.
    ///
    /// The color palette is used by the color map to establish each color that can be assigned to the keyboard.
    ///
    /// https://github.com/Dygmalab/Bazecor/blob/development/FOCUS_API.md#palette
    ///
    /// A guarded write: the value on the device is read first, and written only
    /// where it differs.
    pub fn palette_rgb_set(&mut self, reply: Option<&str>, data: &[RGB]) -> (step: Step<()>)
        ensures
            (final(self).awaiting_ack, step.outcome()) == palette_rgb_set_step(
                old(self).awaiting_ack,
                text_of(reply),
                data@,
            ),
            final(self).response_buffer == old(self).response_buffer,
            final(self).cursor == old(self).cursor,
    {
        let verdict = colors_verdict(reply, data);
        let argument = rgb_vec_to_string(data);
        self.command_guarded("palette", verdict, argument.as_str())
    }

    /// Gets the palette as RGBW.
    ///
    /// The color palette is used by the color map to establish each color that can be assigned to the keyboard.
    ///
    /// https://github.com/Dygmalab/Bazecor/blob/development/FOCUS_API.md#palette
    ///
    /// Called with no response, asks the device; called with the response, reads
    /// it.
    pub fn palette_rgbw_get(&self, reply: Option<&str>) -> (step: Step<Vec<RGBW>>)
        ensures
            match reply {
                None => step.asks(query_line("palette"@)),
                Some(r) => match rgbw_vector(r@) {
                    Ok(seq) => step matches Step::Done(Ok(v)) && v@ == seq,
                    Err(e) => step.fails(e),
                },
            },
    {
        Self::query_wide_colors(reply, "palette")
    }

    /// Sets the palette as RGBW.
    ///
    /// The color palette is used by the color map to establish each color that can be assigned to the keyboard.
    ///
    /// https://github.com/Dygmalab/Bazecor/blob/development/FOCUS_API.md#palette
    ///
    /// A guarded write: the value on the device is read first, and written only
    /// where it differs.
    pub fn palette_rgbw_set(&mut self, reply: Option<&str>, data: &[RGBW]) -> (step: Step<()>)
        ensures
            (final(self).awaiting_ack, step.outcome()) == palette_rgbw_set_step(
                old(self).awaiting_ack,
                text_of(reply),
                data@,
            ),
            final(self).response_buffer == old(self).response_buffer,
            final(self).cursor == old(self).cursor,
    {
        let verdict = wide_colors_verdict(reply, data);
        let argument = rgbw_vec_to_string(data);
        self.command_guarded("palette", verdict, argument.as_str())
    }

    /// Gets the color map.
    ///
    /// This command reads the color map that assigns each color listed in the palette to individual LEDs, mapping them to the keyboard's current layout.
    ///
    /// https://github.com/Dygmalab/Bazecor/blob/development/FOCUS_API.md#colormapmap
    ///
    /// Called with no response, asks the device; called with the response, reads
    /// it.
    pub fn color_map_get(&self, reply: Option<&str>) -> (step: Step<Vec<u8>>)
        ensures
            match reply {
                None => step.asks(query_line("colormap.map"@)),
                Some(r) => match numerical_vector::<u8>(r@) {
                    Ok(seq) => step matches Step::Done(Ok(v)) && v@ == seq,
                    Err(e) => step.fails(e),
                },
            },
    {
        Self::query_numbers::<u8>(reply, "colormap.map")
    }

    /// Sets the color map.
    ///
    /// This command writes the color map that assigns each color listed in the palette to individual LEDs, mapping them to the keyboard's current layout.
    ///
    /// https://github.com/Dygmalab/Bazecor/blob/development/FOCUS_API.md#colormapmap
    ///
    /// A guarded write: the value on the device is read first, and written only
    /// where it differs.
    pub fn color_map_set(&mut self, reply: Option<&str>, data: &[u8]) -> (step: Step<()>)
        ensures
            (final(self).awaiting_ack, step.outcome()) == color_map_set_step(
                old(self).awaiting_ack,
                text_of(reply),
                data@,
            ),
            final(self).response_buffer == old(self).response_buffer,
            final(self).cursor == old(self).cursor,
    {
        let verdict = numbers_verdict(reply, data);
        let argument = numerical_vec_to_string(data);
        self.command_guarded("colormap.map", verdict, argument.as_str())
    }

    /// Gets the idle LED true sleep state.
    ///
    /// Called with no response, asks the device; called with the response, reads
    /// it.
    pub fn led_idle_true_sleep_get(&self, reply: Option<&str>) -> (step: Step<bool>)
        ensures
            match reply {
                None => step.asks(query_line("idleleds.true_sleep"@)),
                Some(r) => step == Step::Done(flag_of(r@)),
            },
    {
        Self::command_response_bool(reply, "idleleds.true_sleep")
    }

    /// Sets the idle LED true sleep state.
    ///
    /// A guarded write: the value on the device is read first, and written only
    /// where it differs.
    pub fn led_idle_true_sleep_set(&mut self, reply: Option<&str>, state: bool) -> (step: Step<()>)
        ensures
            (final(self).awaiting_ack, step.outcome()) == led_idle_true_sleep_set_step(
                old(self).awaiting_ack,
                text_of(reply),
                state,
            ),
            final(self).response_buffer == old(self).response_buffer,
            final(self).cursor == old(self).cursor,
    {
        let verdict = flag_verdict(reply, state);
        let argument = flag_string(state);
        self.command_guarded("idleleds.true_sleep", verdict, argument.as_str())
    }

    /// Gets the idle LED true sleep time.
    ///
    /// Called with no response, asks the device; called with the response, reads
    /// it.
    pub fn led_idle_true_sleep_time_get(&self, reply: Option<&str>) -> (step: Step<Duration>)
        ensures
            match reply {
                None => step.asks(query_line("idleleds.true_sleep_time"@)),
                Some(r) => step == Step::Done(duration_of(r@, TimeUnit::Seconds)),
            },
    {
        Self::command_response_duration(reply, "idleleds.true_sleep_time", TimeUnit::Seconds)
    }

    /// Sets the idle LED true sleep time.
    ///
    /// A guarded write: the value on the device is read first, and written only
    /// where it differs.
    /// A value above the maximum is refused before anything is sent.
    pub fn led_idle_true_sleep_time_set(&mut self, reply: Option<&str>, duration: Duration) -> (step: Step<()>)
        ensures
            (final(self).awaiting_ack, step.outcome()) == led_idle_true_sleep_time_set_step(
                old(self).awaiting_ack,
                text_of(reply),
                duration,
            ),
            final(self).response_buffer == old(self).response_buffer,
            final(self).cursor == old(self).cursor,
    {
        let seconds = duration.as_secs();
        if seconds > 65000 {
            return Step::Done(
                Err(
                    ProtocolError::OutOfRange {
                        field: "idleleds.true_sleep_time",
                        value: seconds,
                        max: 65000 as u64,
                    },
                ),
            );
        }
        let verdict = duration_verdict(reply, TimeUnit::Seconds, duration);
        let argument = duration_string(TimeUnit::Seconds, duration);
        self.command_guarded("idleleds.true_sleep_time", verdict, argument.as_str())
    }

    /// Gets the idle LED time limit.
    ///
    /// https://github.com/Dygmalab/Bazecor/blob/development/FOCUS_API.md#idleledstime_limit
    ///
    /// Called with no response, asks the device; called with the response, reads
    /// it.
    pub fn led_idle_time_limit_get(&self, reply: Option<&str>) -> (step: Step<Duration>)
        ensures
            match reply {
                None => step.asks(query_line("idleleds.time_limit"@)),
                Some(r) => step == Step::Done(duration_of(r@, TimeUnit::Seconds)),
            },
    {
        Self::command_response_duration(reply, "idleleds.time_limit", TimeUnit::Seconds)
    }

    /// Sets the idle LED time limit.
    ///
    /// https://github.com/Dygmalab/Bazecor/blob/development/FOCUS_API.md#idleledstime_limit
    ///
    /// A guarded write: the value on the device is read first, and written only
    /// where it differs.
    /// A value above the maximum is refused before anything is sent.
    pub fn led_idle_time_limit_set(&mut self, reply: Option<&str>, duration: Duration) -> (step: Step<()>)
        ensures
            (final(self).awaiting_ack, step.outcome()) == led_idle_time_limit_set_step(
                old(self).awaiting_ack,
                text_of(reply),
                duration,
            ),
            final(self).response_buffer == old(self).response_buffer,
            final(self).cursor == old(self).cursor,
    {
        let seconds = duration.as_secs();
        if seconds > 65000 {
            return Step::Done(
                Err(
                    ProtocolError::OutOfRange {
                        field: "idleleds.time_limit",
                        value: seconds,
                        max: 65000 as u64,
                    },
                ),
            );
        }
        let verdict = duration_verdict(reply, TimeUnit::Seconds, duration);
        let argument = duration_string(TimeUnit::Seconds, duration);
        self.command_guarded("idleleds.time_limit", verdict, argument.as_str())
    }

    /// Gets the idle LED wireless state.
    ///
    /// Called with no response, asks the device; called with the response, reads
    /// it.
    pub fn led_idle_wireless_get(&self, reply: Option<&str>) -> (step: Step<bool>)
        ensures
            match reply {
                None => step.asks(query_line("idleleds.wireless"@)),
                Some(r) => step == Step::Done(flag_of(r@)),
            },
    {
        Self::command_response_bool(reply, "idleleds.wireless")
    }

    /// Sets the idle LED wireless state.
    ///
    /// A guarded write: the value on the device is read first, and written only
    /// where it differs.
    pub fn led_idle_wireless_set(&mut self, reply: Option<&str>, state: bool) -> (step: Step<()>)
        ensures
            (final(self).awaiting_ack, step.outcome()) == led_idle_wireless_set_step(
                old(self).awaiting_ack,
                text_of(reply),
                state,
            ),
            final(self).response_buffer == old(self).response_buffer,
            final(self).cursor == old(self).cursor,
    {
        let verdict = flag_verdict(reply, state);
        let argument = flag_string(state);
        self.command_guarded("idleleds.wireless", verdict, argument.as_str())
    }

    /// Gets the keyboard model name.
    ///
    /// https://github.com/Dygmalab/Bazecor/blob/development/FOCUS_API.md#hardwareversion
    ///
    /// Called with no response, asks the device; called with the response, reads
    /// it.
    pub fn hardware_version_get(&self, reply: Option<&str>) -> (step: Step<String>)
        ensures
            match reply {
                None => step.asks(query_line("hardware.version"@)),
                Some(r) => step matches Step::Done(Ok(text)) && text@ == r@,
            },
    {
        Self::command_response_string(reply, "hardware.version")
    }

    /// Sets the keyboard model name.
    ///
    /// A guarded write: the value on the device is read first, and written only
    /// where it differs.
    pub fn hardware_version_set(&mut self, reply: Option<&str>, data: &str) -> (step: Step<()>)
        ensures
            (final(self).awaiting_ack, step.outcome()) == hardware_version_set_step(
                old(self).awaiting_ack,
                text_of(reply),
                data@,
            ),
            final(self).response_buffer == old(self).response_buffer,
            final(self).cursor == old(self).cursor,
    {
        let verdict = text_verdict(reply, data);
        self.command_guarded("hardware.version", verdict, data)
    }

    /// Gets the Qukeys hold timeout.
    ///
    /// https://kaleidoscope.readthedocs.io/en/latest/plugins/Kaleidoscope-Qukeys.html
    ///
    /// Called with no response, asks the device; called with the response, reads
    /// it.
    pub fn qukeys_hold_timeout_get(&self, reply: Option<&str>) -> (step: Step<Duration>)
        ensures
            match reply {
                None => step.asks(query_line("qukeys.holdTimeout"@)),
                Some(r) => step == Step::Done(duration_of(r@, TimeUnit::Milliseconds)),
            },
    {
        Self::command_response_duration(reply, "qukeys.holdTimeout", TimeUnit::Milliseconds)
    }

    /// Sets the Qukeys hold timeout.
    ///
    /// https://kaleidoscope.readthedocs.io/en/latest/plugins/Kaleidoscope-Qukeys.html
    ///
    /// A guarded write: the value on the device is read first, and written only
    /// where it differs.
    pub fn qukeys_hold_timeout_set(&mut self, reply: Option<&str>, duration: Duration) -> (step: Step<()>)
        ensures
            (final(self).awaiting_ack, step.outcome()) == qukeys_hold_timeout_set_step(
                old(self).awaiting_ack,
                text_of(reply),
                duration,
            ),
            final(self).response_buffer == old(self).response_buffer,
            final(self).cursor == old(self).cursor,
    {
        let verdict = duration_verdict(reply, TimeUnit::Milliseconds, duration);
        let argument = duration_string(TimeUnit::Milliseconds, duration);
        self.command_guarded("qukeys.holdTimeout", verdict, argument.as_str())
    }

    /// Gets the Qukeys overlap threshold.
    ///
    /// https://kaleidoscope.readthedocs.io/en/latest/plugins/Kaleidoscope-Qukeys.html
    ///
    /// Called with no response, asks the device; called with the response, reads
    /// it.
    pub fn qukeys_overlap_threshold_get(&self, reply: Option<&str>) -> (step: Step<Duration>)
        ensures
            match reply {
                None => step.asks(query_line("qukeys.overlapThreshold"@)),
                Some(r) => step == Step::Done(duration_of(r@, TimeUnit::Milliseconds)),
            },
    {
        Self::command_response_duration(reply, "qukeys.overlapThreshold", TimeUnit::Milliseconds)
    }

    /// Sets the Qukeys overlap threshold.
    ///
    /// https://kaleidoscope.readthedocs.io/en/latest/plugins/Kaleidoscope-Qukeys.html
    ///
    /// A guarded write: the value on the device is read first, and written only
    /// where it differs.
    pub fn qukeys_overlap_threshold_set(&mut self, reply: Option<&str>, duration: Duration) -> (step: Step<()>)
        ensures
            (final(self).awaiting_ack, step.outcome()) == qukeys_overlap_threshold_set_step(
                old(self).awaiting_ack,
                text_of(reply),
                duration,
            ),
            final(self).response_buffer == old(self).response_buffer,
            final(self).cursor == old(self).cursor,
    {
        let verdict = duration_verdict(reply, TimeUnit::Milliseconds, duration);
        let argument = duration_string(TimeUnit::Milliseconds, duration);
        self.command_guarded("qukeys.overlapThreshold", verdict, argument.as_str())
    }

    /// Gets the macros map.
    ///
    /// https://github.com/Dygmalab/Bazecor/blob/development/FOCUS_API.md#macrosmap
    ///
    /// Called with no response, asks the device; called with the response, reads
    /// it.
    pub fn macros_map_get(&self, reply: Option<&str>) -> (step: Step<Vec<u8>>)
        ensures
            match reply {
                None => step.asks(query_line("macros.map"@)),
                Some(r) => match numerical_vector::<u8>(r@) {
                    Ok(seq) => step matches Step::Done(Ok(v)) && v@ == seq,
                    Err(e) => step.fails(e),
                },
            },
    {
        Self::query_numbers::<u8>(reply, "macros.map")
    }

    /// Sets the macros map.
    ///
    /// https://github.com/Dygmalab/Bazecor/blob/development/FOCUS_API.md#macrosmap
    ///
    /// A guarded write: the value on the device is read first, and written only
    /// where it differs.
    pub fn macros_map_set(&mut self, reply: Option<&str>, data: &[u8]) -> (step: Step<()>)
        ensures
            (final(self).awaiting_ack, step.outcome()) == macros_map_set_step(
                old(self).awaiting_ack,
                text_of(reply),
                data@,
            ),
            final(self).response_buffer == old(self).response_buffer,
            final(self).cursor == old(self).cursor,
    {
        let verdict = numbers_verdict(reply, data);
        let argument = numerical_vec_to_string(data);
        self.command_guarded("macros.map", verdict, argument.as_str())
    }

    /// Triggers a macro.
    ///
    /// https://github.com/Dygmalab/Bazecor/blob/development/FOCUS_API.md#macrostrigger
    ///
    /// Called with no response, sends the command; the response confirms it.
    pub fn macros_trigger(&self, reply: Option<&str>, macro_id: u8) -> (step: Step<()>)
        ensures
            step.outcome() == confirmed(
                text_of(reply),
                "macros.trigger"@.push(' ') + decimal(macro_id as nat),
            ),
    {
        let command = with_number("macros.trigger", macro_id as u64);
        Self::command_confirmed(reply, command.as_str())
    }

    /// Gets the macros memory size in bytes.
    ///
    /// Called with no response, asks the device; called with the response, reads
    /// it.
    pub fn macros_memory(&self, reply: Option<&str>) -> (step: Step<u16>)
        ensures
            match reply {
                None => step.asks(query_line("macros.memory"@)),
                Some(r) => step == Step::Done(number_of::<u16>(r@)),
            },
    {
        Self::command_response_numerical::<u16>(reply, "macros.memory")
    }

    /// Gets all the available commands in the current version of the serial protocol.
    ///
    /// https://github.com/Dygmalab/Bazecor/blob/development/FOCUS_API.md#help
    ///
    /// Called with no response, asks the device; called with the response, reads
    /// it.
    pub fn help_get(&self, reply: Option<&str>) -> (step: Step<Vec<String>>)
        ensures
            match reply {
                None => step.asks(query_line("help"@)),
                Some(r) => step matches Step::Done(Ok(v)) && texts_of(v@) == plain_lines(r@),
            },
    {
        Self::command_response_vec_string(reply, "help")
    }

    /// Gets the virtual mouse speed.
    ///
    /// Called with no response, asks the device; called with the response, reads
    /// it.
    pub fn mouse_speed_get(&self, reply: Option<&str>) -> (step: Step<u8>)
        ensures
            match reply {
                None => step.asks(query_line("mouse.speed"@)),
                Some(r) => step == Step::Done(number_of::<u8>(r@)),
            },
    {
        Self::command_response_numerical::<u8>(reply, "mouse.speed")
    }

    /// Sets the virtual mouse speed.
    ///
    /// A guarded write: the value on the device is read first, and written only
    /// where it differs.
    /// A value above the maximum is refused before anything is sent.
    pub fn mouse_speed_set(&mut self, reply: Option<&str>, speed: u8) -> (step: Step<()>)
        ensures
            (final(self).awaiting_ack, step.outcome()) == mouse_speed_set_step(
                old(self).awaiting_ack,
                text_of(reply),
                speed,
            ),
            final(self).response_buffer == old(self).response_buffer,
            final(self).cursor == old(self).cursor,
    {
        if speed > 127 {
            return Step::Done(
                Err(
                    ProtocolError::OutOfRange {
                        field: "mouse.speed",
                        value: speed as u64,
                        max: 127 as u64,
                    },
                ),
            );
        }
        let verdict = number_verdict(reply, speed);
        let argument = decimal_string(speed as u128);
        self.command_guarded("mouse.speed", verdict, argument.as_str())
    }

    /// Gets the virtual mouse delay.
    ///
    /// Called with no response, asks the device; called with the response, reads
    /// it.
    pub fn mouse_delay_get(&self, reply: Option<&str>) -> (step: Step<Duration>)
        ensures
            match reply {
                None => step.asks(query_line("mouse.speedDelay"@)),
                Some(r) => step == Step::Done(duration_of(r@, TimeUnit::Milliseconds)),
            },
    {
        Self::command_response_duration(reply, "mouse.speedDelay", TimeUnit::Milliseconds)
    }

    /// Sets the virtual mouse delay.
    ///
    /// A guarded write: the value on the device is read first, and written only
    /// where it differs.
    pub fn mouse_delay_set(&mut self, reply: Option<&str>, duration: Duration) -> (step: Step<()>)
        ensures
            (final(self).awaiting_ack, step.outcome()) == mouse_delay_set_step(
                old(self).awaiting_ack,
                text_of(reply),
                duration,
            ),
            final(self).response_buffer == old(self).response_buffer,
            final(self).cursor == old(self).cursor,
    {
        let verdict = duration_verdict(reply, TimeUnit::Milliseconds, duration);
        let argument = duration_string(TimeUnit::Milliseconds, duration);
        self.command_guarded("mouse.speedDelay", verdict, argument.as_str())
    }

    /// Gets the virtual mouse acceleration speed.
    ///
    /// Called with no response, asks the device; called with the response, reads
    /// it.
    pub fn mouse_acceleration_speed_get(&self, reply: Option<&str>) -> (step: Step<u8>)
        ensures
            match reply {
                None => step.asks(query_line("mouse.accelSpeed"@)),
                Some(r) => step == Step::Done(number_of::<u8>(r@)),
            },
    {
        Self::command_response_numerical::<u8>(reply, "mouse.accelSpeed")
    }

    /// Sets the virtual mouse acceleration speed.
    ///
    /// A guarded write: the value on the device is read first, and written only
    /// where it differs.
    pub fn mouse_acceleration_speed_set(&mut self, reply: Option<&str>, speed: u8) -> (step: Step<()>)
        ensures
            (final(self).awaiting_ack, step.outcome()) == mouse_acceleration_speed_set_step(
                old(self).awaiting_ack,
                text_of(reply),
                speed,
            ),
            final(self).response_buffer == old(self).response_buffer,
            final(self).cursor == old(self).cursor,
    {
        let verdict = number_verdict(reply, speed);
        let argument = decimal_string(speed as u128);
        self.command_guarded("mouse.accelSpeed", verdict, argument.as_str())
    }

    /// Gets the virtual mouse acceleration delay.
    ///
    /// Called with no response, asks the device; called with the response, reads
    /// it.
    pub fn mouse_acceleration_delay_get(&self, reply: Option<&str>) -> (step: Step<Duration>)
        ensures
            match reply {
                None => step.asks(query_line("mouse.accelDelay"@)),
                Some(r) => step == Step::Done(duration_of(r@, TimeUnit::Milliseconds)),
            },
    {
        Self::command_response_duration(reply, "mouse.accelDelay", TimeUnit::Milliseconds)
    }

    /// Sets the virtual mouse acceleration delay.
    ///
    /// A guarded write: the value on the device is read first, and written only
    /// where it differs.
    pub fn mouse_acceleration_delay_set(&mut self, reply: Option<&str>, duration: Duration) -> (step: Step<()>)
        ensures
            (final(self).awaiting_ack, step.outcome()) == mouse_acceleration_delay_set_step(
                old(self).awaiting_ack,
                text_of(reply),
                duration,
            ),
            final(self).response_buffer == old(self).response_buffer,
            final(self).cursor == old(self).cursor,
    {
        let verdict = duration_verdict(reply, TimeUnit::Milliseconds, duration);
        let argument = duration_string(TimeUnit::Milliseconds, duration);
        self.command_guarded("mouse.accelDelay", verdict, argument.as_str())
    }

    /// Gets the virtual mouse wheel speed.
    ///
    /// Called with no response, asks the device; called with the response, reads
    /// it.
    pub fn mouse_wheel_speed_get(&self, reply: Option<&str>) -> (step: Step<u8>)
        ensures
            match reply {
                None => step.asks(query_line("mouse.wheelSpeed"@)),
                Some(r) => step == Step::Done(number_of::<u8>(r@)),
            },
    {
        Self::command_response_numerical::<u8>(reply, "mouse.wheelSpeed")
    }

    /// Sets the virtual mouse wheel speed.
    ///
    /// A guarded write: the value on the device is read first, and written only
    /// where it differs.
    pub fn mouse_wheel_speed_set(&mut self, reply: Option<&str>, speed: u8) -> (step: Step<()>)
        ensures
            (final(self).awaiting_ack, step.outcome()) == mouse_wheel_speed_set_step(
                old(self).awaiting_ack,
                text_of(reply),
                speed,
            ),
            final(self).response_buffer == old(self).response_buffer,
            final(self).cursor == old(self).cursor,
    {
        let verdict = number_verdict(reply, speed);
        let argument = decimal_string(speed as u128);
        self.command_guarded("mouse.wheelSpeed", verdict, argument.as_str())
    }

    /// Gets the virtual mouse wheel delay.
    ///
    /// Called with no response, asks the device; called with the response, reads
    /// it.
    pub fn mouse_wheel_delay_get(&self, reply: Option<&str>) -> (step: Step<Duration>)
        ensures
            match reply {
                None => step.asks(query_line("mouse.wheelDelay"@)),
                Some(r) => step == Step::Done(duration_of(r@, TimeUnit::Milliseconds)),
            },
    {
        Self::command_response_duration(reply, "mouse.wheelDelay", TimeUnit::Milliseconds)
    }

    /// Sets the virtual mouse wheel delay.
    ///
    /// A guarded write: the value on the device is read first, and written only
    /// where it differs.
    pub fn mouse_wheel_delay_set(&mut self, reply: Option<&str>, duration: Duration) -> (step: Step<()>)
        ensures
            (final(self).awaiting_ack, step.outcome()) == mouse_wheel_delay_set_step(
                old(self).awaiting_ack,
                text_of(reply),
                duration,
            ),
            final(self).response_buffer == old(self).response_buffer,
            final(self).cursor == old(self).cursor,
    {
        let verdict = duration_verdict(reply, TimeUnit::Milliseconds, duration);
        let argument = duration_string(TimeUnit::Milliseconds, duration);
        self.command_guarded("mouse.wheelDelay", verdict, argument.as_str())
    }

    /// Gets the virtual mouse speed limit.
    ///
    /// Called with no response, asks the device; called with the response, reads
    /// it.
    pub fn mouse_speed_limit_get(&self, reply: Option<&str>) -> (step: Step<u8>)
        ensures
            match reply {
                None => step.asks(query_line("mouse.speedLimit"@)),
                Some(r) => step == Step::Done(number_of::<u8>(r@)),
            },
    {
        Self::command_response_numerical::<u8>(reply, "mouse.speedLimit")
    }

    /// Sets the virtual mouse speed limit.
    ///
    /// A guarded write: the value on the device is read first, and written only
    /// where it differs.
    pub fn mouse_speed_limit_set(&mut self, reply: Option<&str>, limit: u8) -> (step: Step<()>)
        ensures
            (final(self).awaiting_ack, step.outcome()) == mouse_speed_limit_set_step(
                old(self).awaiting_ack,
                text_of(reply),
                limit,
            ),
            final(self).response_buffer == old(self).response_buffer,
            final(self).cursor == old(self).cursor,
    {
        let verdict = number_verdict(reply, limit);
        let argument = decimal_string(limit as u128);
        self.command_guarded("mouse.speedLimit", verdict, argument.as_str())
    }

    /// Activate a certain layer remotely just by sending its order number.
    ///
    /// The layer is -1 to Bazecor.
    ///
    /// This does not affect the memory usage as the value is stored in RAM.
    ///
    /// https://github.com/Dygmalab/Bazecor/blob/development/FOCUS_API.md#layeractivate
    ///
    /// Called with no response, sends the command; the response confirms it.
    pub fn layer_activate(&self, reply: Option<&str>, layer: u8) -> (step: Step<()>)
        ensures
            step.outcome() == confirmed(
                text_of(reply),
                "layer.activate"@.push(' ') + decimal(layer as nat),
            ),
    {
        let command = with_number("layer.activate", layer as u64);
        Self::command_confirmed(reply, command.as_str())
    }

    /// Deactivate the last layer that the keyboard switched to.
    /// This same function is the way the shift to layer key works on the keyboard.
    ///
    /// Just provide the layer number to make the keyboard go back one layer. The layer is -1 to Bazecor.
    ///
    /// https://github.com/Dygmalab/Bazecor/blob/development/FOCUS_API.md#layerdeactivate
    ///
    /// With a layer, that layer is deactivated first and its confirmation
    /// awaited; the command without a layer follows in either case. A layer
    /// above the maximum is refused before anything is sent.
    pub fn layer_deactivate(&mut self, reply: Option<&str>, layer: Option<u8>) -> (step: Step<()>)
        ensures
            (final(self).awaiting_ack, step.outcome()) == layer_deactivate_step(
                old(self).awaiting_ack,
                text_of(reply),
                layer,
            ),
            final(self).response_buffer == old(self).response_buffer,
            final(self).cursor == old(self).cursor,
    {
        match reply {
            None => match layer {
                Some(l) => {
                    if l > MAX_LAYERS {
                        return Step::Done(
                            Err(
                                ProtocolError::OutOfRange {
                                    field: "layer.deactivate",
                                    value: l as u64,
                                    max: MAX_LAYERS as u64,
                                },
                            ),
                        );
                    }
                    self.awaiting_ack = true;
                    let command = with_number("layer.deactivate", l as u64);
                    Step::Send(Self::command_new_line(command.as_str(), true))
                },
                None => {
                    self.awaiting_ack = false;
                    Step::Send(Self::command_new_line("layer.deactivate", true))
                },
            },
            Some(_) => {
                if self.awaiting_ack {
                    self.awaiting_ack = false;
                    Step::Send(Self::command_new_line("layer.deactivate", true))
                } else {
                    Step::Done(Ok(()))
                }
            },
        }
    }

    /// Gets the state of the provided layer.
    ///
    /// The layer is -1 to Bazecor.
    ///
    /// https://github.com/Dygmalab/Bazecor/blob/development/FOCUS_API.md#layerisactive
    ///
    /// Called with no response, asks the device; called with the response, reads
    /// it. A layer above the maximum is refused before anything is sent.
    pub fn layer_is_active(&self, reply: Option<&str>, layer: u8) -> (step: Step<bool>)
        ensures
            layer > MAX_LAYERS ==> step.fails(
                ProtocolError::OutOfRange {
                    field: "layer.isActive",
                    value: layer as u64,
                    max: MAX_LAYERS as u64,
                },
            ),
            layer <= MAX_LAYERS ==> match reply {
                None => step.asks(query_line("layer.isActive"@.push(' ') + decimal(layer as nat))),
                Some(r) => step == Step::Done(flag_of(r@)),
            },
    {
        if layer > MAX_LAYERS {
            return Step::Done(
                Err(
                    ProtocolError::OutOfRange {
                        field: "layer.isActive",
                        value: layer as u64,
                        max: MAX_LAYERS as u64,
                    },
                ),
            );
        }
        let command = with_number("layer.isActive", layer as u64);
        Self::command_response_bool(reply, command.as_str())
    }

    /// Switch to a certain layer.
    ///
    /// The layer is -1 to Bazecor.
    ///
    /// The difference between this command and the layer_activate alternative, is that the layer_activate adds to the layer switching history, but moveTo will erase that memory and return it to an array length 1 and holding the current layer the keyboard moved to.
    ///
    /// This does not affect the memory usage as the value is stored in RAM.
    ///
    /// https://github.com/Dygmalab/Bazecor/blob/development/FOCUS_API.md#layermoveto
    ///
    /// Called with no response, sends the command; the response confirms it.
    pub fn layer_move_to(&self, reply: Option<&str>, layer: u8) -> (step: Step<()>)
        ensures
            step.outcome() == confirmed(
                text_of(reply),
                "layer.moveTo"@.push(' ') + decimal(layer as nat),
            ),
    {
        let command = with_number("layer.moveTo", layer as u64);
        Self::command_confirmed(reply, command.as_str())
    }

    /// Gets the status for up to 32 layers.
    ///
    /// It will return a vector of bools with the respective index matching each layer, -1 from Bazecor.
    ///
    /// https://github.com/Dygmalab/Bazecor/blob/development/FOCUS_API.md#layerstate
    ///
    /// Called with no response, asks the device; called with the response, reads
    /// it.
    pub fn layer_state(&self, reply: Option<&str>) -> (step: Step<Vec<bool>>)
        ensures
            match reply {
                None => step.asks(query_line("layer.state"@)),
                Some(r) => step matches Step::Done(Ok(v)) && v@ == layer_flags(r@),
            },
    {
        match reply {
            None => Step::Send(Self::command_new_line("layer.state", true)),
            Some(r) => Step::Done(Ok(read_layer_flags(r))),
        }
    }

    /// Gets the battery level of the left keyboard as a percentage.
    ///
    /// Called with no response, asks the device; called with the response, reads
    /// it.
    pub fn wireless_battery_level_left_get(&self, reply: Option<&str>) -> (step: Step<u8>)
        ensures
            match reply {
                None => step.asks(query_line("wireless.battery.left.level"@)),
                Some(r) => step == Step::Done(number_of::<u8>(r@)),
            },
    {
        Self::command_response_numerical::<u8>(reply, "wireless.battery.left.level")
    }

    /// Gets the battery level of the right keyboard as a percentage.
    ///
    /// Called with no response, asks the device; called with the response, reads
    /// it.
    pub fn wireless_battery_level_right_get(&self, reply: Option<&str>) -> (step: Step<u8>)
        ensures
            match reply {
                None => step.asks(query_line("wireless.battery.right.level"@)),
                Some(r) => step == Step::Done(number_of::<u8>(r@)),
            },
    {
        Self::command_response_numerical::<u8>(reply, "wireless.battery.right.level")
    }

    /// Gets the battery status of the left keyboard.
    ///
    /// Called with no response, asks the device; called with the response, reads
    /// it.
    pub fn wireless_battery_status_left_get(&self, reply: Option<&str>) -> (step: Step<u8>)
        ensures
            match reply {
                None => step.asks(query_line("wireless.battery.left.status"@)),
                Some(r) => step == Step::Done(number_of::<u8>(r@)),
            },
    {
        Self::command_response_numerical::<u8>(reply, "wireless.battery.left.status")
    }

    /// Gets the battery status of the right keyboard.
    ///
    /// Called with no response, asks the device; called with the response, reads
    /// it.
    pub fn wireless_battery_status_right_get(&self, reply: Option<&str>) -> (step: Step<u8>)
        ensures
            match reply {
                None => step.asks(query_line("wireless.battery.right.status"@)),
                Some(r) => step == Step::Done(number_of::<u8>(r@)),
            },
    {
        Self::command_response_numerical::<u8>(reply, "wireless.battery.right.status")
    }

    /// Gets the battery saving mode state.
    ///
    /// Called with no response, asks the device; called with the response, reads
    /// it.
    pub fn wireless_battery_saving_mode_get(&self, reply: Option<&str>) -> (step: Step<bool>)
        ensures
            match reply {
                None => step.asks(query_line("wireless.battery.savingMode"@)),
                Some(r) => step == Step::Done(flag_of(r@)),
            },
    {
        Self::command_response_bool(reply, "wireless.battery.savingMode")
    }

    /// Sets the battery saving mode state.
    ///
    /// A guarded write: the value on the device is read first, and written only
    /// where it differs.
    pub fn wireless_battery_saving_mode_set(&mut self, reply: Option<&str>, state: bool) -> (step: Step<()>)
        ensures
            (final(self).awaiting_ack, step.outcome()) == wireless_battery_saving_mode_set_step(
                old(self).awaiting_ack,
                text_of(reply),
                state,
            ),
            final(self).response_buffer == old(self).response_buffer,
            final(self).cursor == old(self).cursor,
    {
        let verdict = flag_verdict(reply, state);
        let argument = flag_string(state);
        self.command_guarded("wireless.battery.savingMode", verdict, argument.as_str())
    }

    /// Gets the RF power level.
    ///
    /// Called with no response, asks the device; called with the response, reads
    /// it.
    pub fn wireless_rf_power_level_get(&self, reply: Option<&str>) -> (step: Step<WirelessPowerMode>)
        ensures
            match reply {
                None => step.asks(query_line("wireless.rf.power"@)),
                Some(r) => step == Step::Done(power_mode_in(r@)),
            },
    {
        match reply {
            None => Step::Send(Self::command_new_line("wireless.rf.power", true)),
            Some(r) => Step::Done(read_power_mode(r)),
        }
    }

    /// Sets the RF power level.
    ///
    /// A guarded write: the value on the device is read first, and written only
    /// where it differs.
    pub fn wireless_rf_power_level_set(&mut self, reply: Option<&str>, wireless_power_mode: WirelessPowerMode) -> (step: Step<()>)
        ensures
            (final(self).awaiting_ack, step.outcome()) == wireless_rf_power_level_set_step(
                old(self).awaiting_ack,
                text_of(reply),
                wireless_power_mode,
            ),
            final(self).response_buffer == old(self).response_buffer,
            final(self).cursor == old(self).cursor,
    {
        let verdict = power_mode_verdict(reply, wireless_power_mode);
        let argument = decimal_string(wireless_power_mode.value() as u128);
        self.command_guarded("wireless.rf.power", verdict, argument.as_str())
    }

    /// Gets the RF channel hop state.
    ///
    /// Called with no response, asks the device; called with the response, reads
    /// it.
    pub fn wireless_rf_channel_hop_get(&self, reply: Option<&str>) -> (step: Step<bool>)
        ensures
            match reply {
                None => step.asks(query_line("wireless.rf.channelHop"@)),
                Some(r) => step == Step::Done(flag_of(r@)),
            },
    {
        Self::command_response_bool(reply, "wireless.rf.channelHop")
    }

    /// Sets the RF channel hop state.
    ///
    /// A guarded write: the value on the device is read first, and written only
    /// where it differs.
    pub fn wireless_rf_channel_hop_set(&mut self, reply: Option<&str>, state: bool) -> (step: Step<()>)
        ensures
            (final(self).awaiting_ack, step.outcome()) == wireless_rf_channel_hop_set_step(
                old(self).awaiting_ack,
                text_of(reply),
                state,
            ),
            final(self).response_buffer == old(self).response_buffer,
            final(self).cursor == old(self).cursor,
    {
        let verdict = flag_verdict(reply, state);
        let argument = flag_string(state);
        self.command_guarded("wireless.rf.channelHop", verdict, argument.as_str())
    }

    /// Gets the sync pairing state.
    ///
    /// Called with no response, asks the device; called with the response, reads
    /// it.
    pub fn wireless_rf_sync_pairing(&self, reply: Option<&str>) -> (step: Step<bool>)
        ensures
            match reply {
                None => step.asks(query_line("wireless.rf.syncPairing"@)),
                Some(r) => step == Step::Done(flag_of(r@)),
            },
    {
        Self::command_response_bool(reply, "wireless.rf.syncPairing")
    }
}

} // verus!
