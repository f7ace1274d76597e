use dygma_focus::color::{RGB, RGBW};
use dygma_focus::enums::{Duration, LedMode, WirelessPowerMode};
use dygma_focus::focus::{Command, Focus, Step};

fn ask(text: &str) -> Command {
    Command { text: text.to_string(), wait_for_response: true }
}

#[test]
fn every_getter_asks_with_its_command() {
    let focus = Focus::new();
    assert_eq!(focus.version(None), Step::Send(ask("version\n")));
    assert_eq!(focus.keymap_custom_get(None), Step::Send(ask("keymap.custom\n")));
    assert_eq!(focus.keymap_default_get(None), Step::Send(ask("keymap.default\n")));
    assert_eq!(focus.keymap_only_custom_get(None), Step::Send(ask("keymap.onlyCustom\n")));
    assert_eq!(focus.settings_default_layer_get(None), Step::Send(ask("settings.defaultLayer\n")));
    assert_eq!(focus.settings_valid(None), Step::Send(ask("settings.valid?\n")));
    assert_eq!(focus.settings_version_get(None), Step::Send(ask("settings.version\n")));
    assert_eq!(focus.settings_crc(None), Step::Send(ask("settings.crc\n")));
    assert_eq!(focus.eeprom_contents_get(None), Step::Send(ask("eeprom.contents\n")));
    assert_eq!(focus.eeprom_free(None), Step::Send(ask("eeprom.free\n")));
    assert_eq!(focus.superkeys_map_get(None), Step::Send(ask("superkeys.map\n")));
    assert_eq!(focus.superkeys_wait_for_get(None), Step::Send(ask("superkeys.waitfor\n")));
    assert_eq!(focus.superkeys_timeout_get(None), Step::Send(ask("superkeys.timeout\n")));
    assert_eq!(focus.superkeys_repeat_get(None), Step::Send(ask("superkeys.repeat\n")));
    assert_eq!(focus.superkeys_hold_start_get(None), Step::Send(ask("superkeys.holdstart\n")));
    assert_eq!(focus.superkeys_overlap_get(None), Step::Send(ask("superkeys.overlap\n")));
    assert_eq!(focus.led_mode_get(None), Step::Send(ask("led.mode\n")));
    assert_eq!(focus.led_brightness_top_get(None), Step::Send(ask("led.brightness\n")));
    assert_eq!(focus.led_brightness_underglow_get(None), Step::Send(ask("led.brightnessUG\n")));
    assert_eq!(focus.led_brightness_wireless_top_get(None), Step::Send(ask("led.brightness.wireless\n")));
    assert_eq!(focus.led_brightness_wireless_underglow_get(None), Step::Send(ask("led.brightnessUG.wireless\n")));
    assert_eq!(focus.led_fade_get(None), Step::Send(ask("led.fade\n")));
    assert_eq!(focus.led_theme_get(None), Step::Send(ask("led.theme\n")));
    assert_eq!(focus.palette_rgb_get(None), Step::Send(ask("palette\n")));
    assert_eq!(focus.palette_rgbw_get(None), Step::Send(ask("palette\n")));
    assert_eq!(focus.color_map_get(None), Step::Send(ask("colormap.map\n")));
    assert_eq!(focus.led_idle_true_sleep_get(None), Step::Send(ask("idleleds.true_sleep\n")));
    assert_eq!(focus.led_idle_true_sleep_time_get(None), Step::Send(ask("idleleds.true_sleep_time\n")));
    assert_eq!(focus.led_idle_time_limit_get(None), Step::Send(ask("idleleds.time_limit\n")));
    assert_eq!(focus.led_idle_wireless_get(None), Step::Send(ask("idleleds.wireless\n")));
    assert_eq!(focus.hardware_version_get(None), Step::Send(ask("hardware.version\n")));
    assert_eq!(focus.qukeys_hold_timeout_get(None), Step::Send(ask("qukeys.holdTimeout\n")));
    assert_eq!(focus.qukeys_overlap_threshold_get(None), Step::Send(ask("qukeys.overlapThreshold\n")));
    assert_eq!(focus.macros_map_get(None), Step::Send(ask("macros.map\n")));
    assert_eq!(focus.macros_memory(None), Step::Send(ask("macros.memory\n")));
    assert_eq!(focus.help_get(None), Step::Send(ask("help\n")));
    assert_eq!(focus.mouse_speed_get(None), Step::Send(ask("mouse.speed\n")));
    assert_eq!(focus.mouse_delay_get(None), Step::Send(ask("mouse.speedDelay\n")));
    assert_eq!(focus.mouse_acceleration_speed_get(None), Step::Send(ask("mouse.accelSpeed\n")));
    assert_eq!(focus.mouse_acceleration_delay_get(None), Step::Send(ask("mouse.accelDelay\n")));
    assert_eq!(focus.mouse_wheel_speed_get(None), Step::Send(ask("mouse.wheelSpeed\n")));
    assert_eq!(focus.mouse_wheel_delay_get(None), Step::Send(ask("mouse.wheelDelay\n")));
    assert_eq!(focus.mouse_speed_limit_get(None), Step::Send(ask("mouse.speedLimit\n")));
    assert_eq!(focus.layer_state(None), Step::Send(ask("layer.state\n")));
    assert_eq!(focus.wireless_battery_level_left_get(None), Step::Send(ask("wireless.battery.left.level\n")));
    assert_eq!(focus.wireless_battery_level_right_get(None), Step::Send(ask("wireless.battery.right.level\n")));
    assert_eq!(focus.wireless_battery_status_left_get(None), Step::Send(ask("wireless.battery.left.status\n")));
    assert_eq!(focus.wireless_battery_status_right_get(None), Step::Send(ask("wireless.battery.right.status\n")));
    assert_eq!(focus.wireless_battery_saving_mode_get(None), Step::Send(ask("wireless.battery.savingMode\n")));
    assert_eq!(focus.wireless_rf_power_level_get(None), Step::Send(ask("wireless.rf.power\n")));
    assert_eq!(focus.wireless_rf_channel_hop_get(None), Step::Send(ask("wireless.rf.channelHop\n")));
    assert_eq!(focus.wireless_rf_sync_pairing(None), Step::Send(ask("wireless.rf.syncPairing\n")));
}

#[test]
fn every_setter_reads_first_and_writes_what_differs() {
    let mut focus = Focus::new();
    assert_eq!(focus.keymap_custom_set(None, &[1, 2]), Step::Send(ask("keymap.custom\n")));
    assert_eq!(focus.keymap_custom_set(Some("1 2"), &[1, 2]), Step::Done(Ok(())));
    assert_eq!(focus.keymap_custom_set(Some("1 3"), &[1, 2]), Step::Send(ask("keymap.custom 1 2\n")));
    assert_eq!(focus.keymap_custom_set(Some(""), &[1, 2]), Step::Done(Ok(())));
    assert_eq!(focus.keymap_default_set(None, &[1, 2]), Step::Send(ask("keymap.default\n")));
    assert_eq!(focus.keymap_default_set(Some("1 2"), &[1, 2]), Step::Done(Ok(())));
    assert_eq!(focus.keymap_default_set(Some("1 3"), &[1, 2]), Step::Send(ask("keymap.default 1 2\n")));
    assert_eq!(focus.keymap_default_set(Some(""), &[1, 2]), Step::Done(Ok(())));
    assert_eq!(focus.keymap_only_custom_set(None, true), Step::Send(ask("keymap.onlyCustom\n")));
    assert_eq!(focus.keymap_only_custom_set(Some("1"), true), Step::Done(Ok(())));
    assert_eq!(focus.keymap_only_custom_set(Some("0"), true), Step::Send(ask("keymap.onlyCustom 1\n")));
    assert_eq!(focus.keymap_only_custom_set(Some(""), true), Step::Done(Ok(())));
    assert_eq!(focus.settings_default_layer_set(None, 7), Step::Send(ask("settings.defaultLayer\n")));
    assert_eq!(focus.settings_default_layer_set(Some("7"), 7), Step::Done(Ok(())));
    assert_eq!(focus.settings_default_layer_set(Some("8"), 7), Step::Send(ask("settings.defaultLayer 7\n")));
    assert_eq!(focus.settings_default_layer_set(Some(""), 7), Step::Done(Ok(())));
    assert_eq!(focus.settings_version_set(None, "abc"), Step::Send(ask("settings.version\n")));
    assert_eq!(focus.settings_version_set(Some("abc"), "abc"), Step::Done(Ok(())));
    assert_eq!(focus.settings_version_set(Some("abd"), "abc"), Step::Send(ask("settings.version abc\n")));
    assert_eq!(focus.settings_version_set(Some(""), "abc"), Step::Done(Ok(())));
    assert_eq!(focus.eeprom_contents_set(None, "abc"), Step::Send(ask("eeprom.contents\n")));
    assert_eq!(focus.eeprom_contents_set(Some("abc"), "abc"), Step::Done(Ok(())));
    assert_eq!(focus.eeprom_contents_set(Some("abd"), "abc"), Step::Send(ask("eeprom.contents abc\n")));
    assert_eq!(focus.eeprom_contents_set(Some(""), "abc"), Step::Done(Ok(())));
    assert_eq!(focus.superkeys_map_set(None, &[1, 2]), Step::Send(ask("superkeys.map\n")));
    assert_eq!(focus.superkeys_map_set(Some("1 2"), &[1, 2]), Step::Done(Ok(())));
    assert_eq!(focus.superkeys_map_set(Some("1 3"), &[1, 2]), Step::Send(ask("superkeys.map 1 2\n")));
    assert_eq!(focus.superkeys_map_set(Some(""), &[1, 2]), Step::Done(Ok(())));
    assert_eq!(focus.superkeys_wait_for_set(None, Duration::from_millis(70)), Step::Send(ask("superkeys.waitfor\n")));
    assert_eq!(focus.superkeys_wait_for_set(Some("70"), Duration::from_millis(70)), Step::Done(Ok(())));
    assert_eq!(focus.superkeys_wait_for_set(Some("71"), Duration::from_millis(70)), Step::Send(ask("superkeys.waitfor 70\n")));
    assert_eq!(focus.superkeys_wait_for_set(Some(""), Duration::from_millis(70)), Step::Done(Ok(())));
    assert_eq!(focus.superkeys_timeout_set(None, Duration::from_millis(70)), Step::Send(ask("superkeys.timeout\n")));
    assert_eq!(focus.superkeys_timeout_set(Some("70"), Duration::from_millis(70)), Step::Done(Ok(())));
    assert_eq!(focus.superkeys_timeout_set(Some("71"), Duration::from_millis(70)), Step::Send(ask("superkeys.timeout 70\n")));
    assert_eq!(focus.superkeys_timeout_set(Some(""), Duration::from_millis(70)), Step::Done(Ok(())));
    assert_eq!(focus.superkeys_repeat_set(None, Duration::from_millis(70)), Step::Send(ask("superkeys.repeat\n")));
    assert_eq!(focus.superkeys_repeat_set(Some("70"), Duration::from_millis(70)), Step::Done(Ok(())));
    assert_eq!(focus.superkeys_repeat_set(Some("71"), Duration::from_millis(70)), Step::Send(ask("superkeys.repeat 70\n")));
    assert_eq!(focus.superkeys_repeat_set(Some(""), Duration::from_millis(70)), Step::Done(Ok(())));
    assert_eq!(focus.superkeys_hold_start_set(None, Duration::from_millis(70)), Step::Send(ask("superkeys.holdstart\n")));
    assert_eq!(focus.superkeys_hold_start_set(Some("70"), Duration::from_millis(70)), Step::Done(Ok(())));
    assert_eq!(focus.superkeys_hold_start_set(Some("71"), Duration::from_millis(70)), Step::Send(ask("superkeys.holdstart 70\n")));
    assert_eq!(focus.superkeys_hold_start_set(Some(""), Duration::from_millis(70)), Step::Done(Ok(())));
    assert_eq!(focus.superkeys_overlap_set(None, 7), Step::Send(ask("superkeys.overlap\n")));
    assert_eq!(focus.superkeys_overlap_set(Some("7"), 7), Step::Done(Ok(())));
    assert_eq!(focus.superkeys_overlap_set(Some("8"), 7), Step::Send(ask("superkeys.overlap 7\n")));
    assert_eq!(focus.superkeys_overlap_set(Some(""), 7), Step::Done(Ok(())));
    assert_eq!(focus.led_mode_set(None, LedMode::Red), Step::Send(ask("led.mode\n")));
    assert_eq!(focus.led_mode_set(Some("4"), LedMode::Red), Step::Done(Ok(())));
    assert_eq!(focus.led_mode_set(Some("5"), LedMode::Red), Step::Send(ask("led.mode 4\n")));
    assert_eq!(focus.led_mode_set(Some(""), LedMode::Red), Step::Done(Ok(())));
    assert_eq!(focus.led_brightness_top_set(None, 7), Step::Send(ask("led.brightness\n")));
    assert_eq!(focus.led_brightness_top_set(Some("7"), 7), Step::Done(Ok(())));
    assert_eq!(focus.led_brightness_top_set(Some("8"), 7), Step::Send(ask("led.brightness 7\n")));
    assert_eq!(focus.led_brightness_top_set(Some(""), 7), Step::Done(Ok(())));
    assert_eq!(focus.led_brightness_underglow_set(None, 7), Step::Send(ask("led.brightnessUG\n")));
    assert_eq!(focus.led_brightness_underglow_set(Some("7"), 7), Step::Done(Ok(())));
    assert_eq!(focus.led_brightness_underglow_set(Some("8"), 7), Step::Send(ask("led.brightnessUG 7\n")));
    assert_eq!(focus.led_brightness_underglow_set(Some(""), 7), Step::Done(Ok(())));
    assert_eq!(focus.led_brightness_wireless_top_set(None, 7), Step::Send(ask("led.brightness.wireless\n")));
    assert_eq!(focus.led_brightness_wireless_top_set(Some("7"), 7), Step::Done(Ok(())));
    assert_eq!(focus.led_brightness_wireless_top_set(Some("8"), 7), Step::Send(ask("led.brightness.wireless 7\n")));
    assert_eq!(focus.led_brightness_wireless_top_set(Some(""), 7), Step::Done(Ok(())));
    assert_eq!(focus.led_brightness_wireless_underglow_set(None, 7), Step::Send(ask("led.brightnessUG.wireless\n")));
    assert_eq!(focus.led_brightness_wireless_underglow_set(Some("7"), 7), Step::Done(Ok(())));
    assert_eq!(focus.led_brightness_wireless_underglow_set(Some("8"), 7), Step::Send(ask("led.brightnessUG.wireless 7\n")));
    assert_eq!(focus.led_brightness_wireless_underglow_set(Some(""), 7), Step::Done(Ok(())));
    assert_eq!(focus.led_fade_set(None, 7), Step::Send(ask("led.fade\n")));
    assert_eq!(focus.led_fade_set(Some("7"), 7), Step::Done(Ok(())));
    assert_eq!(focus.led_fade_set(Some("8"), 7), Step::Send(ask("led.fade 7\n")));
    assert_eq!(focus.led_fade_set(Some(""), 7), Step::Done(Ok(())));
    assert_eq!(focus.led_theme_set(None, &[RGB { r: 1, g: 2, b: 3 }]), Step::Send(ask("led.theme\n")));
    assert_eq!(focus.led_theme_set(Some("1 2 3"), &[RGB { r: 1, g: 2, b: 3 }]), Step::Done(Ok(())));
    assert_eq!(focus.led_theme_set(Some("1 2 4"), &[RGB { r: 1, g: 2, b: 3 }]), Step::Send(ask("led.theme 1 2 3\n")));
    assert_eq!(focus.led_theme_set(Some(""), &[RGB { r: 1, g: 2, b: 3 }]), Step::Done(Ok(())));
    assert_eq!(focus.palette_rgb_set(None, &[RGB { r: 1, g: 2, b: 3 }]), Step::Send(ask("palette\n")));
    assert_eq!(focus.palette_rgb_set(Some("1 2 3"), &[RGB { r: 1, g: 2, b: 3 }]), Step::Done(Ok(())));
    assert_eq!(focus.palette_rgb_set(Some("1 2 4"), &[RGB { r: 1, g: 2, b: 3 }]), Step::Send(ask("palette 1 2 3\n")));
    assert_eq!(focus.palette_rgb_set(Some(""), &[RGB { r: 1, g: 2, b: 3 }]), Step::Done(Ok(())));
    assert_eq!(focus.palette_rgbw_set(None, &[RGBW { r: 1, g: 2, b: 3, w: 4 }]), Step::Send(ask("palette\n")));
    assert_eq!(focus.palette_rgbw_set(Some("1 2 3 4"), &[RGBW { r: 1, g: 2, b: 3, w: 4 }]), Step::Done(Ok(())));
    assert_eq!(focus.palette_rgbw_set(Some("1 2 3 5"), &[RGBW { r: 1, g: 2, b: 3, w: 4 }]), Step::Send(ask("palette 1 2 3 4\n")));
    assert_eq!(focus.palette_rgbw_set(Some(""), &[RGBW { r: 1, g: 2, b: 3, w: 4 }]), Step::Done(Ok(())));
    assert_eq!(focus.color_map_set(None, &[1, 2]), Step::Send(ask("colormap.map\n")));
    assert_eq!(focus.color_map_set(Some("1 2"), &[1, 2]), Step::Done(Ok(())));
    assert_eq!(focus.color_map_set(Some("1 3"), &[1, 2]), Step::Send(ask("colormap.map 1 2\n")));
    assert_eq!(focus.color_map_set(Some(""), &[1, 2]), Step::Done(Ok(())));
    assert_eq!(focus.led_idle_true_sleep_set(None, true), Step::Send(ask("idleleds.true_sleep\n")));
    assert_eq!(focus.led_idle_true_sleep_set(Some("1"), true), Step::Done(Ok(())));
    assert_eq!(focus.led_idle_true_sleep_set(Some("0"), true), Step::Send(ask("idleleds.true_sleep 1\n")));
    assert_eq!(focus.led_idle_true_sleep_set(Some(""), true), Step::Done(Ok(())));
    assert_eq!(focus.led_idle_true_sleep_time_set(None, Duration::from_secs(70)), Step::Send(ask("idleleds.true_sleep_time\n")));
    assert_eq!(focus.led_idle_true_sleep_time_set(Some("70"), Duration::from_secs(70)), Step::Done(Ok(())));
    assert_eq!(focus.led_idle_true_sleep_time_set(Some("71"), Duration::from_secs(70)), Step::Send(ask("idleleds.true_sleep_time 70\n")));
    assert_eq!(focus.led_idle_true_sleep_time_set(Some(""), Duration::from_secs(70)), Step::Done(Ok(())));
    assert_eq!(focus.led_idle_time_limit_set(None, Duration::from_secs(70)), Step::Send(ask("idleleds.time_limit\n")));
    assert_eq!(focus.led_idle_time_limit_set(Some("70"), Duration::from_secs(70)), Step::Done(Ok(())));
    assert_eq!(focus.led_idle_time_limit_set(Some("71"), Duration::from_secs(70)), Step::Send(ask("idleleds.time_limit 70\n")));
    assert_eq!(focus.led_idle_time_limit_set(Some(""), Duration::from_secs(70)), Step::Done(Ok(())));
    assert_eq!(focus.led_idle_wireless_set(None, true), Step::Send(ask("idleleds.wireless\n")));
    assert_eq!(focus.led_idle_wireless_set(Some("1"), true), Step::Done(Ok(())));
    assert_eq!(focus.led_idle_wireless_set(Some("0"), true), Step::Send(ask("idleleds.wireless 1\n")));
    assert_eq!(focus.led_idle_wireless_set(Some(""), true), Step::Done(Ok(())));
    assert_eq!(focus.hardware_version_set(None, "abc"), Step::Send(ask("hardware.version\n")));
    assert_eq!(focus.hardware_version_set(Some("abc"), "abc"), Step::Done(Ok(())));
    assert_eq!(focus.hardware_version_set(Some("abd"), "abc"), Step::Send(ask("hardware.version abc\n")));
    assert_eq!(focus.hardware_version_set(Some(""), "abc"), Step::Done(Ok(())));
    assert_eq!(focus.qukeys_hold_timeout_set(None, Duration::from_millis(70)), Step::Send(ask("qukeys.holdTimeout\n")));
    assert_eq!(focus.qukeys_hold_timeout_set(Some("70"), Duration::from_millis(70)), Step::Done(Ok(())));
    assert_eq!(focus.qukeys_hold_timeout_set(Some("71"), Duration::from_millis(70)), Step::Send(ask("qukeys.holdTimeout 70\n")));
    assert_eq!(focus.qukeys_hold_timeout_set(Some(""), Duration::from_millis(70)), Step::Done(Ok(())));
    assert_eq!(focus.qukeys_overlap_threshold_set(None, Duration::from_millis(70)), Step::Send(ask("qukeys.overlapThreshold\n")));
    assert_eq!(focus.qukeys_overlap_threshold_set(Some("70"), Duration::from_millis(70)), Step::Done(Ok(())));
    assert_eq!(focus.qukeys_overlap_threshold_set(Some("71"), Duration::from_millis(70)), Step::Send(ask("qukeys.overlapThreshold 70\n")));
    assert_eq!(focus.qukeys_overlap_threshold_set(Some(""), Duration::from_millis(70)), Step::Done(Ok(())));
    assert_eq!(focus.macros_map_set(None, &[1, 2]), Step::Send(ask("macros.map\n")));
    assert_eq!(focus.macros_map_set(Some("1 2"), &[1, 2]), Step::Done(Ok(())));
    assert_eq!(focus.macros_map_set(Some("1 3"), &[1, 2]), Step::Send(ask("macros.map 1 2\n")));
    assert_eq!(focus.macros_map_set(Some(""), &[1, 2]), Step::Done(Ok(())));
    assert_eq!(focus.mouse_speed_set(None, 7), Step::Send(ask("mouse.speed\n")));
    assert_eq!(focus.mouse_speed_set(Some("7"), 7), Step::Done(Ok(())));
    assert_eq!(focus.mouse_speed_set(Some("8"), 7), Step::Send(ask("mouse.speed 7\n")));
    assert_eq!(focus.mouse_speed_set(Some(""), 7), Step::Done(Ok(())));
    assert_eq!(focus.mouse_delay_set(None, Duration::from_millis(70)), Step::Send(ask("mouse.speedDelay\n")));
    assert_eq!(focus.mouse_delay_set(Some("70"), Duration::from_millis(70)), Step::Done(Ok(())));
    assert_eq!(focus.mouse_delay_set(Some("71"), Duration::from_millis(70)), Step::Send(ask("mouse.speedDelay 70\n")));
    assert_eq!(focus.mouse_delay_set(Some(""), Duration::from_millis(70)), Step::Done(Ok(())));
    assert_eq!(focus.mouse_acceleration_speed_set(None, 7), Step::Send(ask("mouse.accelSpeed\n")));
    assert_eq!(focus.mouse_acceleration_speed_set(Some("7"), 7), Step::Done(Ok(())));
    assert_eq!(focus.mouse_acceleration_speed_set(Some("8"), 7), Step::Send(ask("mouse.accelSpeed 7\n")));
    assert_eq!(focus.mouse_acceleration_speed_set(Some(""), 7), Step::Done(Ok(())));
    assert_eq!(focus.mouse_acceleration_delay_set(None, Duration::from_millis(70)), Step::Send(ask("mouse.accelDelay\n")));
    assert_eq!(focus.mouse_acceleration_delay_set(Some("70"), Duration::from_millis(70)), Step::Done(Ok(())));
    assert_eq!(focus.mouse_acceleration_delay_set(Some("71"), Duration::from_millis(70)), Step::Send(ask("mouse.accelDelay 70\n")));
    assert_eq!(focus.mouse_acceleration_delay_set(Some(""), Duration::from_millis(70)), Step::Done(Ok(())));
    assert_eq!(focus.mouse_wheel_speed_set(None, 7), Step::Send(ask("mouse.wheelSpeed\n")));
    assert_eq!(focus.mouse_wheel_speed_set(Some("7"), 7), Step::Done(Ok(())));
    assert_eq!(focus.mouse_wheel_speed_set(Some("8"), 7), Step::Send(ask("mouse.wheelSpeed 7\n")));
    assert_eq!(focus.mouse_wheel_speed_set(Some(""), 7), Step::Done(Ok(())));
    assert_eq!(focus.mouse_wheel_delay_set(None, Duration::from_millis(70)), Step::Send(ask("mouse.wheelDelay\n")));
    assert_eq!(focus.mouse_wheel_delay_set(Some("70"), Duration::from_millis(70)), Step::Done(Ok(())));
    assert_eq!(focus.mouse_wheel_delay_set(Some("71"), Duration::from_millis(70)), Step::Send(ask("mouse.wheelDelay 70\n")));
    assert_eq!(focus.mouse_wheel_delay_set(Some(""), Duration::from_millis(70)), Step::Done(Ok(())));
    assert_eq!(focus.mouse_speed_limit_set(None, 7), Step::Send(ask("mouse.speedLimit\n")));
    assert_eq!(focus.mouse_speed_limit_set(Some("7"), 7), Step::Done(Ok(())));
    assert_eq!(focus.mouse_speed_limit_set(Some("8"), 7), Step::Send(ask("mouse.speedLimit 7\n")));
    assert_eq!(focus.mouse_speed_limit_set(Some(""), 7), Step::Done(Ok(())));
    assert_eq!(focus.wireless_battery_saving_mode_set(None, true), Step::Send(ask("wireless.battery.savingMode\n")));
    assert_eq!(focus.wireless_battery_saving_mode_set(Some("1"), true), Step::Done(Ok(())));
    assert_eq!(focus.wireless_battery_saving_mode_set(Some("0"), true), Step::Send(ask("wireless.battery.savingMode 1\n")));
    assert_eq!(focus.wireless_battery_saving_mode_set(Some(""), true), Step::Done(Ok(())));
    assert_eq!(focus.wireless_rf_power_level_set(None, WirelessPowerMode::High), Step::Send(ask("wireless.rf.power\n")));
    assert_eq!(focus.wireless_rf_power_level_set(Some("2"), WirelessPowerMode::High), Step::Done(Ok(())));
    assert_eq!(focus.wireless_rf_power_level_set(Some("1"), WirelessPowerMode::High), Step::Send(ask("wireless.rf.power 2\n")));
    assert_eq!(focus.wireless_rf_power_level_set(Some(""), WirelessPowerMode::High), Step::Done(Ok(())));
    assert_eq!(focus.wireless_rf_channel_hop_set(None, true), Step::Send(ask("wireless.rf.channelHop\n")));
    assert_eq!(focus.wireless_rf_channel_hop_set(Some("1"), true), Step::Done(Ok(())));
    assert_eq!(focus.wireless_rf_channel_hop_set(Some("0"), true), Step::Send(ask("wireless.rf.channelHop 1\n")));
    assert_eq!(focus.wireless_rf_channel_hop_set(Some(""), true), Step::Done(Ok(())));
}
