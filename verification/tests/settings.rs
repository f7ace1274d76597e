use dygma_focus::color::{RGB, RGBW};
use dygma_focus::enums::{Duration, LedMode, WirelessPowerMode};
use dygma_focus::error::ProtocolError;
use dygma_focus::focus::{Focus, Step};
use dygma_focus::settings::{Settings, SETTINGS_COUNT};
use std::collections::HashMap;

/// A device that keeps one text for each command and logs what it is sent.
struct Simulated {
    values: HashMap<String, String>,
    log: Vec<String>,
}

impl Simulated {
    fn new(values: &[(&str, &str)]) -> Simulated {
        let mut map = HashMap::new();
        for (k, v) in values {
            map.insert(k.to_string(), v.to_string());
        }
        Simulated { values: map, log: Vec::new() }
    }

    fn exchange(&mut self, line: &str) -> String {
        self.log.push(line.to_string());
        let line = line.strip_suffix('\n').unwrap();
        match line.split_once(' ') {
            None => self.values.get(line).cloned().unwrap_or_else(|| "unknown".to_string()),
            Some((verb, argument)) => {
                self.values.insert(verb.to_string(), argument.to_string());
                String::new()
            }
        }
    }

    fn writes(&self) -> Vec<String> {
        self.log.iter().filter(|l| l.trim_end().contains(' ')).cloned().collect()
    }
}

fn wired() -> Vec<(&'static str, &'static str)> {
    vec![
        ("keymap.custom", "41 30 31"),
        ("keymap.default", "1 2"),
        ("keymap.onlyCustom", "1"),
        ("settings.defaultLayer", "2"),
        ("superkeys.map", "65535 0"),
        ("superkeys.waitfor", "500"),
        ("superkeys.timeout", "250"),
        ("superkeys.repeat", "20"),
        ("superkeys.holdstart", "200"),
        ("superkeys.overlap", "20"),
        ("led.mode", "1"),
        ("led.brightness", "255"),
        ("led.brightnessUG", "128"),
        ("led.fade", "15"),
        ("led.theme", "1 2 3 4 5 6"),
        ("palette", "255 0 0 0 0 255 0 0"),
        ("colormap.map", "0 1 1 0"),
        ("idleleds.time_limit", "600"),
        ("qukeys.holdTimeout", "250"),
        ("qukeys.overlapThreshold", "80"),
        ("macros.map", "1 2 3 0 0"),
        ("mouse.speed", "1"),
        ("mouse.speedDelay", "2"),
        ("mouse.accelSpeed", "3"),
        ("mouse.accelDelay", "4"),
        ("mouse.wheelSpeed", "5"),
        ("mouse.wheelDelay", "6"),
        ("mouse.speedLimit", "127"),
    ]
}

fn backup(device: &mut Simulated) -> Result<Settings, ProtocolError> {
    let mut focus = Focus::new();
    let mut settings = Settings::new();
    let mut reply: Option<String> = None;
    loop {
        match focus.settings_get(reply.as_deref(), &mut settings) {
            Step::Send(c) => {
                assert!(c.wait_for_response);
                reply = Some(device.exchange(&c.text));
            }
            Step::Done(Ok(())) => return Ok(settings),
            Step::Done(Err(e)) => return Err(e),
        }
    }
}

fn restore(device: &mut Simulated, settings: &Settings) -> Result<(), ProtocolError> {
    let mut focus = Focus::new();
    let mut reply: Option<String> = None;
    loop {
        match focus.settings_set(reply.as_deref(), settings) {
            Step::Send(c) => {
                assert!(c.wait_for_response);
                reply = Some(device.exchange(&c.text));
            }
            Step::Done(r) => return r,
        }
    }
}

#[test]
fn new_settings_are_empty() {
    let s = Settings::new();
    assert!(s.keymap_custom.is_empty());
    assert_eq!(s.settings_default_layer, 0);
    assert_eq!(s.led_mode, LedMode::PerLayer);
    assert_eq!(s.superkeys_wait_for, Duration { secs: 0, nanos: 0 });
    assert_eq!(s.palette_rgb, None);
    assert_eq!(s.wireless_rf_channel_hop, None);
    assert_eq!(SETTINGS_COUNT, 37);
}

#[test]
fn backup_reads_every_setting() {
    let mut device = Simulated::new(&wired());
    let s = backup(&mut device).unwrap();
    assert_eq!(device.log.len(), 37);
    assert_eq!(device.log[0], "keymap.custom\n");
    assert_eq!(device.log[36], "wireless.rf.channelHop\n");
    assert!(device.writes().is_empty());
    assert_eq!(s.keymap_custom, vec![41, 30, 31]);
    assert_eq!(s.keymap_default, vec![1, 2]);
    assert!(s.keymap_only_custom);
    assert_eq!(s.settings_default_layer, 2);
    assert_eq!(s.superkeys_map, vec![65535, 0]);
    assert_eq!(s.superkeys_wait_for, Duration::from_millis(500));
    assert_eq!(s.superkeys_timeout, Duration::from_millis(250));
    assert_eq!(s.superkeys_repeat, Duration::from_millis(20));
    assert_eq!(s.superkeys_hold_start, Duration::from_millis(200));
    assert_eq!(s.superkeys_overlap, 20);
    assert_eq!(s.led_mode, LedMode::RainbowMulti);
    assert_eq!(s.led_brightness_top, 255);
    assert_eq!(s.led_brightness_underglow, Some(128));
    assert_eq!(s.led_brightness_wireless_top, None);
    assert_eq!(s.led_brightness_wireless_underglow, None);
    assert_eq!(s.led_fade, Some(15));
    assert_eq!(s.led_theme, vec![RGB { r: 1, g: 2, b: 3 }, RGB { r: 4, g: 5, b: 6 }]);
    // eight components are colours of four, not of three
    assert_eq!(s.palette_rgb, None);
    assert_eq!(
        s.palette_rgbw,
        Some(vec![RGBW { r: 255, g: 0, b: 0, w: 0 }, RGBW { r: 0, g: 255, b: 0, w: 0 }])
    );
    assert_eq!(s.color_map, vec![0, 1, 1, 0]);
    assert_eq!(s.led_idle_true_sleep, None);
    assert_eq!(s.led_idle_true_sleep_time, None);
    assert_eq!(s.led_idle_time_limit, Duration::from_secs(600));
    assert_eq!(s.led_idle_wireless, None);
    assert_eq!(s.qukeys_hold_timeout, Duration::from_millis(250));
    assert_eq!(s.qukeys_overlap_threshold, Duration::from_millis(80));
    assert_eq!(s.macros_map, vec![1, 2, 3, 0, 0]);
    assert_eq!(s.mouse_speed, 1);
    assert_eq!(s.mouse_delay, Duration::from_millis(2));
    assert_eq!(s.mouse_acceleration_speed, 3);
    assert_eq!(s.mouse_acceleration_delay, Duration::from_millis(4));
    assert_eq!(s.mouse_wheel_speed, 5);
    assert_eq!(s.mouse_wheel_delay, Duration::from_millis(6));
    assert_eq!(s.mouse_speed_limit, 127);
    assert_eq!(s.wireless_battery_saving_mode, None);
    assert_eq!(s.wireless_rf_power_level, None);
    assert_eq!(s.wireless_rf_channel_hop, None);
}

#[test]
fn backup_reads_the_wireless_settings_where_the_device_has_them() {
    let mut values = wired();
    values.push(("led.brightness.wireless", "100"));
    values.push(("led.brightnessUG.wireless", "50"));
    values.push(("idleleds.true_sleep", "0"));
    values.push(("idleleds.true_sleep_time", "60"));
    values.push(("idleleds.wireless", "true"));
    values.push(("wireless.battery.savingMode", "1"));
    values.push(("wireless.rf.power", "2"));
    values.push(("wireless.rf.channelHop", "false"));
    let mut device = Simulated::new(&values);
    let s = backup(&mut device).unwrap();
    assert_eq!(s.led_brightness_wireless_top, Some(100));
    assert_eq!(s.led_brightness_wireless_underglow, Some(50));
    assert_eq!(s.led_idle_true_sleep, Some(false));
    assert_eq!(s.led_idle_true_sleep_time, Some(Duration::from_secs(60)));
    assert_eq!(s.led_idle_wireless, Some(true));
    assert_eq!(s.wireless_battery_saving_mode, Some(true));
    assert_eq!(s.wireless_rf_power_level, Some(WirelessPowerMode::High));
    assert_eq!(s.wireless_rf_channel_hop, Some(false));
}

#[test]
fn backup_fails_where_a_setting_of_every_device_cannot_be_read() {
    let mut values = wired();
    values.retain(|(k, _)| *k != "superkeys.overlap");
    let mut device = Simulated::new(&values);
    assert_eq!(backup(&mut device), Err(ProtocolError::BadResponse));
    // nothing is asked after the failure
    assert_eq!(device.log.last().unwrap(), "superkeys.overlap\n");
    assert_eq!(device.log.len(), 10);
}

#[test]
fn restore_of_what_the_device_holds_writes_nothing() {
    let mut device = Simulated::new(&wired());
    let s = backup(&mut device).unwrap();
    device.log.clear();
    assert_eq!(restore(&mut device, &s), Ok(()));
    assert!(device.writes().is_empty());
    // the settings that the record does not hold are not even asked for
    assert_eq!(device.log.len(), 37 - 9);
    assert!(!device.log.contains(&"wireless.rf.power\n".to_string()));
}

#[test]
fn restore_writes_what_differs() {
    let mut device = Simulated::new(&wired());
    let mut s = backup(&mut device).unwrap();
    device.log.clear();
    s.keymap_custom = vec![1, 2, 3, 4];
    s.led_mode = LedMode::Off;
    s.mouse_wheel_delay = Duration::from_millis(60);
    s.led_fade = Some(16);
    assert_eq!(restore(&mut device, &s), Ok(()));
    assert_eq!(
        device.writes(),
        vec![
            "keymap.custom 1 2 3 4\n",
            "led.mode 8\n",
            "led.fade 16\n",
            "mouse.wheelDelay 60\n",
        ]
    );
    assert_eq!(device.values["keymap.custom"], "1 2 3 4");
    assert_eq!(backup(&mut device).unwrap().led_mode, LedMode::Off);
}

#[test]
fn restore_ends_at_the_first_failure() {
    let mut device = Simulated::new(&wired());
    let mut s = backup(&mut device).unwrap();
    device.log.clear();
    s.keymap_default = vec![9];
    s.settings_default_layer = 10;
    s.superkeys_map = vec![7];
    assert_eq!(
        restore(&mut device, &s),
        Err(ProtocolError::OutOfRange { field: "settings.defaultLayer", value: 10, max: 9 })
    );
    // what stands before the failure was written, what stands after it was not
    assert_eq!(device.writes(), vec!["keymap.default 9\n"]);
    assert_eq!(device.log.last().unwrap(), "keymap.onlyCustom\n");
}

#[test]
fn restore_of_an_optional_setting_that_the_device_lacks_fails() {
    let mut device = Simulated::new(&wired());
    let mut s = backup(&mut device).unwrap();
    s.wireless_rf_channel_hop = Some(true);
    assert_eq!(restore(&mut device, &s), Err(ProtocolError::BadResponse));
}

#[test]
fn backup_step_by_step() {
    let mut focus = Focus::new();
    let mut s = Settings::new();
    match focus.settings_get(None, &mut s) {
        Step::Send(c) => assert_eq!(c.text, "keymap.custom\n"),
        other => panic!("{:?}", other),
    }
    assert_eq!(focus.cursor, 0);
    match focus.settings_get(Some("5 6"), &mut s) {
        Step::Send(c) => assert_eq!(c.text, "keymap.default\n"),
        other => panic!("{:?}", other),
    }
    assert_eq!(focus.cursor, 1);
    assert_eq!(s.keymap_custom, vec![5, 6]);
    assert_eq!(focus.settings_get(Some("x"), &mut s), Step::Done(Err(ProtocolError::BadResponse)));
    assert_eq!(focus.cursor, 1);
    // a new start begins with the first setting again
    match focus.settings_get(None, &mut s) {
        Step::Send(c) => assert_eq!(c.text, "keymap.custom\n"),
        other => panic!("{:?}", other),
    }
    assert_eq!(focus.cursor, 0);
}

#[test]
fn restore_of_a_backup_with_a_value_above_its_range_is_refused() {
    let mut values = wired();
    values.retain(|(k, _)| *k != "settings.defaultLayer");
    values.push(("settings.defaultLayer", "200"));
    let mut device = Simulated::new(&values);
    let s = backup(&mut device).unwrap();
    assert_eq!(s.settings_default_layer, 200);
    device.log.clear();
    assert_eq!(
        restore(&mut device, &s),
        Err(ProtocolError::OutOfRange { field: "settings.defaultLayer", value: 200, max: 9 })
    );
    assert!(device.writes().is_empty());
}
