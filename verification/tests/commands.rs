use dygma_focus::color::{RGB, RGBW};
use dygma_focus::enums::{Duration, LedMode, Side, TimeUnit, WirelessPowerMode};
use dygma_focus::error::ProtocolError;
use dygma_focus::focus::{
    read_duration, read_flag, read_layer_flags, read_led_color, read_lines, read_number, Command,
    Focus, Step, MAX_LAYERS,
};

fn ask(text: &str) -> Command {
    Command { text: text.to_string(), wait_for_response: true }
}

#[test]
fn command_lines() {
    assert_eq!(
        Focus::command_raw("led.mode 3", None, false),
        Command { text: "led.mode 3".to_string(), wait_for_response: false }
    );
    assert_eq!(Focus::command_raw("led.mode 3", Some('\n'), true), ask("led.mode 3\n"));
    assert_eq!(Focus::command_new_line("version", true), ask("version\n"));
    assert_eq!(
        Focus::command_new_line("version", false),
        Command { text: "version\n".to_string(), wait_for_response: false }
    );
    assert_eq!(
        Focus::command_whitespace("upgrade.keyscanner.sendWrite"),
        Command { text: "upgrade.keyscanner.sendWrite ".to_string(), wait_for_response: false }
    );
    assert_eq!(
        Focus::new().upgrade_keyscanner_send_write(),
        Command { text: "upgrade.keyscanner.sendWrite ".to_string(), wait_for_response: false }
    );
}

#[test]
fn command_lines_with_arguments() {
    assert_eq!(Focus::send_command("led.mode", "3", true), ask("led.mode 3\n"));
    assert_eq!(Focus::send_command("keymap.custom", "41 30 31", true), ask("keymap.custom 41 30 31\n"));
    // arguments are left out where there are none
    assert_eq!(Focus::send_command("version", "", true), ask("version\n"));
    assert_eq!(
        Focus::send_command("layer.deactivate", "", false),
        Command { text: "layer.deactivate\n".to_string(), wait_for_response: false }
    );
    let mut focus = Focus::new();
    let nothing: Vec<u16> = Vec::new();
    assert_eq!(focus.keymap_custom_set(Some("1 2"), &nothing), Step::Send(ask("keymap.custom\n")));
    focus.awaiting_ack = false;
    assert_eq!(focus.keymap_custom_set(Some(""), &nothing), Step::Done(Ok(())));
    assert_eq!(focus.settings_version_set(Some("1"), ""), Step::Send(ask("settings.version\n")));
}

#[test]
fn flags_are_read() {
    assert_eq!(read_flag("0"), Ok(false));
    assert_eq!(read_flag("false"), Ok(false));
    assert_eq!(read_flag("1"), Ok(true));
    assert_eq!(read_flag("true"), Ok(true));
    assert_eq!(read_flag(""), Err(ProtocolError::BadResponse));
    assert_eq!(read_flag("2"), Err(ProtocolError::BadResponse));
    assert_eq!(read_flag("True"), Err(ProtocolError::BadResponse));
    assert_eq!(read_flag("1 "), Err(ProtocolError::BadResponse));
}

#[test]
fn numbers_are_read() {
    assert_eq!(read_number::<u8>("0"), Ok(0));
    assert_eq!(read_number::<u8>("255"), Ok(255));
    assert_eq!(read_number::<u8>("+12"), Ok(12));
    assert_eq!(read_number::<u8>("256"), Err(ProtocolError::BadResponse));
    assert_eq!(read_number::<u8>(""), Err(ProtocolError::BadResponse));
    assert_eq!(read_number::<u8>("1 2"), Err(ProtocolError::BadResponse));
    assert_eq!(read_number::<u8>(" 1"), Err(ProtocolError::BadResponse));
    assert_eq!(read_number::<u16>("65535"), Ok(65535));
    assert_eq!(read_number::<u16>("-1"), Err(ProtocolError::BadResponse));
}

#[test]
fn durations_are_read() {
    assert_eq!(
        read_duration("1500", TimeUnit::Milliseconds),
        Ok(Duration { secs: 1, nanos: 500_000_000 })
    );
    assert_eq!(read_duration("250", TimeUnit::Milliseconds), Ok(Duration::from_millis(250)));
    assert_eq!(read_duration("600", TimeUnit::Seconds), Ok(Duration { secs: 600, nanos: 0 }));
    assert_eq!(
        read_duration("18446744073709551615", TimeUnit::Seconds),
        Ok(Duration { secs: u64::MAX, nanos: 0 })
    );
    assert_eq!(
        read_duration("18446744073709551616", TimeUnit::Seconds),
        Err(ProtocolError::BadResponse)
    );
    assert_eq!(read_duration("soon", TimeUnit::Seconds), Err(ProtocolError::BadResponse));
}

#[test]
fn lines_are_read_without_carriage_returns() {
    assert_eq!(read_lines("help\r\nversion\r\nled.mode"), vec!["help", "version", "led.mode"]);
    assert_eq!(read_lines("a\rb\r\n\rc\r"), vec!["ab", "c"]);
    assert_eq!(read_lines(""), Vec::<String>::new());
    assert_eq!(read_lines("one\n\ntwo\n"), vec!["one", "", "two"]);
}

#[test]
fn layer_flags_are_read() {
    assert_eq!(read_layer_flags("1 0 0 1"), vec![true, false, false, true]);
    assert_eq!(read_layer_flags("1 01 11 x 1"), vec![true, false, false, false, true]);
    assert_eq!(read_layer_flags(""), Vec::<bool>::new());
}

#[test]
fn led_colours_are_read() {
    assert_eq!(read_led_color("1 2 3"), Ok(RGB { r: 1, g: 2, b: 3 }));
    assert_eq!(read_led_color(""), Err(ProtocolError::BadResponse));
    assert_eq!(read_led_color(" "), Err(ProtocolError::MalformedVector));
    assert_eq!(read_led_color("1 2"), Err(ProtocolError::MalformedVector));
    assert_eq!(read_led_color("1 2 3 4"), Err(ProtocolError::MalformedVector));
    assert_eq!(read_led_color("1 2 300"), Err(ProtocolError::BadResponse));
}

#[test]
fn getters_ask_and_read() {
    let focus = Focus::new();
    assert_eq!(focus.version(None), Step::Send(ask("version\n")));
    assert_eq!(focus.version(Some("v1.2.3")), Step::Done(Ok("v1.2.3".to_string())));
    assert_eq!(focus.keymap_custom_get(None), Step::Send(ask("keymap.custom\n")));
    assert_eq!(
        focus.keymap_custom_get(Some("41 30 65535")),
        Step::Done(Ok(vec![41, 30, 65535]))
    );
    assert_eq!(
        focus.keymap_custom_get(Some("41 30 65536")),
        Step::Done(Err(ProtocolError::BadResponse))
    );
    assert_eq!(focus.keymap_only_custom_get(None), Step::Send(ask("keymap.onlyCustom\n")));
    assert_eq!(focus.keymap_only_custom_get(Some("1")), Step::Done(Ok(true)));
    assert_eq!(focus.settings_default_layer_get(None), Step::Send(ask("settings.defaultLayer\n")));
    assert_eq!(focus.settings_default_layer_get(Some("3")), Step::Done(Ok(3)));
    assert_eq!(focus.settings_valid(None), Step::Send(ask("settings.valid?\n")));
    assert_eq!(focus.settings_valid(Some("true")), Step::Done(Ok(true)));
    assert_eq!(focus.settings_valid(Some("false")), Step::Done(Ok(false)));
    assert_eq!(focus.settings_valid(Some("1")), Step::Done(Ok(true)));
    assert_eq!(focus.settings_valid(Some("0")), Step::Done(Ok(false)));
    assert_eq!(focus.settings_valid(Some("")), Step::Done(Err(ProtocolError::BadResponse)));
    assert_eq!(focus.settings_valid(Some("yes")), Step::Done(Err(ProtocolError::BadResponse)));
    assert_eq!(focus.superkeys_wait_for_get(None), Step::Send(ask("superkeys.waitfor\n")));
    assert_eq!(
        focus.superkeys_wait_for_get(Some("500")),
        Step::Done(Ok(Duration::from_millis(500)))
    );
    assert_eq!(focus.led_idle_time_limit_get(None), Step::Send(ask("idleleds.time_limit\n")));
    assert_eq!(
        focus.led_idle_time_limit_get(Some("600")),
        Step::Done(Ok(Duration::from_secs(600)))
    );
    assert_eq!(focus.led_mode_get(None), Step::Send(ask("led.mode\n")));
    assert_eq!(focus.led_mode_get(Some("3")), Step::Done(Ok(LedMode::Stalker)));
    assert_eq!(focus.led_mode_get(Some("11")), Step::Done(Err(ProtocolError::BadResponse)));
    assert_eq!(focus.led_mode_get(Some("red")), Step::Done(Err(ProtocolError::BadResponse)));
    assert_eq!(focus.wireless_rf_power_level_get(None), Step::Send(ask("wireless.rf.power\n")));
    assert_eq!(
        focus.wireless_rf_power_level_get(Some("2")),
        Step::Done(Ok(WirelessPowerMode::High))
    );
    assert_eq!(focus.led_theme_get(None), Step::Send(ask("led.theme\n")));
    assert_eq!(
        focus.led_theme_get(Some("1 2 3 4 5 6")),
        Step::Done(Ok(vec![RGB { r: 1, g: 2, b: 3 }, RGB { r: 4, g: 5, b: 6 }]))
    );
    assert_eq!(focus.palette_rgb_get(None), Step::Send(ask("palette\n")));
    assert_eq!(focus.palette_rgbw_get(None), Step::Send(ask("palette\n")));
    assert_eq!(
        focus.palette_rgbw_get(Some("1 2 3 4")),
        Step::Done(Ok(vec![RGBW { r: 1, g: 2, b: 3, w: 4 }]))
    );
    assert_eq!(
        focus.palette_rgb_get(Some("1 2 3 4")),
        Step::Done(Err(ProtocolError::MalformedVector))
    );
    assert_eq!(focus.help_get(None), Step::Send(ask("help\n")));
    assert_eq!(
        focus.help_get(Some("help\r\nversion")),
        Step::Done(Ok(vec!["help".to_string(), "version".to_string()]))
    );
    assert_eq!(focus.layer_state(None), Step::Send(ask("layer.state\n")));
    assert_eq!(focus.layer_state(Some("0 1")), Step::Done(Ok(vec![false, true])));
    assert_eq!(focus.macros_memory(None), Step::Send(ask("macros.memory\n")));
    assert_eq!(focus.macros_memory(Some("2048")), Step::Done(Ok(2048)));
    assert_eq!(focus.wireless_rf_sync_pairing(None), Step::Send(ask("wireless.rf.syncPairing\n")));
    assert_eq!(focus.eeprom_free(Some("123 bytes")), Step::Done(Ok("123 bytes".to_string())));
}

#[test]
fn getters_with_an_argument() {
    let focus = Focus::new();
    assert_eq!(
        focus.upgrade_keyscanner_is_connected(None, Side::Right),
        Step::Send(ask("upgrade.keyscanner.isConnected 0\n"))
    );
    assert_eq!(
        focus.upgrade_keyscanner_is_bootloader(None, Side::Left),
        Step::Send(ask("upgrade.keyscanner.isBootloader 1\n"))
    );
    assert_eq!(
        focus.upgrade_keyscanner_begin(None, Side::Left),
        Step::Send(ask("upgrade.keyscanner.begin 1\n"))
    );
    assert_eq!(focus.upgrade_keyscanner_begin(Some("true"), Side::Left), Step::Done(Ok(true)));
    assert_eq!(focus.led_at_get(None, 17), Step::Send(ask("led.at 17\n")));
    assert_eq!(focus.led_at_get(Some("9 8 7"), 17), Step::Done(Ok(RGB { r: 9, g: 8, b: 7 })));
    assert_eq!(focus.layer_is_active(None, 4), Step::Send(ask("layer.isActive 4\n")));
    assert_eq!(focus.layer_is_active(Some("0"), 4), Step::Done(Ok(false)));
    assert_eq!(
        focus.layer_is_active(None, MAX_LAYERS + 1),
        Step::Done(Err(ProtocolError::OutOfRange { field: "layer.isActive", value: 10, max: 9 }))
    );
}

#[test]
fn commands_are_confirmed() {
    let focus = Focus::new();
    assert_eq!(focus.upgrade_neuron(None), Step::Send(ask("upgrade.neuron\n")));
    assert_eq!(focus.upgrade_neuron(Some("")), Step::Done(Ok(())));
    assert_eq!(
        focus.led_all(None, &RGB { r: 255, g: 0, b: 7 }),
        Step::Send(ask("led.setAll 255 0 7\n"))
    );
    assert_eq!(focus.led_all(Some(""), &RGB { r: 255, g: 0, b: 7 }), Step::Done(Ok(())));
    assert_eq!(focus.macros_trigger(None, 12), Step::Send(ask("macros.trigger 12\n")));
    assert_eq!(focus.layer_activate(None, 2), Step::Send(ask("layer.activate 2\n")));
    assert_eq!(focus.layer_move_to(None, 200), Step::Send(ask("layer.moveTo 200\n")));
    assert_eq!(focus.layer_move_to(Some("anything"), 200), Step::Done(Ok(())));
}

#[test]
fn layer_deactivate_sends_two_commands_for_a_layer() {
    let mut focus = Focus::new();
    assert_eq!(focus.layer_deactivate(None, Some(3)), Step::Send(ask("layer.deactivate 3\n")));
    assert_eq!(focus.layer_deactivate(Some(""), Some(3)), Step::Send(ask("layer.deactivate\n")));
    assert_eq!(focus.layer_deactivate(Some(""), Some(3)), Step::Done(Ok(())));
    assert_eq!(focus.layer_deactivate(None, None), Step::Send(ask("layer.deactivate\n")));
    assert_eq!(focus.layer_deactivate(Some(""), None), Step::Done(Ok(())));
    assert_eq!(
        focus.layer_deactivate(None, Some(10)),
        Step::Done(Err(ProtocolError::OutOfRange { field: "layer.deactivate", value: 10, max: 9 }))
    );
}

#[test]
fn guarded_setter_writes_a_new_value() {
    let mut focus = Focus::new();
    let data: Vec<u16> = vec![41, 30, 31];
    assert_eq!(focus.keymap_custom_set(None, &data), Step::Send(ask("keymap.custom\n")));
    assert!(!focus.awaiting_ack);
    assert_eq!(
        focus.keymap_custom_set(Some("41 30 32"), &data),
        Step::Send(ask("keymap.custom 41 30 31\n"))
    );
    assert!(focus.awaiting_ack);
    assert_eq!(focus.keymap_custom_set(Some(""), &data), Step::Done(Ok(())));
    assert!(!focus.awaiting_ack);
}

#[test]
fn guarded_setter_with_the_value_on_the_device_writes_nothing() {
    let mut focus = Focus::new();
    let data: Vec<u16> = vec![41, 30, 31];
    assert_eq!(focus.keymap_custom_set(None, &data), Step::Send(ask("keymap.custom\n")));
    assert_eq!(focus.keymap_custom_set(Some("41 30 31"), &data), Step::Done(Ok(())));
    assert!(!focus.awaiting_ack);
    // the value is compared, not its text
    assert_eq!(focus.keymap_custom_set(None, &data), Step::Send(ask("keymap.custom\n")));
    assert_eq!(focus.keymap_custom_set(Some(" 041\t+30  31 "), &data), Step::Done(Ok(())));
    assert_eq!(focus.keymap_only_custom_set(None, true), Step::Send(ask("keymap.onlyCustom\n")));
    assert_eq!(focus.keymap_only_custom_set(Some("true"), true), Step::Done(Ok(())));
    assert_eq!(focus.led_mode_set(None, LedMode::Off), Step::Send(ask("led.mode\n")));
    assert_eq!(focus.led_mode_set(Some("8"), LedMode::Off), Step::Done(Ok(())));
    assert_eq!(focus.settings_version_set(None, "7"), Step::Send(ask("settings.version\n")));
    assert_eq!(focus.settings_version_set(Some("7"), "7"), Step::Done(Ok(())));
}

#[test]
fn guarded_setter_fails_on_a_response_that_cannot_be_read() {
    let mut focus = Focus::new();
    let data: Vec<u16> = vec![1];
    assert_eq!(focus.keymap_custom_set(None, &data), Step::Send(ask("keymap.custom\n")));
    assert_eq!(
        focus.keymap_custom_set(Some("what?"), &data),
        Step::Done(Err(ProtocolError::BadResponse))
    );
    assert!(!focus.awaiting_ack);
    assert_eq!(
        focus.led_theme_set(Some("1 2"), &[RGB { r: 1, g: 2, b: 3 }]),
        Step::Done(Err(ProtocolError::MalformedVector))
    );
}

#[test]
fn setters_of_each_kind_write_their_value() {
    let mut focus = Focus::new();
    assert_eq!(
        focus.keymap_only_custom_set(Some("0"), true),
        Step::Send(ask("keymap.onlyCustom 1\n"))
    );
    focus.awaiting_ack = false;
    assert_eq!(
        focus.keymap_only_custom_set(Some("1"), false),
        Step::Send(ask("keymap.onlyCustom 0\n"))
    );
    focus.awaiting_ack = false;
    assert_eq!(
        focus.settings_default_layer_set(Some("0"), 9),
        Step::Send(ask("settings.defaultLayer 9\n"))
    );
    focus.awaiting_ack = false;
    assert_eq!(
        focus.settings_version_set(Some("1"), "2 beta"),
        Step::Send(ask("settings.version 2 beta\n"))
    );
    focus.awaiting_ack = false;
    assert_eq!(
        focus.superkeys_wait_for_set(Some("100"), Duration::from_millis(250)),
        Step::Send(ask("superkeys.waitfor 250\n"))
    );
    focus.awaiting_ack = false;
    // a span with a part below the unit is never on the device, and is written in whole units
    assert_eq!(
        focus.superkeys_wait_for_set(Some("250"), Duration { secs: 0, nanos: 250_500_000 }),
        Step::Send(ask("superkeys.waitfor 250\n"))
    );
    focus.awaiting_ack = false;
    assert_eq!(
        focus.led_idle_time_limit_set(Some("0"), Duration::from_secs(600)),
        Step::Send(ask("idleleds.time_limit 600\n"))
    );
    focus.awaiting_ack = false;
    assert_eq!(
        focus.led_mode_set(Some("0"), LedMode::Bluetooth),
        Step::Send(ask("led.mode 10\n"))
    );
    focus.awaiting_ack = false;
    assert_eq!(
        focus.wireless_rf_power_level_set(Some("0"), WirelessPowerMode::Medium),
        Step::Send(ask("wireless.rf.power 1\n"))
    );
    focus.awaiting_ack = false;
    assert_eq!(focus.led_fade_set(Some("0"), 65535), Step::Send(ask("led.fade 65535\n")));
    focus.awaiting_ack = false;
    assert_eq!(
        focus.led_theme_set(Some(""), &[RGB { r: 1, g: 2, b: 3 }, RGB { r: 4, g: 5, b: 6 }]),
        Step::Send(ask("led.theme 1 2 3 4 5 6\n"))
    );
    focus.awaiting_ack = false;
    assert_eq!(
        focus.palette_rgbw_set(Some(""), &[RGBW { r: 1, g: 2, b: 3, w: 4 }]),
        Step::Send(ask("palette 1 2 3 4\n"))
    );
    focus.awaiting_ack = false;
    assert_eq!(
        focus.color_map_set(Some("1"), &[0, 1, 2]),
        Step::Send(ask("colormap.map 0 1 2\n"))
    );
    focus.awaiting_ack = false;
    assert_eq!(
        focus.led_at_set(Some("0 0 0"), 5, &RGB { r: 1, g: 2, b: 3 }),
        Step::Send(ask("led.at 5 1 2 3\n"))
    );
    focus.awaiting_ack = false;
    assert_eq!(focus.led_at_set(None, 5, &RGB { r: 1, g: 2, b: 3 }), Step::Send(ask("led.at 5\n")));
    assert_eq!(focus.led_at_set(Some("1 2 3"), 5, &RGB { r: 1, g: 2, b: 3 }), Step::Done(Ok(())));
}

#[test]
fn out_of_range_values_are_refused_before_anything_is_sent() {
    let mut focus = Focus::new();
    let refused = Step::Done(Err(ProtocolError::OutOfRange {
        field: "settings.defaultLayer",
        value: (MAX_LAYERS + 1) as u64,
        max: MAX_LAYERS as u64,
    }));
    assert_eq!(focus.settings_default_layer_set(None, MAX_LAYERS + 1), refused);
    assert_eq!(focus.settings_default_layer_set(Some("3"), MAX_LAYERS + 1), refused);
    assert_eq!(
        focus.settings_default_layer_set(None, MAX_LAYERS),
        Step::Send(ask("settings.defaultLayer\n"))
    );
    assert_eq!(
        focus.superkeys_overlap_set(None, 81),
        Step::Done(Err(ProtocolError::OutOfRange { field: "superkeys.overlap", value: 81, max: 80 }))
    );
    assert_eq!(focus.superkeys_overlap_set(None, 80), Step::Send(ask("superkeys.overlap\n")));
    assert_eq!(
        focus.mouse_speed_set(None, 128),
        Step::Done(Err(ProtocolError::OutOfRange { field: "mouse.speed", value: 128, max: 127 }))
    );
    assert_eq!(focus.mouse_speed_set(None, 127), Step::Send(ask("mouse.speed\n")));
    assert_eq!(
        focus.led_idle_time_limit_set(None, Duration::from_secs(65_001)),
        Step::Done(
            Err(ProtocolError::OutOfRange { field: "idleleds.time_limit", value: 65_001, max: 65_000 })
        )
    );
    assert_eq!(
        focus.led_idle_time_limit_set(None, Duration { secs: 65_000, nanos: 999_999_999 }),
        Step::Send(ask("idleleds.time_limit\n"))
    );
    assert_eq!(
        focus.led_idle_true_sleep_time_set(None, Duration::from_secs(70_000)),
        Step::Done(
            Err(ProtocolError::OutOfRange {
                field: "idleleds.true_sleep_time",
                value: 70_000,
                max: 65_000
            })
        )
    );
}

#[test]
fn error_messages() {
    assert_eq!(
        ProtocolError::BadResponse.message(),
        "the device sent a response that cannot be parsed"
    );
    assert_eq!(
        ProtocolError::MalformedVector.message(),
        "the number of colour components does not fit"
    );
    assert_eq!(
        ProtocolError::OutOfRange { field: "x", value: 2, max: 1 }.message(),
        "the value is above the maximum"
    );
}

#[test]
fn the_name_of_a_backup_file() {
    assert_eq!(
        dygma_focus::focus::backup_file_name("Dygma Defy Wired", "2019-07-12-19_40_56"),
        "Dygma Defy Wired-backup-2019-07-12-19_40_56.json"
    );
    assert_eq!(dygma_focus::focus::backup_file_name("", ""), "-backup-.json");
}
