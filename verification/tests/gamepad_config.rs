use evdev::{AbsoluteAxisCode, EventType, KeyCode};
use siri_remote::gamepad::config::{
    choose_source, config_failure, default_buttons, default_path, parse_target, resolve,
    ConfigError, ConfigSource, FileButtons, FileConfig, GamepadConfig, HatDir, Overrides,
    StickMode, Target, DEFAULT_DEADZONE, DEFAULT_STICK_RADIUS,
};
use siri_remote::gamepad::pad::{
    registered_line, PadGone, UinputUnavailable, ABS_HAT0X, ABS_HAT0Y, ABS_X, ABS_Y, BTN_EAST,
    BTN_NORTH, BTN_SOUTH, BTN_THUMBL, BTN_WEST, EV_ABS, EV_KEY, PAD_KEYS,
};

fn args() -> Overrides {
    Overrides { stick_mode: None, stick_radius: None, deadzone: None }
}

fn target_for(cfg: &GamepadConfig, bit: u16) -> Target {
    cfg.buttons
        .iter()
        .find(|(b, _)| *b == bit)
        .map(|(_, t)| *t)
        .expect("bit present in resolved config")
}

#[test]
fn file_values_override_defaults() {
    let file = FileConfig {
        stick_mode: Some(StickMode::Absolute),
        buttons: FileButtons { mute: Some("BTN_THUMBL".to_string()), ..Default::default() },
        ..Default::default()
    };
    let cfg = resolve(&args(), &file).unwrap();
    assert_eq!(cfg.stick_mode, StickMode::Absolute);
    assert_eq!(target_for(&cfg, 0x0080), Target::Key(BTN_THUMBL));
    // Everything else keeps its built-in target.
    for (bit, _, default) in default_buttons() {
        if bit == 0x0080 {
            continue;
        }
        assert_eq!(target_for(&cfg, bit), default, "bit {bit:#06x}");
    }
    assert_eq!(cfg.stick_radius, DEFAULT_STICK_RADIUS);
    assert_eq!(cfg.deadzone, DEFAULT_DEADZONE);
}

#[test]
fn cli_beats_file() {
    let file = FileConfig { stick_mode: Some(StickMode::Absolute), ..Default::default() };
    let mut a = args();
    a.stick_mode = Some(StickMode::Relative);
    assert_eq!(resolve(&a, &file).unwrap().stick_mode, StickMode::Relative);
}

#[test]
fn aliases_and_case_fold_to_same_target() {
    assert_eq!(parse_target("btn_a").unwrap(), Target::Key(BTN_SOUTH));
    assert_eq!(parse_target("BTN_SOUTH").unwrap(), Target::Key(BTN_SOUTH));
    assert_eq!(parse_target("none").unwrap(), Target::Unmapped);
    assert_eq!(parse_target("hat_left").unwrap(), Target::Hat(HatDir::Left));
}

#[test]
fn undeclared_button_name_is_rejected() {
    let err = parse_target("BTN_TRIGGER").unwrap_err();
    assert!(err.contains("BTN_TRIGGER"), "{err}");
    assert!(err.contains("BTN_SOUTH"), "{err}");
}

#[test]
fn out_of_range_shaping_is_rejected() {
    let file = FileConfig { stick_radius: Some(0.0f64.to_bits()), ..Default::default() };
    assert!(resolve(&args(), &file).is_err());
    let file = FileConfig { deadzone: Some(0.95f64.to_bits()), ..Default::default() };
    assert!(resolve(&args(), &file).is_err());
}

#[test]
fn shaping_bounds_agree_with_the_numbers() {
    let values = [
        0.0,
        -0.0,
        f64::MIN_POSITIVE,
        5e-324,
        0.35,
        0.8999999999999999,
        0.9,
        1.0,
        2.0,
        2.0000000000000004,
        -1.0,
        f64::INFINITY,
        f64::NEG_INFINITY,
        f64::NAN,
        -f64::NAN,
    ];
    for v in values {
        let mut a = args();
        a.stick_radius = Some(v.to_bits());
        assert_eq!(
            resolve(&a, &FileConfig::default()).is_ok(),
            v > 0.0 && v <= 2.0,
            "radius {v}"
        );
        let mut a = args();
        a.deadzone = Some(v.to_bits());
        assert_eq!(
            resolve(&a, &FileConfig::default()).is_ok(),
            (0.0..0.9).contains(&v),
            "dead zone {v}"
        );
    }
    assert_eq!(DEFAULT_STICK_RADIUS, 0.35f64.to_bits());
    assert_eq!(DEFAULT_DEADZONE, 0.05f64.to_bits());
}

#[test]
fn errors_name_what_is_wrong() {
    let mut a = args();
    a.stick_radius = Some(3.0f64.to_bits());
    a.deadzone = Some(1.0f64.to_bits());
    assert!(matches!(
        resolve(&a, &FileConfig::default()),
        Err(ConfigError::StickRadius(r)) if f64::from_bits(r) == 3.0
    ));
    a.stick_radius = None;
    assert!(matches!(
        resolve(&a, &FileConfig::default()),
        Err(ConfigError::Deadzone(d)) if f64::from_bits(d) == 1.0
    ));
    let file = FileConfig {
        buttons: FileButtons {
            left: Some("x".to_string()),
            back: Some(" y ".to_string()),
            ..Default::default()
        },
        ..Default::default()
    };
    match resolve(&args(), &file) {
        Err(ConfigError::Button { key, message }) => {
            assert_eq!(key, "back");
            assert!(message.starts_with("unknown gamepad target \" y \"; accepted: none,"));
        }
        _ => panic!("expected Button"),
    }
}

#[test]
fn every_name_is_a_target() {
    let keys = [
        ("BTN_SOUTH", PAD_KEYS[0]),
        ("BTN_EAST", PAD_KEYS[1]),
        ("BTN_NORTH", PAD_KEYS[2]),
        ("BTN_WEST", PAD_KEYS[3]),
        ("BTN_TL", PAD_KEYS[4]),
        ("BTN_TR", PAD_KEYS[5]),
        ("BTN_SELECT", PAD_KEYS[6]),
        ("BTN_START", PAD_KEYS[7]),
        ("BTN_MODE", PAD_KEYS[8]),
        ("BTN_THUMBL", PAD_KEYS[9]),
        ("BTN_THUMBR", PAD_KEYS[10]),
        ("BTN_B", BTN_EAST),
        ("BTN_X", BTN_NORTH),
        ("BTN_Y", BTN_WEST),
    ];
    for (name, code) in keys {
        assert_eq!(parse_target(name), Ok(Target::Key(code)));
        assert_eq!(parse_target(&format!("\t{} ", name.to_lowercase())), Ok(Target::Key(code)));
    }
    assert_eq!(parse_target("HAT_UP"), Ok(Target::Hat(HatDir::Up)));
    assert_eq!(parse_target("HAT_DOWN"), Ok(Target::Hat(HatDir::Down)));
    assert_eq!(parse_target("HAT_RIGHT"), Ok(Target::Hat(HatDir::Right)));
}

#[test]
fn file_entries_are_found_by_key() {
    let b = FileButtons {
        tv: Some("a".to_string()),
        volume_up: Some("b".to_string()),
        volume_down: Some("c".to_string()),
        select: Some("d".to_string()),
        power: Some("e".to_string()),
        siri: Some("f".to_string()),
        back: Some("g".to_string()),
        mute: Some("h".to_string()),
        play_pause: Some("i".to_string()),
        up: Some("j".to_string()),
        right: Some("k".to_string()),
        down: Some("l".to_string()),
        left: Some("m".to_string()),
    };
    let got: String = default_buttons().iter().map(|(_, key, _)| b.get(key).unwrap()).collect();
    assert_eq!(got, "abcdefghijklm");
    assert_eq!(b.get("TV"), None);
    assert_eq!(FileButtons::default().get("tv"), None);
}

#[test]
fn codes_are_the_kernel_s() {
    let keys = [
        KeyCode::BTN_SOUTH,
        KeyCode::BTN_EAST,
        KeyCode::BTN_NORTH,
        KeyCode::BTN_WEST,
        KeyCode::BTN_TL,
        KeyCode::BTN_TR,
        KeyCode::BTN_SELECT,
        KeyCode::BTN_START,
        KeyCode::BTN_MODE,
        KeyCode::BTN_THUMBL,
        KeyCode::BTN_THUMBR,
    ];
    assert_eq!(PAD_KEYS.to_vec(), keys.iter().map(|k| k.0).collect::<Vec<_>>());
    assert_eq!(ABS_X, AbsoluteAxisCode::ABS_X.0);
    assert_eq!(ABS_Y, AbsoluteAxisCode::ABS_Y.0);
    assert_eq!(ABS_HAT0X, AbsoluteAxisCode::ABS_HAT0X.0);
    assert_eq!(ABS_HAT0Y, AbsoluteAxisCode::ABS_HAT0Y.0);
    assert_eq!(EV_KEY, EventType::KEY.0);
    assert_eq!(EV_ABS, EventType::ABSOLUTE.0);
}

#[test]
fn mapping_file_is_located() {
    assert_eq!(
        default_path(Some(b"/xdg"), Some(b"/home/u")),
        Some(b"/xdg/siri-remote/gamepad.toml".to_vec())
    );
    assert_eq!(
        default_path(Some(b""), Some(b"/home/u/")),
        Some(b"/home/u/.config/siri-remote/gamepad.toml".to_vec())
    );
    assert_eq!(default_path(None, None), None);
    assert!(matches!(
        choose_source(Some(b"x".to_vec()), Some(b"d".to_vec()), true),
        ConfigSource::File(p) if p == b"x"
    ));
    assert!(matches!(
        choose_source(None, Some(b"d".to_vec()), true),
        ConfigSource::File(p) if p == b"d"
    ));
    assert!(matches!(
        choose_source(None, Some(b"d".to_vec()), false),
        ConfigSource::BuiltIn
    ));
    assert!(matches!(choose_source(None, None, false), ConfigSource::BuiltIn));
}

#[test]
fn pad_errors_and_greeting() {
    assert_eq!(
        registered_line(),
        "Registered virtual gamepad \"Microsoft X-Box 360 pad\" (045e:028e version 0110)."
    );
    assert_eq!(
        UinputUnavailable("denied".to_string()).message(),
        "cannot open /dev/uinput: denied"
    );
    let help = UinputUnavailable("denied".to_string()).help();
    assert!(help.starts_with("error: cannot open /dev/uinput for writing: denied\n\nThe virtual"));
    assert!(help.contains("\n    NixOS:  hardware.uinput.enable = true;   (creates"));
    assert!(help.contains("\n            users.users.<you>.extraGroups = [ \"uinput\" \"input\" ];\n"));
    assert!(help.ends_with("write access to /dev/uinput."));
    assert_eq!(UinputUnavailable("denied".to_string()).exit(), (1, help));
    assert_eq!(config_failure("reading x"), (2, "error: reading x".to_string()));
    assert_eq!(
        PadGone("EIO".to_string()).message(),
        "virtual gamepad write failed: EIO"
    );
}
