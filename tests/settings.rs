use nestri_server::args::{
    flag_value, parse_i32, parse_resolution, parse_u32, to_decimal, AppArgs, Args, DeviceArgs,
};

const SAMPLES: &[&str] = &[
    "", "+", "-", "0", "7", "+7", "-7", "007", "60", "12a", " 1", "1 ", "4294967295", "4294967296",
    "2147483647", "2147483648", "-2147483648", "-2147483649", "99999999999999999999", "+-1",
    "--1", "-0", "x", "1920",
];

#[test]
fn u32_parse_matches_std() {
    for s in SAMPLES {
        assert_eq!(parse_u32(s), s.parse::<u32>().ok(), "input {:?}", s);
    }
    assert_eq!(parse_u32("4294967295"), Some(u32::MAX));
    assert_eq!(parse_u32("4294967296"), None);
}

#[test]
fn i32_parse_matches_std() {
    for s in SAMPLES {
        assert_eq!(parse_i32(s), s.parse::<i32>().ok(), "input {:?}", s);
    }
    assert_eq!(parse_i32("-1"), Some(-1));
    assert_eq!(parse_i32("-2147483648"), Some(i32::MIN));
}

#[test]
fn decimal_matches_std() {
    for n in [0u32, 9, 10, 42, 1000, 1234567890, u32::MAX] {
        assert_eq!(to_decimal(n), n.to_string());
    }
}

#[test]
fn resolutions() {
    assert_eq!(parse_resolution("1920x1080"), (1920, 1080));
    assert_eq!(parse_resolution("1920"), (1280, 720));
    assert_eq!(parse_resolution("abcx1080"), (1280, 1080));
    assert_eq!(parse_resolution("1920x"), (1920, 720));
    assert_eq!(parse_resolution("1x2x3"), (1, 2));
    assert_eq!(parse_resolution("x"), (1280, 720));
    assert_eq!(parse_resolution(""), (1280, 720));
}

#[test]
fn flags() {
    assert!(flag_value("true"));
    assert!(flag_value("1"));
    assert!(!flag_value("TRUE"));
    assert!(!flag_value("false"));
    assert!(!flag_value("yes"));
    assert!(!flag_value(""));
}

#[test]
fn app_settings() {
    let a = AppArgs::from_values(
        "1", "false", "true", "2560x1440", "144", "https://relay".to_string(),
        Some("room-a".to_string()), 7, "0",
    );
    assert!(a.verbose && !a.debug_feed && a.debug_latency && !a.dma_buf);
    assert_eq!(a.resolution, (2560, 1440));
    assert_eq!(a.framerate, 144);
    assert_eq!(a.relay_url, "https://relay");
    assert_eq!(a.room, "room-a");

    let b = AppArgs::from_values(
        "false", "false", "false", "bad", "fast", String::new(), None, 3141592653, "true",
    );
    assert_eq!(b.resolution, (1280, 720));
    assert_eq!(b.framerate, 60);
    assert_eq!(b.room, "3141592653");
    assert!(b.dma_buf);
}

#[test]
fn device_settings() {
    let d = DeviceArgs::from_values("nvidia".to_string(), String::new(), "-1", String::new());
    assert_eq!(d.gpu_index, -1);
    assert_eq!(d.gpu_vendor, "nvidia");
    let d = DeviceArgs::from_values(String::new(), "rtx".to_string(), "abc", "/dev/dri/card0".to_string());
    assert_eq!(d.gpu_index, 0);
    assert_eq!(d.gpu_card_path, "/dev/dri/card0");
    let args = Args {
        app: AppArgs::from_values("0", "0", "0", "", "", String::new(), None, 0, "0"),
        device: d,
    };
    assert_eq!(args.app.room, "0");
    assert_eq!(args.device.gpu_name, "rtx");
}
