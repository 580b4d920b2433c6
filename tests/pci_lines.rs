use nestri_server::pci::{clean_device_name, dri_nodes, is_display_class, parse_pci_device};
use nestri_server::text::{has_prefix, same_text, trim_ws};

fn fields(a: &str, b: &str, c: &str, d: &str) -> Option<(String, String, String, String)> {
    Some((a.to_string(), b.to_string(), c.to_string(), d.to_string()))
}

#[test]
fn intel_line() {
    let line = r#"00:02.0 "VGA compatible controller [0300]" "Intel Corporation [8086]" "HD Graphics 530 [1912]" -r06 "Dell [1028]" "Device [06e4]""#;
    assert_eq!(parse_pci_device(line), fields("0300", "8086", "HD Graphics 530", "00:02.0"));
}

#[test]
fn nvidia_line_keeps_inner_brackets() {
    let line = r#"01:00.0 "VGA compatible controller [0300]" "NVIDIA Corporation [10de]" "GA106 [GeForce RTX 3060 Lite Hash Rate] [2504]" -ra1 -p00 "ASUSTeK [1043]" "Device [87f3]""#;
    assert_eq!(
        parse_pci_device(line),
        fields("0300", "10de", "GA106 [GeForce RTX 3060 Lite Hash Rate]", "01:00.0")
    );
}

#[test]
fn audio_line_is_not_display() {
    let line = r#"00:1f.3 "Audio device [0403]" "Intel Corporation [8086]" "Cannon Lake PCH cAVS [a348]""#;
    let (class, vendor, name, addr) = parse_pci_device(line).unwrap();
    assert_eq!((class.as_str(), vendor.as_str(), name.as_str(), addr.as_str()), ("0403", "8086", "Cannon Lake PCH cAVS", "00:1f.3"));
    assert!(!is_display_class(&class));
    assert!(is_display_class("0300"));
    assert!(is_display_class("0302"));
    assert!(is_display_class("0380"));
}

#[test]
fn malformed_lines() {
    assert_eq!(parse_pci_device(""), None);
    assert_eq!(parse_pci_device("garbage"), None);
    assert_eq!(parse_pci_device(r#"00:02.0 "VGA" "Intel [8086]" "X""#), None);
    assert_eq!(parse_pci_device(r#"00:02.0 "VGA [03A0]" "Intel [8086]" "X""#), None);
    assert_eq!(parse_pci_device(r#"00:02.0 "VGA [0300]" "Intel" "X""#), None);
    assert_eq!(parse_pci_device(r#"00:02.0 "VGA [0300]" "Intel [8086]" """#), None);
}

#[test]
fn device_name_cleaning() {
    assert_eq!(clean_device_name("Device [abcd]"), "Device");
    assert_eq!(clean_device_name("Device  \t[abcd]"), "Device");
    assert_eq!(clean_device_name("[abcd]"), "[abcd]");
    assert_eq!(clean_device_name("Device [ABCD]"), "Device [ABCD]");
    assert_eq!(clean_device_name("Plain name"), "Plain name");
}

#[test]
fn drm_entries() {
    let names = |v: &[&str]| v.iter().map(|s| s.to_string()).collect::<Vec<String>>();
    assert_eq!(
        dri_nodes(&names(&["card0", "renderD128"])),
        Some(("/dev/dri/card0".to_string(), "/dev/dri/renderD128".to_string()))
    );
    assert_eq!(dri_nodes(&names(&["renderD128"])), None);
    assert_eq!(dri_nodes(&names(&[])), None);
    assert_eq!(
        dri_nodes(&names(&["version", "card1"])),
        Some(("/dev/dri/card1".to_string(), String::new()))
    );
    assert_eq!(
        dri_nodes(&names(&["card0", "card1", "renderD128", "card2"])),
        Some(("/dev/dri/card1".to_string(), "/dev/dri/renderD128".to_string()))
    );
}

#[test]
fn trimming_and_prefixes() {
    assert_eq!(trim_ws("  a b \t\n"), "a b");
    assert_eq!(trim_ws("\u{3000}x\u{a0}"), "x");
    assert_eq!(trim_ws("   "), "");
    assert_eq!(trim_ws(""), "");
    assert!(has_prefix("renderD128", "renderD"));
    assert!(!has_prefix("card", "card0"));
    assert!(same_text("abc", "abc"));
    assert!(!same_text("abc", "abd"));
}
