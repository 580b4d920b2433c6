use nestri_server::gpu::{
    choose_audio_encoder, get_gpu_by_card_path, get_gpu_vendor, get_gpus_by_device_name,
    get_gpus_by_vendor, get_nvidia_gpu_by_bus_id, normalize_bus_id, select_gpus, strip_pci_domain,
    GPUInfo, GPUVendor, GpuSelectError,
};
use nestri_server::text::{contains_text, text_eq_ignore_ascii_case};

fn gpu(vendor: GPUVendor, n: u32, name: &str, bus: &str) -> GPUInfo {
    GPUInfo::new(
        vendor,
        format!("/dev/dri/card{}", n),
        format!("/dev/dri/renderD{}", 128 + n),
        name.to_string(),
        bus.to_string(),
    )
}

fn inventory() -> Vec<GPUInfo> {
    vec![
        gpu(GPUVendor::INTEL, 0, "HD Graphics 530", "00:02.0"),
        gpu(GPUVendor::NVIDIA, 1, "GeForce RTX 3060", "01:00.0"),
        gpu(GPUVendor::UNKNOWN, 2, "Virtual GPU", "02:00.0"),
        gpu(GPUVendor::NVIDIA, 3, "GeForce GTX 1080", "0a:00.0"),
    ]
}

#[test]
fn vendor_ids() {
    assert_eq!(get_gpu_vendor("8086"), GPUVendor::INTEL);
    assert_eq!(get_gpu_vendor("10de"), GPUVendor::NVIDIA);
    assert_eq!(get_gpu_vendor("1002"), GPUVendor::AMD);
    assert_eq!(get_gpu_vendor("1234"), GPUVendor::UNKNOWN);
    assert_eq!(get_gpu_vendor(""), GPUVendor::UNKNOWN);
}

#[test]
fn getters() {
    let g = gpu(GPUVendor::AMD, 1, "Radeon", "03:00.0");
    assert_eq!(g.vendor(), &GPUVendor::AMD);
    assert_eq!(g.vendor_string(), "AMD");
    assert_eq!(g.card_path(), "/dev/dri/card1");
    assert_eq!(g.render_path(), "/dev/dri/renderD129");
    assert_eq!(g.device_name(), "Radeon");
    assert_eq!(g.pci_bus_id(), "03:00.0");
    assert_eq!(gpu(GPUVendor::INTEL, 0, "", "").vendor_string(), "Intel");
    assert_eq!(gpu(GPUVendor::NVIDIA, 0, "", "").vendor_string(), "NVIDIA");
    assert_eq!(gpu(GPUVendor::UNKNOWN, 0, "", "").vendor_string(), "Unknown");
}

#[test]
fn by_vendor_ignores_case() {
    let all = inventory();
    let r = get_gpus_by_vendor(&all, "nvidia");
    assert_eq!(r, vec![all[1].clone(), all[3].clone()]);
    let r = get_gpus_by_vendor(&all, "InTeL");
    assert_eq!(r, vec![all[0].clone()]);
    assert!(get_gpus_by_vendor(&all, "amd").is_empty());
}

#[test]
fn by_device_name_substring() {
    let all = inventory();
    assert_eq!(get_gpus_by_device_name(&all, "rtx 3060"), vec![all[1].clone()]);
    assert_eq!(get_gpus_by_device_name(&all, "GEFORCE"), vec![all[1].clone(), all[3].clone()]);
    assert!(get_gpus_by_device_name(&all, "radeon").is_empty());
    assert_eq!(get_gpus_by_device_name(&all, "").len(), 4);
}

#[test]
fn text_helpers() {
    assert!(contains_text("geforce rtx 3060", "rtx"));
    assert!(contains_text("abc", ""));
    assert!(!contains_text("ab", "abc"));
    assert!(!contains_text("abc", "cb"));
    assert!(text_eq_ignore_ascii_case("/DEV/dri/Card0", "/dev/dri/card0"));
    assert!(!text_eq_ignore_ascii_case("/dev/dri/card0", "/dev/dri/card1"));
}

#[test]
fn by_card_or_render_path() {
    let all = inventory();
    assert_eq!(get_gpu_by_card_path(&all, "/DEV/DRI/CARD1"), Some(all[1].clone()));
    assert_eq!(get_gpu_by_card_path(&all, "/dev/dri/renderD131"), Some(all[3].clone()));
    assert_eq!(get_gpu_by_card_path(&all, "/dev/dri/card9"), None);
}

#[test]
fn select_from_empty_inventory() {
    assert_eq!(select_gpus(&[], "", "", "", 0), Err(GpuSelectError::NoGpus));
}

#[test]
fn select_by_card_path() {
    let all = inventory();
    assert_eq!(select_gpus(&all, "/dev/dri/card3", "intel", "", 0), Ok(vec![all[3].clone()]));
    assert_eq!(select_gpus(&all, "/dev/dri/card7", "", "", 0), Ok(all.clone()));
}

#[test]
fn select_by_index() {
    let all = inventory();
    assert_eq!(select_gpus(&all, "", "", "", 0), Ok(vec![all[0].clone()]));
    assert_eq!(select_gpus(&all, "", "nvidia", "", 1), Ok(vec![all[3].clone()]));
    assert_eq!(select_gpus(&all, "", "nvidia", "gtx", 0), Ok(vec![all[3].clone()]));
    assert_eq!(
        select_gpus(&all, "", "nvidia", "", 2),
        Err(GpuSelectError::IndexOutOfRange(2, 2))
    );
    assert_eq!(
        select_gpus(&all, "", "amd", "", 0),
        Err(GpuSelectError::IndexOutOfRange(0, 0))
    );
}

#[test]
fn select_all_known() {
    let all = inventory();
    assert_eq!(
        select_gpus(&all, "", "", "", -1),
        Ok(vec![all[0].clone(), all[1].clone(), all[3].clone()])
    );
    assert_eq!(select_gpus(&all, "", "", "virtual", -1), Err(GpuSelectError::NoMatch));
}

#[test]
fn pci_domain_is_stripped() {
    assert_eq!(strip_pci_domain("00000000:05:00.0"), "05:00.0");
    assert_eq!(strip_pci_domain("0000:05:00.0"), "05:00.0");
    assert_eq!(strip_pci_domain("05:00.0"), "05:00.0");
    assert_eq!(normalize_bus_id("  00000000:0a:00.0\n"), "0A:00.0");
    assert_eq!(normalize_bus_id("0000:01:00.0"), "01:00.0");
}

#[test]
fn nvidia_by_bus_id() {
    let all = inventory();
    assert_eq!(get_nvidia_gpu_by_bus_id(&all, "0A:00.0"), Some(all[3].clone()));
    assert_eq!(get_nvidia_gpu_by_bus_id(&all, "01:00.0"), Some(all[1].clone()));
    assert_eq!(get_nvidia_gpu_by_bus_id(&all, "00:02.0"), None);
}

#[test]
fn audio_encoder_default() {
    assert_eq!(choose_audio_encoder(""), "opusenc");
    assert_eq!(choose_audio_encoder("fdkaacenc"), "fdkaacenc");
}
