use system_monitor::npu::process_uses_npu;
use system_monitor::npu::{
    add_active_model, amd_npu_utilization_halves, fdinfo_uses_npu, intel_npu_utilization,
    is_amd_npu_device, is_intel_vendor, is_process_dir_name, modules_list_npu_driver, npu_name,
    process_name_from_cmdline, render_node_is_npu, NpuVendor,
};

#[test]
fn npu_names_and_devices() {
    assert_eq!(npu_name(NpuVendor::Amd), "AMD Ryzen AI (NPU)");
    assert_eq!(npu_name(NpuVendor::Intel), "Intel AI Boost (NPU)");
    assert!(is_amd_npu_device("0x1022\n", Some("0x1502\n")));
    assert!(is_amd_npu_device("0x1022", Some("0x17f0")));
    assert!(!is_amd_npu_device("0x1022", Some("0x15bf")));
    assert!(!is_amd_npu_device("0x1022", None));
    assert!(!is_amd_npu_device("0x8086", Some("0x1502")));
    assert!(is_intel_vendor(" 0x8086\n"));
    assert!(!is_intel_vendor("0x1022"));
}

#[test]
fn npu_drivers_and_nodes() {
    assert!(modules_list_npu_driver("amdxdna 167936 0 - Live\n", NpuVendor::Amd));
    assert!(!modules_list_npu_driver("amdgpu 1 0\n", NpuVendor::Amd));
    assert!(modules_list_npu_driver("intel_vpu 1 0\n", NpuVendor::Intel));
    assert!(modules_list_npu_driver("intel_npu 1 0\n", NpuVendor::Intel));
    assert!(!modules_list_npu_driver("i915 1 0\n", NpuVendor::Intel));
    assert!(render_node_is_npu("renderD129", Some("../devices/accel/accel0"), NpuVendor::Amd));
    assert!(!render_node_is_npu("renderD129", Some("../devices/vpu0"), NpuVendor::Amd));
    assert!(render_node_is_npu("renderD129", Some("../devices/vpu0"), NpuVendor::Intel));
    assert!(!render_node_is_npu("card0", Some("accel"), NpuVendor::Intel));
    assert!(!render_node_is_npu("renderD128", None, NpuVendor::Intel));
}

#[test]
fn npu_clients() {
    assert!(fdinfo_uses_npu("drm-driver:\tamdxdna\n", NpuVendor::Amd));
    assert!(fdinfo_uses_npu("drm-driver:\tamdgpu\n", NpuVendor::Amd));
    assert!(!fdinfo_uses_npu("drm-driver:\ti915\n", NpuVendor::Amd));
    assert!(fdinfo_uses_npu("drm-driver:\tintel_vpu\n", NpuVendor::Intel));
    assert!(fdinfo_uses_npu("drm-driver:\taccel\n", NpuVendor::Intel));
    assert!(!fdinfo_uses_npu("drm-driver:\ti915\n", NpuVendor::Intel));
}

#[test]
fn process_entries() {
    assert!(is_process_dir_name("1234"));
    assert!(!is_process_dir_name("self"));
    assert!(!is_process_dir_name("12a"));
    // `char::is_numeric` accepts other numerals too.
    assert!(is_process_dir_name("\u{0663}\u{00bd}"));
    assert_eq!(process_name_from_cmdline("/usr/bin/python3\0-m\0model\0"), "python3");
    assert_eq!(process_name_from_cmdline("ollama\0serve"), "ollama");
    assert_eq!(process_name_from_cmdline(""), "unknown");
    assert_eq!(process_name_from_cmdline("/usr/bin/\0x"), "unknown");
}

#[test]
fn active_models_are_listed_once() {
    let mut models: Vec<String> = Vec::new();
    add_active_model(&mut models, "python3".to_string());
    add_active_model(&mut models, "ollama".to_string());
    add_active_model(&mut models, "python3".to_string());
    assert_eq!(models, vec!["python3".to_string(), "ollama".to_string()]);
}

#[test]
fn utilization_by_client_count() {
    assert_eq!(amd_npu_utilization_halves(0, 7), 0);
    assert_eq!(amd_npu_utilization_halves(1, 0), 50);
    assert_eq!(amd_npu_utilization_halves(1, 14), 78);
    assert_eq!(amd_npu_utilization_halves(2, 3), 96);
    assert_eq!(amd_npu_utilization_halves(3, 5), 135);
    assert_eq!(amd_npu_utilization_halves(4, 0), 140);
    assert_eq!(amd_npu_utilization_halves(6, 1), 153);
    assert_eq!(amd_npu_utilization_halves(40, 14), 176);
    assert_eq!(amd_npu_utilization_halves(u32::MAX, 14), 176);
    assert_eq!(intel_npu_utilization(0), 0);
    assert_eq!(intel_npu_utilization(1), 30);
    assert_eq!(intel_npu_utilization(2), 55);
    assert_eq!(intel_npu_utilization(3), 66);
    assert_eq!(intel_npu_utilization(4), 88);
    assert_eq!(intel_npu_utilization(5), 92);
    assert_eq!(intel_npu_utilization(u32::MAX), 92);
}

#[test]
fn clients_found_among_fdinfo_files() {
    let texts = vec!["pos: 0\n".to_string(), "drm-driver:\tamdxdna\n".to_string()];
    assert!(process_uses_npu(&texts, NpuVendor::Amd));
    assert!(!process_uses_npu(&texts, NpuVendor::Intel));
    assert!(!process_uses_npu(&Vec::new(), NpuVendor::Amd));
}

#[test]
fn amd_utilization_stays_in_its_band() {
    for v in 0..15u32 {
        let one = amd_npu_utilization_halves(1, v);
        assert!((50..=78).contains(&one));
        let three = amd_npu_utilization_halves(3, v);
        assert!((130..=144).contains(&three));
        for c in 4..40u32 {
            let many = amd_npu_utilization_halves(c, v);
            assert!((140..=176).contains(&many));
        }
    }
}
