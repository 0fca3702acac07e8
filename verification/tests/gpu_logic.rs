use system_monitor::gpu::{
    amd_device_id, amd_gpu_name, amd_integrated_count, amd_is_integrated, amd_memory,
    amd_memory_needs_estimate, amd_shared_memory_total, dpm_active_clock_texts, fdinfo_engine_ns,
    gpu_named, gpu_position, gpu_positions, has_active_dpm_level, has_discrete_gpu,
    has_integrated_gpu, integrated_count, intel_gpu_name, intel_memory, intel_shared_memory_total,
    is_drm_card_name, meminfo_total_kb, nvidia_fallback_name, nvidia_is_integrated, read_amd_vram,
    record_engine_time, temp_input_name, GpuDriver, GpuSummary, AMD_SHARED_MEMORY_CAP, HALF_GIB,
};

fn gpu(name: &str, is_integrated: bool) -> GpuSummary {
    GpuSummary { name: name.to_string(), is_integrated }
}

#[test]
fn engine_time_of_an_intel_client() {
    let content = "pos:\t0\nflags:\t02100002\ndrm-driver:\ti915\ndrm-engine-render:\t1500 ns\ndrm-engine-copy:\t99 ns\ndrm-engine-rcs0:\t 250 ns\n";
    assert_eq!(fdinfo_engine_ns(content, GpuDriver::I915), Some(1750));
    // Another driver's client contributes nothing.
    assert_eq!(fdinfo_engine_ns(content, GpuDriver::Amdgpu), Some(0));
    // An unreadable number counts as zero.
    let odd = "drm-driver:\ti915\ndrm-engine-render:\tlots ns\ndrm-engine-rcs:\t7 ns";
    assert_eq!(fdinfo_engine_ns(odd, GpuDriver::I915), Some(7));
}

#[test]
fn engine_time_of_an_amd_client() {
    let content = "drm-driver:\tamdgpu\ndrm-engine-gfx:\t100 ns\ndrm-engine-compute:\t20 ns\ndrm-engine-dma:\t5 ns\ndrm-engine-render:\t3 ns\n";
    assert_eq!(fdinfo_engine_ns(content, GpuDriver::Amdgpu), Some(123));
    assert_eq!(fdinfo_engine_ns("no gpu here", GpuDriver::Amdgpu), Some(0));
}

#[test]
fn engine_time_that_overflows_is_reported() {
    let content = format!(
        "amdgpu\ndrm-engine-gfx:\t{} ns\ndrm-engine-compute:\t1 ns\n",
        u64::MAX
    );
    assert_eq!(fdinfo_engine_ns(&content, GpuDriver::Amdgpu), None);
}

#[test]
fn intel_names() {
    assert_eq!(intel_gpu_name(Some("0x7d55\n")), "Intel Arc Graphics (Meteor Lake)");
    assert_eq!(intel_gpu_name(Some("0x7d45")), "Intel Arc Graphics (Meteor Lake)");
    assert_eq!(intel_gpu_name(Some("0x7dd5")), "Intel Arc Graphics (Meteor Lake)");
    assert_eq!(intel_gpu_name(Some("0x9a49")), "Intel Integrated Graphics");
    assert_eq!(intel_gpu_name(None), "Intel Integrated Graphics");
}

#[test]
fn amd_names() {
    assert_eq!(amd_device_id(Some(" 0x15bf\n")), "0x15bf");
    assert_eq!(amd_device_id(None), "");
    assert_eq!(amd_gpu_name("0x15bf", None, None), "AMD Radeon 780M");
    assert_eq!(amd_gpu_name("0x1900", Some("Other"), None), "AMD Radeon 780M");
    assert_eq!(amd_gpu_name("0x15c8", None, None), "AMD Radeon 680M");
    assert_eq!(amd_gpu_name("0x164e", None, None), "AMD Radeon RX 7600M XT");
    assert_eq!(amd_gpu_name("0x1636", None, None), "AMD Radeon 660M");
    assert_eq!(amd_gpu_name("0x73bf", Some(" Radeon RX 6800 XT\n"), None), "Radeon RX 6800 XT");
    assert_eq!(amd_gpu_name("0x73bf", Some("AMD"), None), "AMD Radeon iGPU (0x73bf)");
    assert_eq!(amd_gpu_name("0x73bf", Some("Radeon"), Some("pci:v00001002d00001900")), "AMD Radeon iGPU (0x73bf)");
    assert_eq!(amd_gpu_name("0x73bf", None, Some("pci:v00001002d000015C8sv")), "AMD Radeon 680M");
    assert_eq!(amd_gpu_name("0x73bf", None, Some("pci:v00001002d00001636")), "AMD Radeon 660M");
    assert_eq!(amd_gpu_name("0x73bf", None, Some("pci:v00001002d000073BF")), "AMD Radeon iGPU (0x73bf)");
    assert_eq!(amd_gpu_name("", None, None), "AMD Radeon Graphics");
}

#[test]
fn drm_card_names() {
    assert!(is_drm_card_name("card0"));
    assert!(is_drm_card_name("card12"));
    assert!(!is_drm_card_name("card0-eDP-1"));
    assert!(!is_drm_card_name("renderD128"));
    assert!(!is_drm_card_name("version"));
}

#[test]
fn integrated_or_discrete() {
    let gib: u64 = 1 << 30;
    assert!(amd_is_integrated("AMD Radeon 780M", "0x15bf", 16 * gib));
    assert!(amd_is_integrated("Radeon RX 7900", "0x744c", 8 * gib));
    assert!(!amd_is_integrated("Radeon RX 7900", "0x744c", 24 * gib));
    assert!(amd_is_integrated("Some INTEGRATED part", "0x744c", 24 * gib));
    assert!(amd_is_integrated("Radeon Vega 8", "0x744c", 24 * gib));
    // 14 GB is not below 14 GB.
    assert!(!amd_is_integrated("Radeon RX", "0x744c", 14_000_000_000));
    assert!(amd_is_integrated("Radeon RX", "0x744c", 13_999_999_999));
    assert!(!nvidia_is_integrated("NVIDIA GeForce RTX 4090", 24 * gib));
    assert!(nvidia_is_integrated("NVIDIA GeForce MX150", 1 * gib));
    assert!(nvidia_is_integrated("Intel Iris Xe", 8 * gib));
    assert!(nvidia_is_integrated("Intel UHD 620", 8 * gib));
    assert_eq!(nvidia_fallback_name(3), "NVIDIA GPU 3");
}

#[test]
fn lowercase_is_applied() {
    // Would fail if the name were searched without lowercasing.
    assert!(nvidia_is_integrated("IGPU Device", 8 << 30));
    assert!(!nvidia_is_integrated("Discrete", 8 << 30));
}

#[test]
fn memory_files() {
    assert_eq!(read_amd_vram(Some("1024\n"), Some("4096\n")), (1024, 4096));
    assert_eq!(read_amd_vram(None, Some("junk")), (0, 0));
    assert_eq!(amd_memory((1, 4096), Some("7"), Some("8")), (1, 4096));
    assert_eq!(amd_memory((5, 0), Some("7"), Some("8")), (7, 8));
    assert_eq!(amd_memory((5, 0), None, Some("x")), (5, 0));
    assert_eq!(intel_memory(Some("8192"), Some("1"), Some("2")), (8192, 2));
    assert_eq!(intel_memory(Some("0"), Some("4096"), None), (4096, 0));
    assert_eq!(intel_memory(None, None, None), (0, 0));
}

#[test]
fn system_memory_shares() {
    let meminfo = "MemFree:   100 kB\nMemTotal:       32768000 kB\nMemTotal: 5 kB\n";
    assert_eq!(meminfo_total_kb(meminfo), Some(32_768_000));
    assert_eq!(meminfo_total_kb("MemTotal: lots kB\nMemTotal: 9 kB"), Some(9));
    assert_eq!(meminfo_total_kb("nothing"), None);
    assert_eq!(intel_shared_memory_total(16_000_000), 8_192_000_000);
    assert_eq!(amd_shared_memory_total(8_000_000), 4_096_000_000);
    assert_eq!(amd_shared_memory_total(64_000_000), AMD_SHARED_MEMORY_CAP);
    assert_eq!(AMD_SHARED_MEMORY_CAP, 12 * 1024 * 1024 * 1024);
    assert!(amd_memory_needs_estimate(HALF_GIB - 1, 1 << 34));
    assert!(!amd_memory_needs_estimate(HALF_GIB, 1 << 34));
    assert!(amd_memory_needs_estimate(HALF_GIB, 0));
}

#[test]
fn dpm_levels() {
    let sclk = "0: 800Mhz\n1: 1600Mhz *\n2: 2800Mhz\n";
    assert!(has_active_dpm_level(sclk));
    assert!(!has_active_dpm_level("0: 800Mhz\n1: 1600Mhz\n"));
    assert_eq!(dpm_active_clock_texts(sclk), vec!["1600".to_string()]);
    assert_eq!(dpm_active_clock_texts("1: 2000 *\n*\n"), vec!["2000".to_string()]);
    assert!(dpm_active_clock_texts("").is_empty());
}

#[test]
fn gpu_list_queries() {
    let gpus = vec![
        gpu("Intel Integrated Graphics", true),
        gpu("NVIDIA GeForce RTX 4090", false),
        gpu("AMD Radeon 780M", true),
    ];
    assert_eq!(integrated_count(&gpus), 2);
    assert_eq!(amd_integrated_count(&gpus), 1);
    assert!(has_discrete_gpu(&gpus));
    assert!(has_integrated_gpu(&gpus));
    assert_eq!(gpu_positions(&gpus, false), vec![1]);
    assert_eq!(gpu_positions(&gpus, true), vec![0, 2]);
    assert!(gpu_named(&gpus, "AMD Radeon 780M"));
    assert!(!gpu_named(&gpus, "AMD Radeon 680M"));
    assert_eq!(gpu_position(&gpus, "AMD Radeon 780M", true), Some(2));
    assert_eq!(gpu_position(&gpus, "AMD Radeon 780M", false), None);
    let none: Vec<GpuSummary> = Vec::new();
    assert!(!has_discrete_gpu(&none));
    assert!(!has_integrated_gpu(&none));
    assert!(gpu_positions(&none, true).is_empty());
}

#[test]
fn engine_time_baseline() {
    let mut times: Vec<u64> = Vec::new();
    assert_eq!(record_engine_time(&mut times, 0, 1000), None);
    assert_eq!(times, vec![1000]);
    assert_eq!(record_engine_time(&mut times, 0, 1500), Some(500));
    assert_eq!(record_engine_time(&mut times, 0, 1200), None);
    assert_eq!(times, vec![1200]);
    assert_eq!(record_engine_time(&mut times, 0, 1300), Some(100));
    // A zero baseline gives no delta.
    let mut zero = vec![0u64];
    assert_eq!(record_engine_time(&mut zero, 0, 10), None);
    assert_eq!(zero, vec![10]);
    assert_eq!(temp_input_name(3), "temp3_input");
}

#[test]
fn typeperf_output_fields() {
    let out = "\r\n\"(PDH-CSV 4.0)\",\"\\\\PC\\GPU Engine(pid_1_luid_0x0_phys_0_eng_0_engtype_3D)\"\r\n\"01/01/2025 10:00:00.000\",\"12.5\"\r\nIntel(R) UHD, \" 7.25\" \r\nINTEL line,\"x\"\r\nintel no comma\r\n";
    let fields = system_monitor::gpu::typeperf_intel_fields(out);
    // The field is trimmed before its quotes are removed, as the reading is.
    assert_eq!(fields, vec![" 7.25".to_string(), "x".to_string()]);
    assert!(system_monitor::gpu::typeperf_intel_fields("a\nb\n").is_empty());
    assert!(system_monitor::gpu::typeperf_intel_fields("").is_empty());
}

#[test]
fn first_integrated_gpu_by_name() {
    let gpus = vec![
        gpu("Intel Arc A770", false),
        gpu("AMD Radeon 780M", true),
        gpu("Intel Integrated Graphics", true),
    ];
    assert_eq!(system_monitor::gpu::first_integrated_mentioning(&gpus, "Intel"), Some(2));
    assert_eq!(system_monitor::gpu::first_integrated_mentioning(&gpus, "NVIDIA"), None);
}

#[test]
fn estimated_amd_memory_counts_as_integrated() {
    for kb in [0u64, 1, 4_000_000, 16_000_000, 25_165_824, 32_000_000, 64_000_000, u64::MAX / 1024] {
        let total = amd_shared_memory_total(kb);
        assert!(total <= AMD_SHARED_MEMORY_CAP);
        assert!(amd_is_integrated("Radeon RX 7900 XTX", "0x744c", total), "kb = {}", kb);
    }
}

#[test]
fn every_gpu_gets_one_card() {
    for mask in 0u32..64 {
        let n = (mask % 6) as usize + (mask / 32) as usize;
        let gpus: Vec<GpuSummary> = (0..n).map(|i| gpu(&format!("g{}", i), mask >> i & 1 == 1)).collect();
        let mut all = gpu_positions(&gpus, false);
        all.extend(gpu_positions(&gpus, true));
        assert_eq!(all.len(), n);
        all.sort();
        assert_eq!(all, (0..n).collect::<Vec<_>>());
    }
}
