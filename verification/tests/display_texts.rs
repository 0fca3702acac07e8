use system_monitor::disk::{disk_space_label, disk_type_color};
use system_monitor::theme::{selectable_themes, theme_icon};
use system_monitor::cpu::{core_frequency_path, core_temp_input_name, is_cpu_thermal_zone, is_k10temp};
use system_monitor::disk::{
    block_hwmon_dir, device_name, disk_icon, disk_kind_label, drives_summary, hwmon_is_nvme,
    is_nvme_device, nvme_base_device, nvme_hwmon_dir, ssd_count, DiskInfo, DiskKind,
};
use system_monitor::labels::{
    battery_status_label, battery_time_label, battery_time_shown, core_count_label, core_label,
    cores_threads_label, gpu_badge, gpu_card_title, gpu_memory_label, process_display_name,
    process_total_label, section_header, status_process_label, stop_command, workload_listing,
    workloads_title,
};
use system_monitor::theme::{darker_row, Rgb, Theme, ThemeMode};

fn disk(mount: &str, total: u64, available: u64, kind: &str, removable: bool) -> DiskInfo {
    DiskInfo {
        mount_point: mount.to_string(),
        total_space: total,
        available_space: available,
        disk_type: kind.to_string(),
        file_system: "ext4".to_string(),
        is_removable: removable,
    }
}

#[test]
fn section_and_gpu_titles() {
    assert_eq!(section_header("CPU", true), "\u{25bc} CPU");
    assert_eq!(section_header("CPU", false), "\u{25b6} CPU");
    assert_eq!(gpu_card_title(0, true, true), "\u{25bc} DISCRETE GPU");
    assert_eq!(gpu_card_title(0, false, false), "\u{25b6} INTEGRATED GPU");
    assert_eq!(gpu_card_title(2, false, true), "INTEGRATED GPU");
    assert_eq!(gpu_badge(true), "dGPU");
    assert_eq!(gpu_badge(false), "iGPU");
    assert_eq!(gpu_memory_label(true), "VRAM");
    assert_eq!(gpu_memory_label(false), "Shared Memory");
}

#[test]
fn count_labels() {
    assert_eq!(core_label(7), "Core 7");
    assert_eq!(cores_threads_label(8, 16), "8 cores \u{b7} 16 threads");
    assert_eq!(core_count_label(12), "12 cores");
    assert_eq!(process_total_label(305), "305 total");
    assert_eq!(status_process_label(0), "Processes: 0");
    assert_eq!(workloads_title(3), "Active Workloads (3)");
    assert_eq!(workload_listing(3), (3, None));
    assert_eq!(workload_listing(5), (5, None));
    assert_eq!(workload_listing(9), (5, Some("... and 4 more".to_string())));
}

#[test]
fn long_process_names_are_cut() {
    assert_eq!(process_display_name("firefox"), "firefox");
    let thirty = "a".repeat(30);
    assert_eq!(process_display_name(&thirty), thirty);
    let long = "abcdefghijklmnopqrstuvwxyz0123456789";
    assert_eq!(process_display_name(long), "abcdefghijklmnopqrstuvwxyz0...");
}

#[test]
fn battery_texts() {
    assert_eq!(battery_status_label(true), " \u{26a1} Charging");
    assert_eq!(battery_status_label(false), "\u{1f50b} Discharging");
    assert_eq!(battery_time_label(true, 5400), "Time to full: 1h 30m");
    assert_eq!(battery_time_label(false, 1500), "Time remaining: 25m");
    assert_eq!(battery_time_shown(0), None);
    assert_eq!(battery_time_shown(90), Some(90));
}

#[test]
fn commands_that_stop_a_process() {
    let (p, a) = stop_command(4242, false, false);
    assert_eq!((p.as_str(), a), ("kill", vec!["-15".to_string(), "4242".to_string()]));
    let (p, a) = stop_command(4242, true, false);
    assert_eq!((p.as_str(), a), ("kill", vec!["-9".to_string(), "4242".to_string()]));
    let (p, a) = stop_command(17, false, true);
    assert_eq!((p.as_str(), a), ("taskkill", vec!["/PID".to_string(), "17".to_string()]));
    let (p, a) = stop_command(17, true, true);
    assert_eq!(
        (p.as_str(), a),
        ("taskkill", vec!["/F".to_string(), "/PID".to_string(), "17".to_string()])
    );
}

#[test]
fn disks() {
    assert_eq!(disk_kind_label(DiskKind::Ssd), "SSD");
    assert_eq!(disk_kind_label(DiskKind::Hdd), "HDD");
    assert_eq!(disk_kind_label(DiskKind::Unknown), "Unknown");
    let disks = vec![
        disk("/", 500, 200, "SSD", false),
        disk("/home", 1000, 1000, "HDD", false),
        disk("/media/usb", 10, 20, "SSD", true),
    ];
    assert_eq!(disks[0].used_space(), 300);
    assert_eq!(disks[1].used_space(), 0);
    assert_eq!(disks[2].used_space(), 0);
    assert_eq!(ssd_count(&disks), 2);
    assert_eq!(drives_summary(&disks), "3 drives (2 SSD)");
    assert_eq!(disk_icon("/", false), "\u{1f3e0}");
    assert_eq!(disk_icon("/home/user", true), "\u{1f3e0}");
    assert_eq!(disk_icon("/media/usb", true), "\u{1f4bf}");
    assert_eq!(disk_icon("/data", false), "\u{1f4be}");
}

#[test]
fn disk_sensor_paths() {
    assert_eq!(device_name("/dev/nvme0n1p2"), "nvme0n1p2");
    assert_eq!(device_name("/dev//dev/sda"), "sda");
    assert_eq!(device_name("sda1"), "sda1");
    assert!(is_nvme_device("nvme0n1"));
    assert!(!is_nvme_device("sda"));
    assert_eq!(nvme_base_device("nvme0n1"), "nvme0");
    assert_eq!(nvme_base_device("nvme0n1p2"), "nvme0");
    assert_eq!(nvme_base_device("nvme12n3"), "nvme12");
    assert_eq!(nvme_base_device("nvme0"), "nvme0");
    assert_eq!(nvme_base_device("sda"), "sda");
    assert_eq!(nvme_hwmon_dir(&nvme_base_device(&device_name("/dev/nvme0n1"))), "/sys/class/nvme/nvme0/device/hwmon");
    assert!(hwmon_is_nvme("nvme\n", "x"));
    assert!(hwmon_is_nvme(" drivetemp \n", "drivetemp"));
    assert!(!hwmon_is_nvme("k10temp\n", "nvme0"));
    assert_eq!(nvme_hwmon_dir("nvme0"), "/sys/class/nvme/nvme0/device/hwmon");
    assert_eq!(block_hwmon_dir("sda"), "/sys/block/sda/device/hwmon");
}

#[test]
fn cpu_sensor_files() {
    assert!(is_k10temp("k10temp\n"));
    assert!(!is_k10temp("coretemp\n"));
    assert!(is_cpu_thermal_zone("x86_pkg_temp\n"));
    assert!(is_cpu_thermal_zone("cpu-thermal\n"));
    assert!(!is_cpu_thermal_zone("acpitz\n"));
    assert_eq!(core_temp_input_name(0), "temp2_input");
    assert_eq!(core_temp_input_name(5), "temp7_input");
    assert_eq!(core_frequency_path(3), "/sys/devices/system/cpu/cpu3/cpufreq/scaling_cur_freq");
}

#[test]
fn themes() {
    let dark = Theme::from_mode(ThemeMode::Dark);
    assert_eq!(dark, Theme::dark());
    assert_eq!(dark.bg_primary, Rgb { r: 17, g: 17, b: 19 });
    assert_eq!(dark.accent, Rgb { r: 88, g: 101, b: 242 });
    assert_eq!(Theme::from_mode(ThemeMode::Light), Theme::light());
    assert_eq!(Theme::light().bg_card, Rgb { r: 255, g: 255, b: 255 });
    assert_eq!(Theme::from_mode(ThemeMode::Midnight), Theme::midnight());
    assert_eq!(Theme::midnight().accent, Rgb { r: 56, g: 189, b: 248 });
    assert_eq!(Theme::from_mode(ThemeMode::Nord), Theme::nord());
    assert_eq!(Theme::nord().danger, Rgb { r: 191, g: 97, b: 106 });
    assert_eq!(darker_row(Rgb { r: 27, g: 2, b: 3 }), Rgb { r: 24, g: 0, b: 0 });
}

#[test]
fn theme_buttons() {
    assert_eq!(
        selectable_themes(),
        vec![ThemeMode::Dark, ThemeMode::Midnight, ThemeMode::Nord, ThemeMode::Light]
    );
    assert_eq!(theme_icon(ThemeMode::Dark), "\u{1f319}");
    assert_eq!(theme_icon(ThemeMode::Midnight), "\u{1f303}");
    assert_eq!(theme_icon(ThemeMode::Nord), "\u{2744}");
    assert_eq!(theme_icon(ThemeMode::Light), "\u{2600}");
}

#[test]
fn shown_names_fit_in_thirty_bytes() {
    let name = "ééééééééééééééééééééé"; // 42 bytes: byte 27 falls inside a character
    assert!(!name.is_char_boundary(27));
    let shown = process_display_name(name);
    assert_eq!(shown, format!("{}...", &name[..26]));
    assert_eq!(shown.len(), 29);
    let wide = "abcdefghijklmnopqrstuvwxy\u{1f600}rest of a long name"; // emoji covers bytes 25..29
    assert_eq!(process_display_name(wide), "abcdefghijklmnopqrstuvwxy...");
    let name = "aéééééééééééééééééééé"; // 1 + 40 bytes, byte 27 starts a character
    assert!(name.is_char_boundary(27));
    let shown = process_display_name(name);
    assert!(shown.len() <= 30);
    assert_eq!(shown, format!("{}...", &name[..27]));
}

#[test]
fn disk_lines_and_badges() {
    let d = disk("/", 500_000_000_000, 200_000_000_000, "SSD", false);
    assert_eq!(disk_space_label(&d), "300.0 GB / 500.0 GB | ext4");
    let full = disk("/data", 2_000_000_000_000, 0, "HDD", false);
    assert_eq!(disk_space_label(&full), "1.95 TB / 1.95 TB | ext4");
    let theme = Theme::dark();
    assert_eq!(disk_type_color(&theme, "SSD"), theme.success);
    assert_eq!(disk_type_color(&theme, "HDD"), theme.text_tertiary);
    assert_eq!(disk_type_color(&theme, "Unknown"), theme.text_tertiary);
}
