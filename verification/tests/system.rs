use green_light::system::{
    check_reboot_required, driver_from_proc, driver_from_smi, format_bytes, get_dkms_status,
    get_disk_module_version, get_free_disk, get_gpu_name, get_installed_driver,
    get_kernel_version, get_secure_boot, parse_dkms_status, query_system,
    secure_boot_from_mokutil, CommandOutput, DriverProbe, RebootProbe, SecureBootProbe,
    SecureBootStatus, SystemInfo, SystemProbe,
};

const PROC: &str = "NVRM version: NVIDIA UNIX x86_64 Kernel Module  595.84  Thu May  1\n\
                    GCC version:  gcc version 14.2.0\n";

fn ran(stdout: &str) -> Option<CommandOutput> {
    Some(CommandOutput { success: true, stdout: stdout.as_bytes().to_vec() })
}

fn failed(stdout: &str) -> Option<CommandOutput> {
    Some(CommandOutput { success: false, stdout: stdout.as_bytes().to_vec() })
}

fn running(version: &str) -> DriverProbe {
    DriverProbe { smi: ran(version), proc_version: None }
}

fn nothing_running() -> DriverProbe {
    DriverProbe { smi: None, proc_version: None }
}

#[test]
fn format_bytes_units() {
    assert_eq!(format_bytes(0), "0 KB");
    assert_eq!(format_bytes(2048), "2 KB");
    assert_eq!(format_bytes(1_048_576), "1.0 MB");
    assert_eq!(format_bytes(1_572_864), "1.5 MB");
    assert_eq!(format_bytes(1_073_741_824), "1.0 GB");
    assert_eq!(format_bytes(5 * 1_073_741_824 / 2), "2.5 GB");
}

fn in_double_precision(b: u64) -> String {
    if b >= 1_073_741_824 {
        format!("{:.1} GB", b as f64 / 1_073_741_824.0)
    } else if b >= 1_048_576 {
        format!("{:.1} MB", b as f64 / 1_048_576.0)
    } else {
        format!("{} KB", b / 1024)
    }
}

#[test]
fn format_bytes_rounds_as_double_precision_does() {
    assert_eq!(format_bytes(1_310_720), "1.2 MB");
    assert_eq!(format_bytes(1_835_008), "1.8 MB");
    assert_eq!(format_bytes(1_048_575), "1023 KB");
    assert_eq!(format_bytes(1_073_741_823), "1024.0 MB");
    let mut b: u64 = 1;
    for i in 0..4000u64 {
        b = b.wrapping_mul(6364136223846793005).wrapping_add(1442695040888963407);
        let n = b >> (i % 50);
        assert_eq!(format_bytes(n), in_double_precision(n), "{n}");
    }
    for shift in 20..64 {
        for eighths in 1..16u64 {
            if let Some(n) = (1u64 << (shift - 3)).checked_mul(eighths) {
                for m in [n.saturating_sub(1), n, n.saturating_add(1)] {
                    assert_eq!(format_bytes(m), in_double_precision(m), "{m}");
                }
            }
        }
    }
    assert_eq!(format_bytes(u64::MAX), in_double_precision(u64::MAX));
}

#[test]
fn dkms_old_format() {
    let e = parse_dkms_status("nvidia/595.84, 7.0.0-27-generic, x86_64: installed\n");
    assert_eq!(e.len(), 1);
    assert_eq!(e[0].module, "nvidia");
    assert_eq!(e[0].version, "595.84");
    assert_eq!(e[0].kernel, "7.0.0-27-generic");
    assert_eq!(e[0].status, "installed");
}

#[test]
fn dkms_new_format() {
    let e = parse_dkms_status("nvidia/595.84/7.0.0-27-generic/x86_64: installed");
    assert_eq!(e.len(), 1);
    assert_eq!(e[0].version, "595.84");
    assert_eq!(e[0].kernel, "7.0.0-27-generic");
    assert_eq!(e[0].status, "installed");
}

#[test]
fn dkms_partial_added_has_dash_kernel() {
    let e = parse_dkms_status("nvidia/595.84: added");
    assert_eq!(e.len(), 1);
    assert_eq!(e[0].kernel, "\u{2014}");
    assert_eq!(e[0].status, "added");
}

#[test]
fn dkms_ignores_other_modules_and_blank_lines() {
    let e = parse_dkms_status("\nvirtualbox/7.0, 6.8.0, x86_64: installed\n  \nNVIDIA/1.0: added\n");
    assert_eq!(e.len(), 1);
    assert_eq!(e[0].module, "NVIDIA");
}

#[test]
fn dkms_formats_agree() {
    let lines = [
        "nvidia/595.84, 6.8, x86_64: installed",
        "nvidia/595.84/6.8/x86_64: installed",
        "nvidia, 595.84/6.8, x86_64: installed",
    ];
    for line in lines {
        let e = parse_dkms_status(line);
        assert_eq!(e.len(), 1);
        assert_eq!(e[0].module, "nvidia");
        assert_eq!(e[0].version, "595.84");
        assert_eq!(e[0].kernel, "6.8");
        assert_eq!(e[0].status, "installed");
    }
}

#[test]
fn dkms_formats_agree_beyond_ascii() {
    for line in [
        "NVidia\u{c9}\u{3a3}/1\u{a0}0, \u{212a}, \u{e9}: \u{df}",
        "NVidia\u{c9}\u{3a3}/1\u{a0}0/\u{212a}/\u{e9}: \u{df}",
    ] {
        let e = parse_dkms_status(line);
        assert_eq!(e.len(), 1);
        assert_eq!(e[0].module, "NVidia\u{c9}\u{3a3}");
        assert_eq!(e[0].version, "1\u{a0}0");
        assert_eq!(e[0].kernel, "\u{212a}");
        assert_eq!(e[0].status, "\u{df}");
    }
}

#[test]
fn dkms_fills_in_what_is_missing() {
    let e = parse_dkms_status("nvidia-open\nnvidia:1/2: built: x \n\u{a0}nvidia//,5: y");
    assert_eq!(e.len(), 3);
    assert_eq!(
        (e[0].module.as_str(), e[0].version.as_str(), e[0].kernel.as_str(), e[0].status.as_str()),
        ("nvidia-open", "?", "\u{2014}", "unknown")
    );
    assert_eq!((e[1].module.as_str(), e[1].version.as_str()), ("nvidia:1", "2: built"));
    assert_eq!(e[1].status, "x");
    assert_eq!((e[2].module.as_str(), e[2].version.as_str()), ("nvidia", "5"));
    assert!(get_dkms_status(&None).is_empty());
    assert_eq!(get_dkms_status(&failed("nvidia/1: added")).len(), 1);
}

#[test]
fn driver_comes_from_smi_then_from_proc() {
    assert_eq!(driver_from_smi(&ran(" 595.84\n")).as_deref(), Some("595.84"));
    assert_eq!(driver_from_smi(&ran("595.84\n595.84\n")).as_deref(), Some("595.84"));
    assert_eq!(driver_from_smi(&ran("\n 595.84 \r\n595.84")).as_deref(), Some("595.84"));
    assert_eq!(driver_from_smi(&failed("595.84")), None);
    assert_eq!(driver_from_smi(&ran(" \n")), None);
    assert_eq!(driver_from_smi(&None), None);
    assert_eq!(driver_from_proc(PROC).as_deref(), Some("595.84"));
    assert_eq!(driver_from_proc("Kernel Module 1.2\n"), None);
    assert_eq!(driver_from_proc("NVRM version: Kernel Module\n"), None);
    assert_eq!(
        driver_from_proc("NVRM version: x\nNVRM version: Module 7").as_deref(),
        Some("7")
    );
    let both = DriverProbe { smi: ran("610.1"), proc_version: Some(PROC.to_string()) };
    assert_eq!(get_installed_driver(&both).as_deref(), Some("610.1"));
    let proc_only = DriverProbe { smi: failed("x"), proc_version: Some(PROC.to_string()) };
    assert_eq!(get_installed_driver(&proc_only).as_deref(), Some("595.84"));
    assert_eq!(get_installed_driver(&nothing_running()), None);
}

#[test]
fn output_that_is_not_utf8_is_repaired() {
    let bytes = vec![b' ', b'R', 0xff, b'T', b'X', b'\n'];
    let output = Some(CommandOutput { success: true, stdout: bytes });
    assert_eq!(get_gpu_name(&output).as_deref(), Some("R\u{fffd}TX"));
    assert_eq!(get_kernel_version(&output), "R\u{fffd}TX");
}

#[test]
fn kernel_version_is_trimmed_or_unknown() {
    assert_eq!(get_kernel_version(&ran("6.8.0-27-generic\n")), "6.8.0-27-generic");
    assert_eq!(get_kernel_version(&failed("")), "");
    assert_eq!(get_kernel_version(&None), "unknown");
}

#[test]
fn secure_boot_comes_from_mokutil_then_from_efi() {
    assert_eq!(secure_boot_from_mokutil(&ran("SecureBoot enabled\n")), SecureBootStatus::Enabled);
    assert_eq!(secure_boot_from_mokutil(&failed("SECUREBOOT DISABLED")), SecureBootStatus::Disabled);
    assert_eq!(secure_boot_from_mokutil(&ran("EFI variables are not supported")), SecureBootStatus::Unknown);
    // Lower case goes beyond ASCII: a Kelvin sign becomes a `k`.
    assert_eq!(secure_boot_from_mokutil(&ran("\u{212a} SecureBoot Enabled")), SecureBootStatus::Enabled);
    let efi = |bytes: Option<Vec<u8>>| {
        get_secure_boot(&SecureBootProbe { mokutil: None, efi_variable: bytes })
    };
    assert_eq!(efi(Some(vec![6, 0, 0, 0, 1])), SecureBootStatus::Enabled);
    assert_eq!(efi(Some(vec![6, 0, 0, 0, 0])), SecureBootStatus::Disabled);
    assert_eq!(efi(Some(vec![1, 1, 1, 1])), SecureBootStatus::Disabled);
    assert_eq!(efi(None), SecureBootStatus::Unknown);
    let known = SecureBootProbe {
        mokutil: ran("SecureBoot disabled"),
        efi_variable: Some(vec![6, 0, 0, 0, 1]),
    };
    assert_eq!(get_secure_boot(&known), SecureBootStatus::Disabled);
    assert_eq!(SecureBootStatus::default(), SecureBootStatus::Unknown);
    assert_eq!(SecureBootStatus::Enabled.to_string(), "Enabled (MOK enrollment may be required)");
    assert_eq!(SecureBootStatus::Disabled.to_string(), "Disabled");
    assert_eq!(SecureBootStatus::Unknown.to_string(), "Unknown");
}

#[test]
fn lower_case_beyond_ascii_is_that_of_std() {
    let e = parse_dkms_status("NVIDIA\u{c9}/1: x");
    assert_eq!(e[0].module, "NVIDIA\u{c9}");
    // A dotted capital I becomes an i and a combining dot.
    assert!(parse_dkms_status("NV\u{130}DIA/1: x").is_empty());
}

#[test]
fn free_disk_is_the_second_line() {
    assert_eq!(get_free_disk(&ran("     Avail\n123456789\n")), Some(123456789));
    assert_eq!(get_free_disk(&ran("Avail\r\n  18446744073709551615  \n")), Some(u64::MAX));
    assert_eq!(get_free_disk(&ran("Avail\n18446744073709551616\n")), None);
    assert_eq!(get_free_disk(&ran("Avail\n-\n")), None);
    assert_eq!(get_free_disk(&ran("5\n")), None);
    assert_eq!(get_free_disk(&None), None);
}

#[test]
fn reboot_is_required_when_the_disk_differs() {
    let required = |running: DriverProbe, module: Option<CommandOutput>| {
        check_reboot_required(&RebootProbe { running, module })
    };
    assert!(required(running("595.84"), ran("610.1\n")));
    assert!(!required(running("595.84"), ran("595.84\n")));
    assert!(required(nothing_running(), ran("595.84\n")));
    assert!(!required(running("595.84"), None));
    assert!(!required(nothing_running(), failed("595.84")));
    // A line for each GPU.
    assert!(!required(running("595.84\n595.84\n"), ran("595.84\n")));
    assert!(!required(running("595.84\n595.84\n595.84"), ran("595.84\n")));
    assert!(required(running("595.84\n595.84\n"), ran("610.1\n")));
    assert_eq!(get_disk_module_version(&ran("595.84\n")).as_deref(), Some("595.84"));
}

#[test]
fn query_gathers_everything() {
    let info = query_system(&SystemProbe {
        driver: running("595.84\n"),
        gpu: ran("NVIDIA GeForce RTX 4090\n"),
        kernel: ran("6.8.0\n"),
        dkms: ran("nvidia/595.84, 6.8.0, x86_64: installed\n"),
        secure_boot: SecureBootProbe { mokutil: ran("SecureBoot enabled"), efi_variable: None },
        disk: ran("Avail\n4096\n"),
        reboot: RebootProbe { running: running("595.84"), module: ran("610.1") },
    });
    assert_eq!(info.installed_driver.as_deref(), Some("595.84"));
    assert_eq!(info.gpu_name.as_deref(), Some("NVIDIA GeForce RTX 4090"));
    assert_eq!(info.kernel_version, "6.8.0");
    assert_eq!(info.dkms_status.len(), 1);
    assert_eq!(info.secure_boot, SecureBootStatus::Enabled);
    assert_eq!(info.free_disk_bytes, Some(4096));
    assert!(info.reboot_required);
    let copy = info.clone();
    assert_eq!(copy.installed_driver, info.installed_driver);
    assert_eq!(copy.dkms_status[0].kernel, "6.8.0");
    let nothing = SystemInfo::default();
    assert_eq!(nothing.installed_driver, None);
    assert_eq!(nothing.kernel_version, "");
    assert!(nothing.dkms_status.is_empty());
    assert!(!nothing.reboot_required);
}
