use green_light::digest::FileHasher;
use green_light::system::{
    get_installed_driver, CommandOutput, DkmsEntry, DriverProbe, SecureBootStatus, SystemInfo,
    MIN_DISK_BYTES,
};
use green_light::ui::{
    describe_system, describe_version, file_title, finish_download, finish_install,
    report_list_error, report_removal, AfterDownload, AppState, InstallResult, Notice,
    PendingConsent, PendingVerification,
};
use green_light::versions::{driver, DriverBranch};

const ABC: &str = "ba7816bf8f01cfea414140de5dae2223b00361a396177a9cb410ff61f20015ad";
const RUN: &str = "/home/u/Downloads/NVIDIA-Linux-x86_64-595.84.run";

fn info(driver: Option<&str>, free: Option<u64>) -> SystemInfo {
    let mut info = SystemInfo::default();
    info.installed_driver = driver.map(|d| d.to_string());
    info.free_disk_bytes = free;
    info
}

fn state_with(driver_installed: Option<&str>, versions: &[&str]) -> AppState {
    let mut state = AppState::default();
    state.set_sysinfo(info(driver_installed, None));
    state.set_versions(versions.iter().map(|v| driver(v)).collect());
    state
}

fn told(notice: &Notice) -> (Vec<&str>, Option<&str>, Option<&str>) {
    (
        notice.log.iter().map(|s| s.as_str()).collect(),
        notice.progress.as_deref(),
        notice.toast.as_deref(),
    )
}

fn to_verify(checksum: &str) -> PendingVerification {
    match finish_download(Ok(RUN.to_string()), Ok(Some(checksum.to_string()))) {
        AfterDownload::Verify { notice, pending } => {
            let complete = format!("Download complete: {RUN}");
            assert_eq!(
                told(&notice),
                (vec![complete.as_str(), "Verifying SHA256\u{2026}"], Some("Verifying\u{2026}"), None)
            );
            pending
        }
        other => panic!("{other:?}"),
    }
}

fn to_decide(checksum: Result<Option<String>, String>) -> (String, Vec<String>, PendingConsent) {
    match finish_download(Ok(RUN.to_string()), checksum) {
        AfterDownload::Ask { notice, question, undecided } => {
            assert_eq!(notice.progress.as_deref(), Some("Downloaded \u{2014} not verified"));
            assert_eq!(notice.toast, None);
            (question, notice.log, undecided)
        }
        other => panic!("{other:?}"),
    }
}

#[test]
fn starts_with_nothing_to_install() {
    let state = AppState::default();
    assert!(state.versions().is_empty());
    assert!(state.install_request().is_none());
    assert!(state.download_request().is_none());
    assert!(state.checksum_can_be_shown());
    let tab = state.config_tab();
    assert_eq!(tab.file_title, "No file selected");
    assert_eq!(tab.file_subtitle, "Go to Browse tab to select or download a driver");
    assert_eq!(tab.checksum, "\u{2014}");
    assert_eq!(tab.version_status, "\u{2014}");
    assert!(!tab.can_install);
    assert_eq!(tab.disk, "Could not determine");
    assert_eq!(tab.secure_boot, "Unknown");
}

#[test]
fn file_titles_are_those_of_std() {
    let samples = [
        "", "/", ".", "..", "a", "/a", "a/", "a//", "a/.", "a/..", "./a", "/a/b.run", "/a/b.run/./",
        "../", "a/../b", "/..", "a/. /", " ", "\u{e9}/\u{e8}",
    ];
    for path in samples {
        let expected = std::path::Path::new(path)
            .file_name()
            .and_then(|n| n.to_str())
            .unwrap_or(path);
        assert_eq!(file_title(path), expected, "{path}");
    }
}

#[test]
fn version_status_of_a_file() {
    let name = "NVIDIA-Linux-x86_64-595.84.run";
    let status = |name: &str, installed: Option<&str>| {
        describe_version(name, &installed.map(|s| s.to_string()))
    };
    assert_eq!(status(name, Some("580.1")), "Upgrade: 580.1 \u{2192} 595.84");
    assert_eq!(status(name, Some("595.84")), "Reinstall: same version (595.84)");
    assert_eq!(status(name, Some("610.1")), "Downgrade: 610.1 \u{2192} 595.84");
    assert_eq!(status(name, Some("abc")), "\u{2014}");
    assert_eq!(status(name, None), "No driver currently installed");
    assert_eq!(status("NVIDIA-Linux-x86_64-595.84-vulkan.run", Some("580.1")), "Unknown");
    assert_eq!(status("other.run", None), "Unknown");
}

#[test]
fn config_tab_checks_disk_and_secure_boot() {
    let mut state = AppState::default();
    let mut low = info(None, Some(MIN_DISK_BYTES - 1));
    low.secure_boot = SecureBootStatus::Enabled;
    state.set_sysinfo(low);
    let tab = state.config_tab();
    assert_eq!(tab.disk, "Low: 2.0 GB free (2 GB recommended)");
    assert_eq!(tab.secure_boot, "Enabled \u{2014} MOK enrollment may be required after install");
    let mut enough = info(None, Some(MIN_DISK_BYTES));
    enough.secure_boot = SecureBootStatus::Disabled;
    state.set_sysinfo(enough);
    let tab = state.config_tab();
    assert_eq!(tab.disk, "2.0 GB free");
    assert_eq!(tab.secure_boot, "Disabled");
}

#[test]
fn verified_download_is_installed_with_its_checksum() {
    let mut state = state_with(Some("580.1"), &["595.84"]);
    let hasher = FileHasher::new().update(b"abc");
    let (notice, accepted) = state.finish_verification(to_verify(ABC), Ok(hasher));
    assert!(accepted);
    assert_eq!(told(&notice), (vec!["SHA256 verified OK"], Some("Verified"), Some("Download complete")));
    assert!(state.checksum_can_be_shown());
    let tab = state.config_tab();
    assert_eq!(tab.file_title, "NVIDIA-Linux-x86_64-595.84.run");
    assert_eq!(tab.file_subtitle, RUN);
    assert_eq!(tab.checksum, "SHA256: ba7816bf8f01cfea\u{2026}");
    assert_eq!(tab.version_status, "Upgrade: 580.1 \u{2192} 595.84");
    assert!(tab.can_install);
    let request = state.install_request().unwrap();
    assert_eq!(request.options.run_file, RUN);
    assert_eq!(request.options.sha256.as_deref(), Some(ABC));
    assert!(request.options.use_dkms);
    assert!(!request.options.hold_packages);
    let starting = format!("Starting install: {RUN}");
    assert_eq!(
        told(&request.notice),
        (
            vec![
                starting.as_str(),
                "The new driver installs alongside the running one; reboot afterward to switch over.",
            ],
            Some("Installing\u{2026} the desktop stays up; this takes a few minutes"),
            None
        )
    );
}

#[test]
fn failed_verification_installs_nothing() {
    let mut state = AppState::default();
    let hasher = FileHasher::new().update(b"abd");
    let (notice, accepted) = state.finish_verification(to_verify(ABC), Ok(hasher));
    assert!(!accepted);
    assert!(notice.log[0].starts_with("SHA256 FAILED: SHA256 mismatch:\n  expected: ba7816bf"));
    assert_eq!((notice.progress, notice.toast), (None, None));
    let (notice, accepted) = state.finish_verification(to_verify(ABC), Err("no file".to_string()));
    assert!(!accepted);
    assert_eq!(told(&notice), (vec!["SHA256 FAILED: no file"], None, None));
    assert!(state.install_request().is_none());
    let toast = Some("Checksum mismatch \u{2014} do not install");
    assert_eq!(
        told(&report_removal("/f", None)),
        (vec!["Deleted corrupt file: /f"], Some("Checksum mismatch \u{2014} file deleted"), toast)
    );
    assert_eq!(
        told(&report_removal("/f", Some("busy".to_string()))),
        (
            vec!["Could not delete file: busy"],
            Some("Checksum mismatch \u{2014} delete the file manually"),
            toast
        )
    );
}

#[test]
fn unverified_download_is_put_to_the_user() {
    let warning = "\n\nThe download cannot be verified against NVIDIA's published hash. \
                   Only continue if you trust the network you downloaded it over.";
    let (none, log, _) = to_decide(Ok(None));
    assert_eq!(none, format!("NVIDIA does not publish a SHA256 checksum for this version.{warning}"));
    assert_eq!(log[0], format!("Download complete: {RUN}"));
    assert_eq!(log[1], "NVIDIA publishes no SHA256 checksum for this version");
    let (fetch, log, _) = to_decide(Err("timeout".to_string()));
    assert_eq!(fetch, format!("The SHA256 checksum could not be fetched (timeout).{warning}"));
    assert_eq!(log[1], "Could not fetch the SHA256 checksum: timeout");
}

#[test]
fn user_decides_on_an_unverified_download() {
    let mut state = AppState::default();
    for response in ["cancel", "", "USE", "use "] {
        let (_, _, undecided) = to_decide(Ok(None));
        let (notice, accepted) = state.decide(undecided, response);
        assert!(!accepted);
        let discarded = format!("Discarded unverified download: {RUN}");
        assert_eq!(
            told(&notice),
            (
                vec![discarded.as_str()],
                Some("Discarded (not verified)"),
                Some("Unverified download discarded")
            )
        );
        assert!(state.install_request().is_none());
    }
    let (_, _, undecided) = to_decide(Ok(None));
    let (notice, accepted) = state.decide(undecided, "use");
    assert!(accepted);
    assert_eq!(
        told(&notice),
        (
            vec!["User chose to continue WITHOUT checksum verification"],
            Some("Complete (unverified)"),
            Some("Download complete (unverified)")
        )
    );
    assert_eq!(state.install_request().unwrap().options.sha256, None);
    assert_eq!(state.config_tab().checksum, "No checksum available");
}

#[test]
fn failed_download_is_reported() {
    match finish_download(Err("Download cancelled".to_string()), Ok(None)) {
        AfterDownload::Stop { notice } => {
            assert_eq!(told(&notice), (vec!["Download cancelled."], Some("Cancelled"), None))
        }
        other => panic!("{other:?}"),
    }
    match finish_download(Err("HTTP 404".to_string()), Ok(Some(ABC.to_string()))) {
        AfterDownload::Stop { notice } => assert_eq!(
            told(&notice),
            (vec!["Download failed: HTTP 404"], Some("Download failed"), Some("Download failed"))
        ),
        other => panic!("{other:?}"),
    }
}

#[test]
fn opened_file_drops_the_checksum() {
    let mut state = AppState::default();
    let hasher = FileHasher::new().update(b"abc");
    state.finish_verification(to_verify(ABC), Ok(hasher));
    assert_eq!(state.open_file("/tmp/x.run".to_string()), "Opened local file: /tmp/x.run");
    state.set_use_dkms(false);
    state.set_hold_packages(true);
    state.set_sysinfo(info(None, Some(1)));
    let request = state.install_request().unwrap();
    assert_eq!(request.options.run_file, "/tmp/x.run");
    assert_eq!(request.options.sha256, None);
    assert!(!request.options.use_dkms);
    assert!(request.options.hold_packages);
    assert_eq!(
        request.notice.toast.as_deref(),
        Some("Warning: low disk space \u{2014} install may fail")
    );
}

#[test]
fn rows_show_how_versions_relate() {
    let state = state_with(Some("595.84"), &["610.1", "595.84", "595.084", "570.2"]);
    let rows = state.rows("");
    let shown: Vec<(&str, &str, bool)> = rows
        .iter()
        .map(|r| (r.title.as_str(), r.subtitle.as_str(), r.installed))
        .collect();
    assert_eq!(
        shown,
        [
            ("610.1", "NVIDIA-Linux-x86_64-610.1.run \u{b7} Upgrade available", false),
            ("595.84", "NVIDIA-Linux-x86_64-595.84.run \u{b7} Currently installed", true),
            ("595.084", "NVIDIA-Linux-x86_64-595.084.run \u{b7} Currently installed", false),
            ("570.2", "NVIDIA-Linux-x86_64-570.2.run \u{b7} Older than installed", false),
        ]
    );
    assert_eq!(rows[0].branch, Some(DriverBranch::NewFeature));
    assert_eq!(rows[3].branch, None);
    let plain = state_with(None, &["610.1"]).rows("");
    assert_eq!(plain[0].subtitle, "NVIDIA-Linux-x86_64-610.1.run");
    let unknown = state_with(Some("abc"), &["610.1"]).rows("");
    assert_eq!(unknown[0].subtitle, "NVIDIA-Linux-x86_64-610.1.run");
}

#[test]
fn two_gpus_show_one_version() {
    let smi = CommandOutput { success: true, stdout: b"595.84\n595.84\n".to_vec() };
    let probe = DriverProbe { smi: Some(smi), proc_version: None };
    let installed = get_installed_driver(&probe);
    let state = state_with(installed.as_deref(), &["595.84"]);
    assert!(state.rows("")[0].installed);
    assert_eq!(
        describe_version("NVIDIA-Linux-x86_64-595.84.run", &installed),
        "Reinstall: same version (595.84)"
    );
}

#[test]
fn search_filters_and_selection_follows_the_title() {
    let mut state = state_with(None, &["610.1", "595.84", "595.91", "570.2"]);
    let rows = state.rows("595");
    assert_eq!(rows.iter().map(|r| r.title.as_str()).collect::<Vec<_>>(), ["595.84", "595.91"]);
    assert!(state.rows("x").is_empty());
    assert!(state.rows("\u{c9}").is_empty());
    assert_eq!(state.select(Some(&rows[1].title)), ("Selected: 595.91".to_string(), true));
    let request = state.download_request().unwrap();
    assert_eq!(request.driver.version, "595.91");
    assert_eq!(told(&request.notice), (vec![], Some("Downloading 595.91\u{2026}"), None));
    state.set_sysinfo(info(None, Some(0)));
    assert_eq!(
        state.download_request().unwrap().notice.toast.as_deref(),
        Some("Low disk space \u{2014} install may fail")
    );
    let none = ("No version selected".to_string(), false);
    assert_eq!(state.select(Some("1.2")), none);
    assert!(state.download_request().is_none());
    state.select(Some("610.1"));
    assert_eq!(state.select(None), none);
    assert!(state.download_request().is_none());
}

#[test]
fn search_text_is_taken_in_lower_case() {
    let mut state = AppState::default();
    let mut beta = driver("595.84");
    beta.version = "595.84-beta\u{e9}".to_string();
    state.set_versions(vec![beta]);
    assert_eq!(state.rows("BETA").len(), 1);
    assert_eq!(state.rows("Beta\u{c9}").len(), 1);
}

#[test]
fn list_notices() {
    let state = state_with(None, &["610.1", "595.84"]);
    let notice = state.report_list();
    assert_eq!(notice.log, "Found 2 versions");
    assert_eq!((notice.banner, notice.selection), (None, None));
    let notice = report_list_error("timeout");
    assert_eq!(notice.log, "Error fetching versions: timeout");
    assert_eq!(notice.banner.as_deref(), Some("Failed to load versions: timeout"));
    assert_eq!(notice.selection.as_deref(), Some("Could not load version list"));
}

#[test]
fn system_page_of_a_known_system() {
    let mut known = info(Some("595.84"), Some(5 * 1_073_741_824 / 2));
    known.gpu_name = Some("RTX".to_string());
    known.kernel_version = "6.8".to_string();
    known.secure_boot = SecureBootStatus::Enabled;
    known.reboot_required = true;
    for kernel in ["6.8", "6.9"] {
        known.dkms_status.push(DkmsEntry {
            module: "nvidia".to_string(),
            version: "595.84".to_string(),
            kernel: kernel.to_string(),
            status: "installed".to_string(),
        });
    }
    let page = describe_system(&known);
    assert_eq!(page.gpu, "RTX");
    assert_eq!(page.driver, "595.84");
    assert_eq!(page.badge, "Driver: 595.84");
    assert_eq!(page.log, "Installed driver: 595.84");
    assert_eq!(page.kernel, "6.8");
    assert_eq!(page.dkms, "nvidia/595.84 [6.8] installed\nnvidia/595.84 [6.9] installed");
    assert_eq!(page.secure_boot, "Enabled (MOK enrollment may be required)");
    assert_eq!(page.disk, "2.5 GB free on /");
    assert_eq!(page.reboot, "Yes \u{2014} new driver installed, reboot to activate");
    assert!(page.reboot_banner);
}

#[test]
fn system_page_of_an_unknown_system() {
    let page = describe_system(&SystemInfo::default());
    assert_eq!(page.gpu, "Not detected");
    assert_eq!(page.driver, "Not installed");
    assert_eq!(page.badge, "Driver: not installed");
    assert_eq!(page.log, "No NVIDIA driver detected");
    assert_eq!(page.dkms, "No NVIDIA DKMS modules registered");
    assert_eq!(page.disk, "Could not determine");
    assert_eq!(page.reboot, "No");
    assert!(!page.reboot_banner);
}

#[test]
fn install_results_are_reported() {
    let (notice, query) = finish_install(&InstallResult::Installed);
    assert!(query);
    assert_eq!(
        told(&notice),
        (
            vec!["Install completed successfully.", "Reboot to switch to the new driver."],
            None,
            Some("Install complete \u{2014} reboot to activate")
        )
    );
    let (notice, query) = finish_install(&InstallResult::Failed { error: "x".to_string() });
    assert!(!query);
    assert_eq!(
        told(&notice),
        (vec!["Install failed: x"], None, Some("Install failed \u{2014} see Log tab"))
    );
    let (notice, query) = finish_install(&InstallResult::Interrupted { error: "x".to_string() });
    assert!(!query);
    assert_eq!(told(&notice), (vec!["Task error: x"], None, None));
}

#[test]
fn about_text_describes_the_system() {
    let mut state = AppState::default();
    let mut known = info(Some("595.84"), None);
    known.kernel_version = "6.8".to_string();
    state.set_sysinfo(known);
    assert_eq!(
        state.about_text(),
        "GTK4 + Rust GUI for installing NVIDIA drivers from official .run files.\n\n\
         GPU: Not detected\nDriver: 595.84\nKernel: 6.8"
    );
}

#[test]
fn checksum_that_cannot_be_cut_is_recognised() {
    let mut state = AppState::default();
    assert!(state.checksum_can_be_shown());
    let short = FileHasher::new().update(b"abc");
    let (_, accepted) = state.finish_verification(to_verify("\u{e9}"), Ok(short));
    assert!(!accepted);
    assert!(state.checksum_can_be_shown());
}
