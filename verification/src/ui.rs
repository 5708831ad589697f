//! What the window shows, and how the user's choices change what it holds.

use crate::digest;
use crate::digest::FileHasher;
use crate::download;
use crate::install::{InstallOptions, InstallOptionsView};
use crate::number;
use crate::system;
use crate::system::{DkmsEntry, DkmsEntryView, SecureBootStatus, SystemInfo, SystemInfoView};
use crate::text;
use crate::text::Separator;
use crate::versions;
use crate::versions::{DriverBranch, DriverVersion, DriverVersionView, VersionRelation};
use vstd::prelude::*;
use vstd::utf8::*;

verus! {

/// What the application holds.
pub struct AppState {
    versions: Vec<DriverVersion>,
    selected_version: Option<DriverVersion>,
    downloaded_path: Option<String>,
    expected_checksum: Option<String>,
    use_dkms: bool,
    hold_packages: bool,
    sysinfo: SystemInfo,
}

/// What an `AppState` holds.
pub struct AppStateView {
    /// The drivers that can be downloaded.
    pub versions: Seq<DriverVersionView>,
    /// The driver that is selected for download.
    pub selected_version: Option<DriverVersionView>,
    /// The file to install.
    pub downloaded_path: Option<Seq<char>>,
    /// The published checksum of that file, if it was verified.
    pub expected_checksum: Option<Seq<char>>,
    pub use_dkms: bool,
    pub hold_packages: bool,
    pub sysinfo: SystemInfoView,
}

impl View for AppState {
    type V = AppStateView;

    closed spec fn view(&self) -> AppStateView {
        AppStateView {
            versions: self.versions.deep_view(),
            selected_version: self.selected_version.deep_view(),
            downloaded_path: self.downloaded_path.deep_view(),
            expected_checksum: self.expected_checksum.deep_view(),
            use_dkms: self.use_dkms,
            hold_packages: self.hold_packages,
            sysinfo: self.sysinfo@,
        }
    }
}

/// What the application holds when it starts.
pub open spec fn initial_state() -> AppStateView {
    AppStateView {
        versions: Seq::empty(),
        selected_version: None,
        downloaded_path: None,
        expected_checksum: None,
        use_dkms: true,
        hold_packages: false,
        sysinfo: system::nothing_known(),
    }
}

impl Default for AppState {
    fn default() -> (r: AppState)
        ensures
            r@ == initial_state(),
    {
        let versions: Vec<DriverVersion> = Vec::new();
        assert(versions.deep_view() == Seq::<DriverVersionView>::empty());
        AppState {
            versions,
            selected_version: None,
            downloaded_path: None,
            expected_checksum: None,
            use_dkms: true,
            hold_packages: false,
            sysinfo: SystemInfo::default(),
        }
    }
}

/// The last of `parts` that names a file or directory: one that is neither
/// empty nor a dot, unless it is two dots.
pub open spec fn last_name(parts: Seq<Seq<char>>) -> Option<Seq<char>>
    decreases parts.len(),
{
    if parts.len() == 0 {
        None
    } else if parts.last().len() == 0 || parts.last() == "."@ {
        last_name(parts.drop_last())
    } else if parts.last() == ".."@ {
        None
    } else {
        Some(parts.last())
    }
}

/// The file name at the end of a path; the path itself if it has none.
pub open spec fn shown_name(path: Seq<char>) -> Seq<char> {
    match last_name(text::split(path, Separator::Slash)) {
        Some(name) => name,
        None => path,
    }
}

/// The file name at the end of `path`; `path` itself if it has none.
pub fn file_title(path: &str) -> (r: String)
    ensures
        r@ == shown_name(path@),
{
    let parts = text::split_text(path, Separator::Slash);
    let ghost all = parts.deep_view();
    let mut i: usize = parts.len();
    assert(all.take(i as int) == all);
    while i > 0
        invariant
            i <= parts@.len(),
            all == parts.deep_view(),
            all == text::split(path@, Separator::Slash),
            last_name(all) == last_name(all.take(i as int)),
        decreases i,
    {
        i = i - 1;
        proof {
            assert(all.take(i + 1).last() == parts@[i as int]@);
            assert(all.take(i + 1).drop_last() == all.take(i as int));
        }
        let part = parts[i].as_str();
        if part.is_empty() || text::same(part, ".") {
            continue;
        }
        if text::same(part, "..") {
            return path.to_string();
        }
        return part.to_string();
    }
    path.to_string()
}

/// The page that configures an install.
#[derive(Debug)]
pub struct ConfigTab {
    pub file_title: String,
    pub file_subtitle: String,
    pub checksum: String,
    pub version_status: String,
    pub can_install: bool,
    pub disk: String,
    pub secure_boot: String,
}

/// What a `ConfigTab` holds.
pub struct ConfigTabView {
    pub file_title: Seq<char>,
    pub file_subtitle: Seq<char>,
    pub checksum: Seq<char>,
    pub version_status: Seq<char>,
    pub can_install: bool,
    pub disk: Seq<char>,
    pub secure_boot: Seq<char>,
}

impl View for ConfigTab {
    type V = ConfigTabView;

    open spec fn view(&self) -> ConfigTabView {
        ConfigTabView {
            file_title: self.file_title@,
            file_subtitle: self.file_subtitle@,
            checksum: self.checksum@,
            version_status: self.version_status@,
            can_install: self.can_install,
            disk: self.disk@,
            secure_boot: self.secure_boot@,
        }
    }
}

/// How many bytes of a checksum are shown.
pub const SHOWN_CHECKSUM: usize = 16;

/// Whether a checksum can be cut after the bytes that are shown.
pub open spec fn can_be_cut(checksum: Seq<char>) -> bool {
    is_char_boundary(encode_utf8(checksum), SHOWN_CHECKSUM as int)
}

/// The text for a checksum: its beginning.
pub open spec fn checksum_text(checksum: Option<Seq<char>>) -> Seq<char> {
    match checksum {
        Some(c) => "SHA256: "@ + decode_utf8(encode_utf8(c).subrange(0, SHOWN_CHECKSUM as int))
            + "\u{2026}"@,
        None => "No checksum available"@,
    }
}

/// The text for what installing a file would do to the installed driver.
pub open spec fn version_status_text(filename: Seq<char>, installed: Option<Seq<char>>) -> Seq<
    char,
> {
    match (versions::version_of_filename(filename), installed) {
        (None, _) => "Unknown"@,
        (Some(_), None) => "No driver currently installed"@,
        (Some(candidate), Some(current)) => match versions::relation(current, candidate) {
            VersionRelation::Newer => "Upgrade: "@ + current + " \u{2192} "@ + candidate,
            VersionRelation::Same => "Reinstall: same version ("@ + current + ")"@,
            VersionRelation::Older => "Downgrade: "@ + current + " \u{2192} "@ + candidate,
            VersionRelation::Unknown => "\u{2014}"@,
        },
    }
}

/// The text of the check for disk space before an install.
pub open spec fn disk_check_text(free: Option<u64>) -> Seq<char> {
    match free {
        Some(n) => if n < system::MIN_DISK_BYTES {
            "Low: "@ + system::bytes_text(n as nat) + " free (2 GB recommended)"@
        } else {
            system::bytes_text(n as nat) + " free"@
        },
        None => "Could not determine"@,
    }
}

/// The text of the check for Secure Boot before an install.
pub open spec fn secure_boot_check_text(status: SecureBootStatus) -> Seq<char> {
    match status {
        SecureBootStatus::Enabled =>
            "Enabled \u{2014} MOK enrollment may be required after install"@,
        SecureBootStatus::Disabled => "Disabled"@,
        SecureBootStatus::Unknown => "Unknown"@,
    }
}

impl AppStateView {
    /// Whether the checksum of the file to install, if there is one, can be
    /// shown.
    pub open spec fn checksum_can_be_shown(self) -> bool {
        self.downloaded_path is Some ==> (self.expected_checksum matches Some(c) ==> can_be_cut(c))
    }

    /// The page that configures an install.
    pub open spec fn config_tab(self) -> ConfigTabView {
        let disk = disk_check_text(self.sysinfo.free_disk_bytes);
        let secure_boot = secure_boot_check_text(self.sysinfo.secure_boot);
        match self.downloaded_path {
            Some(path) => ConfigTabView {
                file_title: shown_name(path),
                file_subtitle: path,
                checksum: checksum_text(self.expected_checksum),
                version_status: version_status_text(
                    shown_name(path),
                    self.sysinfo.installed_driver,
                ),
                can_install: true,
                disk,
                secure_boot,
            },
            None => ConfigTabView {
                file_title: "No file selected"@,
                file_subtitle: "Go to Browse tab to select or download a driver"@,
                checksum: "\u{2014}"@,
                version_status: "\u{2014}"@,
                can_install: false,
                disk,
                secure_boot,
            },
        }
    }
}

fn describe_checksum(checksum: &Option<String>) -> (r: String)
    requires
        checksum.deep_view() matches Some(c) ==> can_be_cut(c),
    ensures
        r@ == checksum_text(checksum.deep_view()),
{
    match checksum {
        Some(c) => {
            let (shown, _) = c.as_str().split_at(SHOWN_CHECKSUM);
            proof {
                encode_utf8_decode_utf8(shown@);
            }
            let mut r = "SHA256: ".to_string();
            r.append(shown);
            r.append("\u{2026}");
            r
        },
        None => "No checksum available".to_string(),
    }
}

/// What installing the file `filename` would do to the driver `installed`.
pub fn describe_version(filename: &str, installed: &Option<String>) -> (r: String)
    ensures
        r@ == version_status_text(filename@, installed.deep_view()),
{
    let candidate = match versions::version_from_filename(filename) {
        Some(candidate) => candidate,
        None => {
            return "Unknown".to_string();
        },
    };
    match installed {
        Some(current) => match versions::compare_versions(current.as_str(), candidate.as_str()) {
            VersionRelation::Newer => {
                let mut r = "Upgrade: ".to_string();
                r.append(current.as_str());
                r.append(" \u{2192} ");
                r.append(candidate.as_str());
                r
            },
            VersionRelation::Same => {
                let mut r = "Reinstall: same version (".to_string();
                r.append(current.as_str());
                r.append(")");
                r
            },
            VersionRelation::Older => {
                let mut r = "Downgrade: ".to_string();
                r.append(current.as_str());
                r.append(" \u{2192} ");
                r.append(candidate.as_str());
                r
            },
            VersionRelation::Unknown => "\u{2014}".to_string(),
        },
        None => "No driver currently installed".to_string(),
    }
}

fn describe_disk_check(free: Option<u64>) -> (r: String)
    ensures
        r@ == disk_check_text(free),
{
    match free {
        Some(n) => {
            if n < system::MIN_DISK_BYTES {
                let mut r = "Low: ".to_string();
                r.append(system::format_bytes(n).as_str());
                r.append(" free (2 GB recommended)");
                r
            } else {
                let mut r = system::format_bytes(n);
                r.append(" free");
                r
            }
        },
        None => "Could not determine".to_string(),
    }
}

fn describe_secure_boot_check(status: SecureBootStatus) -> (r: String)
    ensures
        r@ == secure_boot_check_text(status),
{
    match status {
        SecureBootStatus::Enabled =>
            "Enabled \u{2014} MOK enrollment may be required after install".to_string(),
        SecureBootStatus::Disabled => "Disabled".to_string(),
        SecureBootStatus::Unknown => "Unknown".to_string(),
    }
}

impl AppState {
    /// Whether the checksum of the file to install, if there is one, can be
    /// shown.
    pub fn checksum_can_be_shown(&self) -> (r: bool)
        ensures
            r == self@.checksum_can_be_shown(),
    {
        if self.downloaded_path.is_some() {
            match &self.expected_checksum {
                Some(c) => c.as_str().is_char_boundary(SHOWN_CHECKSUM),
                None => true,
            }
        } else {
            true
        }
    }

    /// The page that configures an install.
    pub fn config_tab(&self) -> (r: ConfigTab)
        requires
            self@.checksum_can_be_shown(),
        ensures
            r@ == self@.config_tab(),
    {
        let disk = describe_disk_check(self.sysinfo.free_disk_bytes);
        let secure_boot = describe_secure_boot_check(self.sysinfo.secure_boot);
        match &self.downloaded_path {
            Some(path) => {
                let file_title = file_title(path.as_str());
                let version_status = describe_version(
                    file_title.as_str(),
                    &self.sysinfo.installed_driver,
                );
                ConfigTab {
                    file_title,
                    file_subtitle: path.clone(),
                    checksum: describe_checksum(&self.expected_checksum),
                    version_status,
                    can_install: true,
                    disk,
                    secure_boot,
                }
            },
            None => ConfigTab {
                file_title: "No file selected".to_string(),
                file_subtitle: "Go to Browse tab to select or download a driver".to_string(),
                checksum: "\u{2014}".to_string(),
                version_status: "\u{2014}".to_string(),
                can_install: false,
                disk,
                secure_boot,
            },
        }
    }
}

/// The page that describes the system.
#[derive(Debug)]
pub struct SystemPage {
    pub gpu: String,
    pub driver: String,
    pub badge: String,
    pub log: String,
    pub kernel: String,
    pub dkms: String,
    pub secure_boot: String,
    pub disk: String,
    pub reboot: String,
    /// Whether the banner that asks for a reboot is shown.
    pub reboot_banner: bool,
}

/// What a `SystemPage` holds.
pub struct SystemPageView {
    pub gpu: Seq<char>,
    pub driver: Seq<char>,
    pub badge: Seq<char>,
    pub log: Seq<char>,
    pub kernel: Seq<char>,
    pub dkms: Seq<char>,
    pub secure_boot: Seq<char>,
    pub disk: Seq<char>,
    pub reboot: Seq<char>,
    pub reboot_banner: bool,
}

impl View for SystemPage {
    type V = SystemPageView;

    open spec fn view(&self) -> SystemPageView {
        SystemPageView {
            gpu: self.gpu@,
            driver: self.driver@,
            badge: self.badge@,
            log: self.log@,
            kernel: self.kernel@,
            dkms: self.dkms@,
            secure_boot: self.secure_boot@,
            disk: self.disk@,
            reboot: self.reboot@,
            reboot_banner: self.reboot_banner,
        }
    }
}

/// The text `s`, or `default` if there is none.
pub open spec fn text_or(s: Option<Seq<char>>, default: Seq<char>) -> Seq<char> {
    match s {
        Some(s) => s,
        None => default,
    }
}

fn pick_text(s: &Option<String>, default: &str) -> (r: String)
    ensures
        r@ == text_or(s.deep_view(), default@),
{
    match s {
        Some(s) => s.clone(),
        None => default.to_string(),
    }
}

/// The text of a module that DKMS knows.
pub open spec fn dkms_line(entry: DkmsEntryView) -> Seq<char> {
    entry.module + "/"@ + entry.version + " ["@ + entry.kernel + "] "@ + entry.status
}

/// The texts of modules, each on a line of its own.
pub open spec fn dkms_lines(entries: Seq<DkmsEntryView>) -> Seq<char>
    decreases entries.len(),
{
    if entries.len() == 0 {
        Seq::empty()
    } else if entries.len() == 1 {
        dkms_line(entries[0])
    } else {
        dkms_lines(entries.drop_last()) + "\n"@ + dkms_line(entries.last())
    }
}

/// The text for the modules that DKMS knows.
pub open spec fn dkms_summary(entries: Seq<DkmsEntryView>) -> Seq<char> {
    if entries.len() == 0 {
        "No NVIDIA DKMS modules registered"@
    } else {
        dkms_lines(entries)
    }
}

/// The page for what is known about the system.
pub open spec fn system_page(info: SystemInfoView) -> SystemPageView {
    SystemPageView {
        gpu: text_or(info.gpu_name, "Not detected"@),
        driver: text_or(info.installed_driver, "Not installed"@),
        badge: "Driver: "@ + text_or(info.installed_driver, "not installed"@),
        log: match info.installed_driver {
            Some(version) => "Installed driver: "@ + version,
            None => "No NVIDIA driver detected"@,
        },
        kernel: info.kernel_version,
        dkms: dkms_summary(info.dkms_status),
        secure_boot: info.secure_boot.text(),
        disk: match info.free_disk_bytes {
            Some(n) => system::bytes_text(n as nat) + " free on /"@,
            None => "Could not determine"@,
        },
        reboot: if info.reboot_required {
            "Yes \u{2014} new driver installed, reboot to activate"@
        } else {
            "No"@
        },
        reboot_banner: info.reboot_required,
    }
}

fn describe_dkms_entry(entry: &DkmsEntry) -> (r: String)
    ensures
        r@ == dkms_line(entry@),
{
    let mut r = entry.module.clone();
    r.append("/");
    r.append(entry.version.as_str());
    r.append(" [");
    r.append(entry.kernel.as_str());
    r.append("] ");
    r.append(entry.status.as_str());
    r
}

fn describe_dkms(entries: &Vec<DkmsEntry>) -> (r: String)
    ensures
        r@ == dkms_summary(entries.deep_view()),
{
    if entries.len() == 0 {
        return "No NVIDIA DKMS modules registered".to_string();
    }
    let ghost all = entries.deep_view();
    let mut r = describe_dkms_entry(&entries[0]);
    let mut i: usize = 1;
    assert(all.take(1)[0] == entries@[0]@);
    while i < entries.len()
        invariant
            1 <= i <= entries@.len(),
            all == entries.deep_view(),
            r@ == dkms_lines(all.take(i as int)),
        decreases entries@.len() - i,
    {
        proof {
            assert(all.take(i + 1).drop_last() == all.take(i as int));
            assert(all.take(i + 1).last() == entries@[i as int]@);
        }
        r.append("\n");
        r.append(describe_dkms_entry(&entries[i]).as_str());
        i = i + 1;
    }
    assert(all.take(i as int) == all);
    r
}

/// The page for what is known about the system.
pub fn describe_system(info: &SystemInfo) -> (r: SystemPage)
    ensures
        r@ == system_page(info@),
{
    let mut badge = "Driver: ".to_string();
    badge.append(pick_text(&info.installed_driver, "not installed").as_str());
    let log = match &info.installed_driver {
        Some(version) => {
            let mut log = "Installed driver: ".to_string();
            log.append(version.as_str());
            log
        },
        None => "No NVIDIA driver detected".to_string(),
    };
    let disk = match info.free_disk_bytes {
        Some(n) => {
            let mut disk = system::format_bytes(n);
            disk.append(" free on /");
            disk
        },
        None => "Could not determine".to_string(),
    };
    let reboot = if info.reboot_required {
        "Yes \u{2014} new driver installed, reboot to activate"
    } else {
        "No"
    };
    SystemPage {
        gpu: pick_text(&info.gpu_name, "Not detected"),
        driver: pick_text(&info.installed_driver, "Not installed"),
        badge,
        log,
        kernel: info.kernel_version.clone(),
        dkms: describe_dkms(&info.dkms_status),
        secure_boot: info.secure_boot.to_string(),
        disk,
        reboot: reboot.to_string(),
        reboot_banner: info.reboot_required,
    }
}

/// A row of the list of versions.
#[derive(Debug)]
pub struct VersionRow {
    pub title: String,
    pub subtitle: String,
    /// Whether the row is highlighted as the installed version.
    pub installed: bool,
    /// The branch that the badge of the row names; no badge without one.
    pub branch: Option<DriverBranch>,
}

/// What a `VersionRow` holds.
pub struct VersionRowView {
    pub title: Seq<char>,
    pub subtitle: Seq<char>,
    pub installed: bool,
    pub branch: Option<DriverBranch>,
}

impl View for VersionRow {
    type V = VersionRowView;

    open spec fn view(&self) -> VersionRowView {
        VersionRowView {
            title: self.title@,
            subtitle: self.subtitle@,
            installed: self.installed,
            branch: self.branch,
        }
    }
}

impl DeepView for VersionRow {
    type V = VersionRowView;

    open spec fn deep_view(&self) -> VersionRowView {
        self@
    }
}

/// The text under the title of a row: the file name, and how the version
/// relates to the installed one.
pub open spec fn row_subtitle(driver: DriverVersionView, installed: Option<Seq<char>>) -> Seq<
    char,
> {
    match installed {
        Some(current) => match versions::relation(current, driver.version) {
            VersionRelation::Newer => driver.filename + " \u{b7} Upgrade available"@,
            VersionRelation::Same => driver.filename + " \u{b7} Currently installed"@,
            VersionRelation::Older => driver.filename + " \u{b7} Older than installed"@,
            VersionRelation::Unknown => driver.filename,
        },
        None => driver.filename,
    }
}

/// The row of a driver.
pub open spec fn version_row(
    driver: DriverVersionView,
    installed: Option<Seq<char>>,
) -> VersionRowView {
    VersionRowView {
        title: driver.version,
        subtitle: row_subtitle(driver, installed),
        installed: installed == Some(driver.version),
        branch: driver.branch,
    }
}

/// The rows of the drivers whose version contains `filter`, in order.
pub open spec fn rows_matching(
    drivers: Seq<DriverVersionView>,
    filter: Seq<char>,
    installed: Option<Seq<char>>,
) -> Seq<VersionRowView>
    decreases drivers.len(),
{
    if drivers.len() == 0 {
        seq![]
    } else {
        let rest = rows_matching(drivers.drop_last(), filter, installed);
        if text::contains(drivers.last().version, filter) {
            rest.push(version_row(drivers.last(), installed))
        } else {
            rest
        }
    }
}

/// The rows that the search text `search` leaves of a list. Its case does not
/// matter.
pub open spec fn version_rows(
    drivers: Seq<DriverVersionView>,
    search: Seq<char>,
    installed: Option<Seq<char>>,
) -> Seq<VersionRowView> {
    rows_matching(drivers, text::lowercase(search), installed)
}

fn describe_row(driver: &DriverVersion, installed: &Option<String>) -> (r: VersionRow)
    ensures
        r@ == version_row(driver@, installed.deep_view()),
{
    let mut subtitle = driver.filename.clone();
    let mut is_installed = false;
    if let Some(current) = installed {
        match versions::compare_versions(current.as_str(), driver.version.as_str()) {
            VersionRelation::Newer => {
                subtitle.append(" \u{b7} Upgrade available");
            },
            VersionRelation::Same => {
                subtitle.append(" \u{b7} Currently installed");
            },
            VersionRelation::Older => {
                subtitle.append(" \u{b7} Older than installed");
            },
            VersionRelation::Unknown => {},
        }
        is_installed = text::same(current.as_str(), driver.version.as_str());
    }
    VersionRow {
        title: driver.version.clone(),
        subtitle,
        installed: is_installed,
        branch: driver.branch,
    }
}

/// The rows that the search text `filter` leaves of the list of `drivers`, next
/// to the driver `installed`.
pub fn populate_list(
    drivers: &Vec<DriverVersion>,
    filter: &str,
    installed: &Option<String>,
) -> (r: Vec<VersionRow>)
    ensures
        r.deep_view() == version_rows(drivers.deep_view(), filter@, installed.deep_view()),
{
    let filter = text::to_lower(filter);
    let ghost all = drivers.deep_view();
    let mut rows: Vec<VersionRow> = Vec::new();
    let mut i: usize = 0;
    while i < drivers.len()
        invariant
            i <= drivers@.len(),
            all == drivers.deep_view(),
            rows.deep_view() == rows_matching(all.take(i as int), filter@, installed.deep_view()),
        decreases drivers@.len() - i,
    {
        proof {
            assert(all.take(i + 1).drop_last() == all.take(i as int));
            assert(all.take(i + 1).last() == drivers@[i as int]@);
        }
        if text::has(drivers[i].version.as_str(), filter.as_str()) {
            let ghost before = rows.deep_view();
            let row = describe_row(&drivers[i], installed);
            rows.push(row);
            assert(rows.deep_view() == before.push(row@));
        }
        i = i + 1;
    }
    assert(all.take(i as int) == all);
    rows
}

/// What is told to the user: lines for the log, a text for the progress bar and
/// a text for a toast.
#[derive(Debug)]
pub struct Notice {
    pub log: Vec<String>,
    pub progress: Option<String>,
    pub toast: Option<String>,
}

/// What a `Notice` holds.
pub struct NoticeView {
    pub log: Seq<Seq<char>>,
    pub progress: Option<Seq<char>>,
    pub toast: Option<Seq<char>>,
}

impl View for Notice {
    type V = NoticeView;

    open spec fn view(&self) -> NoticeView {
        NoticeView {
            log: self.log.deep_view(),
            progress: self.progress.deep_view(),
            toast: self.toast.deep_view(),
        }
    }
}

fn one_line(line: String) -> (r: Vec<String>)
    ensures
        r.deep_view() == seq![line@],
{
    let mut r: Vec<String> = Vec::new();
    r.push(line);
    assert(r.deep_view() == seq![line@]);
    r
}

fn two_lines(first: String, second: String) -> (r: Vec<String>)
    ensures
        r.deep_view() == seq![first@, second@],
{
    let mut r: Vec<String> = Vec::new();
    r.push(first);
    r.push(second);
    assert(r.deep_view() == seq![first@, second@]);
    r
}

fn joined(a: &str, b: &str) -> (r: String)
    ensures
        r@ == a@ + b@,
{
    let mut r = a.to_string();
    r.append(b);
    r
}

/// A downloaded file that is to be held to its published checksum.
#[derive(Debug)]
pub struct PendingVerification {
    path: String,
    checksum: String,
}

/// What a `PendingVerification` holds.
pub struct PendingVerificationView {
    pub path: Seq<char>,
    pub checksum: Seq<char>,
}

impl View for PendingVerification {
    type V = PendingVerificationView;

    closed spec fn view(&self) -> PendingVerificationView {
        PendingVerificationView { path: self.path@, checksum: self.checksum@ }
    }
}

/// A downloaded file that cannot be verified and waits for the user's decision.
#[derive(Debug)]
pub struct PendingConsent {
    path: String,
}

impl View for PendingConsent {
    type V = Seq<char>;

    closed spec fn view(&self) -> Seq<char> {
        self.path@
    }
}

/// What follows a download.
#[derive(Debug)]
pub enum AfterDownload {
    /// Nothing: there is no file.
    Stop { notice: Notice },
    /// The file is to be verified.
    Verify { notice: Notice, pending: PendingVerification },
    /// The user is to be asked `question`.
    Ask { notice: Notice, question: String, undecided: PendingConsent },
}

/// What an `AfterDownload` holds.
pub enum AfterDownloadView {
    Stop { notice: NoticeView },
    Verify { notice: NoticeView, pending: PendingVerificationView },
    Ask { notice: NoticeView, question: Seq<char>, path: Seq<char> },
}

impl View for AfterDownload {
    type V = AfterDownloadView;

    open spec fn view(&self) -> AfterDownloadView {
        match self {
            AfterDownload::Stop { notice } => AfterDownloadView::Stop { notice: notice@ },
            AfterDownload::Verify { notice, pending } => AfterDownloadView::Verify {
                notice: notice@,
                pending: pending@,
            },
            AfterDownload::Ask { notice, question, undecided } => AfterDownloadView::Ask {
                notice: notice@,
                question: question@,
                path: undecided@,
            },
        }
    }
}

/// The texts in the result of a download: the path of the file, or the text of
/// the error.
pub open spec fn result_texts(result: Result<String, String>) -> Result<Seq<char>, Seq<char>> {
    match result {
        Ok(path) => Ok(path@),
        Err(error) => Err(error@),
    }
}

/// The texts in the result of a search for a checksum: the checksum, if there
/// is one, or the text of the error.
pub open spec fn checksum_texts(checksum: Result<Option<String>, String>) -> Result<
    Option<Seq<char>>,
    Seq<char>,
> {
    match checksum {
        Ok(checksum) => Ok(checksum.deep_view()),
        Err(error) => Err(error@),
    }
}

/// Why a download cannot be verified: the search for its checksum failed with
/// `error`, or none is published.
pub open spec fn unverified_reason(error: Option<Seq<char>>) -> Seq<char> {
    match error {
        Some(e) => "The SHA256 checksum could not be fetched ("@ + e + ")."@,
        None => "NVIDIA does not publish a SHA256 checksum for this version."@,
    }
}

/// The line of the log that says so.
pub open spec fn unverified_line(error: Option<Seq<char>>) -> Seq<char> {
    match error {
        Some(e) => "Could not fetch the SHA256 checksum: "@ + e,
        None => "NVIDIA publishes no SHA256 checksum for this version"@,
    }
}

/// What the user is told before deciding on a file that cannot be verified.
pub const UNVERIFIED_WARNING: &'static str =
    "\n\nThe download cannot be verified against NVIDIA's published hash. Only continue if you trust the network you downloaded it over.";

/// What follows a download that ended with `result`, whose checksum was looked
/// up with the result `checksum`. A file is verified where there is a checksum;
/// where there is none, whatever the reason, the user decides.
pub open spec fn after_download(
    result: Result<Seq<char>, Seq<char>>,
    checksum: Result<Option<Seq<char>>, Seq<char>>,
) -> AfterDownloadView {
    match result {
        Err(error) => AfterDownloadView::Stop {
            notice: if text::contains(error, "cancelled"@) {
                NoticeView {
                    log: seq!["Download cancelled."@],
                    progress: Some("Cancelled"@),
                    toast: None,
                }
            } else {
                NoticeView {
                    log: seq!["Download failed: "@ + error],
                    progress: Some("Download failed"@),
                    toast: Some("Download failed"@),
                }
            },
        },
        Ok(path) => match checksum {
            Ok(Some(c)) => AfterDownloadView::Verify {
                notice: NoticeView {
                    log: seq!["Download complete: "@ + path, "Verifying SHA256\u{2026}"@],
                    progress: Some("Verifying\u{2026}"@),
                    toast: None,
                },
                pending: PendingVerificationView { path, checksum: c },
            },
            Ok(None) => after_unverified_download(path, None),
            Err(e) => after_unverified_download(path, Some(e)),
        },
    }
}

/// What follows a download that cannot be verified.
pub open spec fn after_unverified_download(
    path: Seq<char>,
    error: Option<Seq<char>>,
) -> AfterDownloadView {
    AfterDownloadView::Ask {
        notice: NoticeView {
            log: seq!["Download complete: "@ + path, unverified_line(error)],
            progress: Some("Downloaded \u{2014} not verified"@),
            toast: None,
        },
        question: unverified_reason(error) + UNVERIFIED_WARNING@,
        path,
    }
}

/// What follows a download that ended with `result`, the path of the file or
/// the text of an error, where the search for its checksum gave `checksum`.
pub fn finish_download(
    result: Result<String, String>,
    checksum: Result<Option<String>, String>,
) -> (r: AfterDownload)
    ensures
        r@ == after_download(result_texts(result), checksum_texts(checksum)),
{
    let path = match result {
        Ok(path) => path,
        Err(error) => {
            let notice = if text::has(error.as_str(), "cancelled") {
                Notice {
                    log: one_line("Download cancelled.".to_string()),
                    progress: Some("Cancelled".to_string()),
                    toast: None,
                }
            } else {
                Notice {
                    log: one_line(joined("Download failed: ", error.as_str())),
                    progress: Some("Download failed".to_string()),
                    toast: Some("Download failed".to_string()),
                }
            };
            return AfterDownload::Stop { notice };
        },
    };
    let complete = joined("Download complete: ", path.as_str());
    let (line, reason) = match checksum {
        Ok(Some(checksum)) => {
            return AfterDownload::Verify {
                notice: Notice {
                    log: two_lines(complete, "Verifying SHA256\u{2026}".to_string()),
                    progress: Some("Verifying\u{2026}".to_string()),
                    toast: None,
                },
                pending: PendingVerification { path, checksum },
            };
        },
        Ok(None) => (
            "NVIDIA publishes no SHA256 checksum for this version".to_string(),
            "NVIDIA does not publish a SHA256 checksum for this version.".to_string(),
        ),
        Err(error) => {
            let mut reason = "The SHA256 checksum could not be fetched (".to_string();
            reason.append(error.as_str());
            reason.append(").");
            (joined("Could not fetch the SHA256 checksum: ", error.as_str()), reason)
        },
    };
    AfterDownload::Ask {
        notice: Notice {
            log: two_lines(complete, line),
            progress: Some("Downloaded \u{2014} not verified".to_string()),
            toast: None,
        },
        question: joined(reason.as_str(), UNVERIFIED_WARNING),
        undecided: PendingConsent { path },
    }
}

/// The content of a file that was hashed, or the text of the error that kept it
/// from being read.
pub open spec fn hashed_content(outcome: Result<FileHasher, String>) -> Result<
    Seq<u8>,
    Seq<char>,
> {
    match outcome {
        Ok(hasher) => Ok(hasher@),
        Err(error) => Err(error@),
    }
}

/// Whether a file was read and has the checksum `checksum`.
pub open spec fn is_verified(checksum: Seq<char>, outcome: Result<Seq<u8>, Seq<char>>) -> bool {
    match outcome {
        Ok(content) => download::is_checksum_of(checksum, content),
        Err(_) => false,
    }
}

/// What changes what the application holds.
pub enum ChangeView {
    /// The system was queried.
    Queried { info: SystemInfoView },
    /// The list of drivers was loaded.
    Listed { versions: Seq<DriverVersionView> },
    /// The row with the title `title` was selected, or none.
    Selected { title: Option<Seq<char>> },
    /// A downloaded file was read, to be held to `checksum`.
    Hashed { path: Seq<char>, checksum: Seq<char>, outcome: Result<Seq<u8>, Seq<char>> },
    /// The user decided on a file that cannot be verified.
    Decided { path: Seq<char>, response: Seq<char> },
    /// A local file was opened.
    Opened { path: Seq<char> },
    /// The switch for DKMS was set.
    DkmsSet { on: bool },
    /// The switch for holding packages was set.
    HoldSet { on: bool },
}

/// The first of `drivers` with the version `version`.
pub open spec fn driver_with_version(
    drivers: Seq<DriverVersionView>,
    version: Seq<char>,
) -> Option<DriverVersionView>
    decreases drivers.len(),
{
    if drivers.len() == 0 {
        None
    } else if drivers[0].version == version {
        Some(drivers[0])
    } else {
        driver_with_version(drivers.drop_first(), version)
    }
}

/// The answer of a user who takes a file that cannot be verified.
pub const USE_UNVERIFIED: &'static str = "use";

impl AppStateView {
    /// What is held once the file at `path` is the one to install.
    pub open spec fn with_file(
        self,
        path: Seq<char>,
        checksum: Option<Seq<char>>,
    ) -> AppStateView {
        AppStateView { downloaded_path: Some(path), expected_checksum: checksum, ..self }
    }

    /// What is held after a change. A downloaded file becomes the one to install
    /// only if it was verified, or if the user takes it unverified.
    pub open spec fn after(self, change: ChangeView) -> AppStateView {
        match change {
            ChangeView::Queried { info } => AppStateView { sysinfo: info, ..self },
            ChangeView::Listed { versions } => AppStateView { versions, ..self },
            ChangeView::Selected { title } => AppStateView {
                selected_version: match title {
                    Some(title) => driver_with_version(self.versions, title),
                    None => None,
                },
                ..self
            },
            ChangeView::Hashed { path, checksum, outcome } => if is_verified(checksum, outcome) {
                self.with_file(path, Some(checksum))
            } else {
                self
            },
            ChangeView::Decided { path, response } => if response == USE_UNVERIFIED@ {
                self.with_file(path, None)
            } else {
                self
            },
            ChangeView::Opened { path } => self.with_file(path, None),
            ChangeView::DkmsSet { on } => AppStateView { use_dkms: on, ..self },
            ChangeView::HoldSet { on } => AppStateView { hold_packages: on, ..self },
        }
    }
}

/// What is told once a downloaded file was read, to be held to `checksum`. On a
/// mismatch the file is to be removed, and `removal_notice` says what came of
/// that.
pub open spec fn verification_notice(
    checksum: Seq<char>,
    outcome: Result<Seq<u8>, Seq<char>>,
) -> NoticeView {
    if is_verified(checksum, outcome) {
        NoticeView {
            log: seq!["SHA256 verified OK"@],
            progress: Some("Verified"@),
            toast: Some("Download complete"@),
        }
    } else {
        NoticeView {
            log: seq![
                "SHA256 FAILED: "@ + match outcome {
                    Ok(content) => (download::ChecksumMismatchView {
                        expected: checksum,
                        got: digest::hex(digest::sha256(content)),
                    }).text(),
                    Err(error) => error,
                },
            ],
            progress: None,
            toast: None,
        }
    }
}

/// What is told once a file that failed verification was removed, or could not
/// be because of `error`.
pub open spec fn removal_notice(path: Seq<char>, error: Option<Seq<char>>) -> NoticeView {
    let toast = Some("Checksum mismatch \u{2014} do not install"@);
    match error {
        None => NoticeView {
            log: seq!["Deleted corrupt file: "@ + path],
            progress: Some("Checksum mismatch \u{2014} file deleted"@),
            toast,
        },
        Some(e) => NoticeView {
            log: seq!["Could not delete file: "@ + e],
            progress: Some("Checksum mismatch \u{2014} delete the file manually"@),
            toast,
        },
    }
}

/// What is told once the user decided on a file that cannot be verified.
pub open spec fn decision_notice(path: Seq<char>, response: Seq<char>) -> NoticeView {
    if response == USE_UNVERIFIED@ {
        NoticeView {
            log: seq!["User chose to continue WITHOUT checksum verification"@],
            progress: Some("Complete (unverified)"@),
            toast: Some("Download complete (unverified)"@),
        }
    } else {
        NoticeView {
            log: seq!["Discarded unverified download: "@ + path],
            progress: Some("Discarded (not verified)"@),
            toast: Some("Unverified download discarded"@),
        }
    }
}

/// What is told once the file at `path`, which failed verification, was
/// removed, or could not be because of `error`.
pub fn report_removal(path: &str, error: Option<String>) -> (r: Notice)
    ensures
        r@ == removal_notice(path@, error.deep_view()),
{
    let toast = Some("Checksum mismatch \u{2014} do not install".to_string());
    match error {
        None => Notice {
            log: one_line(joined("Deleted corrupt file: ", path)),
            progress: Some("Checksum mismatch \u{2014} file deleted".to_string()),
            toast,
        },
        Some(e) => Notice {
            log: one_line(joined("Could not delete file: ", e.as_str())),
            progress: Some("Checksum mismatch \u{2014} delete the file manually".to_string()),
            toast,
        },
    }
}

impl AppState {
    /// Takes in what is known about the system.
    pub fn set_sysinfo(&mut self, info: SystemInfo)
        ensures
            final(self)@ == old(self)@.after(ChangeView::Queried { info: info@ }),
    {
        self.sysinfo = info;
    }

    /// Takes in the list of drivers.
    pub fn set_versions(&mut self, versions: Vec<DriverVersion>)
        ensures
            final(self)@ == old(self)@.after(
                ChangeView::Listed { versions: versions.deep_view() },
            ),
    {
        self.versions = versions;
    }

    fn find_version(&self, version: &str) -> (r: Option<DriverVersion>)
        ensures
            r.deep_view() == driver_with_version(self@.versions, version@),
    {
        let ghost all = self.versions.deep_view();
        let mut i: usize = 0;
        assert(all.skip(0) == all);
        while i < self.versions.len()
            invariant
                i <= self.versions@.len(),
                all == self.versions.deep_view(),
                all == self@.versions,
                driver_with_version(all, version@) == driver_with_version(
                    all.skip(i as int),
                    version@,
                ),
            decreases self.versions@.len() - i,
        {
            proof {
                assert(all.skip(i as int)[0] == self.versions@[i as int]@);
                assert(all.skip(i as int).drop_first() == all.skip(i + 1));
            }
            if text::same(self.versions[i].version.as_str(), version) {
                return Some(self.versions[i].clone());
            }
            i = i + 1;
        }
        None
    }

    /// Selects the driver that the row with the title `title` stands for; none
    /// without a row, or if no driver has that version. Returns the text that
    /// names the selection, and whether there is one to download.
    pub fn select(&mut self, title: Option<&str>) -> (r: (String, bool))
        ensures
            final(self)@ == old(self)@.after(ChangeView::Selected { title: title.deep_view() }),
            r.0@ == (match final(self)@.selected_version {
                Some(driver) => "Selected: "@ + driver.version,
                None => "No version selected"@,
            }),
            r.1 == final(self)@.selected_version is Some,
    {
        let selected = match title {
            Some(title) => self.find_version(title),
            None => None,
        };
        let r = match &selected {
            Some(driver) => (joined("Selected: ", driver.version.as_str()), true),
            None => ("No version selected".to_string(), false),
        };
        self.selected_version = selected;
        r
    }

    /// Holds a downloaded file that was hashed, or could not be read, to its
    /// checksum. Returns what to tell, and whether the file is now the one to
    /// install; if not, it is to be removed.
    pub fn finish_verification(
        &mut self,
        pending: PendingVerification,
        outcome: Result<FileHasher, String>,
    ) -> (r: (Notice, bool))
        ensures
            final(self)@ == old(self)@.after(
                ChangeView::Hashed {
                    path: pending@.path,
                    checksum: pending@.checksum,
                    outcome: hashed_content(outcome),
                },
            ),
            r.0@ == verification_notice(pending@.checksum, hashed_content(outcome)),
            r.1 == is_verified(pending@.checksum, hashed_content(outcome)),
    {
        let error = match outcome {
            Ok(hasher) => match download::verify_sha256(hasher, pending.checksum.as_str()) {
                Ok(()) => {
                    self.downloaded_path = Some(pending.path);
                    self.expected_checksum = Some(pending.checksum);
                    return (
                        Notice {
                            log: one_line("SHA256 verified OK".to_string()),
                            progress: Some("Verified".to_string()),
                            toast: Some("Download complete".to_string()),
                        },
                        true,
                    );
                },
                Err(mismatch) => mismatch.message(),
            },
            Err(error) => error,
        };
        (
            Notice {
                log: one_line(joined("SHA256 FAILED: ", error.as_str())),
                progress: None,
                toast: None,
            },
            false,
        )
    }

    /// Takes in the user's decision on a file that cannot be verified. Returns
    /// what to tell, and whether the file is now the one to install; if not, it
    /// is to be removed.
    pub fn decide(&mut self, pending: PendingConsent, response: &str) -> (r: (Notice, bool))
        ensures
            final(self)@ == old(self)@.after(
                ChangeView::Decided { path: pending@, response: response@ },
            ),
            r.0@ == decision_notice(pending@, response@),
            r.1 == (response@ == USE_UNVERIFIED@),
    {
        if text::same(response, USE_UNVERIFIED) {
            self.downloaded_path = Some(pending.path);
            self.expected_checksum = None;
            (
                Notice {
                    log: one_line(
                        "User chose to continue WITHOUT checksum verification".to_string(),
                    ),
                    progress: Some("Complete (unverified)".to_string()),
                    toast: Some("Download complete (unverified)".to_string()),
                },
                true,
            )
        } else {
            (
                Notice {
                    log: one_line(
                        joined("Discarded unverified download: ", pending.path.as_str()),
                    ),
                    progress: Some("Discarded (not verified)".to_string()),
                    toast: Some("Unverified download discarded".to_string()),
                },
                false,
            )
        }
    }

    /// Takes in a local file that the user opened. Returns the line for the log.
    pub fn open_file(&mut self, path: String) -> (r: String)
        ensures
            final(self)@ == old(self)@.after(ChangeView::Opened { path: path@ }),
            r@ == "Opened local file: "@ + path@,
    {
        let line = joined("Opened local file: ", path.as_str());
        self.downloaded_path = Some(path);
        self.expected_checksum = None;
        line
    }

    /// Sets the switch for DKMS.
    pub fn set_use_dkms(&mut self, on: bool)
        ensures
            final(self)@ == old(self)@.after(ChangeView::DkmsSet { on }),
    {
        self.use_dkms = on;
    }

    /// Sets the switch for holding packages.
    pub fn set_hold_packages(&mut self, on: bool)
        ensures
            final(self)@ == old(self)@.after(ChangeView::HoldSet { on }),
    {
        self.hold_packages = on;
    }
}

/// What is told once the list of drivers came, or failed to.
#[derive(Debug)]
pub struct ListNotice {
    pub log: String,
    /// The text of the banner, if it is shown.
    pub banner: Option<String>,
    /// The text that takes the place of the selection, if any does.
    pub selection: Option<String>,
}

/// What a `ListNotice` holds.
pub struct ListNoticeView {
    pub log: Seq<char>,
    pub banner: Option<Seq<char>>,
    pub selection: Option<Seq<char>>,
}

impl View for ListNotice {
    type V = ListNoticeView;

    open spec fn view(&self) -> ListNoticeView {
        ListNoticeView {
            log: self.log@,
            banner: self.banner.deep_view(),
            selection: self.selection.deep_view(),
        }
    }
}

/// What is told once a list of `count` drivers came.
pub open spec fn listed_notice(count: nat) -> ListNoticeView {
    ListNoticeView {
        log: "Found "@ + number::decimal(count) + " versions"@,
        banner: None,
        selection: None,
    }
}

/// What is told once the list of drivers failed to come because of `error`.
pub open spec fn not_listed_notice(error: Seq<char>) -> ListNoticeView {
    ListNoticeView {
        log: "Error fetching versions: "@ + error,
        banner: Some("Failed to load versions: "@ + error),
        selection: Some("Could not load version list"@),
    }
}

/// What is told once the list of drivers failed to come because of `error`.
pub fn report_list_error(error: &str) -> (r: ListNotice)
    ensures
        r@ == not_listed_notice(error@),
{
    ListNotice {
        log: joined("Error fetching versions: ", error),
        banner: Some(joined("Failed to load versions: ", error)),
        selection: Some("Could not load version list".to_string()),
    }
}

/// A download to begin.
#[derive(Debug)]
pub struct DownloadRequest {
    pub driver: DriverVersion,
    pub notice: Notice,
}

/// What a `DownloadRequest` holds.
pub struct DownloadRequestView {
    pub driver: DriverVersionView,
    pub notice: NoticeView,
}

impl View for DownloadRequest {
    type V = DownloadRequestView;

    open spec fn view(&self) -> DownloadRequestView {
        DownloadRequestView { driver: self.driver@, notice: self.notice@ }
    }
}

impl DeepView for DownloadRequest {
    type V = DownloadRequestView;

    open spec fn deep_view(&self) -> DownloadRequestView {
        self@
    }
}

/// An install to begin.
#[derive(Debug)]
pub struct InstallRequest {
    pub options: InstallOptions,
    pub notice: Notice,
}

/// What an `InstallRequest` holds.
pub struct InstallRequestView {
    pub options: InstallOptionsView,
    pub notice: NoticeView,
}

impl View for InstallRequest {
    type V = InstallRequestView;

    open spec fn view(&self) -> InstallRequestView {
        InstallRequestView { options: self.options@, notice: self.notice@ }
    }
}

impl DeepView for InstallRequest {
    type V = InstallRequestView;

    open spec fn deep_view(&self) -> InstallRequestView {
        self@
    }
}

/// Whether so little disk space is known to be free that an install may fail.
pub open spec fn is_low(free: Option<u64>) -> bool {
    free matches Some(n) && n < system::MIN_DISK_BYTES
}

impl AppStateView {
    /// The download that is asked for: that of the selected driver, if there is
    /// one.
    pub open spec fn download_request(self) -> Option<DownloadRequestView> {
        match self.selected_version {
            Some(driver) => Some(
                DownloadRequestView {
                    driver,
                    notice: NoticeView {
                        log: Seq::empty(),
                        progress: Some("Downloading "@ + driver.version + "\u{2026}"@),
                        toast: if is_low(self.sysinfo.free_disk_bytes) {
                            Some("Low disk space \u{2014} install may fail"@)
                        } else {
                            None
                        },
                    },
                },
            ),
            None => None,
        }
    }

    /// The install that is asked for: that of the file to install, if there is
    /// one, pinned to its checksum.
    pub open spec fn install_request(self) -> Option<InstallRequestView> {
        match self.downloaded_path {
            Some(path) => Some(
                InstallRequestView {
                    options: InstallOptionsView {
                        use_dkms: self.use_dkms,
                        hold_packages: self.hold_packages,
                        run_file: path,
                        sha256: self.expected_checksum,
                    },
                    notice: NoticeView {
                        log: seq![
                            "Starting install: "@ + path,
                            "The new driver installs alongside the running one; reboot afterward to switch over."@,
                        ],
                        progress: Some(
                            "Installing\u{2026} the desktop stays up; this takes a few minutes"@,
                        ),
                        toast: if is_low(self.sysinfo.free_disk_bytes) {
                            Some("Warning: low disk space \u{2014} install may fail"@)
                        } else {
                            None
                        },
                    },
                },
            ),
            None => None,
        }
    }

    /// The rows that the search text `search` leaves of the list.
    pub open spec fn rows(self, search: Seq<char>) -> Seq<VersionRowView> {
        version_rows(self.versions, search, self.sysinfo.installed_driver)
    }

    /// What the about dialog says of the application and the system.
    pub open spec fn about_text(self) -> Seq<char> {
        "GTK4 + Rust GUI for installing NVIDIA drivers from official .run files.\n\nGPU: "@
            + text_or(self.sysinfo.gpu_name, "Not detected"@) + "\nDriver: "@ + text_or(
            self.sysinfo.installed_driver,
            "Not detected"@,
        ) + "\nKernel: "@ + self.sysinfo.kernel_version
    }
}

impl AppState {
    fn disk_is_low(&self) -> (r: bool)
        ensures
            r == is_low(self@.sysinfo.free_disk_bytes),
    {
        match self.sysinfo.free_disk_bytes {
            Some(n) => n < system::MIN_DISK_BYTES,
            None => false,
        }
    }

    /// The drivers that can be downloaded.
    pub fn versions(&self) -> (r: &Vec<DriverVersion>)
        ensures
            r.deep_view() == self@.versions,
    {
        &self.versions
    }

    /// What is told about the list of drivers.
    pub fn report_list(&self) -> (r: ListNotice)
        ensures
            r@ == listed_notice(self@.versions.len()),
    {
        let mut log = joined("Found ", number::render(self.versions.len() as u64).as_str());
        log.append(" versions");
        ListNotice { log, banner: None, selection: None }
    }

    /// The rows that the search text `search` leaves of the list.
    pub fn rows(&self, search: &str) -> (r: Vec<VersionRow>)
        ensures
            r.deep_view() == self@.rows(search@),
    {
        populate_list(&self.versions, search, &self.sysinfo.installed_driver)
    }

    /// The download that is asked for; `None` if no driver is selected.
    pub fn download_request(&self) -> (r: Option<DownloadRequest>)
        ensures
            r.deep_view() == self@.download_request(),
    {
        let driver = match &self.selected_version {
            Some(driver) => driver.clone(),
            None => {
                return None;
            },
        };
        let log: Vec<String> = Vec::new();
        assert(log.deep_view() == Seq::<Seq<char>>::empty());
        let mut progress = joined("Downloading ", driver.version.as_str());
        progress.append("\u{2026}");
        let toast = if self.disk_is_low() {
            Some("Low disk space \u{2014} install may fail".to_string())
        } else {
            None
        };
        Some(DownloadRequest { driver, notice: Notice { log, progress: Some(progress), toast } })
    }

    /// The install that is asked for; `None` if there is no file to install.
    pub fn install_request(&self) -> (r: Option<InstallRequest>)
        ensures
            r.deep_view() == self@.install_request(),
    {
        let path = match &self.downloaded_path {
            Some(path) => path,
            None => {
                return None;
            },
        };
        let sha256 = match &self.expected_checksum {
            Some(checksum) => Some(checksum.clone()),
            None => None,
        };
        let options = InstallOptions {
            use_dkms: self.use_dkms,
            hold_packages: self.hold_packages,
            run_file: path.clone(),
            sha256,
        };
        let log = two_lines(
            joined("Starting install: ", path.as_str()),
            "The new driver installs alongside the running one; reboot afterward to switch over.".to_string(),
        );
        let toast = if self.disk_is_low() {
            Some("Warning: low disk space \u{2014} install may fail".to_string())
        } else {
            None
        };
        Some(
            InstallRequest {
                options,
                notice: Notice {
                    log,
                    progress: Some(
                        "Installing\u{2026} the desktop stays up; this takes a few minutes".to_string(),
                    ),
                    toast,
                },
            },
        )
    }

    /// What the about dialog says of the application and the system.
    pub fn about_text(&self) -> (r: String)
        ensures
            r@ == self@.about_text(),
    {
        let mut r =
            "GTK4 + Rust GUI for installing NVIDIA drivers from official .run files.\n\nGPU: ".to_string();
        r.append(pick_text(&self.sysinfo.gpu_name, "Not detected").as_str());
        r.append("\nDriver: ");
        r.append(pick_text(&self.sysinfo.installed_driver, "Not detected").as_str());
        r.append("\nKernel: ");
        r.append(self.sysinfo.kernel_version.as_str());
        r
    }
}

/// How an install ended.
#[derive(Debug)]
pub enum InstallResult {
    Installed,
    /// It failed with `error`.
    Failed { error: String },
    /// The task that ran it broke off with `error`.
    Interrupted { error: String },
}

/// What an `InstallResult` holds.
pub enum InstallResultView {
    Installed,
    Failed { error: Seq<char> },
    Interrupted { error: Seq<char> },
}

impl View for InstallResult {
    type V = InstallResultView;

    open spec fn view(&self) -> InstallResultView {
        match self {
            InstallResult::Installed => InstallResultView::Installed,
            InstallResult::Failed { error } => InstallResultView::Failed { error: error@ },
            InstallResult::Interrupted { error } => InstallResultView::Interrupted {
                error: error@,
            },
        }
    }
}

/// What is told once an install ended.
pub open spec fn install_notice(result: InstallResultView) -> NoticeView {
    match result {
        InstallResultView::Installed => NoticeView {
            log: seq![
                "Install completed successfully."@,
                "Reboot to switch to the new driver."@,
            ],
            progress: None,
            toast: Some("Install complete \u{2014} reboot to activate"@),
        },
        InstallResultView::Failed { error } => NoticeView {
            log: seq!["Install failed: "@ + error],
            progress: None,
            toast: Some("Install failed \u{2014} see Log tab"@),
        },
        InstallResultView::Interrupted { error } => NoticeView {
            log: seq!["Task error: "@ + error],
            progress: None,
            toast: None,
        },
    }
}

/// What is told once an install ended, and whether the system is to be queried
/// again.
pub fn finish_install(result: &InstallResult) -> (r: (Notice, bool))
    ensures
        r.0@ == install_notice(result@),
        r.1 == (result@ is Installed),
{
    match result {
        InstallResult::Installed => (
            Notice {
                log: two_lines(
                    "Install completed successfully.".to_string(),
                    "Reboot to switch to the new driver.".to_string(),
                ),
                progress: None,
                toast: Some("Install complete \u{2014} reboot to activate".to_string()),
            },
            true,
        ),
        InstallResult::Failed { error } => (
            Notice {
                log: one_line(joined("Install failed: ", error.as_str())),
                progress: None,
                toast: Some("Install failed \u{2014} see Log tab".to_string()),
            },
            false,
        ),
        InstallResult::Interrupted { error } => (
            Notice {
                log: one_line(joined("Task error: ", error.as_str())),
                progress: None,
                toast: None,
            },
            false,
        ),
    }
}

/// What is held once `changes` have happened, in order, since the application
/// started.
pub open spec fn state_after(changes: Seq<ChangeView>) -> AppStateView
    decreases changes.len(),
{
    if changes.len() == 0 {
        initial_state()
    } else {
        state_after(changes.drop_last()).after(changes.last())
    }
}

/// Whether a change makes the file at `path` the one to install, pinned to
/// `checksum`: it was read and has that checksum, or the user chose it without
/// one.
pub open spec fn vouches(
    change: ChangeView,
    path: Seq<char>,
    checksum: Option<Seq<char>>,
) -> bool {
    match change {
        ChangeView::Hashed { path: p, checksum: c, outcome } => {
            &&& p == path
            &&& checksum == Some(c)
            &&& outcome matches Ok(content) && download::is_checksum_of(c, content)
        },
        ChangeView::Decided { path: p, response } => {
            &&& p == path
            &&& checksum is None
            &&& response == USE_UNVERIFIED@
        },
        ChangeView::Opened { path: p } => p == path && checksum is None,
        _ => false,
    }
}

/// Whether a change makes some file the one to install.
pub open spec fn chooses_file(change: ChangeView) -> bool {
    exists|path: Seq<char>, checksum: Option<Seq<char>>| vouches(change, path, checksum)
}

/// No file is ever installed that nobody vouched for: there is a file to install
/// only because a published checksum was verified against its content, or
/// because the user took an unverified download or opened a local file. The
/// install is pinned to a checksum exactly in the first case. The latest such
/// file is the one to install.
pub proof fn every_install_is_vouched_for(changes: Seq<ChangeView>)
    ensures
        match state_after(changes).install_request() {
            Some(request) => exists|i: int|
                {
                    &&& 0 <= i < changes.len()
                    &&& vouches(
                        #[trigger] changes[i],
                        request.options.run_file,
                        request.options.sha256,
                    )
                    &&& forall|j: int| i < j < changes.len() ==> !chooses_file(#[trigger] changes[j])
                },
            None => forall|j: int| 0 <= j < changes.len() ==> !chooses_file(#[trigger] changes[j]),
        },
    decreases changes.len(),
{
    if changes.len() > 0 {
        let n = changes.len() - 1;
        let earlier = changes.drop_last();
        let before = state_after(earlier);
        let state = state_after(changes);
        every_install_is_vouched_for(earlier);
        if chooses_file(changes.last()) {
            let path = state.downloaded_path.unwrap();
            assert(vouches(changes[n], path, state.expected_checksum));
        } else {
            lemma_file_is_kept(before, changes.last());
            if let Some(path) = before.downloaded_path {
                let i = choose|i: int|
                    {
                        &&& 0 <= i < earlier.len()
                        &&& vouches(#[trigger] earlier[i], path, before.expected_checksum)
                        &&& forall|j: int|
                            i < j < earlier.len() ==> !chooses_file(#[trigger] earlier[j])
                    };
                assert(vouches(changes[i], path, state.expected_checksum));
                assert forall|j: int| i < j < changes.len() implies !chooses_file(
                    #[trigger] changes[j],
                ) by {
                    if j < n {
                        assert(changes[j] == earlier[j]);
                    }
                }
            } else {
                assert forall|j: int| 0 <= j < changes.len() implies !chooses_file(
                    #[trigger] changes[j],
                ) by {
                    if j < n {
                        assert(changes[j] == earlier[j]);
                    }
                }
            }
        }
    }
}

proof fn lemma_file_is_kept(state: AppStateView, change: ChangeView)
    requires
        !chooses_file(change),
    ensures
        state.after(change).downloaded_path == state.downloaded_path,
        state.after(change).expected_checksum == state.expected_checksum,
{
    match change {
        ChangeView::Hashed { path, checksum, .. } => {
            assert(!vouches(change, path, Some(checksum)));
        },
        ChangeView::Decided { path, .. } => {
            assert(!vouches(change, path, None));
        },
        ChangeView::Opened { path } => {
            assert(!vouches(change, path, None));
        },
        _ => {},
    }
}

/// A download that fails verification, or that the user does not take, changes
/// nothing that is held.
pub proof fn rejected_download_changes_nothing(
    state: AppStateView,
    path: Seq<char>,
    checksum: Seq<char>,
    outcome: Result<Seq<u8>, Seq<char>>,
    response: Seq<char>,
)
    ensures
        !is_verified(checksum, outcome) ==> state.after(
            ChangeView::Hashed { path, checksum, outcome },
        ) == state,
        response != USE_UNVERIFIED@ ==> state.after(ChangeView::Decided { path, response })
            == state,
{
}

/// A complete download is either verified against the published checksum, or
/// put to the user. A checksum that could not be fetched is never mistaken for
/// one that is not published: the user is told which it is.
pub proof fn unverified_download_needs_consent(
    path: Seq<char>,
    checksum: Result<Option<Seq<char>>, Seq<char>>,
)
    ensures
        after_download(Ok(path), checksum) matches AfterDownloadView::Verify { pending, .. }
            ==> pending.path == path && checksum == Ok::<Option<Seq<char>>, Seq<char>>(
            Some(pending.checksum),
        ),
        (checksum matches Ok(Some(_))) || (after_download(
            Ok(path),
            checksum,
        ) matches AfterDownloadView::Ask { path: p, .. } && p == path),
        forall|error: Seq<char>|
            #![trigger unverified_reason(Some(error))]
            unverified_reason(Some(error)) + UNVERIFIED_WARNING@ != unverified_reason(None)
                + UNVERIFIED_WARNING@,
{
    assert forall|error: Seq<char>|
        #![trigger unverified_reason(Some(error))]
        unverified_reason(Some(error)) + UNVERIFIED_WARNING@ != unverified_reason(None)
            + UNVERIFIED_WARNING@ by {
        reveal_strlit("The SHA256 checksum could not be fetched (");
        reveal_strlit("NVIDIA does not publish a SHA256 checksum for this version.");
        let fetched = unverified_reason(Some(error)) + UNVERIFIED_WARNING@;
        let published = unverified_reason(None) + UNVERIFIED_WARNING@;
        assert(fetched[0] == 'T');
        assert(published[0] == 'N');
    }
}

/// The install button is enabled exactly if there is an install to begin.
pub proof fn install_button_matches_request(state: AppStateView)
    ensures
        state.config_tab().can_install <==> state.install_request() is Some,
{
}

/// An ASCII text as long as a checksum can be shown.
pub proof fn ascii_checksum_can_be_cut(checksum: Seq<char>)
    requires
        is_ascii_chars(checksum),
        versions::has_checksum_length(checksum),
    ensures
        can_be_cut(checksum),
{
    broadcast use is_ascii_chars_encode_utf8;

    let bytes = encode_utf8(checksum);
    encode_utf8_valid_utf8(checksum);
    is_char_boundary_iff_not_is_continuation_byte(bytes, SHOWN_CHECKSUM as int);
    assert(bytes[SHOWN_CHECKSUM as int] == checksum[SHOWN_CHECKSUM as int] as u8);
}

/// As long as what is found is as long as a checksum, the page that configures
/// an install can be shown in every state.
pub proof fn config_tab_can_be_shown(changes: Seq<ChangeView>)
    requires
        forall|i: int|
            0 <= i < changes.len() ==> (#[trigger] changes[i] matches ChangeView::Hashed {
                checksum,
                ..
            } ==> versions::has_checksum_length(checksum)),
    ensures
        state_after(changes).checksum_can_be_shown(),
    decreases changes.len(),
{
    if changes.len() > 0 {
        assert forall|i: int| 0 <= i < changes.drop_last().len() implies (
        #[trigger] changes.drop_last()[i] matches ChangeView::Hashed { checksum, .. }
            ==> versions::has_checksum_length(checksum)) by {
            assert(changes.drop_last()[i] == changes[i]);
        }
        config_tab_can_be_shown(changes.drop_last());
        assert(changes.last() == changes[changes.len() - 1]);
        if let ChangeView::Hashed { checksum, outcome: Ok(content), .. } = changes.last() {
            if download::is_checksum_of(checksum, content) {
                download::checksum_is_ascii(checksum, content);
                ascii_checksum_can_be_cut(checksum);
            }
        }
        lemma_checksum_needs_file(changes.drop_last());
    }
}

proof fn lemma_checksum_needs_file(changes: Seq<ChangeView>)
    ensures
        state_after(changes).expected_checksum is Some ==> state_after(changes).downloaded_path
            is Some,
    decreases changes.len(),
{
    if changes.len() > 0 {
        lemma_checksum_needs_file(changes.drop_last());
    }
}

proof fn lemma_found_by_version(drivers: Seq<DriverVersionView>, i: int)
    requires
        0 <= i < drivers.len(),
    ensures
        driver_with_version(drivers, drivers[i].version) matches Some(d) && d.version
            == drivers[i].version,
        (forall|j: int| 0 <= j < i ==> (#[trigger] drivers[j]).version != drivers[i].version)
            ==> driver_with_version(drivers, drivers[i].version) == Some(drivers[i]),
    decreases drivers.len(),
{
    if drivers[0].version != drivers[i].version {
        let rest = drivers.drop_first();
        assert(rest[i - 1] == drivers[i]);
        if forall|j: int| 0 <= j < i ==> (#[trigger] drivers[j]).version != drivers[i].version {
            assert forall|j: int| 0 <= j < i - 1 implies (#[trigger] rest[j]).version
                != rest[i - 1].version by {
                assert(rest[j] == drivers[j + 1]);
            }
        }
        lemma_found_by_version(rest, i - 1);
    } else if i > 0 {
        assert(drivers[0].version == drivers[i].version);
    }
}

proof fn lemma_row_has_driver(
    drivers: Seq<DriverVersionView>,
    filter: Seq<char>,
    installed: Option<Seq<char>>,
    k: int,
) -> (i: int)
    requires
        0 <= k < rows_matching(drivers, filter, installed).len(),
    ensures
        0 <= i < drivers.len(),
        rows_matching(drivers, filter, installed)[k] == version_row(drivers[i], installed),
        text::contains(drivers[i].version, filter),
    decreases drivers.len(),
{
    let rest = rows_matching(drivers.drop_last(), filter, installed);
    if k < rest.len() {
        let i = lemma_row_has_driver(drivers.drop_last(), filter, installed, k);
        assert(drivers.drop_last()[i] == drivers[i]);
        i
    } else {
        drivers.len() - 1
    }
}

/// To select a row selects a driver with the version that the row shows,
/// whatever rows the search has left out. Where no two drivers of the list have
/// the same version, it is the very driver that the row was made from.
pub proof fn selection_follows_the_row(state: AppStateView, search: Seq<char>, k: int)
    requires
        0 <= k < state.rows(search).len(),
    ensures
        ({
            let row = state.rows(search)[k];
            let after = state.after(ChangeView::Selected { title: Some(row.title) });
            &&& after.selected_version matches Some(driver)
            &&& driver.version == row.title
            &&& (forall|i: int, j: int|
                0 <= i < j < state.versions.len() ==> (#[trigger] state.versions[i]).version != (
                #[trigger] state.versions[j]).version) ==> row == version_row(
                driver,
                state.sysinfo.installed_driver,
            )
        }),
{
    let i = lemma_row_has_driver(
        state.versions,
        text::lowercase(search),
        state.sysinfo.installed_driver,
        k,
    );
    lemma_found_by_version(state.versions, i);
}

/// Every row that a search leaves has the search text, in lower case, in its
/// title.
pub proof fn rows_match_the_search(state: AppStateView, search: Seq<char>, k: int)
    requires
        0 <= k < state.rows(search).len(),
    ensures
        text::contains(state.rows(search)[k].title, text::lowercase(search)),
{
    let i = lemma_row_has_driver(
        state.versions,
        text::lowercase(search),
        state.sysinfo.installed_driver,
        k,
    );
}

proof fn lemma_driver_has_row(
    drivers: Seq<DriverVersionView>,
    filter: Seq<char>,
    installed: Option<Seq<char>>,
    i: int,
)
    requires
        0 <= i < drivers.len(),
        text::contains(drivers[i].version, filter),
    ensures
        rows_matching(drivers, filter, installed).contains(version_row(drivers[i], installed)),
    decreases drivers.len(),
{
    let rest = rows_matching(drivers.drop_last(), filter, installed);
    let rows = rows_matching(drivers, filter, installed);
    if i < drivers.len() - 1 {
        lemma_driver_has_row(drivers.drop_last(), filter, installed, i);
        let k = choose|k: int|
            0 <= k < rest.len() && rest[k] == version_row(drivers[i], installed);
        assert(rows[k] == rest[k]);
    } else {
        assert(rows[rest.len() as int] == version_row(drivers[i], installed));
    }
}

/// No driver whose version has the search text, in lower case, in it is left
/// out.
pub proof fn matches_are_shown(state: AppStateView, search: Seq<char>, i: int)
    requires
        0 <= i < state.versions.len(),
        text::contains(state.versions[i].version, text::lowercase(search)),
    ensures
        state.rows(search).contains(
            version_row(state.versions[i], state.sysinfo.installed_driver),
        ),
{
    lemma_driver_has_row(
        state.versions,
        text::lowercase(search),
        state.sysinfo.installed_driver,
        i,
    );
}

proof fn lemma_all_rows(drivers: Seq<DriverVersionView>, installed: Option<Seq<char>>)
    ensures
        rows_matching(drivers, Seq::empty(), installed) == drivers.map_values(
            |driver: DriverVersionView| version_row(driver, installed),
        ),
    decreases drivers.len(),
{
    if drivers.len() > 0 {
        lemma_all_rows(drivers.drop_last(), installed);
        let version = drivers.last().version;
        assert(version.subrange(0, 0) == Seq::<char>::empty());
        assert(text::occurs_at(version, Seq::empty(), 0));
        assert(drivers.map_values(|driver: DriverVersionView| version_row(driver, installed))
            == drivers.drop_last().map_values(
            |driver: DriverVersionView| version_row(driver, installed),
        ).push(version_row(drivers.last(), installed)));
    }
}

/// Without a search text the list shows every driver, in order.
pub proof fn empty_search_shows_all(state: AppStateView)
    ensures
        state.rows(Seq::empty()) == state.versions.map_values(
            |driver: DriverVersionView| version_row(driver, state.sysinfo.installed_driver),
        ),
{
    assert(text::lowercase(Seq::empty()) == Seq::<char>::empty());
    lemma_all_rows(state.versions, state.sysinfo.installed_driver);
}

} // verus!
