//! What the output of system tools says about the GPU, the driver, the kernel,
//! the disk and the boot state.

use crate::number;
use crate::text;
use crate::text::Separator;
use vstd::prelude::*;

verus! {

/// What a command printed, and whether it exited with success.
#[derive(Debug)]
pub struct CommandOutput {
    pub success: bool,
    pub stdout: Vec<u8>,
}

/// Where the version of the running driver is read from.
#[derive(Debug)]
pub struct DriverProbe {
    /// `nvidia-smi --query-gpu=driver_version --format=csv,noheader`, if it
    /// could be run.
    pub smi: Option<CommandOutput>,
    /// The text of `/proc/driver/nvidia/version`, if it could be read.
    pub proc_version: Option<String>,
}

/// Where the state of Secure Boot is read from.
#[derive(Debug)]
pub struct SecureBootProbe {
    /// `mokutil --sb-state`, if it could be run.
    pub mokutil: Option<CommandOutput>,
    /// The EFI variable `SecureBoot`, if it could be read.
    pub efi_variable: Option<Vec<u8>>,
}

/// What tells whether a reboot is required.
#[derive(Debug)]
pub struct RebootProbe {
    /// The running driver.
    pub running: DriverProbe,
    /// `modinfo -F version nvidia`, if it could be run.
    pub module: Option<CommandOutput>,
}

/// Everything that is read about the system.
#[derive(Debug)]
pub struct SystemProbe {
    pub driver: DriverProbe,
    /// `nvidia-smi --query-gpu=name --format=csv,noheader`, if it could be run.
    pub gpu: Option<CommandOutput>,
    /// `uname -r`, if it could be run.
    pub kernel: Option<CommandOutput>,
    /// `dkms status`, if it could be run.
    pub dkms: Option<CommandOutput>,
    pub secure_boot: SecureBootProbe,
    /// `df -B1 --output=avail /`, if it could be run.
    pub disk: Option<CommandOutput>,
    pub reboot: RebootProbe,
}

/// A kernel module that DKMS knows.
#[derive(Debug)]
pub struct DkmsEntry {
    pub module: String,
    pub version: String,
    pub kernel: String,
    pub status: String,
}

/// What a `DkmsEntry` holds.
pub struct DkmsEntryView {
    pub module: Seq<char>,
    pub version: Seq<char>,
    pub kernel: Seq<char>,
    pub status: Seq<char>,
}

impl View for DkmsEntry {
    type V = DkmsEntryView;

    open spec fn view(&self) -> DkmsEntryView {
        DkmsEntryView {
            module: self.module@,
            version: self.version@,
            kernel: self.kernel@,
            status: self.status@,
        }
    }
}

impl DeepView for DkmsEntry {
    type V = DkmsEntryView;

    open spec fn deep_view(&self) -> DkmsEntryView {
        self@
    }
}

impl Clone for DkmsEntry {
    fn clone(&self) -> (r: DkmsEntry)
        ensures
            r == *self,
    {
        DkmsEntry {
            module: self.module.clone(),
            version: self.version.clone(),
            kernel: self.kernel.clone(),
            status: self.status.clone(),
        }
    }
}

/// The state of Secure Boot.
#[derive(Debug, Clone, Copy, PartialEq, Eq, Structural)]
pub enum SecureBootStatus {
    Enabled,
    Disabled,
    Unknown,
}

impl Default for SecureBootStatus {
    fn default() -> (r: SecureBootStatus)
        ensures
            r == SecureBootStatus::Unknown,
    {
        SecureBootStatus::Unknown
    }
}

impl SecureBootStatus {
    /// The text shown for a state.
    pub open spec fn text(self) -> Seq<char> {
        match self {
            SecureBootStatus::Enabled => "Enabled (MOK enrollment may be required)"@,
            SecureBootStatus::Disabled => "Disabled"@,
            SecureBootStatus::Unknown => "Unknown"@,
        }
    }

    /// The text shown for this state.
    pub fn to_string(&self) -> (r: String)
        ensures
            r@ == self.text(),
    {
        match self {
            SecureBootStatus::Enabled => "Enabled (MOK enrollment may be required)".to_owned(),
            SecureBootStatus::Disabled => "Disabled".to_owned(),
            SecureBootStatus::Unknown => "Unknown".to_owned(),
        }
    }
}

/// What is known about the system.
#[derive(Debug)]
pub struct SystemInfo {
    pub installed_driver: Option<String>,
    pub gpu_name: Option<String>,
    pub kernel_version: String,
    pub dkms_status: Vec<DkmsEntry>,
    pub secure_boot: SecureBootStatus,
    pub free_disk_bytes: Option<u64>,
    pub reboot_required: bool,
}

/// What a `SystemInfo` holds.
pub struct SystemInfoView {
    pub installed_driver: Option<Seq<char>>,
    pub gpu_name: Option<Seq<char>>,
    pub kernel_version: Seq<char>,
    pub dkms_status: Seq<DkmsEntryView>,
    pub secure_boot: SecureBootStatus,
    pub free_disk_bytes: Option<u64>,
    pub reboot_required: bool,
}

impl View for SystemInfo {
    type V = SystemInfoView;

    open spec fn view(&self) -> SystemInfoView {
        SystemInfoView {
            installed_driver: self.installed_driver.deep_view(),
            gpu_name: self.gpu_name.deep_view(),
            kernel_version: self.kernel_version@,
            dkms_status: self.dkms_status.deep_view(),
            secure_boot: self.secure_boot,
            free_disk_bytes: self.free_disk_bytes,
            reboot_required: self.reboot_required,
        }
    }
}

impl Clone for SystemInfo {
    fn clone(&self) -> (r: SystemInfo)
        ensures
            r@ == self@,
    {
        let r = SystemInfo {
            installed_driver: self.installed_driver.clone(),
            gpu_name: self.gpu_name.clone(),
            kernel_version: self.kernel_version.clone(),
            dkms_status: self.dkms_status.clone(),
            secure_boot: self.secure_boot,
            free_disk_bytes: self.free_disk_bytes,
            reboot_required: self.reboot_required,
        };
        assert(r.dkms_status.deep_view() == self.dkms_status.deep_view());
        r
    }
}

/// What is known before anything has been read.
pub open spec fn nothing_known() -> SystemInfoView {
    SystemInfoView {
        installed_driver: None,
        gpu_name: None,
        kernel_version: Seq::empty(),
        dkms_status: Seq::empty(),
        secure_boot: SecureBootStatus::Unknown,
        free_disk_bytes: None,
        reboot_required: false,
    }
}

impl Default for SystemInfo {
    fn default() -> (r: SystemInfo)
        ensures
            r@ == nothing_known(),
    {
        let dkms_status: Vec<DkmsEntry> = Vec::new();
        assert(dkms_status.deep_view() == Seq::<DkmsEntryView>::empty());
        SystemInfo {
            installed_driver: None,
            gpu_name: None,
            kernel_version: String::new(),
            dkms_status,
            secure_boot: SecureBootStatus::Unknown,
            free_disk_bytes: None,
            reboot_required: false,
        }
    }
}

/// The trimmed output of a command, if the command ran with success and the
/// output is not blank.
pub open spec fn reported(output: Option<CommandOutput>) -> Option<Seq<char>> {
    match output {
        Some(o) => {
            let answer = text::trim(text::lossy_text(o.stdout@));
            if o.success && answer.len() > 0 {
                Some(answer)
            } else {
                None
            }
        },
        None => None,
    }
}

fn report(output: &Option<CommandOutput>) -> (r: Option<String>)
    ensures
        r.deep_view() == reported(*output),
{
    match output {
        Some(o) => {
            let all = text::text_from_utf8(o.stdout.as_slice());
            let answer = text::trimmed(all.as_str());
            if o.success && !answer.as_str().is_empty() {
                Some(answer)
            } else {
                None
            }
        },
        None => None,
    }
}

/// The word after the first `marker` in `words` that another word follows.
pub open spec fn word_after(words: Seq<Seq<char>>, marker: Seq<char>) -> Option<Seq<char>>
    decreases words.len(),
{
    if words.len() < 2 {
        None
    } else if words[0] == marker {
        Some(words[1])
    } else {
        word_after(words.drop_first(), marker)
    }
}

fn find_word_after(words: &Vec<String>, marker: &str) -> (r: Option<String>)
    ensures
        r.deep_view() == word_after(words.deep_view(), marker@),
{
    let ghost all = words.deep_view();
    let mut i: usize = 0;
    assert(all.skip(0) == all);
    while i < words.len()
        invariant
            i <= words@.len(),
            all == words.deep_view(),
            word_after(all, marker@) == word_after(all.skip(i as int), marker@),
        decreases words@.len() - i,
    {
        proof {
            assert(all.skip(i as int)[0] == words@[i as int]@);
            assert(all.skip(i as int).drop_first() == all.skip(i + 1));
        }
        if text::same(words[i].as_str(), marker) && i + 1 < words.len() {
            assert(all.skip(i as int)[1] == words@[i + 1]@);
            return Some(words[i + 1].clone());
        }
        i = i + 1;
    }
    None
}

/// The version in the first of `lines` that reports the kernel module: the word
/// after `Module` in a line such as
/// `NVRM version: NVIDIA UNIX x86_64 Kernel Module  595.84  ...`.
pub open spec fn module_line_version(lines: Seq<Seq<char>>) -> Option<Seq<char>>
    decreases lines.len(),
{
    if lines.len() == 0 {
        None
    } else if text::contains(lines[0], "NVRM version"@) && word_after(
        text::words(lines[0]),
        "Module"@,
    ) is Some {
        word_after(text::words(lines[0]), "Module"@)
    } else {
        module_line_version(lines.drop_first())
    }
}

/// The driver version that `/proc/driver/nvidia/version` gives.
pub fn driver_from_proc(content: &str) -> (r: Option<String>)
    ensures
        r.deep_view() == module_line_version(text::lines(content@)),
{
    let lines = text::split_lines(content);
    let ghost all = lines.deep_view();
    let mut i: usize = 0;
    assert(all.skip(0) == all);
    while i < lines.len()
        invariant
            i <= lines@.len(),
            all == lines.deep_view(),
            all == text::lines(content@),
            module_line_version(all) == module_line_version(all.skip(i as int)),
        decreases lines@.len() - i,
    {
        proof {
            assert(all.skip(i as int)[0] == lines@[i as int]@);
            assert(all.skip(i as int).drop_first() == all.skip(i + 1));
        }
        if text::has(lines[i].as_str(), "NVRM version") {
            let words = text::split_words(lines[i].as_str());
            let found = find_word_after(&words, "Module");
            if found.is_some() {
                return found;
            }
        }
        i = i + 1;
    }
    None
}

/// The version of the running driver that `nvidia-smi` reports. It prints the
/// version on a line for each GPU; all GPUs run on one driver, so the first line
/// gives it.
pub open spec fn smi_version(smi: Option<CommandOutput>) -> Option<Seq<char>> {
    match reported(smi) {
        Some(all) => Some(text::trim(text::lines(all)[0])),
        None => None,
    }
}

/// The version of the running driver: what `nvidia-smi` reports, else what the
/// kernel reports under `/proc`.
pub open spec fn running_driver(probe: DriverProbe) -> Option<Seq<char>> {
    match smi_version(probe.smi) {
        Some(version) => Some(version),
        None => match probe.proc_version {
            Some(content) => module_line_version(text::lines(content@)),
            None => None,
        },
    }
}

/// The version of the running driver that `nvidia-smi` reports.
pub fn driver_from_smi(smi: &Option<CommandOutput>) -> (r: Option<String>)
    ensures
        r.deep_view() == smi_version(*smi),
{
    match report(smi) {
        Some(all) => {
            let lines = text::split_lines(all.as_str());
            assert(lines.deep_view().len() > 0);
            assert(lines.deep_view()[0] == lines@[0]@);
            Some(text::trimmed(lines[0].as_str()))
        },
        None => None,
    }
}

/// The version of the running driver.
pub fn get_installed_driver(probe: &DriverProbe) -> (r: Option<String>)
    ensures
        r.deep_view() == running_driver(*probe),
{
    let version = driver_from_smi(&probe.smi);
    if version.is_some() {
        return version;
    }
    match &probe.proc_version {
        Some(content) => driver_from_proc(content.as_str()),
        None => None,
    }
}

/// The name of the GPU that `nvidia-smi` reports.
pub fn get_gpu_name(output: &Option<CommandOutput>) -> (r: Option<String>)
    ensures
        r.deep_view() == reported(*output),
{
    report(output)
}

/// The kernel release: the trimmed output of `uname -r`, or `unknown` if it
/// could not be run.
pub open spec fn kernel_release(output: Option<CommandOutput>) -> Seq<char> {
    match output {
        Some(o) => text::trim(text::lossy_text(o.stdout@)),
        None => "unknown"@,
    }
}

/// The kernel release.
pub fn get_kernel_version(output: &Option<CommandOutput>) -> (r: String)
    ensures
        r@ == kernel_release(*output),
{
    match output {
        Some(o) => text::trimmed(text::text_from_utf8(o.stdout.as_slice()).as_str()),
        None => "unknown".to_string(),
    }
}

/// Each of `pieces` trimmed.
pub open spec fn trim_each(pieces: Seq<Seq<char>>) -> Seq<Seq<char>> {
    Seq::new(pieces.len(), |i: int| text::trim(pieces[i]))
}

/// The fields of a module specification: what stands between its slashes and
/// commas, trimmed, without blanks.
pub open spec fn dkms_fields(spec: Seq<char>) -> Seq<Seq<char>> {
    text::non_empty(trim_each(text::split(spec, Separator::SlashOrComma)))
}

/// Field number `i`, or `default` if there are fewer.
pub open spec fn field_or(fields: Seq<Seq<char>>, i: int, default: Seq<char>) -> Seq<char> {
    if i < fields.len() {
        fields[i]
    } else {
        default
    }
}

/// The entry that a line of `dkms status` stands for, if it is about an NVIDIA
/// module. The status is what follows the last colon; what precedes it names
/// the module, its version and its kernel, of which each may be missing.
pub open spec fn dkms_entry(raw: Seq<char>) -> Option<DkmsEntryView> {
    let line = text::trim(raw);
    let colon = text::last_position(line, ':');
    let fields = dkms_fields(
        if colon >= 0 {
            text::trim(line.take(colon))
        } else {
            line
        },
    );
    if text::occurs_at(text::lowercase(line), "nvidia"@, 0) {
        Some(
            DkmsEntryView {
                module: field_or(fields, 0, "nvidia"@),
                version: field_or(fields, 1, "?"@),
                kernel: field_or(fields, 2, "\u{2014}"@),
                status: if colon >= 0 {
                    text::trim(line.skip(colon + 1))
                } else {
                    "unknown"@
                },
            },
        )
    } else {
        None
    }
}

/// The entries that the lines of `dkms status` stand for, in order.
pub open spec fn dkms_entries(lines: Seq<Seq<char>>) -> Seq<DkmsEntryView>
    decreases lines.len(),
{
    if lines.len() == 0 {
        seq![]
    } else {
        let rest = dkms_entries(lines.drop_last());
        match dkms_entry(lines.last()) {
            Some(entry) => rest.push(entry),
            None => rest,
        }
    }
}

fn split_fields(spec: &str) -> (r: Vec<String>)
    ensures
        r.deep_view() == dkms_fields(spec@),
{
    let pieces = text::split_text(spec, Separator::SlashOrComma);
    let ghost all = pieces.deep_view();
    let mut fields: Vec<String> = Vec::new();
    let mut i: usize = 0;
    while i < pieces.len()
        invariant
            i <= pieces@.len(),
            all == pieces.deep_view(),
            fields.deep_view() == trim_each(all).take(i as int),
        decreases pieces@.len() - i,
    {
        let ghost before = fields.deep_view();
        let field = text::trimmed(pieces[i].as_str());
        fields.push(field);
        assert(fields.deep_view() == before.push(field@));
        assert(all[i as int] == pieces@[i as int]@);
        i = i + 1;
    }
    assert(trim_each(all).take(i as int) == trim_each(all));
    text::drop_empty(fields)
}

fn pick_field(fields: &Vec<String>, i: usize, default: &str) -> (r: String)
    ensures
        r@ == field_or(fields.deep_view(), i as int, default@),
{
    if i < fields.len() {
        fields[i].clone()
    } else {
        default.to_string()
    }
}

fn read_dkms_line(raw: &str) -> (r: Option<DkmsEntry>)
    ensures
        r.deep_view() == dkms_entry(raw@),
{
    let line = text::trimmed(raw);
    if !text::begins_with(text::to_lower(line.as_str()).as_str(), "nvidia") {
        return None;
    }
    let (spec, status) = match text::split_at_last(line.as_str(), ':') {
        Some((left, right)) => (text::trimmed(left.as_str()), text::trimmed(right.as_str())),
        None => (line, "unknown".to_string()),
    };
    let fields = split_fields(spec.as_str());
    Some(
        DkmsEntry {
            module: pick_field(&fields, 0, "nvidia"),
            version: pick_field(&fields, 1, "?"),
            kernel: pick_field(&fields, 2, "\u{2014}"),
            status,
        },
    )
}

/// The NVIDIA modules in the text of `dkms status`, in any of its formats:
///   - `nvidia/595.84, 7.0.0-27-generic, x86_64: installed`
///   - `nvidia/595.84/7.0.0-27-generic/x86_64: installed`
///   - `nvidia/595.84: added`
pub fn parse_dkms_status(content: &str) -> (r: Vec<DkmsEntry>)
    ensures
        r.deep_view() == dkms_entries(text::lines(content@)),
{
    let lines = text::split_lines(content);
    let ghost all = lines.deep_view();
    let mut entries: Vec<DkmsEntry> = Vec::new();
    let mut i: usize = 0;
    while i < lines.len()
        invariant
            i <= lines@.len(),
            all == lines.deep_view(),
            entries.deep_view() == dkms_entries(all.take(i as int)),
        decreases lines@.len() - i,
    {
        proof {
            assert(all.take(i + 1).drop_last() == all.take(i as int));
            assert(all.take(i + 1).last() == lines@[i as int]@);
        }
        if let Some(entry) = read_dkms_line(lines[i].as_str()) {
            let ghost before = entries.deep_view();
            entries.push(entry);
            assert(entries.deep_view() == before.push(entry@));
        }
        i = i + 1;
    }
    assert(all.take(i as int) == all);
    entries
}

/// The NVIDIA modules that `dkms status` reports; none if it could not be run.
pub open spec fn dkms_modules(output: Option<CommandOutput>) -> Seq<DkmsEntryView> {
    match output {
        Some(o) => dkms_entries(text::lines(text::lossy_text(o.stdout@))),
        None => Seq::empty(),
    }
}

/// The NVIDIA modules that `dkms status` reports.
pub fn get_dkms_status(output: &Option<CommandOutput>) -> (r: Vec<DkmsEntry>)
    ensures
        r.deep_view() == dkms_modules(*output),
{
    match output {
        Some(o) => parse_dkms_status(text::text_from_utf8(o.stdout.as_slice()).as_str()),
        None => Vec::new(),
    }
}

/// The state of Secure Boot that `mokutil` reports.
pub open spec fn mokutil_status(output: Option<CommandOutput>) -> SecureBootStatus {
    match output {
        Some(o) => {
            let answer = text::lowercase(text::lossy_text(o.stdout@));
            if text::contains(answer, "secureboot enabled"@) {
                SecureBootStatus::Enabled
            } else if text::contains(answer, "secureboot disabled"@) {
                SecureBootStatus::Disabled
            } else {
                SecureBootStatus::Unknown
            }
        },
        None => SecureBootStatus::Unknown,
    }
}

/// The state of Secure Boot that the EFI variable holds. Its byte 4 is 1 if
/// Secure Boot is enabled.
pub open spec fn efi_status(variable: Option<Vec<u8>>) -> SecureBootStatus {
    match variable {
        Some(bytes) => if bytes@.len() > 4 && bytes@[4] == 1 {
            SecureBootStatus::Enabled
        } else {
            SecureBootStatus::Disabled
        },
        None => SecureBootStatus::Unknown,
    }
}

/// The state of Secure Boot: what `mokutil` reports, else what the EFI variable
/// holds.
pub open spec fn secure_boot_status(probe: SecureBootProbe) -> SecureBootStatus {
    match mokutil_status(probe.mokutil) {
        SecureBootStatus::Unknown => efi_status(probe.efi_variable),
        known => known,
    }
}

/// The state of Secure Boot that `mokutil` reports.
pub fn secure_boot_from_mokutil(output: &Option<CommandOutput>) -> (r: SecureBootStatus)
    ensures
        r == mokutil_status(*output),
{
    if let Some(o) = output {
        let answer = text::to_lower(text::text_from_utf8(o.stdout.as_slice()).as_str());
        if text::has(answer.as_str(), "secureboot enabled") {
            return SecureBootStatus::Enabled;
        }
        if text::has(answer.as_str(), "secureboot disabled") {
            return SecureBootStatus::Disabled;
        }
    }
    SecureBootStatus::Unknown
}

/// The state of Secure Boot.
pub fn get_secure_boot(probe: &SecureBootProbe) -> (r: SecureBootStatus)
    ensures
        r == secure_boot_status(*probe),
{
    match secure_boot_from_mokutil(&probe.mokutil) {
        SecureBootStatus::Enabled => SecureBootStatus::Enabled,
        SecureBootStatus::Disabled => SecureBootStatus::Disabled,
        SecureBootStatus::Unknown => match &probe.efi_variable {
            Some(bytes) => if bytes.len() > 4 && bytes[4] == 1 {
                SecureBootStatus::Enabled
            } else {
                SecureBootStatus::Disabled
            },
            None => SecureBootStatus::Unknown,
        },
    }
}

/// The free space in bytes that `df` reports: the number in its second line.
pub open spec fn free_space(output: Option<CommandOutput>) -> Option<nat> {
    match output {
        Some(o) => {
            let lines = text::lines(text::lossy_text(o.stdout@));
            if lines.len() > 1 {
                number::parse(text::trim(lines[1]), u64::MAX as nat)
            } else {
                None
            }
        },
        None => None,
    }
}

/// The number `n` as an optional 64-bit number.
pub open spec fn as_u64(n: Option<nat>) -> Option<u64> {
    match n {
        Some(n) => Some(n as u64),
        None => None,
    }
}

/// The free space in bytes that `df` reports.
pub fn get_free_disk(output: &Option<CommandOutput>) -> (r: Option<u64>)
    ensures
        r == as_u64(free_space(*output)),
        free_space(*output) matches Some(n) ==> n <= u64::MAX,
{
    match output {
        Some(o) => {
            let lines = text::split_lines(text::text_from_utf8(o.stdout.as_slice()).as_str());
            if lines.len() > 1 {
                assert(lines.deep_view()[1] == lines@[1]@);
                number::parse_u64(text::trimmed(lines[1].as_str()).as_str())
            } else {
                None
            }
        },
        None => None,
    }
}

/// The version of the kernel module on disk, which will load at the next boot.
pub fn get_disk_module_version(output: &Option<CommandOutput>) -> (r: Option<String>)
    ensures
        r.deep_view() == reported(*output),
{
    report(output)
}

/// Whether a driver on disk waits for the next boot: there is one, and it is
/// not the one that is running.
pub open spec fn reboot_pending(running: Option<Seq<char>>, on_disk: Option<Seq<char>>) -> bool {
    on_disk is Some && running != on_disk
}

/// Whether a reboot is required for the driver on disk to take over from the
/// running one.
pub fn check_reboot_required(probe: &RebootProbe) -> (r: bool)
    ensures
        r == reboot_pending(running_driver(probe.running), reported(probe.module)),
{
    let running = get_installed_driver(&probe.running);
    let on_disk = get_disk_module_version(&probe.module);
    match (running, on_disk) {
        (Some(r), Some(d)) => !text::same(r.as_str(), d.as_str()),
        (None, Some(_)) => true,
        _ => false,
    }
}

/// What the probes tell about the system.
pub open spec fn system_info(probe: SystemProbe) -> SystemInfoView {
    SystemInfoView {
        installed_driver: running_driver(probe.driver),
        gpu_name: reported(probe.gpu),
        kernel_version: kernel_release(probe.kernel),
        dkms_status: dkms_modules(probe.dkms),
        secure_boot: secure_boot_status(probe.secure_boot),
        free_disk_bytes: as_u64(free_space(probe.disk)),
        reboot_required: reboot_pending(
            running_driver(probe.reboot.running),
            reported(probe.reboot.module),
        ),
    }
}

/// What the probes tell about the system.
pub fn query_system(probe: &SystemProbe) -> (r: SystemInfo)
    ensures
        r@ == system_info(*probe),
{
    SystemInfo {
        installed_driver: get_installed_driver(&probe.driver),
        gpu_name: get_gpu_name(&probe.gpu),
        kernel_version: get_kernel_version(&probe.kernel),
        dkms_status: get_dkms_status(&probe.dkms),
        secure_boot: get_secure_boot(&probe.secure_boot),
        free_disk_bytes: get_free_disk(&probe.disk),
        reboot_required: check_reboot_required(&probe.reboot),
    }
}

/// The disk space in bytes that a download and an install should find.
pub const MIN_DISK_BYTES: u64 = 2 * 1024 * 1024 * 1024;

/// The number of bytes in a GB.
pub const GIGABYTE: u64 = 1_073_741_824;

/// The number of bytes in an MB.
pub const MEGABYTE: u64 = 1_048_576;

/// The integer nearest to `n / d`; of two that are equally near, the even one.
pub open spec fn round_half_even(n: nat, d: nat) -> nat {
    let q = n / d;
    let r = n % d;
    if 2 * r < d || (2 * r == d && q % 2 == 0) {
        q
    } else {
        q + 1
    }
}

/// The distance between double-precision numbers around `n`: a power of two,
/// 1 below 2^53.
pub open spec fn double_spacing(n: nat) -> nat
    decreases n,
{
    if n < 0x20_0000_0000_0000 {
        1
    } else {
        2 * double_spacing(n / 2)
    }
}

/// The double-precision number nearest to `n`.
pub open spec fn nearest_double(n: nat) -> nat {
    round_half_even(n, double_spacing(n)) * double_spacing(n)
}

/// How many tenths of `unit` there are in `bytes`, taken in double precision
/// and rounded to the nearest, ties to even.
pub open spec fn tenths(bytes: nat, unit: nat) -> nat {
    round_half_even(10 * nearest_double(bytes), unit)
}

/// A number of tenths, with one decimal.
pub open spec fn one_decimal(tenths: nat) -> Seq<char> {
    number::decimal(tenths / 10) + "."@ + number::decimal(tenths % 10)
}

/// A size in bytes as text: in GB or MB with one decimal, or else in whole KB.
pub open spec fn bytes_text(bytes: nat) -> Seq<char> {
    if bytes >= GIGABYTE {
        one_decimal(tenths(bytes, GIGABYTE as nat)) + " GB"@
    } else if bytes >= MEGABYTE {
        one_decimal(tenths(bytes, MEGABYTE as nat)) + " MB"@
    } else {
        number::decimal(bytes / 1024) + " KB"@
    }
}

fn divide_half_even(n: u128, d: u128) -> (r: u128)
    requires
        0 < d < 0x1_0000_0000_0000_0000,
    ensures
        r == round_half_even(n as nat, d as nat),
{
    let q: u128 = n / d;
    let r: u128 = n % d;
    if 2 * r < d || (2 * r == d && q % 2 == 0) {
        q
    } else {
        assert(q < u128::MAX) by (nonlinear_arith)
            requires
                q == n / d,
                d > 0,
                n % d > 0,
        ;
        q + 1
    }
}

fn spacing_around(n: u64) -> (r: u64)
    ensures
        r == double_spacing(n as nat),
        1 <= r <= 4096,
{
    let mut step: u64 = 1;
    let mut rest: u64 = n;
    while rest >= 0x20_0000_0000_0000
        invariant
            step >= 1,
            step * rest <= n,
            double_spacing(n as nat) == step * double_spacing(rest as nat),
            step <= 4096,
        decreases rest,
    {
        assert(step < 2048) by (nonlinear_arith)
            requires
                step * rest <= n,
                rest >= 0x20_0000_0000_0000,
                n <= u64::MAX,
        ;
        assert((step * 2) * (rest / 2) <= step * rest) by (nonlinear_arith)
            requires
                step >= 0,
        ;
        let ghost half = double_spacing((rest / 2) as nat);
        assert(step * (2 * half) == (step * 2) * half) by (nonlinear_arith);
        step = step * 2;
        rest = rest / 2;
    }
    assert(step * double_spacing(rest as nat) == step) by (nonlinear_arith)
        requires
            double_spacing(rest as nat) == 1,
    ;
    step
}

/// The tenths of `unit` in `bytes`, with one decimal.
fn render_tenths(bytes: u64, unit: u64) -> (r: String)
    requires
        unit == GIGABYTE || unit == MEGABYTE,
    ensures
        r@ == one_decimal(tenths(bytes as nat, unit as nat)),
{
    let step: u128 = spacing_around(bytes) as u128;
    let q: u128 = divide_half_even(bytes as u128, step);
    assert(q <= 0x1_0000_0000_0000_0000) by {
        assert(bytes as u128 / step <= bytes) by (nonlinear_arith)
            requires
                step >= 1,
        ;
    }
    assert(0 <= q * step <= 0x1_0000_0000_0000_0000 * 4096) by (nonlinear_arith)
        requires
            0 <= q <= 0x1_0000_0000_0000_0000,
            0 <= step <= 4096,
    ;
    let count: u128 = divide_half_even(10 * (q * step), unit as u128);
    assert(count <= u64::MAX) by {
        let n: int = 10 * (q * step);
        let d: int = unit as int;
        assert(n / d <= n / 1_048_576) by (nonlinear_arith)
            requires
                0 <= n,
                1_048_576 <= d,
        ;
    }
    let t: u64 = count as u64;
    let mut r = number::render(t / 10);
    r.append(".");
    r.append(number::render(t % 10).as_str());
    r
}

/// A size in bytes as text, such as `2.5 GB`.
pub fn format_bytes(b: u64) -> (r: String)
    ensures
        r@ == bytes_text(b as nat),
{
    if b >= GIGABYTE {
        let mut r = render_tenths(b, GIGABYTE);
        r.append(" GB");
        r
    } else if b >= MEGABYTE {
        let mut r = render_tenths(b, MEGABYTE);
        r.append(" MB");
        r
    } else {
        let mut r = number::render(b / 1024);
        r.append(" KB");
        r
    }
}

/// Whether `s` can stand as a field in a line of `dkms status`.
pub open spec fn is_dkms_field(s: Seq<char>) -> bool {
    &&& text::is_trimmed(s)
    &&& forall|i: int| 0 <= i < s.len() ==> #[trigger] s[i] != '/' && s[i] != ','
}

/// The fields of a module specification written one after the other, each
/// followed by a slash or by a comma and a space.
pub open spec fn dkms_specification(fields: Seq<Seq<char>>, slashes: Seq<bool>) -> Seq<char>
    decreases fields.len(),
{
    if fields.len() <= 1 {
        fields[0]
    } else {
        let rest = dkms_specification(fields.drop_first(), slashes.drop_first());
        if slashes[0] {
            fields[0] + seq!['/'] + rest
        } else {
            fields[0] + seq![','] + (seq![' '] + rest)
        }
    }
}

proof fn lemma_specification_is_trimmed(fields: Seq<Seq<char>>, slashes: Seq<bool>)
    requires
        fields.len() > 0,
        slashes.len() + 1 == fields.len(),
        forall|i: int| 0 <= i < fields.len() ==> is_dkms_field(#[trigger] fields[i]),
    ensures
        text::is_trimmed(dkms_specification(fields, slashes)),
        dkms_specification(fields, slashes).first() == fields[0].first(),
    decreases fields.len(),
{
    assert(is_dkms_field(fields[0]));
    if fields.len() > 1 {
        assert forall|i: int| 0 <= i < fields.drop_first().len() implies is_dkms_field(
            #[trigger] fields.drop_first()[i],
        ) by {
            assert(fields.drop_first()[i] == fields[i + 1]);
        }
        lemma_specification_is_trimmed(fields.drop_first(), slashes.drop_first());
    }
}

proof fn lemma_fields_are_read(pad: Seq<char>, fields: Seq<Seq<char>>, slashes: Seq<bool>)
    requires
        fields.len() > 0,
        slashes.len() + 1 == fields.len(),
        forall|i: int| 0 <= i < fields.len() ==> is_dkms_field(#[trigger] fields[i]),
        forall|i: int| 0 <= i < pad.len() ==> #[trigger] pad[i] == ' ',
    ensures
        dkms_fields(pad + dkms_specification(fields, slashes)) == fields,
    decreases fields.len(),
{
    let first = fields[0];
    let padded = pad + first;
    assert(is_dkms_field(first));
    text::lemma_trim_padded(pad, first);
    assert forall|i: int| 0 <= i < padded.len() implies !text::cuts(
        Separator::SlashOrComma,
        #[trigger] padded[i],
    ) by {
        if i < pad.len() {
            assert(padded[i] == pad[i]);
        } else {
            assert(padded[i] == first[i - pad.len()]);
        }
    }
    let all = pad + dkms_specification(fields, slashes);
    let none = Seq::<Seq<char>>::empty();
    if fields.len() == 1 {
        text::lemma_split_whole(padded, Separator::SlashOrComma);
        assert(trim_each(seq![padded]) == seq![first] + none);
        text::lemma_non_empty_first(first, none);
        assert(fields == seq![first] + none);
    } else {
        let others = fields.drop_first();
        assert forall|i: int| 0 <= i < others.len() implies is_dkms_field(#[trigger] others[i]) by {
            assert(others[i] == fields[i + 1]);
        }
        let spec = dkms_specification(others, slashes.drop_first());
        let (cut, gap) = if slashes[0] {
            ('/', Seq::<char>::empty())
        } else {
            (',', seq![' '])
        };
        lemma_fields_are_read(gap, others, slashes.drop_first());
        assert(all == padded + seq![cut] + (gap + spec));
        text::lemma_split_at(padded, cut, gap + spec, Separator::SlashOrComma);
        let pieces = text::split(gap + spec, Separator::SlashOrComma);
        assert(trim_each(seq![padded] + pieces) == seq![first] + trim_each(pieces));
        text::lemma_non_empty_first(first, trim_each(pieces));
        assert(fields == seq![first] + others);
    }
}

/// Whether `s` begins with `nvidia`, in letters of either case.
pub open spec fn names_nvidia(s: Seq<char>) -> bool {
    s.len() >= 6 && text::ascii_lowercase(s.take(6)) == "nvidia"@
}

/// The lower case of a text begins with `nvidia` exactly if the text begins with
/// these letters of either case: no character beyond ASCII passes for one of
/// them.
pub proof fn nvidia_is_spelled_in_ascii(s: Seq<char>)
    ensures
        text::occurs_at(text::lowercase(s), "nvidia"@, 0) <==> names_nvidia(s),
{
    reveal_strlit("nvidia");
    let lower = text::lowercase(s);
    text::lowercase_keeps_ascii_run(s);
    if names_nvidia(s) {
        lemma_nvidia_letters(s);
        assert forall|i: int| 0 <= i < 6 implies i < lower.len() && #[trigger] lower[i]
            == "nvidia"@[i] by {
            assert(text::is_ascii_up_to(s, i)) by {
                assert forall|k: int| 0 <= k < i implies '\0' <= #[trigger] s.take(i)[k]
                    <= '\u{7f}' by {
                    assert(s.take(i)[k] == s[k]);
                }
            }
        }
        assert(lower[5] == 'a');
        assert(lower.subrange(0, 6) == "nvidia"@);
    }
    if text::occurs_at(lower, "nvidia"@, 0) {
        lemma_nvidia_run(s, 6);
        assert(text::ascii_lowercase(s.take(6)) == "nvidia"@);
    }
}

proof fn lemma_nvidia_letters(s: Seq<char>)
    requires
        names_nvidia(s),
    ensures
        forall|i: int|
            0 <= i < 6 ==> #[trigger] s[i] <= '\u{7f}' && text::ascii_lower(s[i]) == "nvidia"@[i]
                && !text::is_white_space(s[i]) && s[i] != ':' && s[i] != '/' && s[i] != ',',
{
    reveal_strlit("nvidia");
    assert forall|i: int| 0 <= i < 6 implies #[trigger] s[i] <= '\u{7f}' && text::ascii_lower(s[i])
        == "nvidia"@[i] && !text::is_white_space(s[i]) && s[i] != ':' && s[i] != '/' && s[i]
        != ',' by {
        assert(text::ascii_lowercase(s.take(6))[i] == text::ascii_lower(s[i]));
    }
}

proof fn lemma_nvidia_run(s: Seq<char>, n: int)
    requires
        0 <= n <= 6,
        text::occurs_at(text::lowercase(s), "nvidia"@, 0),
        text::keeps_ascii_run(s, text::lowercase(s)),
    ensures
        text::is_ascii_up_to(s, n),
        forall|i: int| 0 <= i < n ==> text::ascii_lower(#[trigger] s[i]) == "nvidia"@[i],
    decreases n,
{
    reveal_strlit("nvidia");
    let lower = text::lowercase(s);
    assert forall|i: int| 0 <= i < 6 implies #[trigger] lower[i] == "nvidia"@[i] by {
        assert(lower.subrange(0, 6)[i] == lower[i]);
    }
    if n > 0 {
        let m = n - 1;
        lemma_nvidia_run(s, m);
        if m == s.len() {
            assert(s.take(m) == s);
            assert(lower.len() == m);
        }
        if s[m] > '\u{7f}' {
            assert(lower.skip(m)[0] == lower[m]);
            assert(m < 5 ==> lower.skip(m)[1] == lower[m + 1]);
        }
        assert(lower[m] == "nvidia"@[m]);
        assert forall|i: int| 0 <= i < n implies '\0' <= #[trigger] s.take(n)[i] <= '\u{7f}' by {
            if i < m {
                assert(s.take(n)[i] == s.take(m)[i]);
            }
        }
    }
}

/// The formats of `dkms status` read alike: whether slashes or commas stand
/// between the fields of a line, and however many fields there are, the module,
/// the version and the kernel are the first three, and the status is what
/// follows the last colon. Whether the line is about an NVIDIA module is for its
/// first field to say.
pub proof fn dkms_formats_read_alike(
    fields: Seq<Seq<char>>,
    slashes: Seq<bool>,
    status: Seq<char>,
)
    requires
        fields.len() > 0,
        slashes.len() + 1 == fields.len(),
        forall|i: int| 0 <= i < fields.len() ==> is_dkms_field(#[trigger] fields[i]),
        text::is_trimmed(status),
        forall|i: int| 0 <= i < status.len() ==> #[trigger] status[i] != ':',
    ensures
        ({
            let line = dkms_specification(fields, slashes) + seq![':', ' '] + status;
            dkms_entry(line) == if text::occurs_at(text::lowercase(fields[0]), "nvidia"@, 0) {
                Some(
                    DkmsEntryView {
                        module: fields[0],
                        version: if fields.len() > 1 {
                            fields[1]
                        } else {
                            "?"@
                        },
                        kernel: if fields.len() > 2 {
                            fields[2]
                        } else {
                            "\u{2014}"@
                        },
                        status,
                    },
                )
            } else {
                None
            }
        }),
{
    let spec = dkms_specification(fields, slashes);
    let line = spec + seq![':', ' '] + status;
    let none = Seq::<char>::empty();
    lemma_specification_is_trimmed(fields, slashes);
    assert(line.first() == spec.first());
    assert(line.last() == status.last());
    text::lemma_trim_padded(none, line);
    assert(none + line == line);
    assert forall|i: int| spec.len() < i < line.len() implies #[trigger] line[i] != ':' by {
        if i > spec.len() + 1 {
            assert(line[i] == status[i - spec.len() - 2]);
        }
    }
    text::lemma_last_position(line, ':', spec.len() as int);
    assert(line.take(spec.len() as int) == spec);
    text::lemma_trim_padded(none, spec);
    assert(none + spec == spec);
    lemma_fields_are_read(none, fields, slashes);
    assert(line.skip(spec.len() as int + 1) == seq![' '] + status);
    text::lemma_trim_padded(seq![' '], status);
    nvidia_is_spelled_in_ascii(line);
    nvidia_is_spelled_in_ascii(fields[0]);
    lemma_first_field_names(fields, slashes, seq![' '] + status);
    assert(line == spec + seq![':'] + (seq![' '] + status));
}

/// A line is about an NVIDIA module exactly if its first field is.
proof fn lemma_first_field_names(
    fields: Seq<Seq<char>>,
    slashes: Seq<bool>,
    rest: Seq<char>,
)
    requires
        fields.len() > 0,
    ensures
        names_nvidia(dkms_specification(fields, slashes) + seq![':'] + rest) <==> names_nvidia(
            fields[0],
        ),
{
    let line = dkms_specification(fields, slashes) + seq![':'] + rest;
    let first = fields[0];
    let n = first.len() as int;
    assert(n < line.len() && (line[n] == ':' || line[n] == '/' || line[n] == ','));
    assert(line.take(n) == first);
    assert forall|i: int| 0 <= i < n implies #[trigger] line[i] == first[i] by {
        assert(line.take(n)[i] == line[i]);
    }
    if names_nvidia(line) {
        lemma_nvidia_letters(line);
        assert(n >= 6);
        assert(line.take(6) == first.take(6));
    }
    if names_nvidia(first) {
        assert(line.take(6) == first.take(6));
    }
}

/// A line of the older format of `dkms status`.
pub open spec fn old_dkms_line(
    module: Seq<char>,
    version: Seq<char>,
    kernel: Seq<char>,
    architecture: Seq<char>,
    status: Seq<char>,
) -> Seq<char> {
    module + "/"@ + version + ", "@ + kernel + ", "@ + architecture + ": "@ + status
}

/// A line of the newer format of `dkms status`.
pub open spec fn new_dkms_line(
    module: Seq<char>,
    version: Seq<char>,
    kernel: Seq<char>,
    architecture: Seq<char>,
    status: Seq<char>,
) -> Seq<char> {
    module + "/"@ + version + "/"@ + kernel + "/"@ + architecture + ": "@ + status
}

/// Whether `s` has no line feed in it.
pub open spec fn is_one_line(s: Seq<char>) -> bool {
    forall|i: int| 0 <= i < s.len() ==> #[trigger] s[i] != '\n'
}

/// The older and the newer format of `dkms status` give one and the same entry,
/// without the architecture.
pub proof fn old_and_new_dkms_agree(
    module: Seq<char>,
    version: Seq<char>,
    kernel: Seq<char>,
    architecture: Seq<char>,
    status: Seq<char>,
)
    requires
        is_dkms_field(module) && is_one_line(module),
        is_dkms_field(version) && is_one_line(version),
        is_dkms_field(kernel) && is_one_line(kernel),
        is_dkms_field(architecture) && is_one_line(architecture),
        text::is_trimmed(status) && is_one_line(status),
        forall|i: int| 0 <= i < status.len() ==> #[trigger] status[i] != ':',
        text::occurs_at(text::lowercase(module), "nvidia"@, 0),
    ensures
        dkms_entries(
            text::lines(old_dkms_line(module, version, kernel, architecture, status)),
        ) == seq![DkmsEntryView { module, version, kernel, status }],
        dkms_entries(
            text::lines(new_dkms_line(module, version, kernel, architecture, status)),
        ) == seq![DkmsEntryView { module, version, kernel, status }],
{
    reveal_strlit("/");
    reveal_strlit(", ");
    reveal_strlit(": ");
    let fields = seq![module, version, kernel, architecture];
    let old_line = old_dkms_line(module, version, kernel, architecture, status);
    let new_line = new_dkms_line(module, version, kernel, architecture, status);
    dkms_formats_read_alike(fields, seq![true, false, false], status);
    dkms_formats_read_alike(fields, seq![true, true, true], status);
    lemma_four_fields(module, version, kernel, architecture, false);
    lemma_four_fields(module, version, kernel, architecture, true);
    assert(old_line == dkms_specification(fields, seq![true, false, false]) + seq![':', ' ']
        + status);
    assert(new_line == dkms_specification(fields, seq![true, true, true]) + seq![':', ' ']
        + status);
    assert(is_one_line("/"@) && is_one_line(", "@) && is_one_line(": "@));
    lemma_one_entry(old_line);
    lemma_one_entry(new_line);
}

proof fn lemma_four_fields(
    a: Seq<char>,
    b: Seq<char>,
    c: Seq<char>,
    d: Seq<char>,
    slash: bool,
)
    ensures
        ({
            let cut = if slash {
                seq!['/']
            } else {
                seq![',', ' ']
            };
            dkms_specification(seq![a, b, c, d], seq![true, slash, slash]) == a + seq!['/'] + b
                + cut + c + cut + d
        }),
{
    let fields = seq![a, b, c, d];
    let slashes = seq![true, slash, slash];
    assert(fields.drop_first() == seq![b, c, d]);
    assert(slashes.drop_first() == seq![slash, slash]);
    assert(seq![b, c, d].drop_first() == seq![c, d]);
    assert(seq![slash, slash].drop_first() == seq![slash]);
    assert(seq![c, d].drop_first() == seq![d]);
    assert(seq![slash].drop_first() == Seq::<bool>::empty());
    assert(dkms_specification(seq![d], Seq::empty()) == d);
    let cut = if slash {
        seq!['/']
    } else {
        seq![',', ' ']
    };
    assert(dkms_specification(seq![c, d], seq![slash]) == c + cut + d);
    assert(dkms_specification(seq![b, c, d], seq![slash, slash]) == b + cut + c + cut + d);
    assert(dkms_specification(fields, slashes) == a + seq!['/'] + b + cut + c + cut + d);
}

proof fn lemma_one_entry(line: Seq<char>)
    requires
        line.len() > 0,
        is_one_line(line),
    ensures
        dkms_entry(line) matches Some(entry) ==> dkms_entries(text::lines(line)) == seq![entry],
{
    text::lemma_one_line(line);
    let all = seq![line];
    assert(all.drop_last() == Seq::<Seq<char>>::empty());
    assert(dkms_entries(all.drop_last()) == Seq::<DkmsEntryView>::empty());
    assert(all.last() == line);
}

/// The module of every entry begins with `nvidia` in lower case.
pub proof fn dkms_modules_are_nvidia(raw: Seq<char>)
    ensures
        dkms_entry(raw) matches Some(entry) ==> text::occurs_at(
            text::lowercase(entry.module),
            "nvidia"@,
            0,
        ),
{
    let line = text::trim(raw);
    nvidia_is_spelled_in_ascii(line);
    if names_nvidia(line) {
        lemma_nvidia_letters(line);
        let colon = text::last_position(line, ':');
        text::lemma_last_position_is(line, ':');
        let spec = if colon >= 0 {
            text::trim(line.take(colon))
        } else {
            line
        };
        if colon >= 0 {
            let k = text::lemma_trim_keeps(line.take(colon), 6);
            assert(spec.take(6) == line.take(6));
        }
        lemma_nvidia_letters(spec);
        text::lemma_split_first(spec, Separator::SlashOrComma);
        let n = text::find(spec, Separator::SlashOrComma) as int;
        text::lemma_find_cuts(spec, Separator::SlashOrComma);
        let piece = spec.take(n);
        assert(piece.take(6) == spec.take(6));
        let k = text::lemma_trim_keeps(piece, 6);
        let first = text::trim(piece);
        assert(first.take(6) == piece.take(6));
        nvidia_is_spelled_in_ascii(first);
        let pieces = text::split(spec, Separator::SlashOrComma);
        assert(trim_each(pieces) == seq![first] + trim_each(pieces).drop_first());
        text::lemma_non_empty_first(first, trim_each(pieces).drop_first());
        assert(dkms_fields(spec)[0] == first);
    }
}

/// The text of `count` lines, each of which is `line`.
pub open spec fn repeated_line(line: Seq<char>, count: nat) -> Seq<char>
    decreases count,
{
    if count == 0 {
        Seq::empty()
    } else {
        line + seq!['\n'] + repeated_line(line, (count - 1) as nat)
    }
}

/// A version that `nvidia-smi` prints on any number of lines, one for each GPU,
/// is read as that version.
pub proof fn version_is_read_once(output: CommandOutput, version: Seq<char>, count: nat)
    requires
        output.success,
        count > 0,
        text::is_trimmed(version),
        is_one_line(version),
        text::lossy_text(output.stdout@) == repeated_line(version, count),
    ensures
        smi_version(Some(output)) == Some(version),
        count == 1 ==> reported(Some(output)) == Some(version),
{
    let rest = repeated_line(version, (count - 1) as nat);
    let all = version + seq!['\n'] + rest;
    let n = version.len() as int;
    assert(all[0] == version.first());
    assert(all[n - 1] == version.last());
    let k = text::lemma_trim_keeps(all, n);
    let answer = text::trim(all);
    if k == n {
        assert(answer == version);
        text::lemma_one_line(version);
    } else {
        assert(answer == version + seq!['\n'] + rest.take(k - n - 1));
        text::lemma_first_line(version, rest.take(k - n - 1));
    }
    text::lemma_trim_padded(Seq::empty(), version);
    assert(Seq::<char>::empty() + version == version);
    if count == 1 {
        assert(rest == Seq::<char>::empty());
        lemma_trim_drops_line_feed(version);
    }
}

proof fn lemma_trim_drops_line_feed(line: Seq<char>)
    requires
        text::is_trimmed(line),
    ensures
        text::trim(line + seq!['\n'] + Seq::<char>::empty()) == line,
{
    let all = line + seq!['\n'] + Seq::<char>::empty();
    assert(all.last() == '\n');
    assert(all.first() == line.first());
    assert(all.drop_last() == line);
    assert(text::trim_start(all) == all);
    assert(text::trim_end(line) == line);
}

/// A reboot is required exactly if the driver on disk differs from the running
/// one: when `nvidia-smi` prints the version `running` for each of any number of
/// GPUs and `modinfo` prints the version `on_disk`, the two are compared.
pub proof fn reboot_follows_the_versions(
    smi: CommandOutput,
    proc_version: Option<String>,
    module: CommandOutput,
    running: Seq<char>,
    on_disk: Seq<char>,
    gpus: nat,
)
    requires
        smi.success && module.success,
        gpus > 0,
        text::is_trimmed(running) && is_one_line(running),
        text::is_trimmed(on_disk) && is_one_line(on_disk),
        text::lossy_text(smi.stdout@) == repeated_line(running, gpus),
        text::lossy_text(module.stdout@) == repeated_line(on_disk, 1),
    ensures
        reboot_pending(
            running_driver(DriverProbe { smi: Some(smi), proc_version }),
            reported(Some(module)),
        ) <==> running != on_disk,
{
    version_is_read_once(smi, running, gpus);
    version_is_read_once(module, on_disk, 1);
}

/// Where the driver on disk is the running one, no reboot is required.
pub proof fn same_driver_needs_no_reboot(probe: RebootProbe, version: Seq<char>)
    requires
        smi_version(probe.running.smi) == Some(version),
        reported(probe.module) == Some(version),
    ensures
        !reboot_pending(running_driver(probe.running), reported(probe.module)),
{
}

/// Below 2^53 bytes double precision loses nothing.
pub proof fn small_numbers_are_exact(n: nat)
    requires
        n < 0x20_0000_0000_0000,
    ensures
        nearest_double(n) == n,
{
    assert(double_spacing(n) == 1);
    assert(round_half_even(n, 1) == n);
}

} // verus!
