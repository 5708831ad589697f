//! Laws of what the window shows and what the application holds.

use crate::digest;
use crate::download;
use crate::install::InstallOptionsView;
use crate::laws::text as text_laws;
use crate::number;
use crate::system;
use crate::system::{DkmsEntryView, SecureBootStatus, SystemInfoView};
use crate::text;
use crate::text::Separator;
use crate::ui;
use crate::ui::{
    AfterDownloadView, AppStateView, ChangeView, InstallResultView, NoticeView, VersionRowView,
};
use crate::versions;
use crate::versions::{DriverVersionView, VersionRelation};
use vstd::prelude::*;
use vstd::utf8::*;

verus! {

proof fn lemma_split_concat(a: Seq<char>, c: char, b: Seq<char>, sep: Separator)
    requires
        text::cuts(sep, c),
    ensures
        text::split(a + seq![c] + b, sep) == text::split(a, sep) + text::split(b, sep),
    decreases a.len(),
{
    let n = text::find(a, sep) as int;
    text::lemma_find_cuts(a, sep);
    text_laws::lemma_no_cut_before(a, sep);
    if n == a.len() {
        text::lemma_split_at(a, c, b, sep);
    } else {
        let head = a.take(n);
        let rest = a.skip(n + 1);
        lemma_split_concat(rest, c, b, sep);
        text::lemma_split_at(head, a[n], rest + seq![c] + b, sep);
        assert(a + seq![c] + b == head + seq![a[n]] + (rest + seq![c] + b));
        assert(seq![head] + (text::split(rest, sep) + text::split(b, sep)) == text::split(a, sep)
            + text::split(b, sep));
    }
}

/// Whether `s` can be the name of a file.
pub open spec fn is_file_name(s: Seq<char>) -> bool {
    &&& s.len() > 0
    &&& forall|i: int| 0 <= i < s.len() ==> #[trigger] s[i] != '/'
    &&& s != seq!['.']
    &&& s != seq!['.', '.']
}

proof fn lemma_name_last(parts: Seq<Seq<char>>, name: Seq<char>)
    requires
        is_file_name(name),
    ensures
        ui::last_name(parts.push(name)) == Some(name),
{
    reveal_strlit(".");
    reveal_strlit("..");
    assert("."@ == seq!['.']);
    assert(".."@ == seq!['.', '.']);
}

proof fn lemma_nothing_last(parts: Seq<Seq<char>>)
    ensures
        ui::last_name(parts.push(Seq::empty())) == ui::last_name(parts),
        ui::last_name(parts.push(seq!['.'])) == ui::last_name(parts),
        ui::last_name(parts.push(seq!['.', '.'])) is None,
{
    reveal_strlit(".");
    reveal_strlit("..");
    assert("."@ == seq!['.']);
    assert(".."@ == seq!['.', '.']);
    assert(parts.push(Seq::<char>::empty()).drop_last() == parts);
    assert(parts.push(seq!['.']).drop_last() == parts);
    assert(seq!['.', '.'] != seq!['.']) by {
        assert(seq!['.', '.'].len() == 2);
    }
}

/// The title of a file is its name, whatever directories lead to it and whether
/// or not a slash or `/.` follows. A path that ends with `..` is shown whole, and
/// so is one without a name.
pub proof fn file_is_shown_by_its_name(directory: Seq<char>, name: Seq<char>)
    requires
        is_file_name(name),
    ensures
        ui::shown_name(name) == name,
        ui::shown_name(directory + seq!['/'] + name) == name,
        ui::shown_name(directory + seq!['/'] + name + seq!['/']) == name,
        ui::shown_name(directory + seq!['/'] + name + seq!['/', '.']) == name,
        ui::shown_name(directory + seq!['/'] + seq!['.', '.']) == directory + seq!['/']
            + seq!['.', '.'],
        ui::shown_name(seq!['/']) == seq!['/'],
        ui::shown_name(Seq::empty()) == Seq::<char>::empty(),
{
    let slash = Separator::Slash;
    let none = Seq::<char>::empty();
    let nothing = Seq::<Seq<char>>::empty();
    let path = directory + seq!['/'] + name;
    let parts = text::split(directory, slash);
    text::lemma_split_whole(name, slash);
    text::lemma_split_whole(none, slash);
    text::lemma_split_whole(seq!['.'], slash);
    text::lemma_split_whole(seq!['.', '.'], slash);
    lemma_split_concat(directory, '/', name, slash);
    assert(parts + seq![name] == parts.push(name));
    lemma_name_last(parts, name);
    assert(nothing.push(name) == seq![name]);
    lemma_name_last(nothing, name);
    lemma_split_concat(path, '/', none, slash);
    assert(path + seq!['/'] + none == path + seq!['/']);
    assert(text::split(path, slash) + seq![none] == text::split(path, slash).push(none));
    lemma_nothing_last(text::split(path, slash));
    lemma_split_concat(path, '/', seq!['.'], slash);
    assert(path + seq!['/'] + seq!['.'] == path + seq!['/', '.']);
    assert(text::split(path, slash) + seq![seq!['.']] == text::split(path, slash).push(seq!['.']));
    lemma_split_concat(directory, '/', seq!['.', '.'], slash);
    assert(parts + seq![seq!['.', '.']] == parts.push(seq!['.', '.']));
    lemma_nothing_last(parts);
    lemma_split_concat(none, '/', none, slash);
    assert(none + seq!['/'] + none == seq!['/']);
    assert(seq![none] + seq![none] == nothing.push(none).push(none));
    assert(nothing.push(none) == seq![none]);
    lemma_nothing_last(nothing.push(none));
    lemma_nothing_last(nothing);
}

/// Slashes and `/.` at the end of a path do not change which name it ends with,
/// `/..` leaves it without one, and a path is shown by its name or whole.
pub proof fn end_of_a_path_may_be_empty(path: Seq<char>)
    ensures
        ({
            let name = ui::last_name(text::split(path, Separator::Slash));
            let slash = path + seq!['/'];
            &&& ui::last_name(text::split(slash, Separator::Slash)) == name
            &&& ui::last_name(text::split(slash + seq!['.'], Separator::Slash)) == name
            &&& ui::last_name(text::split(slash + seq!['.', '.'], Separator::Slash)) is None
            &&& name is Some ==> ui::shown_name(path) == name.unwrap()
            &&& name is None ==> ui::shown_name(path) == path
        }),
{
    let slash = Separator::Slash;
    let none = Seq::<char>::empty();
    let parts = text::split(path, slash);
    text::lemma_split_whole(none, slash);
    text::lemma_split_whole(seq!['.'], slash);
    text::lemma_split_whole(seq!['.', '.'], slash);
    lemma_split_concat(path, '/', none, slash);
    lemma_split_concat(path, '/', seq!['.'], slash);
    lemma_split_concat(path, '/', seq!['.', '.'], slash);
    assert(path + seq!['/'] + none == path + seq!['/']);
    assert(parts + seq![none] == parts.push(none));
    assert(parts + seq![seq!['.']] == parts.push(seq!['.']));
    assert(parts + seq![seq!['.', '.']] == parts.push(seq!['.', '.']));
    lemma_nothing_last(parts);
}

/// Of a checksum the first 16 bytes are shown, where they end between two
/// characters.
pub proof fn sixteen_bytes_are_shown(shown: Seq<char>, rest: Seq<char>)
    requires
        encode_utf8(shown + rest).len() >= 16,
        encode_utf8(shown) == encode_utf8(shown + rest).subrange(0, 16),
    ensures
        ui::checksum_text(Some(shown + rest)) == "SHA256: "@ + shown + "\u{2026}"@,
        ui::can_be_cut(shown + rest) <==> is_char_boundary(encode_utf8(shown + rest), 16),
{
    encode_utf8_decode_utf8(shown);
}

/// Of an ASCII checksum the first 16 characters are shown.
pub proof fn sixteen_characters_are_shown(checksum: Seq<char>)
    requires
        is_ascii_chars(checksum),
        checksum.len() >= 16,
    ensures
        ui::checksum_text(Some(checksum)) == "SHA256: "@ + checksum.take(16) + "\u{2026}"@,
        ui::checksum_text(None) == "No checksum available"@,
{
    let shown = checksum.take(16);
    assert(is_ascii_chars(shown)) by {
        assert forall|i: int| 0 <= i < shown.len() implies '\0' <= #[trigger] shown[i]
            <= '\u{7f}' by {
            assert(shown[i] == checksum[i]);
        }
    }
    is_ascii_chars_encode_utf8(checksum);
    is_ascii_chars_encode_utf8(shown);
    assert forall|i: int| 0 <= i < 16 implies #[trigger] encode_utf8(shown)[i] == encode_utf8(
        checksum,
    )[i] by {
        assert(shown[i] as u8 == encode_utf8(shown)[i]);
        assert(checksum[i] as u8 == encode_utf8(checksum)[i]);
    }
    assert(encode_utf8(checksum).subrange(0, 16) == encode_utf8(shown));
    encode_utf8_decode_utf8(shown);
}

/// What installing a file would do is told from its name and the installed
/// version: the direction is that of the comparison, and nothing is guessed of a
/// file with another name.
pub proof fn status_tells_the_direction(
    filename: Seq<char>,
    version: Seq<char>,
    installed: Seq<char>,
)
    ensures
        versions::version_of_filename(filename) is None ==> ui::version_status_text(
            filename,
            None,
        ) == "Unknown"@ && ui::version_status_text(filename, Some(installed)) == "Unknown"@,
        versions::version_of_filename(filename) == Some(version) ==> {
            let told = ui::version_status_text(filename, Some(installed));
            let relation = versions::relation(installed, version);
            &&& ui::version_status_text(filename, None) == "No driver currently installed"@
            &&& relation == VersionRelation::Newer ==> told == "Upgrade: "@ + installed
                + " \u{2192} "@ + version
            &&& relation == VersionRelation::Same ==> told == "Reinstall: same version ("@
                + installed + ")"@
            &&& relation == VersionRelation::Older ==> told == "Downgrade: "@ + installed
                + " \u{2192} "@ + version
            &&& relation == VersionRelation::Unknown ==> told == "\u{2014}"@
        },
{
}

/// The page that configures an install shows the file that would be installed,
/// its checksum and what it would do, and lets it be installed; without a file
/// it says so.
pub proof fn config_tab_shows_the_file(state: AppStateView, path: Seq<char>)
    ensures
        state.downloaded_path == Some(path) ==> {
            let tab = state.config_tab();
            &&& tab.can_install
            &&& tab.file_title == ui::shown_name(path)
            &&& tab.file_subtitle == path
            &&& tab.checksum == ui::checksum_text(state.expected_checksum)
            &&& tab.version_status == ui::version_status_text(
                ui::shown_name(path),
                state.sysinfo.installed_driver,
            )
        },
        state.downloaded_path is None ==> {
            let tab = state.config_tab();
            &&& !tab.can_install
            &&& tab.file_title == "No file selected"@
            &&& tab.file_subtitle == "Go to Browse tab to select or download a driver"@
            &&& tab.checksum == "\u{2014}"@
            &&& tab.version_status == "\u{2014}"@
        },
{
}

/// The page warns of disk space below two GB, and of Secure Boot where it is
/// enabled.
pub proof fn config_tab_warns(state: AppStateView, free: u64)
    ensures
        ({
            let tab = state.config_tab();
            &&& state.sysinfo.free_disk_bytes == Some(free) && free < 2_147_483_648 ==> tab.disk
                == "Low: "@ + system::bytes_text(free as nat) + " free (2 GB recommended)"@
            &&& state.sysinfo.free_disk_bytes == Some(free) && free >= 2_147_483_648 ==> tab.disk
                == system::bytes_text(free as nat) + " free"@
            &&& state.sysinfo.free_disk_bytes is None ==> tab.disk == "Could not determine"@
            &&& state.sysinfo.secure_boot == SecureBootStatus::Enabled ==> tab.secure_boot
                == "Enabled \u{2014} MOK enrollment may be required after install"@
            &&& state.sysinfo.secure_boot == SecureBootStatus::Disabled ==> tab.secure_boot
                == "Disabled"@
            &&& state.sysinfo.secure_boot == SecureBootStatus::Unknown ==> tab.secure_boot
                == "Unknown"@
        }),
{
}

/// The page that describes the system tells what is known, and names what is
/// not.
pub proof fn system_page_tells_what_is_known(info: SystemInfoView)
    ensures
        ({
            let page = ui::system_page(info);
            &&& page.gpu == (match info.gpu_name {
                Some(name) => name,
                None => "Not detected"@,
            })
            &&& page.driver == (match info.installed_driver {
                Some(version) => version,
                None => "Not installed"@,
            })
            &&& page.badge == (match info.installed_driver {
                Some(version) => "Driver: "@ + version,
                None => "Driver: "@ + "not installed"@,
            })
            &&& page.log == (match info.installed_driver {
                Some(version) => "Installed driver: "@ + version,
                None => "No NVIDIA driver detected"@,
            })
            &&& page.kernel == info.kernel_version
            &&& page.secure_boot == (match info.secure_boot {
                SecureBootStatus::Enabled => "Enabled (MOK enrollment may be required)"@,
                SecureBootStatus::Disabled => "Disabled"@,
                SecureBootStatus::Unknown => "Unknown"@,
            })
            &&& page.disk == (match info.free_disk_bytes {
                Some(n) => system::bytes_text(n as nat) + " free on /"@,
                None => "Could not determine"@,
            })
            &&& page.reboot_banner == info.reboot_required
            &&& info.reboot_required ==> page.reboot
                == "Yes \u{2014} new driver installed, reboot to activate"@
            &&& !info.reboot_required ==> page.reboot == "No"@
        }),
{
}

/// The DKMS modules are told one to a line, in order, and that there are none is
/// told too.
pub proof fn dkms_modules_are_told_by_line(
    before: Seq<DkmsEntryView>,
    entry: DkmsEntryView,
    info: SystemInfoView,
)
    ensures
        ui::system_page(info).dkms == ui::dkms_summary(info.dkms_status),
        ui::dkms_summary(Seq::empty()) == "No NVIDIA DKMS modules registered"@,
        ({
            let line = entry.module + "/"@ + entry.version + " ["@ + entry.kernel + "] "@
                + entry.status;
            ui::dkms_summary(before.push(entry)) == if before.len() == 0 {
                line
            } else {
                ui::dkms_summary(before) + "\n"@ + line
            }
        }),
{
    assert(before.push(entry).drop_last() == before);
}

/// The list grows with the drivers: one more driver adds one more row at the end
/// if its version has the search text in it, and changes no other row.
pub proof fn list_grows_row_by_row(
    drivers: Seq<DriverVersionView>,
    driver: DriverVersionView,
    search: Seq<char>,
    installed: Option<Seq<char>>,
)
    ensures
        ui::version_rows(Seq::empty(), search, installed) == Seq::<VersionRowView>::empty(),
        text::contains(driver.version, text::lowercase(search)) ==> ui::version_rows(
            drivers.push(driver),
            search,
            installed,
        ) == ui::version_rows(drivers, search, installed).push(ui::version_row(driver, installed)),
        !text::contains(driver.version, text::lowercase(search)) ==> ui::version_rows(
            drivers.push(driver),
            search,
            installed,
        ) == ui::version_rows(drivers, search, installed),
{
    assert(drivers.push(driver).drop_last() == drivers);
}

/// A row shows the version, the file and the branch of its driver. It says how
/// the version relates to the installed one, and is marked only if it is that
/// very version.
pub proof fn row_describes_its_driver(driver: DriverVersionView, current: Seq<char>)
    ensures
        ({
            let row = ui::version_row(driver, Some(current));
            let relation = versions::relation(current, driver.version);
            &&& row.title == driver.version
            &&& row.branch == driver.branch
            &&& row.installed <==> current == driver.version
            &&& relation == VersionRelation::Newer ==> row.subtitle == driver.filename
                + " \u{b7} Upgrade available"@
            &&& relation == VersionRelation::Same ==> row.subtitle == driver.filename
                + " \u{b7} Currently installed"@
            &&& relation == VersionRelation::Older ==> row.subtitle == driver.filename
                + " \u{b7} Older than installed"@
            &&& relation == VersionRelation::Unknown ==> row.subtitle == driver.filename
        }),
        ({
            let row = ui::version_row(driver, None);
            &&& row.title == driver.version
            &&& row.branch == driver.branch
            &&& !row.installed
            &&& row.subtitle == driver.filename
        }),
{
}

/// A title selects the first driver with that version; it selects none only if
/// no driver has it.
pub proof fn title_selects_the_first_match(drivers: Seq<DriverVersionView>, version: Seq<char>)
    ensures
        match ui::driver_with_version(drivers, version) {
            Some(driver) => exists|k: int|
                {
                    &&& 0 <= k < drivers.len()
                    &&& #[trigger] drivers[k] == driver
                    &&& driver.version == version
                    &&& forall|j: int| 0 <= j < k ==> (#[trigger] drivers[j]).version != version
                },
            None => forall|j: int|
                0 <= j < drivers.len() ==> (#[trigger] drivers[j]).version != version,
        },
    decreases drivers.len(),
{
    if drivers.len() > 0 {
        let rest = drivers.drop_first();
        title_selects_the_first_match(rest, version);
        if drivers[0].version != version {
            match ui::driver_with_version(rest, version) {
                Some(driver) => {
                    let k = choose|k: int|
                        {
                            &&& 0 <= k < rest.len()
                            &&& #[trigger] rest[k] == driver
                            &&& driver.version == version
                            &&& forall|j: int|
                                0 <= j < k ==> (#[trigger] rest[j]).version != version
                        };
                    assert(drivers[k + 1] == driver);
                    assert forall|j: int| 0 <= j < k + 1 implies (#[trigger] drivers[j]).version
                        != version by {
                        if j > 0 {
                            assert(drivers[j] == rest[j - 1]);
                        }
                    }
                },
                None => {
                    assert forall|j: int| 0 <= j < drivers.len() implies (
                    #[trigger] drivers[j]).version != version by {
                        if j > 0 {
                            assert(drivers[j] == rest[j - 1]);
                        }
                    }
                },
            }
        } else {
            assert(drivers[0] == ui::driver_with_version(drivers, version).unwrap());
        }
    }
}

/// Each change sets its own part of what is held.
pub proof fn changes_take_effect(
    state: AppStateView,
    info: SystemInfoView,
    list: Seq<DriverVersionView>,
    title: Seq<char>,
    path: Seq<char>,
    on: bool,
)
    ensures
        state.after(ChangeView::Queried { info }).sysinfo == info,
        state.after(ChangeView::Listed { versions: list }).versions == list,
        state.after(ChangeView::Selected { title: Some(title) }).selected_version
            == ui::driver_with_version(state.versions, title),
        state.after(ChangeView::Selected { title: None }).selected_version is None,
        state.after(ChangeView::Opened { path }).downloaded_path == Some(path),
        state.after(ChangeView::Opened { path }).expected_checksum is None,
        state.after(ChangeView::DkmsSet { on }).use_dkms == on,
        state.after(ChangeView::HoldSet { on }).hold_packages == on,
{
}

/// The application starts without a list, a selection, a file or anything known
/// about the system, with DKMS on and packages not held.
pub proof fn application_starts_empty()
    ensures
        ui::initial_state().versions == Seq::<DriverVersionView>::empty(),
        ui::initial_state().selected_version is None,
        ui::initial_state().downloaded_path is None,
        ui::initial_state().expected_checksum is None,
        ui::initial_state().use_dkms,
        !ui::initial_state().hold_packages,
        ui::initial_state().sysinfo == (SystemInfoView {
            installed_driver: None,
            gpu_name: None,
            kernel_version: Seq::empty(),
            dkms_status: Seq::empty(),
            secure_boot: SecureBootStatus::Unknown,
            free_disk_bytes: None,
            reboot_required: false,
        }),
{
}

/// A change leaves alone what it is not about.
pub proof fn changes_leave_the_rest_alone(state: AppStateView, change: ChangeView)
    ensures
        ({
            let after = state.after(change);
            &&& !(change is Queried) ==> after.sysinfo == state.sysinfo
            &&& !(change is Listed) ==> after.versions == state.versions
            &&& !(change is Selected) ==> after.selected_version == state.selected_version
            &&& !(change is DkmsSet) ==> after.use_dkms == state.use_dkms
            &&& !(change is HoldSet) ==> after.hold_packages == state.hold_packages
            &&& !(change is Hashed) && !(change is Decided) && !(change is Opened)
                ==> after.downloaded_path == state.downloaded_path && after.expected_checksum
                == state.expected_checksum
        }),
{
}

/// A file that was read becomes the one to install, pinned to its checksum,
/// exactly if it has the checksum; one that could not be read never does.
pub proof fn verified_file_is_installed(
    state: AppStateView,
    path: Seq<char>,
    checksum: Seq<char>,
    content: Seq<u8>,
    error: Seq<char>,
)
    ensures
        download::is_checksum_of(checksum, content) ==> {
            let after = state.after(
                ChangeView::Hashed { path, checksum, outcome: Ok(content) },
            );
            after.downloaded_path == Some(path) && after.expected_checksum == Some(checksum)
        },
        !download::is_checksum_of(checksum, content) ==> state.after(
            ChangeView::Hashed { path, checksum, outcome: Ok(content) },
        ) == state,
        state.after(ChangeView::Hashed { path, checksum, outcome: Err(error) }) == state,
{
}

/// A file that cannot be verified becomes the one to install, without a
/// checksum, exactly if the user answers `use`.
pub proof fn unverified_file_needs_the_answer_use(
    state: AppStateView,
    path: Seq<char>,
    response: Seq<char>,
)
    ensures
        response == "use"@ ==> {
            let after = state.after(ChangeView::Decided { path, response });
            after.downloaded_path == Some(path) && after.expected_checksum is None
        },
        response != "use"@ ==> state.after(ChangeView::Decided { path, response }) == state,
{
}

/// The file to install is installed with the options that are set and the
/// checksum that it is pinned to, and there is no install without a file.
pub proof fn install_is_asked_for_as_set(state: AppStateView, path: Seq<char>)
    ensures
        state.downloaded_path is None ==> state.install_request() is None,
        state.downloaded_path == Some(path) ==> {
            &&& state.install_request() matches Some(request)
            &&& request.options == (InstallOptionsView {
                use_dkms: state.use_dkms,
                hold_packages: state.hold_packages,
                run_file: path,
                sha256: state.expected_checksum,
            })
            &&& request.notice.log == seq![
                "Starting install: "@ + path,
                "The new driver installs alongside the running one; reboot afterward to switch over."@,
            ]
            &&& request.notice.progress == Some(
                "Installing\u{2026} the desktop stays up; this takes a few minutes"@,
            )
        },
{
}

/// The selected driver is the one that is downloaded, and there is no download
/// without one.
pub proof fn selected_driver_is_downloaded(state: AppStateView, driver: DriverVersionView)
    ensures
        state.selected_version is None ==> state.download_request() is None,
        state.selected_version == Some(driver) ==> {
            &&& state.download_request() matches Some(request)
            &&& request.driver == driver
            &&& request.notice.log == Seq::<Seq<char>>::empty()
            &&& request.notice.progress == Some("Downloading "@ + driver.version + "\u{2026}"@)
        },
{
}

/// A download and an install warn of disk space exactly if less than two GB are
/// known to be free.
pub proof fn low_disk_space_is_warned_of(state: AppStateView)
    ensures
        ({
            let low = state.sysinfo.free_disk_bytes matches Some(n) && n < 2_147_483_648;
            &&& state.download_request() matches Some(request) ==> request.notice.toast == if low {
                Some("Low disk space \u{2014} install may fail"@)
            } else {
                None
            }
            &&& state.install_request() matches Some(request) ==> request.notice.toast == if low {
                Some("Warning: low disk space \u{2014} install may fail"@)
            } else {
                None
            }
        }),
{
}

/// A download that failed leads to nothing further, and is told to have been
/// cancelled exactly if the error says so.
pub proof fn failed_download_stops(
    error: Seq<char>,
    checksum: Result<Option<Seq<char>>, Seq<char>>,
)
    ensures
        text::contains(error, "cancelled"@) ==> ui::after_download(Err(error), checksum) == (
        AfterDownloadView::Stop {
            notice: NoticeView {
                log: seq!["Download cancelled."@],
                progress: Some("Cancelled"@),
                toast: None,
            },
        }),
        !text::contains(error, "cancelled"@) ==> ui::after_download(Err(error), checksum) == (
        AfterDownloadView::Stop {
            notice: NoticeView {
                log: seq!["Download failed: "@ + error],
                progress: Some("Download failed"@),
                toast: Some("Download failed"@),
            },
        }),
{
}

/// A complete download is verified exactly if its checksum is published. Else the
/// user is asked, and told why it cannot be verified.
pub proof fn complete_download_goes_on(path: Seq<char>, checksum: Seq<char>, error: Seq<char>)
    ensures
        ui::after_download(Ok(path), Ok(Some(checksum))) matches AfterDownloadView::Verify {
            notice,
            pending,
        } && pending.path == path && pending.checksum == checksum && notice.log == seq![
            "Download complete: "@ + path,
            "Verifying SHA256\u{2026}"@,
        ] && notice.progress == Some("Verifying\u{2026}"@) && notice.toast is None,
        ui::after_download(Ok(path), Ok(None)) matches AfterDownloadView::Ask {
            notice,
            question,
            path: asked,
        } && asked == path && notice.log == seq![
            "Download complete: "@ + path,
            "NVIDIA publishes no SHA256 checksum for this version"@,
        ] && notice.progress == Some("Downloaded \u{2014} not verified"@) && notice.toast is None
            && question == "NVIDIA does not publish a SHA256 checksum for this version."@
            + ui::UNVERIFIED_WARNING@,
        ui::after_download(Ok(path), Err(error)) matches AfterDownloadView::Ask {
            notice,
            question,
            path: asked,
        } && asked == path && notice.log == seq![
            "Download complete: "@ + path,
            "Could not fetch the SHA256 checksum: "@ + error,
        ] && notice.progress == Some("Downloaded \u{2014} not verified"@) && notice.toast is None
            && question == "The SHA256 checksum could not be fetched ("@ + error + ")."@
            + ui::UNVERIFIED_WARNING@,
{
}

/// What is told about a file that was verified, that failed to be, or that the
/// user decided on.
pub proof fn verdicts_are_told(
    checksum: Seq<char>,
    outcome: Result<Seq<u8>, Seq<char>>,
    path: Seq<char>,
    error: Seq<char>,
    response: Seq<char>,
)
    ensures
        ui::is_verified(checksum, outcome) <==> (outcome matches Ok(content)
            && download::is_checksum_of(checksum, content)),
        (outcome matches Ok(content) && download::is_checksum_of(checksum, content))
            ==> ui::verification_notice(checksum, outcome) == (NoticeView {
            log: seq!["SHA256 verified OK"@],
            progress: Some("Verified"@),
            toast: Some("Download complete"@),
        }),
        outcome matches Ok(content) ==> !download::is_checksum_of(checksum, content)
            ==> ui::verification_notice(checksum, outcome) == (NoticeView {
            log: seq![
                "SHA256 FAILED: "@ + (download::ChecksumMismatchView {
                    expected: checksum,
                    got: digest::hex(digest::sha256(content)),
                }).text(),
            ],
            progress: None,
            toast: None,
        }),
        outcome == Err::<Seq<u8>, Seq<char>>(error) ==> ui::verification_notice(checksum, outcome)
            == (NoticeView {
            log: seq!["SHA256 FAILED: "@ + error],
            progress: None,
            toast: None,
        }),
        ui::removal_notice(path, None).log == seq!["Deleted corrupt file: "@ + path],
        ui::removal_notice(path, Some(error)).log == seq!["Could not delete file: "@ + error],
        ui::removal_notice(path, None).toast == Some(
            "Checksum mismatch \u{2014} do not install"@,
        ),
        ui::removal_notice(path, Some(error)).toast == Some(
            "Checksum mismatch \u{2014} do not install"@,
        ),
        ui::removal_notice(path, None).progress == Some(
            "Checksum mismatch \u{2014} file deleted"@,
        ),
        ui::removal_notice(path, Some(error)).progress == Some(
            "Checksum mismatch \u{2014} delete the file manually"@,
        ),
        response == "use"@ ==> ui::decision_notice(path, response) == (NoticeView {
            log: seq!["User chose to continue WITHOUT checksum verification"@],
            progress: Some("Complete (unverified)"@),
            toast: Some("Download complete (unverified)"@),
        }),
        response != "use"@ ==> ui::decision_notice(path, response) == (NoticeView {
            log: seq!["Discarded unverified download: "@ + path],
            progress: Some("Discarded (not verified)"@),
            toast: Some("Unverified download discarded"@),
        }),
{
}

/// What is told about the end of an install and about the list of versions.
pub proof fn ends_are_told(error: Seq<char>, count: nat)
    ensures
        ui::install_notice(InstallResultView::Installed).log == seq![
            "Install completed successfully."@,
            "Reboot to switch to the new driver."@,
        ],
        ui::install_notice(InstallResultView::Installed).toast == Some(
            "Install complete \u{2014} reboot to activate"@,
        ),
        ui::install_notice(InstallResultView::Failed { error }).log == seq![
            "Install failed: "@ + error,
        ],
        ui::install_notice(InstallResultView::Failed { error }).toast == Some(
            "Install failed \u{2014} see Log tab"@,
        ),
        ui::install_notice(InstallResultView::Interrupted { error }).log == seq![
            "Task error: "@ + error,
        ],
        ui::install_notice(InstallResultView::Interrupted { error }).toast is None,
        ui::listed_notice(count).log == "Found "@ + number::decimal(count) + " versions"@,
        ui::listed_notice(count).banner is None,
        ui::not_listed_notice(error).log == "Error fetching versions: "@ + error,
        ui::not_listed_notice(error).banner == Some("Failed to load versions: "@ + error),
        ui::not_listed_notice(error).selection == Some("Could not load version list"@),
{
}

/// The about dialog tells the GPU, the driver and the kernel.
pub proof fn about_tells_the_system(state: AppStateView, gpu: Seq<char>, driver: Seq<char>)
    ensures
        gpu == (match state.sysinfo.gpu_name {
            Some(name) => name,
            None => "Not detected"@,
        }) && driver == (match state.sysinfo.installed_driver {
            Some(version) => version,
            None => "Not detected"@,
        }) ==> state.about_text()
            == "GTK4 + Rust GUI for installing NVIDIA drivers from official .run files.\n\nGPU: "@
            + gpu + "\nDriver: "@ + driver + "\nKernel: "@ + state.sysinfo.kernel_version,
{
}

} // verus!
