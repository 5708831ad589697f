//! Laws of views: nothing that a value holds is left out or changed in what
//! contracts say of it.

use crate::digest::FileHasher;
use crate::download;
use crate::install;
use crate::system::{DkmsEntry, SystemInfo};
use crate::ui;
use crate::ui::AppStateView;
use crate::versions::{ChecksumStep, ChecksumStepView, DriverVersion, Reply, ReplyView};
use vstd::prelude::*;
use vstd::utf8::*;

verus! {

/// A driver is what its four fields say.
pub proof fn driver_is_its_fields(x: DriverVersion)
    ensures
        x@.version == x.version@,
        x@.filename == x.filename@,
        x@.url == x.url@,
        x@.branch == x.branch,
        x.deep_view() == x@,
{
}

/// Replies and steps of the search for a checksum are told apart.
pub proof fn search_is_its_parts(x: Reply, y: ChecksumStep)
    ensures
        x is Unreachable <==> x@ is Unreachable,
        x is Refused <==> x@ is Refused,
        x is Unreadable <==> x@ is Unreadable,
        x matches Reply::Body(body) ==> x@ == ReplyView::Body(body@),
        y is Failed <==> y@ is Failed,
        y matches ChecksumStep::Done(found) ==> y@ == ChecksumStepView::Done(found.deep_view()),
        y matches ChecksumStep::Ask { source, url } ==> y@ == (ChecksumStepView::Ask {
            source,
            url: url@,
        }),
{
}

/// What is known about the system is what the fields say.
pub proof fn system_is_its_fields(x: SystemInfo, y: DkmsEntry)
    ensures
        x@.installed_driver == x.installed_driver.deep_view(),
        x@.gpu_name == x.gpu_name.deep_view(),
        x@.kernel_version == x.kernel_version@,
        x@.dkms_status == x.dkms_status.deep_view(),
        x@.secure_boot == x.secure_boot,
        x@.free_disk_bytes == x.free_disk_bytes,
        x@.reboot_required == x.reboot_required,
        y@.module == y.module@,
        y@.version == y.version@,
        y@.kernel == y.kernel@,
        y@.status == y.status@,
        y.deep_view() == y@,
{
}

/// The events of a download are told apart, with what they bring.
pub proof fn download_events_are_told_apart(x: download::Event)
    ensures
        match x {
            download::Event::Polled { cancelled } => x@ == (download::EventView::Polled {
                cancelled,
            }),
            download::Event::Waited => x@ is Waited,
            download::Event::Answered { code, status, length } => x@ == (
            download::EventView::Answered { code, status: status@, length }),
            download::Event::NotAnswered => x@ is NotAnswered,
            download::Event::Created => x@ is Created,
            download::Event::NotCreated => x@ is NotCreated,
            download::Event::Received { cancelled, piece } => x@ == (
            download::EventView::Received { cancelled, piece }),
            download::Event::Ended => x@ is Ended,
            download::Event::Written => x@ is Written,
            download::Event::NotWritten => x@ is NotWritten,
            download::Event::Noted => x@ is Noted,
            download::Event::Flushed => x@ is Flushed,
            download::Event::FlushFailed => x@ is FlushFailed,
            download::Event::Removed => x@ is Removed,
        },
{
}

/// The actions of a download are told apart, with what they ask for.
pub proof fn download_actions_are_told_apart(x: download::Action)
    ensures
        match x {
            download::Action::Poll => x@ is Poll,
            download::Action::Wait { secs } => x@ == (download::ActionView::Wait { secs }),
            download::Action::Send => x@ is Send,
            download::Action::Create => x@ is Create,
            download::Action::Read => x@ is Read,
            download::Action::Write => x@ is Write,
            download::Action::Report { received, total } => x@ == (download::ActionView::Report {
                received,
                total,
            }),
            download::Action::Flush => x@ is Flush,
            download::Action::Remove => x@ is Remove,
            download::Action::Finish { outcome } => x@ == (download::ActionView::Finish {
                outcome: outcome@,
            }),
        },
{
}

/// The ends of a download are told apart, with their reasons.
pub proof fn download_ends_are_told_apart(
    x: download::Outcome,
    y: download::Failure,
    z: download::ChecksumMismatch,
)
    ensures
        match x {
            download::Outcome::Complete => x@ is Complete,
            download::Outcome::Cancelled => x@ is Cancelled,
            download::Outcome::Refused { status } => x@ == (download::OutcomeView::Refused {
                status: status@,
            }),
            download::Outcome::NotFlushed => x@ is NotFlushed,
            download::Outcome::Exhausted { last } => x@ == (download::OutcomeView::Exhausted {
                last: last@,
            }),
        },
        match y {
            download::Failure::Unknown => y@ is Unknown,
            download::Failure::Reported => y@ is Reported,
            download::Failure::Http { status } => y@ == (download::FailureView::Http {
                status: status@,
            }),
            download::Failure::Truncated { received, total } => y@ == (
            download::FailureView::Truncated { received, total }),
        },
        z@.expected == z.expected@,
        z@.got == z.got@,
{
}

/// The options, events and actions of an install are what they hold.
pub proof fn install_is_its_parts(
    x: install::InstallOptions,
    y: install::Event,
    z: install::Action,
    w: install::InstallError,
)
    ensures
        x@.use_dkms == x.use_dkms,
        x@.hold_packages == x.hold_packages,
        x@.run_file == x.run_file@,
        x@.sha256 == x.sha256.deep_view(),
        match y {
            install::Event::Checked { exists } => y@ == (install::EventView::Checked { exists }),
            install::Event::Hashed { hasher } => y@ == (install::EventView::Hashed {
                content: hasher@,
            }),
            install::Event::NotHashed => y@ is NotHashed,
            install::Event::Exited { success, code } => y@ == (install::EventView::Exited {
                success,
                code,
            }),
            install::Event::NotLaunched => y@ is NotLaunched,
        },
        match z {
            install::Action::Check { path } => z@ == (install::ActionView::Check { path: path@ }),
            install::Action::Hash { path } => z@ == (install::ActionView::Hash { path: path@ }),
            install::Action::Launch { arguments } => z@ == (install::ActionView::Launch {
                arguments: arguments.deep_view(),
            }),
            install::Action::Finish { error: None } => z@ == (install::ActionView::Finish {
                error: None,
            }),
            install::Action::Finish { error: Some(e) } => z@ == (install::ActionView::Finish {
                error: Some(e@),
            }),
        },
        match w {
            install::InstallError::NoScript => w@ is NoScript,
            install::InstallError::NoRunFile { run_file } => w@ == (
            install::InstallErrorView::NoRunFile { run_file: run_file@ }),
            install::InstallError::NotHashed => w@ is NotHashed,
            install::InstallError::NotLaunched => w@ is NotLaunched,
            install::InstallError::NotAuthenticated => w@ is NotAuthenticated,
            install::InstallError::Failed { code } => w@ == (install::InstallErrorView::Failed {
                code,
            }),
        },
{
}

/// The pages, rows and notices of the window are what they hold.
pub proof fn window_is_its_parts(
    tab: ui::ConfigTab,
    page: ui::SystemPage,
    row: ui::VersionRow,
    notice: ui::Notice,
    list: ui::ListNotice,
)
    ensures
        tab@.file_title == tab.file_title@,
        tab@.file_subtitle == tab.file_subtitle@,
        tab@.checksum == tab.checksum@,
        tab@.version_status == tab.version_status@,
        tab@.can_install == tab.can_install,
        tab@.disk == tab.disk@,
        tab@.secure_boot == tab.secure_boot@,
        page@.gpu == page.gpu@,
        page@.driver == page.driver@,
        page@.badge == page.badge@,
        page@.log == page.log@,
        page@.kernel == page.kernel@,
        page@.dkms == page.dkms@,
        page@.secure_boot == page.secure_boot@,
        page@.disk == page.disk@,
        page@.reboot == page.reboot@,
        page@.reboot_banner == page.reboot_banner,
        row@.title == row.title@,
        row@.subtitle == row.subtitle@,
        row@.installed == row.installed,
        row@.branch == row.branch,
        row.deep_view() == row@,
        notice@.log == notice.log.deep_view(),
        notice@.progress == notice.progress.deep_view(),
        notice@.toast == notice.toast.deep_view(),
        list@.log == list.log@,
        list@.banner == list.banner.deep_view(),
        list@.selection == list.selection.deep_view(),
{
}

/// The requests and results of the window are what they hold.
pub proof fn requests_are_their_parts(
    get: ui::DownloadRequest,
    put: ui::InstallRequest,
    next: ui::AfterDownload,
    end: ui::InstallResult,
)
    ensures
        get@.driver == get.driver@,
        get@.notice == get.notice@,
        get.deep_view() == get@,
        put@.options == put.options@,
        put@.notice == put.notice@,
        put.deep_view() == put@,
        match next {
            ui::AfterDownload::Stop { notice } => next@ == (ui::AfterDownloadView::Stop {
                notice: notice@,
            }),
            ui::AfterDownload::Verify { notice, pending } => next@ == (
            ui::AfterDownloadView::Verify { notice: notice@, pending: pending@ }),
            ui::AfterDownload::Ask { notice, question, undecided } => next@ == (
            ui::AfterDownloadView::Ask {
                notice: notice@,
                question: question@,
                path: undecided@,
            }),
        },
        match end {
            ui::InstallResult::Installed => end@ is Installed,
            ui::InstallResult::Failed { error } => end@ == (ui::InstallResultView::Failed {
                error: error@,
            }),
            ui::InstallResult::Interrupted { error } => end@ == (
            ui::InstallResultView::Interrupted { error: error@ }),
        },
{
}

/// The results that the window takes in keep success and failure apart, and a
/// checksum that is not published apart from one that was not fetched.
pub proof fn results_stay_apart(
    path: String,
    error: String,
    checksum: String,
    hasher: FileHasher,
)
    ensures
        ui::result_texts(Ok(path)) == Ok::<Seq<char>, Seq<char>>(path@),
        ui::result_texts(Err(error)) == Err::<Seq<char>, Seq<char>>(error@),
        ui::checksum_texts(Ok(Some(checksum))) == Ok::<Option<Seq<char>>, Seq<char>>(
            Some(checksum@),
        ),
        ui::checksum_texts(Ok(None)) == Ok::<Option<Seq<char>>, Seq<char>>(None),
        ui::checksum_texts(Err(error)) == Err::<Option<Seq<char>>, Seq<char>>(error@),
        ui::hashed_content(Ok(hasher)) == Ok::<Seq<u8>, Seq<char>>(hasher@),
        ui::hashed_content(Err(error)) == Err::<Seq<u8>, Seq<char>>(error@),
{
}

/// The page that configures an install cannot be shown only where there is a
/// file to install whose checksum cannot be cut after 16 bytes.
pub proof fn page_can_be_shown_unless_cut(state: AppStateView)
    ensures
        !state.checksum_can_be_shown() <==> {
            &&& state.downloaded_path is Some
            &&& state.expected_checksum matches Some(checksum)
            &&& !is_char_boundary(encode_utf8(checksum), 16)
        },
{
}

} // verus!
