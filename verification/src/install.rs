//! Handing an installer to the privileged install script.
//!
//! The new driver goes on disk while the current one keeps running, and takes
//! over at the next reboot. Like a download, an install is a state machine whose
//! driver performs the actions it names.

use crate::digest;
use crate::digest::FileHasher;
use crate::number;
use vstd::prelude::*;

verus! {

/// The privileged install script.
pub const INSTALL_SCRIPT: &'static str = "/usr/lib/green-light/privileged-install.sh";

/// What to install, and how.
#[derive(Debug)]
pub struct InstallOptions {
    pub use_dkms: bool,
    pub hold_packages: bool,
    pub run_file: String,
    /// The SHA-256 checksum of the run file in hexadecimal. Where NVIDIA
    /// published one it is that; otherwise (a local file, or a download that the
    /// user accepted unverified) there is none, and it is computed before the
    /// install, so that the privileged script can still hold the file to the
    /// bytes that the user chose.
    pub sha256: Option<String>,
}

/// What an `InstallOptions` holds.
pub struct InstallOptionsView {
    pub use_dkms: bool,
    pub hold_packages: bool,
    pub run_file: Seq<char>,
    pub sha256: Option<Seq<char>>,
}

impl View for InstallOptions {
    type V = InstallOptionsView;

    open spec fn view(&self) -> InstallOptionsView {
        InstallOptionsView {
            use_dkms: self.use_dkms,
            hold_packages: self.hold_packages,
            run_file: self.run_file@,
            sha256: self.sha256.deep_view(),
        }
    }
}

/// What an install is in the middle of.
#[derive(Debug, Clone, Copy, PartialEq, Eq, Structural)]
pub enum Phase {
    /// Looking for the script.
    CheckingScript,
    /// Looking for the run file.
    CheckingRunFile,
    /// Hashing the run file.
    Hashing,
    /// Running the script.
    Installing,
    /// Nothing: it is over.
    Over,
}

/// Why an install failed.
#[derive(Debug)]
pub enum InstallError {
    /// There is no script.
    NoScript,
    /// There is no run file.
    NoRunFile { run_file: String },
    /// The run file could not be read.
    NotHashed,
    /// `pkexec` could not be launched.
    NotLaunched,
    /// The user did not authenticate.
    NotAuthenticated,
    /// The script exited with an error.
    Failed { code: i32 },
}

/// What an `InstallError` holds.
pub enum InstallErrorView {
    NoScript,
    NoRunFile { run_file: Seq<char> },
    NotHashed,
    NotLaunched,
    NotAuthenticated,
    Failed { code: i32 },
}

impl View for InstallError {
    type V = InstallErrorView;

    open spec fn view(&self) -> InstallErrorView {
        match self {
            InstallError::NoScript => InstallErrorView::NoScript,
            InstallError::NoRunFile { run_file } => InstallErrorView::NoRunFile {
                run_file: run_file@,
            },
            InstallError::NotHashed => InstallErrorView::NotHashed,
            InstallError::NotLaunched => InstallErrorView::NotLaunched,
            InstallError::NotAuthenticated => InstallErrorView::NotAuthenticated,
            InstallError::Failed { code } => InstallErrorView::Failed { code: *code },
        }
    }
}

impl InstallErrorView {
    /// The text of an error. `None` if it is that of the error which reading the
    /// run file gave.
    pub open spec fn text(self) -> Option<Seq<char>> {
        match self {
            InstallErrorView::NoScript => Some(
                "Privileged install script not found at "@ + INSTALL_SCRIPT@,
            ),
            InstallErrorView::NoRunFile { run_file } => Some("Run file not found: "@ + run_file),
            InstallErrorView::NotHashed => None,
            InstallErrorView::NotLaunched => Some(
                "Failed to launch pkexec \u{2014} is polkit installed?"@,
            ),
            InstallErrorView::NotAuthenticated => Some("Authentication was cancelled."@),
            InstallErrorView::Failed { code } => Some(
                "Install script exited with code "@ + number::signed_decimal(code as int)
                    + " (see /var/log/green-light.log)"@,
            ),
        }
    }
}

impl InstallError {
    /// The text of this error.
    pub fn message(&self) -> (r: Option<String>)
        ensures
            r.deep_view() == self@.text(),
    {
        match self {
            InstallError::NoScript => {
                let mut r = "Privileged install script not found at ".to_string();
                r.append(INSTALL_SCRIPT);
                Some(r)
            },
            InstallError::NoRunFile { run_file } => {
                let mut r = "Run file not found: ".to_string();
                r.append(run_file.as_str());
                Some(r)
            },
            InstallError::NotHashed => None,
            InstallError::NotLaunched => Some(
                "Failed to launch pkexec \u{2014} is polkit installed?".to_string(),
            ),
            InstallError::NotAuthenticated => Some("Authentication was cancelled.".to_string()),
            InstallError::Failed { code } => {
                let mut r = "Install script exited with code ".to_string();
                r.append(number::render_signed(*code).as_str());
                r.append(" (see /var/log/green-light.log)");
                Some(r)
            },
        }
    }
}

/// What came of an action.
pub enum Event {
    /// Whether the path exists.
    Checked { exists: bool },
    /// The run file was read to its end.
    Hashed { hasher: FileHasher },
    /// The run file could not be read.
    NotHashed,
    /// `pkexec` ended, with that exit code if it was not killed.
    Exited { success: bool, code: Option<i32> },
    /// `pkexec` could not be launched.
    NotLaunched,
}

/// What an `Event` holds.
pub enum EventView {
    Checked { exists: bool },
    Hashed { content: Seq<u8> },
    NotHashed,
    Exited { success: bool, code: Option<i32> },
    NotLaunched,
}

impl View for Event {
    type V = EventView;

    open spec fn view(&self) -> EventView {
        match self {
            Event::Checked { exists } => EventView::Checked { exists: *exists },
            Event::Hashed { hasher } => EventView::Hashed { content: hasher@ },
            Event::NotHashed => EventView::NotHashed,
            Event::Exited { success, code } => EventView::Exited { success: *success, code: *code },
            Event::NotLaunched => EventView::NotLaunched,
        }
    }
}

/// What an install needs done next.
#[derive(Debug)]
pub enum Action {
    /// Find out whether `path` exists.
    Check { path: String },
    /// Hash the file at `path`.
    Hash { path: String },
    /// Run `pkexec` with `arguments` and wait for it.
    Launch { arguments: Vec<String> },
    /// End without an error, or with one.
    Finish { error: Option<InstallError> },
}

/// What an `Action` holds.
pub enum ActionView {
    Check { path: Seq<char> },
    Hash { path: Seq<char> },
    Launch { arguments: Seq<Seq<char>> },
    Finish { error: Option<InstallErrorView> },
}

impl View for Action {
    type V = ActionView;

    open spec fn view(&self) -> ActionView {
        match self {
            Action::Check { path } => ActionView::Check { path: path@ },
            Action::Hash { path } => ActionView::Hash { path: path@ },
            Action::Launch { arguments } => ActionView::Launch { arguments: arguments.deep_view() },
            Action::Finish { error } => ActionView::Finish {
                error: match error {
                    Some(e) => Some(e@),
                    None => None,
                },
            },
        }
    }
}

/// The arguments of `pkexec`: the script, the run file, the checksum that the
/// script holds it to, and the options that are on.
pub open spec fn install_arguments(options: InstallOptionsView, checksum: Seq<char>) -> Seq<
    Seq<char>,
> {
    let fixed = seq![INSTALL_SCRIPT@, options.run_file, checksum];
    let with_dkms = if options.use_dkms {
        fixed.push("--dkms"@)
    } else {
        fixed
    };
    if options.hold_packages {
        with_dkms.push("--hold"@)
    } else {
        with_dkms
    }
}

/// The error that an exit of `pkexec` stands for. It exits with 126 or 127 when
/// the user is not authenticated.
pub open spec fn exit_error(success: bool, code: Option<i32>) -> Option<InstallErrorView> {
    let number = match code {
        Some(c) => c,
        None => -1i32,
    };
    if success {
        None
    } else if number == 126 || number == 127 {
        Some(InstallErrorView::NotAuthenticated)
    } else {
        Some(InstallErrorView::Failed { code: number })
    }
}

/// An install under way.
#[derive(Debug)]
pub struct Install {
    phase: Phase,
    options: InstallOptions,
}

/// What an `Install` holds.
pub struct InstallView {
    pub phase: Phase,
    pub options: InstallOptionsView,
}

impl View for Install {
    type V = InstallView;

    closed spec fn view(&self) -> InstallView {
        InstallView { phase: self.phase, options: self.options@ }
    }
}

impl InstallView {
    /// An install that is about to begin.
    pub open spec fn beginning(options: InstallOptionsView) -> InstallView {
        InstallView { phase: Phase::CheckingScript, options }
    }

    /// Whether `event` can come of what the install is in the middle of.
    pub open spec fn accepts(self, event: EventView) -> bool {
        match (self.phase, event) {
            (Phase::CheckingScript, EventView::Checked { .. }) => true,
            (Phase::CheckingRunFile, EventView::Checked { .. }) => true,
            (Phase::Hashing, EventView::Hashed { .. }) => true,
            (Phase::Hashing, EventView::NotHashed) => true,
            (Phase::Installing, EventView::Exited { .. }) => true,
            (Phase::Installing, EventView::NotLaunched) => true,
            _ => false,
        }
    }

    /// The end of the install.
    pub open spec fn finish(self, error: Option<InstallErrorView>) -> (InstallView, ActionView) {
        (InstallView { phase: Phase::Over, ..self }, ActionView::Finish { error })
    }

    /// The launch of the script.
    pub open spec fn launch(self, checksum: Seq<char>) -> (InstallView, ActionView) {
        (
            InstallView { phase: Phase::Installing, ..self },
            ActionView::Launch { arguments: install_arguments(self.options, checksum) },
        )
    }

    /// What follows `event`.
    pub open spec fn step(self, event: EventView) -> (InstallView, ActionView) {
        match event {
            EventView::Checked { exists } => if self.phase == Phase::CheckingScript {
                if exists {
                    (
                        InstallView { phase: Phase::CheckingRunFile, ..self },
                        ActionView::Check { path: self.options.run_file },
                    )
                } else {
                    self.finish(Some(InstallErrorView::NoScript))
                }
            } else if !exists {
                self.finish(Some(InstallErrorView::NoRunFile { run_file: self.options.run_file }))
            } else {
                match self.options.sha256 {
                    Some(checksum) => self.launch(checksum),
                    None => (
                        InstallView { phase: Phase::Hashing, ..self },
                        ActionView::Hash { path: self.options.run_file },
                    ),
                }
            },
            EventView::Hashed { content } => self.launch(digest::hex(digest::sha256(content))),
            EventView::NotHashed => self.finish(Some(InstallErrorView::NotHashed)),
            EventView::Exited { success, code } => self.finish(exit_error(success, code)),
            EventView::NotLaunched => self.finish(Some(InstallErrorView::NotLaunched)),
        }
    }
}

impl Install {
    /// An install that is about to begin, and the first thing to do.
    pub fn begin(options: InstallOptions) -> (r: (Install, Action))
        ensures
            r.0@ == InstallView::beginning(options@),
            r.1@ == (ActionView::Check { path: INSTALL_SCRIPT@ }),
    {
        (
            Install { phase: Phase::CheckingScript, options },
            Action::Check { path: INSTALL_SCRIPT.to_string() },
        )
    }

    /// Whether `event` can come of what the install is in the middle of.
    pub fn accepts(&self, event: &Event) -> (r: bool)
        ensures
            r == self@.accepts(event@),
    {
        match (self.phase, event) {
            (Phase::CheckingScript, Event::Checked { .. }) => true,
            (Phase::CheckingRunFile, Event::Checked { .. }) => true,
            (Phase::Hashing, Event::Hashed { .. }) => true,
            (Phase::Hashing, Event::NotHashed) => true,
            (Phase::Installing, Event::Exited { .. }) => true,
            (Phase::Installing, Event::NotLaunched) => true,
            _ => false,
        }
    }

    fn finish(&mut self, error: Option<InstallError>) -> (r: Action)
        ensures
            final(self)@ == (InstallView { phase: Phase::Over, ..old(self)@ }),
            r@ == (ActionView::Finish {
                error: match error {
                    Some(e) => Some(e@),
                    None => None,
                },
            }),
    {
        self.phase = Phase::Over;
        Action::Finish { error }
    }

    fn launch(&mut self, checksum: String) -> (r: Action)
        ensures
            (final(self)@, r@) == old(self)@.launch(checksum@),
    {
        self.phase = Phase::Installing;
        let mut arguments: Vec<String> = Vec::new();
        arguments.push(INSTALL_SCRIPT.to_string());
        arguments.push(self.options.run_file.clone());
        arguments.push(checksum);
        if self.options.use_dkms {
            arguments.push("--dkms".to_string());
        }
        if self.options.hold_packages {
            arguments.push("--hold".to_string());
        }
        assert(arguments.deep_view() == install_arguments(self.options@, checksum@));
        Action::Launch { arguments }
    }

    /// Takes note of what came of the latest action, and says what to do next.
    pub fn step(&mut self, event: Event) -> (r: Action)
        requires
            old(self)@.accepts(event@),
        ensures
            (final(self)@, r@) == old(self)@.step(event@),
    {
        match event {
            Event::Checked { exists } => {
                match self.phase {
                    Phase::CheckingScript => {
                        if exists {
                            self.phase = Phase::CheckingRunFile;
                            Action::Check { path: self.options.run_file.clone() }
                        } else {
                            self.finish(Some(InstallError::NoScript))
                        }
                    },
                    _ => {
                        if !exists {
                            let run_file = self.options.run_file.clone();
                            self.finish(Some(InstallError::NoRunFile { run_file }))
                        } else {
                            match self.options.sha256.clone() {
                                Some(checksum) => self.launch(checksum),
                                None => {
                                    self.phase = Phase::Hashing;
                                    Action::Hash { path: self.options.run_file.clone() }
                                },
                            }
                        }
                    },
                }
            },
            Event::Hashed { hasher } => {
                let checksum = hasher.finish();
                self.launch(checksum)
            },
            Event::NotHashed => self.finish(Some(InstallError::NotHashed)),
            Event::Exited { success, code } => {
                if success {
                    self.finish(None)
                } else {
                    let number: i32 = match code {
                        Some(c) => c,
                        None => -1,
                    };
                    if number == 126 || number == 127 {
                        self.finish(Some(InstallError::NotAuthenticated))
                    } else {
                        self.finish(Some(InstallError::Failed { code: number }))
                    }
                }
            },
            Event::NotLaunched => self.finish(Some(InstallError::NotLaunched)),
        }
    }
}

/// The install with options `options` after the events of `history`.
pub open spec fn state_after(options: InstallOptionsView, history: Seq<EventView>) -> InstallView
    decreases history.len(),
{
    if history.len() == 0 {
        InstallView::beginning(options)
    } else {
        state_after(options, history.drop_last()).step(history.last()).0
    }
}

/// What is to be done after the events of `history`.
pub open spec fn action_after(options: InstallOptionsView, history: Seq<EventView>) -> ActionView {
    if history.len() == 0 {
        ActionView::Check { path: INSTALL_SCRIPT@ }
    } else {
        state_after(options, history.drop_last()).step(history.last()).1
    }
}

/// Whether each event of `history` can come of what the install was in the
/// middle of.
pub open spec fn possible(options: InstallOptionsView, history: Seq<EventView>) -> bool
    decreases history.len(),
{
    history.len() == 0 || (possible(options, history.drop_last()) && state_after(
        options,
        history.drop_last(),
    ).accepts(history.last()))
}

/// What has happened by the time an install is in a phase.
pub proof fn lemma_history(options: InstallOptionsView, history: Seq<EventView>)
    requires
        possible(options, history),
    ensures
        state_after(options, history).options == options,
        match state_after(options, history).phase {
            Phase::CheckingScript => history.len() == 0,
            Phase::CheckingRunFile => history == seq![EventView::Checked { exists: true }],
            Phase::Hashing => {
                &&& options.sha256 is None
                &&& history == seq![
                    EventView::Checked { exists: true },
                    EventView::Checked { exists: true },
                ]
            },
            Phase::Installing => match options.sha256 {
                Some(_) => history == seq![
                    EventView::Checked { exists: true },
                    EventView::Checked { exists: true },
                ],
                None => history.len() == 3 && history.last() is Hashed && history.drop_last()
                    == seq![
                    EventView::Checked { exists: true },
                    EventView::Checked { exists: true },
                ],
            },
            Phase::Over => true,
        },
    decreases history.len(),
{
    if history.len() > 0 {
        lemma_history(options, history.drop_last());
        assert(history == history.drop_last().push(history.last()));
    }
}

/// The script is launched only after it and the run file were found, and always
/// with a checksum to hold the run file to: the one that the options give, or
/// else that of the bytes of the run file.
pub proof fn launch_is_pinned(
    options: InstallOptionsView,
    history: Seq<EventView>,
    arguments: Seq<Seq<char>>,
)
    requires
        possible(options, history),
        action_after(options, history) == (ActionView::Launch { arguments }),
    ensures
        history.len() >= 2,
        history[0] == (EventView::Checked { exists: true }),
        history[1] == (EventView::Checked { exists: true }),
        arguments.len() >= 3,
        arguments[0] == INSTALL_SCRIPT@,
        arguments[1] == options.run_file,
        match options.sha256 {
            Some(checksum) => arguments[2] == checksum,
            None => history.last() matches EventView::Hashed { content } && arguments[2]
                == digest::hex(digest::sha256(content)),
        },
{
    lemma_history(options, history.drop_last());
    assert(history == history.drop_last().push(history.last()));
}

/// The options that are on, and only those, are handed to the script.
pub proof fn flags_follow_options(options: InstallOptionsView, checksum: Seq<char>)
    ensures
        ({
            let flags = install_arguments(options, checksum).skip(3);
            &&& options.use_dkms && options.hold_packages ==> flags == seq!["--dkms"@, "--hold"@]
            &&& options.use_dkms && !options.hold_packages ==> flags == seq!["--dkms"@]
            &&& !options.use_dkms && options.hold_packages ==> flags == seq!["--hold"@]
            &&& !options.use_dkms && !options.hold_packages ==> flags == Seq::<Seq<char>>::empty()
        }),
{
}

/// An install ends without an error exactly if `pkexec` exited with success.
pub proof fn success_comes_from_the_script(
    options: InstallOptionsView,
    history: Seq<EventView>,
)
    requires
        possible(options, history),
    ensures
        action_after(options, history) == (ActionView::Finish { error: None }) <==> {
            &&& history.len() > 0
            &&& history.last() matches EventView::Exited { success, .. }
            &&& success
        },
{
}

} // verus!
