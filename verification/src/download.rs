//! Downloading an installer, and verifying it.
//!
//! A download is a state machine: it names the next action, its driver performs
//! the action and reports what came of it.

use crate::digest;
use crate::digest::FileHasher;
use crate::number;
use crate::text;
use vstd::prelude::*;

verus! {

/// How often a download is attempted.
pub const MAX_RETRIES: u32 = 3;

/// The wait in seconds before the second attempt. It doubles for each further
/// one.
pub const RETRY_BASE_SECS: u64 = 3;

/// What a download is in the middle of.
#[derive(Debug, Clone, Copy, PartialEq, Eq, Structural)]
pub enum Phase {
    /// Asking whether it is cancelled, before an attempt.
    Polling,
    /// Waiting before another attempt.
    Waiting,
    /// Sending the request.
    Requesting,
    /// Creating the file.
    Creating,
    /// Reading the next piece of the answer.
    Reading,
    /// Writing a piece to the file.
    Writing,
    /// Reporting progress.
    Reporting,
    /// Flushing the file.
    Flushing,
    /// Removing what a failed attempt has written.
    Cleaning,
    /// Removing what has been written when it was cancelled.
    Cancelling,
    /// Nothing: it is over.
    Over,
}

/// Why the latest attempt failed.
#[derive(Debug)]
pub enum Failure {
    /// No attempt has failed yet.
    Unknown,
    /// The network or the file system reported an error.
    Reported,
    /// The server answered with the status `status`.
    Http { status: String },
    /// The answer ended early.
    Truncated { received: u64, total: u64 },
}

/// What a `Failure` holds.
pub enum FailureView {
    Unknown,
    Reported,
    Http { status: Seq<char> },
    Truncated { received: u64, total: u64 },
}

impl View for Failure {
    type V = FailureView;

    open spec fn view(&self) -> FailureView {
        match self {
            Failure::Unknown => FailureView::Unknown,
            Failure::Reported => FailureView::Reported,
            Failure::Http { status } => FailureView::Http { status: status@ },
            Failure::Truncated { received, total } => FailureView::Truncated {
                received: *received,
                total: *total,
            },
        }
    }
}

/// The text of a failure. That of a reported one is the report's own.
pub open spec fn failure_text(failure: FailureView) -> Option<Seq<char>> {
    match failure {
        FailureView::Unknown => Some("unknown error"@),
        FailureView::Reported => None,
        FailureView::Http { status } => Some("HTTP "@ + status),
        FailureView::Truncated { received, total } => Some(
            "Download truncated: received "@ + number::decimal(received as nat) + " of "@
                + number::decimal(total as nat) + " bytes"@,
        ),
    }
}

impl Failure {
    /// The text of this failure; `None` if it is the report's own.
    pub fn message(&self) -> (r: Option<String>)
        ensures
            r.deep_view() == failure_text(self@),
    {
        match self {
            Failure::Unknown => Some("unknown error".to_string()),
            Failure::Reported => None,
            Failure::Http { status } => {
                let mut r = "HTTP ".to_string();
                r.append(status.as_str());
                Some(r)
            },
            Failure::Truncated { received, total } => {
                let mut r = "Download truncated: received ".to_string();
                r.append(number::render(*received).as_str());
                r.append(" of ");
                r.append(number::render(*total).as_str());
                r.append(" bytes");
                Some(r)
            },
        }
    }
}

/// How a download ends.
#[derive(Debug)]
pub enum Outcome {
    /// The file is there.
    Complete,
    /// It was cancelled.
    Cancelled,
    /// The server refused it with the status `status`.
    Refused { status: String },
    /// The file could not be flushed.
    NotFlushed,
    /// Every attempt failed, the last one with `last`.
    Exhausted { last: Failure },
}

/// What an `Outcome` holds.
pub enum OutcomeView {
    Complete,
    Cancelled,
    Refused { status: Seq<char> },
    NotFlushed,
    Exhausted { last: FailureView },
}

impl View for Outcome {
    type V = OutcomeView;

    open spec fn view(&self) -> OutcomeView {
        match self {
            Outcome::Complete => OutcomeView::Complete,
            Outcome::Cancelled => OutcomeView::Cancelled,
            Outcome::Refused { status } => OutcomeView::Refused { status: status@ },
            Outcome::NotFlushed => OutcomeView::NotFlushed,
            Outcome::Exhausted { last } => OutcomeView::Exhausted { last: last@ },
        }
    }
}

/// The text of the error that a download ends with. `None` if it ends without
/// an error, or with an error that the file system reported.
pub open spec fn outcome_text(outcome: OutcomeView) -> Option<Seq<char>> {
    match outcome {
        OutcomeView::Complete => None,
        OutcomeView::Cancelled => Some("Download cancelled"@),
        OutcomeView::Refused { status } => Some("Server refused the download: HTTP "@ + status),
        OutcomeView::NotFlushed => None,
        OutcomeView::Exhausted { .. } => Some(
            "Download failed after "@ + number::decimal(MAX_RETRIES as nat) + " attempts"@,
        ),
    }
}

impl Outcome {
    /// The text of the error that the download ends with.
    pub fn message(&self) -> (r: Option<String>)
        ensures
            r.deep_view() == outcome_text(self@),
    {
        match self {
            Outcome::Complete => None,
            Outcome::Cancelled => Some("Download cancelled".to_string()),
            Outcome::Refused { status } => {
                let mut r = "Server refused the download: HTTP ".to_string();
                r.append(status.as_str());
                Some(r)
            },
            Outcome::NotFlushed => None,
            Outcome::Exhausted { .. } => {
                let mut r = "Download failed after ".to_string();
                r.append(number::render(MAX_RETRIES as u64).as_str());
                r.append(" attempts");
                Some(r)
            },
        }
    }
}

/// What came of an action.
#[derive(Debug)]
pub enum Event {
    /// Whether the download is cancelled.
    Polled { cancelled: bool },
    /// The wait is over.
    Waited,
    /// The server answered, with the status `code`, written out as `status`,
    /// and perhaps with the length of what follows.
    Answered { code: u16, status: String, length: Option<u64> },
    /// The request failed.
    NotAnswered,
    /// The file was created.
    Created,
    /// The file could not be created.
    NotCreated,
    /// A piece of the answer came, of that many bytes, or an error in its place.
    Received { cancelled: bool, piece: Option<u64> },
    /// The answer is at its end.
    Ended,
    /// The piece was written.
    Written,
    /// The piece could not be written.
    NotWritten,
    /// Progress was reported.
    Noted,
    /// The file was flushed.
    Flushed,
    /// The file could not be flushed.
    FlushFailed,
    /// The file was removed, or could not be.
    Removed,
}

/// What an `Event` holds.
pub enum EventView {
    Polled { cancelled: bool },
    Waited,
    Answered { code: u16, status: Seq<char>, length: Option<u64> },
    NotAnswered,
    Created,
    NotCreated,
    Received { cancelled: bool, piece: Option<u64> },
    Ended,
    Written,
    NotWritten,
    Noted,
    Flushed,
    FlushFailed,
    Removed,
}

impl View for Event {
    type V = EventView;

    open spec fn view(&self) -> EventView {
        match self {
            Event::Polled { cancelled } => EventView::Polled { cancelled: *cancelled },
            Event::Waited => EventView::Waited,
            Event::Answered { code, status, length } => EventView::Answered {
                code: *code,
                status: status@,
                length: *length,
            },
            Event::NotAnswered => EventView::NotAnswered,
            Event::Created => EventView::Created,
            Event::NotCreated => EventView::NotCreated,
            Event::Received { cancelled, piece } => EventView::Received {
                cancelled: *cancelled,
                piece: *piece,
            },
            Event::Ended => EventView::Ended,
            Event::Written => EventView::Written,
            Event::NotWritten => EventView::NotWritten,
            Event::Noted => EventView::Noted,
            Event::Flushed => EventView::Flushed,
            Event::FlushFailed => EventView::FlushFailed,
            Event::Removed => EventView::Removed,
        }
    }
}

/// What a download needs done next.
#[derive(Debug)]
pub enum Action {
    /// Find out whether the download is cancelled.
    Poll,
    /// Wait for `secs` seconds.
    Wait { secs: u64 },
    /// Send the request.
    Send,
    /// Create the file, empty.
    Create,
    /// Read the next piece of the answer.
    Read,
    /// Write the piece to the file.
    Write,
    /// Report that `received` bytes of `total` are there.
    Report { received: u64, total: Option<u64> },
    /// Flush the file.
    Flush,
    /// Close and remove the file.
    Remove,
    /// End with `outcome`.
    Finish { outcome: Outcome },
}

/// What an `Action` holds.
pub enum ActionView {
    Poll,
    Wait { secs: u64 },
    Send,
    Create,
    Read,
    Write,
    Report { received: u64, total: Option<u64> },
    Flush,
    Remove,
    Finish { outcome: OutcomeView },
}

impl View for Action {
    type V = ActionView;

    open spec fn view(&self) -> ActionView {
        match self {
            Action::Poll => ActionView::Poll,
            Action::Wait { secs } => ActionView::Wait { secs: *secs },
            Action::Send => ActionView::Send,
            Action::Create => ActionView::Create,
            Action::Read => ActionView::Read,
            Action::Write => ActionView::Write,
            Action::Report { received, total } => ActionView::Report {
                received: *received,
                total: *total,
            },
            Action::Flush => ActionView::Flush,
            Action::Remove => ActionView::Remove,
            Action::Finish { outcome } => ActionView::Finish { outcome: outcome@ },
        }
    }
}

/// A download under way.
#[derive(Debug)]
pub struct Download {
    phase: Phase,
    /// The attempts that have failed.
    attempt: u32,
    /// The bytes that this attempt has written.
    received: u64,
    /// The length of the piece that is being written.
    pending: u64,
    /// The length of the answer, if the server gave it.
    total: Option<u64>,
    last: Failure,
}

/// What a `Download` holds.
pub struct DownloadView {
    pub phase: Phase,
    pub attempt: u32,
    pub received: u64,
    pub pending: u64,
    pub total: Option<u64>,
    pub last: FailureView,
}

impl View for Download {
    type V = DownloadView;

    closed spec fn view(&self) -> DownloadView {
        DownloadView {
            phase: self.phase,
            attempt: self.attempt,
            received: self.received,
            pending: self.pending,
            total: self.total,
            last: self.last@,
        }
    }
}

/// A download that is about to begin.
pub open spec fn beginning() -> DownloadView {
    DownloadView {
        phase: Phase::Polling,
        attempt: 0,
        received: 0,
        pending: 0,
        total: None,
        last: FailureView::Unknown,
    }
}

/// Whether `code` is a status by which a server refuses a request.
pub open spec fn is_client_error(code: u16) -> bool {
    400 <= code < 500
}

/// Whether `code` is a status that reports success.
pub open spec fn is_success(code: u16) -> bool {
    200 <= code < 300
}

impl DownloadView {
    /// What holds of every download: fewer attempts have failed than are made,
    /// and the piece that is being written fits in the count.
    pub open spec fn valid(self) -> bool {
        &&& self.attempt < MAX_RETRIES
        &&& self.phase == Phase::Writing ==> self.received + self.pending <= u64::MAX
    }

    /// Whether `event` can come of what the download is in the middle of.
    pub open spec fn accepts(self, event: EventView) -> bool {
        match (self.phase, event) {
            (Phase::Polling, EventView::Polled { .. }) => true,
            (Phase::Waiting, EventView::Waited) => true,
            (Phase::Requesting, EventView::Answered { .. }) => true,
            (Phase::Requesting, EventView::NotAnswered) => true,
            (Phase::Creating, EventView::Created) => true,
            (Phase::Creating, EventView::NotCreated) => true,
            (Phase::Reading, EventView::Received { piece, .. }) => match piece {
                Some(n) => self.received + n <= u64::MAX,
                None => true,
            },
            (Phase::Reading, EventView::Ended) => true,
            (Phase::Writing, EventView::Written) => true,
            (Phase::Writing, EventView::NotWritten) => true,
            (Phase::Reporting, EventView::Noted) => true,
            (Phase::Flushing, EventView::Flushed) => true,
            (Phase::Flushing, EventView::FlushFailed) => true,
            (Phase::Cleaning, EventView::Removed) => true,
            (Phase::Cancelling, EventView::Removed) => true,
            _ => false,
        }
    }

    /// The download in another phase.
    pub open spec fn at(self, phase: Phase) -> DownloadView {
        DownloadView { phase, ..self }
    }

    /// The download with another latest failure.
    pub open spec fn failed_with(self, last: FailureView) -> DownloadView {
        DownloadView { last, ..self }
    }

    /// The end of the download.
    pub open spec fn finish(self, outcome: OutcomeView) -> (DownloadView, ActionView) {
        (self.at(Phase::Over), ActionView::Finish { outcome })
    }

    /// What follows a failed attempt: another one, unless it was the last.
    pub open spec fn retry(self) -> (DownloadView, ActionView) {
        if self.attempt + 1 < MAX_RETRIES {
            (
                DownloadView { phase: Phase::Polling, attempt: (self.attempt + 1) as u32, ..self },
                ActionView::Poll,
            )
        } else {
            self.finish(OutcomeView::Exhausted { last: self.last })
        }
    }

    /// The wait in seconds before this attempt.
    pub open spec fn backoff(self) -> u64 {
        (RETRY_BASE_SECS * vstd::arithmetic::power2::pow2((self.attempt - 1) as nat)) as u64
    }

    /// What follows `event`.
    pub open spec fn step(self, event: EventView) -> (DownloadView, ActionView) {
        match event {
            EventView::Polled { cancelled } => if cancelled {
                self.finish(OutcomeView::Cancelled)
            } else if self.attempt > 0 {
                (self.at(Phase::Waiting), ActionView::Wait { secs: self.backoff() })
            } else {
                (self.at(Phase::Requesting), ActionView::Send)
            },
            EventView::Waited => (self.at(Phase::Requesting), ActionView::Send),
            EventView::NotAnswered => self.failed_with(FailureView::Reported).retry(),
            EventView::Answered { code, status, length } => if is_client_error(code) {
                self.finish(OutcomeView::Refused { status })
            } else if !is_success(code) {
                self.failed_with(FailureView::Http { status }).retry()
            } else {
                (
                    DownloadView { phase: Phase::Creating, received: 0, total: length, ..self },
                    ActionView::Create,
                )
            },
            EventView::NotCreated => self.failed_with(FailureView::Reported).retry(),
            EventView::Created => (self.at(Phase::Reading), ActionView::Read),
            EventView::Received { cancelled, piece } => if cancelled {
                (self.at(Phase::Cancelling), ActionView::Remove)
            } else {
                match piece {
                    Some(n) => (
                        DownloadView { phase: Phase::Writing, pending: n, ..self },
                        ActionView::Write,
                    ),
                    None => (
                        self.failed_with(FailureView::Reported).at(Phase::Cleaning),
                        ActionView::Remove,
                    ),
                }
            },
            EventView::Ended => (self.at(Phase::Flushing), ActionView::Flush),
            EventView::Written => {
                let received = (self.received + self.pending) as u64;
                (
                    DownloadView { phase: Phase::Reporting, received, ..self },
                    ActionView::Report { received, total: self.total },
                )
            },
            EventView::NotWritten => (
                self.failed_with(FailureView::Reported).at(Phase::Cleaning),
                ActionView::Remove,
            ),
            EventView::Noted => (self.at(Phase::Reading), ActionView::Read),
            EventView::FlushFailed => self.finish(OutcomeView::NotFlushed),
            EventView::Flushed => match self.total {
                Some(total) => if self.received != total {
                    (
                        self.failed_with(
                            FailureView::Truncated { received: self.received, total },
                        ).at(Phase::Cleaning),
                        ActionView::Remove,
                    )
                } else {
                    self.finish(OutcomeView::Complete)
                },
                None => self.finish(OutcomeView::Complete),
            },
            EventView::Removed => if self.phase == Phase::Cancelling {
                self.finish(OutcomeView::Cancelled)
            } else {
                self.retry()
            },
        }
    }
}

impl Download {
    /// A download that is about to begin, and the first thing to do.
    pub fn begin() -> (r: (Download, Action))
        ensures
            r.0@ == beginning(),
            r.0@.valid(),
            r.1@ == ActionView::Poll,
    {
        (
            Download {
                phase: Phase::Polling,
                attempt: 0,
                received: 0,
                pending: 0,
                total: None,
                last: Failure::Unknown,
            },
            Action::Poll,
        )
    }

    /// Whether `event` can come of what the download is in the middle of.
    pub fn accepts(&self, event: &Event) -> (r: bool)
        ensures
            r == self@.accepts(event@),
    {
        match (self.phase, event) {
            (Phase::Polling, Event::Polled { .. }) => true,
            (Phase::Waiting, Event::Waited) => true,
            (Phase::Requesting, Event::Answered { .. }) => true,
            (Phase::Requesting, Event::NotAnswered) => true,
            (Phase::Creating, Event::Created) => true,
            (Phase::Creating, Event::NotCreated) => true,
            (Phase::Reading, Event::Received { piece, .. }) => match piece {
                Some(n) => self.received <= u64::MAX - *n,
                None => true,
            },
            (Phase::Reading, Event::Ended) => true,
            (Phase::Writing, Event::Written) => true,
            (Phase::Writing, Event::NotWritten) => true,
            (Phase::Reporting, Event::Noted) => true,
            (Phase::Flushing, Event::Flushed) => true,
            (Phase::Flushing, Event::FlushFailed) => true,
            (Phase::Cleaning, Event::Removed) => true,
            (Phase::Cancelling, Event::Removed) => true,
            _ => false,
        }
    }

    fn finish(&mut self, outcome: Outcome) -> (r: Action)
        ensures
            (final(self)@, r@) == old(self)@.finish(outcome@),
    {
        self.phase = Phase::Over;
        Action::Finish { outcome }
    }

    fn retry(&mut self) -> (r: Action)
        requires
            old(self)@.valid(),
        ensures
            (final(self)@, r@) == old(self)@.retry(),
    {
        if self.attempt + 1 < MAX_RETRIES {
            self.phase = Phase::Polling;
            self.attempt = self.attempt + 1;
            Action::Poll
        } else {
            let last = match &self.last {
                Failure::Unknown => Failure::Unknown,
                Failure::Reported => Failure::Reported,
                Failure::Http { status } => Failure::Http { status: status.clone() },
                Failure::Truncated { received, total } => Failure::Truncated {
                    received: *received,
                    total: *total,
                },
            };
            self.finish(Outcome::Exhausted { last })
        }
    }

    fn backoff(&self) -> (r: u64)
        requires
            self@.valid(),
            self@.attempt > 0,
        ensures
            r == self@.backoff(),
    {
        proof {
            vstd::arithmetic::power2::lemma2_to64();
        }
        if self.attempt == 1 {
            RETRY_BASE_SECS
        } else {
            RETRY_BASE_SECS * 2
        }
    }

    /// Takes note of what came of the latest action, and says what to do next.
    pub fn step(&mut self, event: Event) -> (r: Action)
        requires
            old(self)@.valid(),
            old(self)@.accepts(event@),
        ensures
            (final(self)@, r@) == old(self)@.step(event@),
            final(self)@.valid(),
    {
        match event {
            Event::Polled { cancelled } => {
                if cancelled {
                    self.finish(Outcome::Cancelled)
                } else if self.attempt > 0 {
                    let secs = self.backoff();
                    self.phase = Phase::Waiting;
                    Action::Wait { secs }
                } else {
                    self.phase = Phase::Requesting;
                    Action::Send
                }
            },
            Event::Waited => {
                self.phase = Phase::Requesting;
                Action::Send
            },
            Event::NotAnswered => {
                self.last = Failure::Reported;
                self.retry()
            },
            Event::Answered { code, status, length } => {
                if 400 <= code && code < 500 {
                    self.finish(Outcome::Refused { status })
                } else if !(200 <= code && code < 300) {
                    self.last = Failure::Http { status };
                    self.retry()
                } else {
                    self.phase = Phase::Creating;
                    self.received = 0;
                    self.total = length;
                    Action::Create
                }
            },
            Event::NotCreated => {
                self.last = Failure::Reported;
                self.retry()
            },
            Event::Created => {
                self.phase = Phase::Reading;
                Action::Read
            },
            Event::Received { cancelled, piece } => {
                if cancelled {
                    self.phase = Phase::Cancelling;
                    Action::Remove
                } else {
                    match piece {
                        Some(n) => {
                            self.phase = Phase::Writing;
                            self.pending = n;
                            Action::Write
                        },
                        None => {
                            self.last = Failure::Reported;
                            self.phase = Phase::Cleaning;
                            Action::Remove
                        },
                    }
                }
            },
            Event::Ended => {
                self.phase = Phase::Flushing;
                Action::Flush
            },
            Event::Written => {
                self.received = self.received + self.pending;
                self.phase = Phase::Reporting;
                Action::Report { received: self.received, total: self.total }
            },
            Event::NotWritten => {
                self.last = Failure::Reported;
                self.phase = Phase::Cleaning;
                Action::Remove
            },
            Event::Noted => {
                self.phase = Phase::Reading;
                Action::Read
            },
            Event::FlushFailed => self.finish(Outcome::NotFlushed),
            Event::Flushed => {
                match self.total {
                    Some(total) if self.received != total => {
                        self.last = Failure::Truncated { received: self.received, total };
                        self.phase = Phase::Cleaning;
                        Action::Remove
                    },
                    _ => self.finish(Outcome::Complete),
                }
            },
            Event::Removed => {
                match self.phase {
                    Phase::Cancelling => self.finish(Outcome::Cancelled),
                    _ => self.retry(),
                }
            },
        }
    }
}

/// The download after the events of `history`.
pub open spec fn state_after(history: Seq<EventView>) -> DownloadView
    decreases history.len(),
{
    if history.len() == 0 {
        beginning()
    } else {
        state_after(history.drop_last()).step(history.last()).0
    }
}

/// What is to be done after the events of `history`.
pub open spec fn action_after(history: Seq<EventView>) -> ActionView {
    if history.len() == 0 {
        ActionView::Poll
    } else {
        state_after(history.drop_last()).step(history.last()).1
    }
}

/// Whether each event of `history` can come of what the download was in the
/// middle of.
pub open spec fn possible(history: Seq<EventView>) -> bool
    decreases history.len(),
{
    history.len() == 0 || (possible(history.drop_last()) && state_after(
        history.drop_last(),
    ).accepts(history.last()))
}

/// How many requests were to be sent in the course of `history`.
pub open spec fn requests(history: Seq<EventView>) -> nat
    decreases history.len(),
{
    if history.len() == 0 {
        0
    } else {
        requests(history.drop_last()) + (if action_after(history) is Send {
            1nat
        } else {
            0nat
        })
    }
}

/// How many requests a download may still send.
spec fn requests_left(d: DownloadView) -> nat {
    match d.phase {
        Phase::Over => 0,
        Phase::Polling | Phase::Waiting => (MAX_RETRIES - d.attempt) as nat,
        _ => (MAX_RETRIES - d.attempt - 1) as nat,
    }
}

/// A download sends as many requests as there are attempts, and no more.
pub proof fn requests_are_bounded(history: Seq<EventView>)
    requires
        possible(history),
    ensures
        requests(history) <= MAX_RETRIES,
{
    lemma_requests(history);
}

proof fn lemma_requests(history: Seq<EventView>)
    requires
        possible(history),
    ensures
        state_after(history).valid(),
        requests(history) + requests_left(state_after(history)) <= MAX_RETRIES,
    decreases history.len(),
{
    if history.len() > 0 {
        lemma_requests(history.drop_last());
    }
}

/// Every state that a download can reach is a valid one.
pub proof fn reachable_states_are_valid(history: Seq<EventView>)
    requires
        possible(history),
    ensures
        state_after(history).valid(),
{
    lemma_requests(history);
}

/// The length that the latest answer announced.
pub open spec fn announced_length(history: Seq<EventView>) -> Option<u64>
    decreases history.len(),
{
    if history.len() == 0 {
        None
    } else {
        match history.last() {
            EventView::Answered { length, .. } => length,
            _ => announced_length(history.drop_last()),
        }
    }
}

/// The length of the piece that came last.
pub open spec fn piece_length(history: Seq<EventView>) -> nat {
    if history.len() == 0 {
        0
    } else {
        match history.last() {
            EventView::Received { piece: Some(n), .. } => n as nat,
            _ => 0,
        }
    }
}

/// The bytes in the file: the lengths of the pieces written since it was
/// created.
pub open spec fn file_length(history: Seq<EventView>) -> nat
    decreases history.len(),
{
    if history.len() == 0 {
        0
    } else {
        match history.last() {
            EventView::Created => 0,
            EventView::Written => file_length(history.drop_last()) + piece_length(
                history.drop_last(),
            ),
            _ => file_length(history.drop_last()),
        }
    }
}

/// What a download has counted is what its file holds.
pub proof fn lemma_file_length(history: Seq<EventView>)
    requires
        possible(history),
    ensures
        match state_after(history).phase {
            Phase::Polling | Phase::Waiting | Phase::Requesting | Phase::Cleaning
            | Phase::Cancelling | Phase::Over => true,
            Phase::Creating => {
                &&& state_after(history).total == announced_length(history)
                &&& state_after(history).received == 0
            },
            Phase::Writing => {
                &&& state_after(history).total == announced_length(history)
                &&& state_after(history).received == file_length(history)
                &&& state_after(history).pending == piece_length(history)
            },
            _ => {
                &&& state_after(history).total == announced_length(history)
                &&& state_after(history).received == file_length(history)
            },
        },
        state_after(history).valid(),
    decreases history.len(),
{
    lemma_requests(history);
    if history.len() > 0 {
        lemma_file_length(history.drop_last());
    }
}

/// A download is complete only if its file has as many bytes as the server
/// announced, whenever it announced a number: a file that was cut short is never
/// taken for a complete one.
pub proof fn complete_file_is_whole(history: Seq<EventView>)
    requires
        possible(history),
        action_after(history) == (ActionView::Finish { outcome: OutcomeView::Complete }),
    ensures
        announced_length(history) matches Some(total) ==> file_length(history) == total,
{
    lemma_requests(history.drop_last());
    lemma_file_length(history.drop_last());
}

/// Whether the file was created and not removed since.
pub open spec fn file_kept(history: Seq<EventView>) -> bool
    decreases history.len(),
{
    if history.len() == 0 {
        false
    } else {
        match history.last() {
            EventView::Created => true,
            EventView::Removed => false,
            _ => file_kept(history.drop_last()),
        }
    }
}

proof fn lemma_file_kept(history: Seq<EventView>)
    requires
        possible(history),
    ensures
        match state_after(history).phase {
            Phase::Polling | Phase::Waiting | Phase::Requesting | Phase::Creating => !file_kept(
                history,
            ),
            Phase::Over => true,
            _ => file_kept(history),
        },
        action_after(history) matches ActionView::Finish { outcome } ==> (file_kept(history)
            <==> outcome is Complete || outcome is NotFlushed),
    decreases history.len(),
{
    if history.len() > 0 {
        lemma_file_kept(history.drop_last());
    }
}

/// A download that is cancelled, refused or given up leaves no file behind.
pub proof fn failure_leaves_no_file(history: Seq<EventView>)
    requires
        possible(history),
    ensures
        action_after(history) matches ActionView::Finish { outcome } ==> (file_kept(history)
            <==> outcome is Complete || outcome is NotFlushed),
{
    lemma_file_kept(history);
}

/// When the server refuses the download, it ends at once: it is not tried
/// again.
pub proof fn refusal_is_final(
    history: Seq<EventView>,
    code: u16,
    status: Seq<char>,
    length: Option<u64>,
)
    requires
        possible(history.push(EventView::Answered { code, status, length })),
        is_client_error(code),
    ensures
        action_after(history.push(EventView::Answered { code, status, length }))
            == (ActionView::Finish { outcome: OutcomeView::Refused { status } }),
{
    assert(history.push(EventView::Answered { code, status, length }).drop_last() == history);
}

/// When the download is found to be cancelled while it is under way, all that
/// follows is the removal of the file, and its end as cancelled.
pub proof fn cancelling_removes_the_file(history: Seq<EventView>, piece: Option<u64>)
    requires
        possible(history.push(EventView::Received { cancelled: true, piece })),
    ensures
        ({
            let seen = history.push(EventView::Received { cancelled: true, piece });
            &&& action_after(seen) is Remove
            &&& forall|event: EventView| #[trigger]
                state_after(seen).accepts(event) ==> event is Removed
            &&& action_after(seen.push(EventView::Removed)) == (ActionView::Finish {
                outcome: OutcomeView::Cancelled,
            })
        }),
{
    let seen = history.push(EventView::Received { cancelled: true, piece });
    assert(seen.drop_last() == history);
    assert(seen.push(EventView::Removed).drop_last() == seen);
}

/// A download that has ended stays so: nothing can come of it any more.
pub proof fn end_is_final(history: Seq<EventView>, event: EventView)
    requires
        possible(history),
        action_after(history) is Finish,
    ensures
        !state_after(history).accepts(event),
{
}

/// The wait before the second attempt is the base, and each further one is twice
/// the wait before it.
pub proof fn waits_double(d: DownloadView, e: DownloadView)
    requires
        d.valid(),
        e.valid(),
    ensures
        d.attempt == 1 ==> d.backoff() == RETRY_BASE_SECS,
        d.attempt >= 1 && e.attempt == d.attempt + 1 ==> e.backoff() == 2 * d.backoff(),
{
    vstd::arithmetic::power2::lemma2_to64();
}

/// Why a file is not the expected one.
#[derive(Debug)]
pub struct ChecksumMismatch {
    pub expected: String,
    pub got: String,
}

/// What a `ChecksumMismatch` holds.
pub struct ChecksumMismatchView {
    pub expected: Seq<char>,
    pub got: Seq<char>,
}

impl View for ChecksumMismatch {
    type V = ChecksumMismatchView;

    open spec fn view(&self) -> ChecksumMismatchView {
        ChecksumMismatchView { expected: self.expected@, got: self.got@ }
    }
}

impl ChecksumMismatchView {
    /// The text of the mismatch.
    pub open spec fn text(self) -> Seq<char> {
        "SHA256 mismatch:\n  expected: "@ + self.expected + "\n  got:      "@ + self.got
    }
}

impl ChecksumMismatch {
    /// The text of this mismatch.
    pub fn message(&self) -> (r: String)
        ensures
            r@ == self@.text(),
    {
        let mut r = "SHA256 mismatch:\n  expected: ".to_string();
        r.append(self.expected.as_str());
        r.append("\n  got:      ");
        r.append(self.got.as_str());
        r
    }
}

/// Whether `expected` is the checksum of the file `content`, in hexadecimal of
/// either case.
pub open spec fn is_checksum_of(expected: Seq<char>, content: Seq<u8>) -> bool {
    text::lowercase(expected) == digest::hex(digest::sha256(content))
}

/// Whether the file that `hasher` has taken in has the checksum `expected`. The
/// case of the hexadecimal digits does not matter.
pub fn verify_sha256(hasher: FileHasher, expected: &str) -> (r: Result<(), ChecksumMismatch>)
    ensures
        match r {
            Ok(()) => is_checksum_of(expected@, hasher@),
            Err(mismatch) => {
                &&& !is_checksum_of(expected@, hasher@)
                &&& mismatch@ == (ChecksumMismatchView {
                    expected: expected@,
                    got: digest::hex(digest::sha256(hasher@)),
                })
            },
        },
{
    let ghost content = hasher@;
    let got = hasher.finish();
    proof {
        digest::hex_is_lowercase(digest::sha256(content));
    }
    if text::same(text::to_lower(got.as_str()).as_str(), text::to_lower(expected).as_str()) {
        Ok(())
    } else {
        Err(ChecksumMismatch { expected: expected.to_string(), got })
    }
}

/// Two texts that differ in case alone are the checksum of the same files.
pub proof fn case_of_checksum_is_ignored(a: Seq<char>, b: Seq<char>, content: Seq<u8>)
    requires
        text::lowercase(a) == text::lowercase(b),
    ensures
        is_checksum_of(a, content) == is_checksum_of(b, content),
{
}

/// The checksum that is computed for a file is the checksum of that file.
pub proof fn computed_checksum_verifies(content: Seq<u8>)
    ensures
        is_checksum_of(digest::hex(digest::sha256(content)), content),
{
    digest::hex_is_lowercase(digest::sha256(content));
}

/// Only an ASCII text is the checksum of a file.
pub proof fn checksum_is_ascii(expected: Seq<char>, content: Seq<u8>)
    requires
        is_checksum_of(expected, content),
    ensures
        vstd::utf8::is_ascii_chars(expected),
{
    digest::hex_is_lowercase(digest::sha256(content));
    text::lemma_lowercase_is_ascii(expected);
}

} // verus!
