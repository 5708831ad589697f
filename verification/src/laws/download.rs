//! Laws of downloads, stated by the events that have happened.

use crate::digest;
use crate::download;
use crate::download::{ActionView, DownloadView, EventView, FailureView, OutcomeView, Phase};
use crate::number;
use crate::text;
use vstd::prelude::*;

verus! {

/// How many requests have been answered or have failed.
pub open spec fn replies(history: Seq<EventView>) -> nat
    decreases history.len(),
{
    if history.len() == 0 {
        0
    } else {
        replies(history.drop_last()) + (match history.last() {
            EventView::Answered { .. } => 1nat,
            EventView::NotAnswered => 1nat,
            _ => 0nat,
        })
    }
}

/// Why the attempt failed that the last event has ended.
pub open spec fn cause(history: Seq<EventView>) -> FailureView {
    match history.last() {
        EventView::Answered { status, .. } => FailureView::Http { status },
        EventView::Removed => match history.drop_last().last() {
            EventView::Flushed => FailureView::Truncated {
                received: download::file_length(history) as u64,
                total: download::announced_length(history).unwrap(),
            },
            _ => FailureView::Reported,
        },
        _ => FailureView::Reported,
    }
}

/// What the state of a download has to do with what has happened.
spec fn matches_history(d: DownloadView, history: Seq<EventView>) -> bool {
    let last = history.last();
    match d.phase {
        Phase::Polling => d.attempt == replies(history) && download::action_after(history) is Poll,
        Phase::Waiting => d.attempt == replies(history) && download::action_after(history) is Wait,
        Phase::Requesting => d.attempt == replies(history) && download::action_after(
            history,
        ) is Send,
        Phase::Creating => d.attempt + 1 == replies(history) && download::action_after(
            history,
        ) is Create,
        Phase::Reading => d.attempt + 1 == replies(history) && download::action_after(
            history,
        ) is Read,
        Phase::Writing => d.attempt + 1 == replies(history) && download::action_after(
            history,
        ) is Write,
        Phase::Reporting => d.attempt + 1 == replies(history) && download::action_after(
            history,
        ) is Report,
        Phase::Flushing => d.attempt + 1 == replies(history) && download::action_after(
            history,
        ) is Flush,
        Phase::Cleaning => {
            &&& d.attempt + 1 == replies(history)
            &&& download::action_after(history) is Remove
            &&& history.len() > 0
            &&& !(last matches EventView::Received { cancelled: true, .. })
            &&& d.last == match last {
                EventView::Flushed => FailureView::Truncated {
                    received: download::file_length(history) as u64,
                    total: download::announced_length(history).unwrap(),
                },
                _ => FailureView::Reported,
            }
        },
        Phase::Cancelling => {
            &&& d.attempt + 1 == replies(history)
            &&& download::action_after(history) is Remove
            &&& history.len() > 0
            &&& last matches EventView::Received { cancelled: true, .. }
        },
        Phase::Over => download::action_after(history) is Finish,
    }
}

proof fn lemma_history(history: Seq<EventView>)
    requires
        download::possible(history),
    ensures
        matches_history(download::state_after(history), history),
        download::state_after(history).valid(),
    decreases history.len(),
{
    download::reachable_states_are_valid(history);
    if history.len() > 0 {
        lemma_history(history.drop_last());
        download::lemma_file_length(history.drop_last());
    }
}

/// Before each attempt the download asks whether it is cancelled. The first
/// attempt is made at once, the second after three seconds, the third after six;
/// after a wait the request is sent.
pub proof fn attempts_are_spaced(history: Seq<EventView>)
    requires
        download::possible(history),
    ensures
        history.len() == 0 ==> download::action_after(history) is Poll,
        history.len() > 0 && history.last() == (EventView::Polled { cancelled: false }) ==> {
            &&& replies(history) == 0 ==> download::action_after(history) is Send
            &&& replies(history) == 1 ==> download::action_after(history) == (ActionView::Wait {
                secs: 3,
            })
            &&& replies(history) == 2 ==> download::action_after(history) == (ActionView::Wait {
                secs: 6,
            })
            &&& replies(history) < 3
        },
        history.len() > 0 && history.last() is Waited ==> download::action_after(history) is Send,
{
    vstd::arithmetic::power2::lemma2_to64();
    if history.len() > 0 {
        lemma_history(history.drop_last());
    }
}

/// A download is refused exactly by an answer with a status from 400 to 499, and
/// tells that status.
pub proof fn refused_means_client_error(history: Seq<EventView>, text: Seq<char>)
    requires
        download::possible(history),
    ensures
        download::action_after(history) == (ActionView::Finish {
            outcome: OutcomeView::Refused { status: text },
        }) <==> {
            &&& history.len() > 0
            &&& history.last() matches EventView::Answered { code, status, .. }
            &&& 400 <= code <= 499
            &&& status == text
        },
{
    if history.len() > 0 {
        lemma_history(history.drop_last());
    }
}

/// A file is created exactly after an answer with a status from 200 to 299.
pub proof fn success_creates_the_file(history: Seq<EventView>)
    requires
        download::possible(history),
    ensures
        download::action_after(history) is Create <==> {
            &&& history.len() > 0
            &&& history.last() matches EventView::Answered { code, .. }
            &&& 200 <= code <= 299
        },
{
    if history.len() > 0 {
        lemma_history(history.drop_last());
    }
}

/// Whether the last event has ended an attempt that may be made again: the
/// request or the file failed, the status reports neither success nor a client
/// error, or what a failed attempt had written was removed.
pub open spec fn attempt_failed(history: Seq<EventView>) -> bool {
    &&& history.len() > 0
    &&& match history.last() {
        EventView::NotAnswered => true,
        EventView::NotCreated => true,
        EventView::Answered { code, .. } => !(200 <= code <= 299) && !(400 <= code <= 499),
        EventView::Removed => !(history.drop_last().last() matches EventView::Received {
            cancelled: true,
            ..
        }),
        _ => false,
    }
}

/// A failed attempt is made again until three have failed; only then is the
/// download given up, and it says why the last attempt failed.
pub proof fn failures_are_tried_three_times(history: Seq<EventView>)
    requires
        download::possible(history),
    ensures
        attempt_failed(history) && replies(history) < 3 ==> download::action_after(history) is Poll,
        attempt_failed(history) && replies(history) >= 3 ==> download::action_after(history) == (
        ActionView::Finish { outcome: OutcomeView::Exhausted { last: cause(history) } }),
        download::action_after(history) matches ActionView::Finish {
            outcome: OutcomeView::Exhausted { .. },
        } ==> attempt_failed(history) && replies(history) == 3,
        history.len() > 0 && download::action_after(history) is Poll ==> attempt_failed(history)
            && replies(history) < 3,
{
    if history.len() > 0 {
        let before = history.drop_last();
        lemma_history(before);
        lemma_history(history);
        if history.last() is Removed {
            assert(download::state_after(before).phase == Phase::Cleaning
                || download::state_after(before).phase == Phase::Cancelling);
        }
    }
}

/// While the answer is read, each piece is written and then reported with all
/// that was written before it; what cannot be read or written is removed.
pub proof fn pieces_are_written_and_reported(history: Seq<EventView>)
    requires
        download::possible(history),
        history.len() > 0,
    ensures
        match history.last() {
            EventView::Created => download::action_after(history) is Read,
            EventView::Received { cancelled, piece } => if !cancelled && piece is Some {
                download::action_after(history) is Write
            } else {
                download::action_after(history) is Remove
            },
            EventView::Written => {
                &&& download::action_after(history) matches ActionView::Report { received, total }
                &&& received == download::file_length(history)
                &&& total == download::announced_length(history)
            },
            EventView::NotWritten => download::action_after(history) is Remove,
            EventView::Noted => download::action_after(history) is Read,
            EventView::Ended => download::action_after(history) is Flush,
            _ => true,
        },
{
    lemma_history(history.drop_last());
    download::lemma_file_length(history.drop_last());
    download::lemma_file_length(history);
}

/// A download is complete exactly when its file was flushed and holds as many
/// bytes as were announced, if a number was. A file of another length is
/// removed.
pub proof fn complete_means_whole(history: Seq<EventView>)
    requires
        download::possible(history),
    ensures
        download::action_after(history) == (ActionView::Finish { outcome: OutcomeView::Complete })
            <==> {
            &&& history.len() > 0
            &&& history.last() is Flushed
            &&& download::announced_length(history) matches Some(total) ==> total
                == download::file_length(history)
        },
        history.len() > 0 && history.last() is Flushed && (download::announced_length(
            history,
        ) matches Some(total) && total != download::file_length(history)) ==> download::action_after(
            history,
        ) is Remove,
        download::action_after(history) == (ActionView::Finish { outcome: OutcomeView::NotFlushed })
            <==> history.len() > 0 && history.last() is FlushFailed,
{
    if history.len() > 0 {
        lemma_history(history.drop_last());
        download::lemma_file_length(history.drop_last());
    }
}

/// A download ends as cancelled exactly when it was found to be cancelled before
/// an attempt, or when its file was removed because it was found to be cancelled
/// while the answer was read.
pub proof fn cancelled_means_cancelled(history: Seq<EventView>)
    requires
        download::possible(history),
    ensures
        download::action_after(history) == (ActionView::Finish { outcome: OutcomeView::Cancelled })
            <==> {
            &&& history.len() > 0
            &&& {
                ||| history.last() == (EventView::Polled { cancelled: true })
                ||| history.last() is Removed && (
                history.drop_last().last() matches EventView::Received { cancelled: true, .. })
            }
        },
{
    if history.len() > 0 {
        let before = history.drop_last();
        lemma_history(before);
    }
}

/// Everything that can come of an action is accepted after it, as long as the
/// bytes can be counted.
pub proof fn outcomes_are_accepted(
    history: Seq<EventView>,
    flag: bool,
    code: u16,
    status: Seq<char>,
    length: Option<u64>,
    piece: Option<u64>,
)
    requires
        download::possible(history),
    ensures
        ({
            let d = download::state_after(history);
            match download::action_after(history) {
                ActionView::Poll => d.accepts(EventView::Polled { cancelled: flag }),
                ActionView::Wait { .. } => d.accepts(EventView::Waited),
                ActionView::Send => d.accepts(EventView::Answered { code, status, length })
                    && d.accepts(EventView::NotAnswered),
                ActionView::Create => d.accepts(EventView::Created) && d.accepts(
                    EventView::NotCreated,
                ),
                ActionView::Read => {
                    &&& (piece matches Some(n) ==> download::file_length(history) + n <= u64::MAX)
                        ==> d.accepts(EventView::Received { cancelled: flag, piece })
                    &&& d.accepts(EventView::Ended)
                },
                ActionView::Write => d.accepts(EventView::Written) && d.accepts(
                    EventView::NotWritten,
                ),
                ActionView::Report { .. } => d.accepts(EventView::Noted),
                ActionView::Flush => d.accepts(EventView::Flushed) && d.accepts(
                    EventView::FlushFailed,
                ),
                ActionView::Remove => d.accepts(EventView::Removed),
                ActionView::Finish { .. } => true,
            }
        }),
{
    lemma_history(history);
    download::lemma_file_length(history);
}

/// What is told of the end of a download.
pub proof fn outcomes_are_told(status: Seq<char>, received: u64, total: u64, last: FailureView)
    ensures
        download::outcome_text(OutcomeView::Complete) is None,
        download::outcome_text(OutcomeView::Cancelled) == Some("Download cancelled"@),
        download::outcome_text(OutcomeView::Refused { status }) == Some(
            "Server refused the download: HTTP "@ + status,
        ),
        download::outcome_text(OutcomeView::Exhausted { last }) == Some(
            "Download failed after "@ + number::decimal(3) + " attempts"@,
        ),
        download::outcome_text(OutcomeView::NotFlushed) is None,
        download::failure_text(FailureView::Unknown) == Some("unknown error"@),
        download::failure_text(FailureView::Reported) is None,
        download::failure_text(FailureView::Http { status }) == Some("HTTP "@ + status),
        download::failure_text(FailureView::Truncated { received, total }) == Some(
            "Download truncated: received "@ + number::decimal(received as nat) + " of "@
                + number::decimal(total as nat) + " bytes"@,
        ),
{
}

/// What is told of a mismatch: both checksums, each on a line of its own.
pub proof fn mismatch_tells_both(expected: Seq<char>, got: Seq<char>)
    ensures
        (download::ChecksumMismatchView { expected, got }).text()
            == "SHA256 mismatch:\n  expected: "@ + expected + "\n  got:      "@ + got,
{
}

/// A file has one checksum, up to case: any two texts that pass for it are the
/// same in lower case, as long as the digest is written out, and the digest
/// itself passes.
pub proof fn a_file_has_one_checksum(a: Seq<char>, b: Seq<char>, content: Seq<u8>)
    requires
        download::is_checksum_of(a, content),
    ensures
        text::lowercase(a) == digest::hex(digest::sha256(content)),
        text::lowercase(a).len() == 2 * digest::sha256(content).len(),
        download::is_checksum_of(b, content) <==> text::lowercase(b) == text::lowercase(a),
{
}

} // verus!
