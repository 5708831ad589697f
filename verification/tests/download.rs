use green_light::digest::FileHasher;
use green_light::download::{verify_sha256, Action, Download, Event, Failure, Outcome};

const ABC: &str = "ba7816bf8f01cfea414140de5dae2223b00361a396177a9cb410ff61f20015ad";
const EMPTY: &str = "e3b0c44298fc1c149afbf4c8996fb92427ae41e4649b934ca495991b7852b855";

fn hashed(pieces: &[&[u8]]) -> FileHasher {
    let mut hasher = FileHasher::new();
    for piece in pieces {
        assert!(hasher.has_room_for(piece.len()));
        hasher = hasher.update(piece);
    }
    hasher
}

fn step(download: &mut Download, event: Event) -> Action {
    assert!(download.accepts(&event), "{event:?}");
    download.step(event)
}

fn answered(code: u16, status: &str, length: Option<u64>) -> Event {
    Event::Answered { code, status: status.to_string(), length }
}

fn outcome(action: Action) -> Outcome {
    match action {
        Action::Finish { outcome } => outcome,
        other => panic!("not over: {other:?}"),
    }
}

/// Brings a download to the point where the answer is read.
fn reading(length: Option<u64>) -> Download {
    let (mut d, first) = Download::begin();
    assert!(matches!(first, Action::Poll));
    assert!(matches!(step(&mut d, Event::Polled { cancelled: false }), Action::Send));
    assert!(matches!(step(&mut d, answered(200, "200 OK", length)), Action::Create));
    assert!(matches!(step(&mut d, Event::Created), Action::Read));
    d
}

fn receive(d: &mut Download, length: u64) -> Action {
    let piece = Event::Received { cancelled: false, piece: Some(length) };
    assert!(matches!(step(d, piece), Action::Write));
    step(d, Event::Written)
}

#[test]
fn complete_download() {
    let mut d = reading(Some(7));
    assert!(matches!(receive(&mut d, 4), Action::Report { received: 4, total: Some(7) }));
    assert!(matches!(step(&mut d, Event::Noted), Action::Read));
    assert!(matches!(receive(&mut d, 3), Action::Report { received: 7, total: Some(7) }));
    step(&mut d, Event::Noted);
    assert!(matches!(step(&mut d, Event::Ended), Action::Flush));
    let end = outcome(step(&mut d, Event::Flushed));
    assert!(matches!(end, Outcome::Complete));
    assert_eq!(end.message(), None);
    assert!(!d.accepts(&Event::Polled { cancelled: false }));
}

#[test]
fn download_of_unknown_length_is_complete_at_its_end() {
    let mut d = reading(None);
    assert!(matches!(receive(&mut d, 4), Action::Report { received: 4, total: None }));
    step(&mut d, Event::Noted);
    step(&mut d, Event::Ended);
    assert!(matches!(outcome(step(&mut d, Event::Flushed)), Outcome::Complete));
}

#[test]
fn truncated_download_is_removed_and_tried_again() {
    let mut d = reading(Some(10));
    for (attempt, wait) in [(1, 3), (2, 6), (3, 0)] {
        receive(&mut d, 4);
        step(&mut d, Event::Noted);
        step(&mut d, Event::Ended);
        assert!(matches!(step(&mut d, Event::Flushed), Action::Remove));
        let next = step(&mut d, Event::Removed);
        if attempt == 3 {
            let end = outcome(next);
            assert_eq!(end.message().as_deref(), Some("Download failed after 3 attempts"));
            match end {
                Outcome::Exhausted { last } => assert_eq!(
                    last.message().as_deref(),
                    Some("Download truncated: received 4 of 10 bytes")
                ),
                other => panic!("{other:?}"),
            }
            return;
        }
        assert!(matches!(next, Action::Poll));
        match step(&mut d, Event::Polled { cancelled: false }) {
            Action::Wait { secs } => assert_eq!(secs, wait),
            other => panic!("{other:?}"),
        }
        assert!(matches!(step(&mut d, Event::Waited), Action::Send));
        step(&mut d, answered(206, "206 Partial Content", Some(10)));
        step(&mut d, Event::Created);
    }
}

#[test]
fn refusal_ends_the_download() {
    for (code, status) in [(400, "400 Bad Request"), (404, "404 Not Found"), (499, "499")] {
        let (mut d, _) = Download::begin();
        step(&mut d, Event::Polled { cancelled: false });
        let end = outcome(step(&mut d, answered(code, status, None)));
        assert_eq!(end.message(), Some(format!("Server refused the download: HTTP {status}")));
    }
}

#[test]
fn server_errors_are_tried_three_times() {
    let (mut d, mut action) = Download::begin();
    let mut requests = 0;
    let end = loop {
        action = match action {
            Action::Poll => step(&mut d, Event::Polled { cancelled: false }),
            Action::Wait { .. } => step(&mut d, Event::Waited),
            Action::Send => {
                requests += 1;
                let code = [500, 302, 199][requests - 1];
                step(&mut d, answered(code, "503 Service Unavailable", None))
            }
            Action::Finish { outcome } => break outcome,
            other => panic!("{other:?}"),
        };
    };
    assert_eq!(requests, 3);
    match end {
        Outcome::Exhausted { last } => {
            assert_eq!(last.message().as_deref(), Some("HTTP 503 Service Unavailable"))
        }
        other => panic!("{other:?}"),
    }
    assert_eq!(Failure::Unknown.message().as_deref(), Some("unknown error"));
}

#[test]
fn network_and_file_errors_are_tried_again() {
    let (mut d, _) = Download::begin();
    step(&mut d, Event::Polled { cancelled: false });
    assert!(matches!(step(&mut d, Event::NotAnswered), Action::Poll));
    step(&mut d, Event::Polled { cancelled: false });
    step(&mut d, Event::Waited);
    step(&mut d, answered(200, "200 OK", None));
    assert!(matches!(step(&mut d, Event::NotCreated), Action::Poll));
    step(&mut d, Event::Polled { cancelled: false });
    step(&mut d, Event::Waited);
    step(&mut d, answered(200, "200 OK", None));
    step(&mut d, Event::Created);
    step(&mut d, Event::Received { cancelled: false, piece: Some(1) });
    assert!(matches!(step(&mut d, Event::NotWritten), Action::Remove));
    let end = outcome(step(&mut d, Event::Removed));
    assert!(matches!(end, Outcome::Exhausted { last: Failure::Reported }));

    let mut d = reading(None);
    let broken = Event::Received { cancelled: false, piece: None };
    assert!(matches!(step(&mut d, broken), Action::Remove));
    assert!(matches!(step(&mut d, Event::Removed), Action::Poll));

    let mut d = reading(None);
    step(&mut d, Event::Ended);
    let end = outcome(step(&mut d, Event::FlushFailed));
    assert!(matches!(end, Outcome::NotFlushed));
    assert_eq!(end.message(), None);
}

#[test]
fn cancelling_removes_what_was_written() {
    let mut d = reading(Some(9));
    receive(&mut d, 4);
    step(&mut d, Event::Noted);
    let cancelled = Event::Received { cancelled: true, piece: Some(5) };
    assert!(matches!(step(&mut d, cancelled), Action::Remove));
    let end = outcome(step(&mut d, Event::Removed));
    assert_eq!(end.message().as_deref(), Some("Download cancelled"));

    let (mut d, _) = Download::begin();
    let end = outcome(step(&mut d, Event::Polled { cancelled: true }));
    assert!(matches!(end, Outcome::Cancelled));
}

#[test]
fn events_out_of_turn_are_not_accepted() {
    let (d, _) = Download::begin();
    assert!(!d.accepts(&Event::Waited));
    assert!(!d.accepts(&Event::Flushed));
    let mut d = reading(None);
    receive(&mut d, u64::MAX);
    step(&mut d, Event::Noted);
    assert!(!d.accepts(&Event::Received { cancelled: false, piece: Some(1) }));
    assert!(d.accepts(&Event::Received { cancelled: false, piece: Some(0) }));
}

#[test]
fn checksums_of_known_messages() {
    assert_eq!(hashed(&[]).finish(), EMPTY);
    assert_eq!(hashed(&[b"abc"]).finish(), ABC);
    assert_eq!(hashed(&[b"a", b"", b"bc"]).finish(), ABC);
}

#[test]
fn verification_ignores_case() {
    assert!(verify_sha256(hashed(&[b"abc"]), ABC).is_ok());
    assert!(verify_sha256(hashed(&[b"abc"]), &ABC.to_uppercase()).is_ok());
    let own = hashed(&[b"some file"]).finish();
    assert!(verify_sha256(hashed(&[b"some ", b"file"]), &own).is_ok());
}

#[test]
fn verification_reports_a_mismatch() {
    let upper = ABC.to_uppercase();
    match verify_sha256(hashed(&[b""]), &upper) {
        Ok(()) => panic!("an empty file is not that one"),
        Err(mismatch) => {
            assert_eq!(mismatch.expected, upper);
            assert_eq!(mismatch.got, EMPTY);
            assert_eq!(
                mismatch.message(),
                format!("SHA256 mismatch:\n  expected: {upper}\n  got:      {EMPTY}")
            );
        }
    }
    assert!(verify_sha256(hashed(&[b"abc"]), "\u{e9}").is_err());
    assert!(verify_sha256(hashed(&[b"abc"]), &ABC[1..]).is_err());
    assert!(verify_sha256(hashed(&[b"abc"]), &format!("{ABC} ")).is_err());
}
