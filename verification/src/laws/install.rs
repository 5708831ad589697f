//! Laws of installs, stated by the events that have happened.

use crate::digest;
use crate::install;
use crate::install::{ActionView, EventView, InstallErrorView, InstallOptionsView};
use crate::number;
use vstd::prelude::*;

verus! {

/// The script is launched with its own path, the run file and a checksum, and
/// after these with the flag of each option that is on, in one order and with
/// nothing else. It does not matter where the checksum came from.
pub proof fn launch_has_the_flags_of_the_options(
    options: InstallOptionsView,
    history: Seq<EventView>,
    arguments: Seq<Seq<char>>,
)
    requires
        install::possible(options, history),
        install::action_after(options, history) == (ActionView::Launch { arguments }),
    ensures
        arguments.len() >= 3,
        arguments[0] == "/usr/lib/green-light/privileged-install.sh"@,
        arguments[1] == options.run_file,
        match options.sha256 {
            Some(checksum) => arguments[2] == checksum,
            None => history.last() matches EventView::Hashed { content } && arguments[2]
                == digest::hex(digest::sha256(content)),
        },
        options.use_dkms <==> arguments.skip(3).contains("--dkms"@),
        options.hold_packages <==> arguments.skip(3).contains("--hold"@),
        options.use_dkms && options.hold_packages ==> arguments.skip(3) == seq![
            "--dkms"@,
            "--hold"@,
        ],
        arguments.len() == 3 + (if options.use_dkms {
            1int
        } else {
            0
        }) + (if options.hold_packages {
            1int
        } else {
            0
        }),
{
    install::launch_is_pinned(options, history, arguments);
    install::lemma_history(options, history.drop_last());
    reveal_strlit("--dkms");
    reveal_strlit("--hold");
    assert("--dkms"@[2] == 'd');
    assert("--hold"@[2] == 'h');
    let flags = arguments.skip(3);
    if options.use_dkms {
        assert(flags[0] == "--dkms"@);
    }
    if options.hold_packages {
        assert(flags[flags.len() - 1] == "--hold"@);
    }
}

/// An install goes through its checks one by one: first the script, then the run
/// file, which is hashed only if no checksum is given.
pub proof fn checks_come_first(options: InstallOptionsView, history: Seq<EventView>)
    requires
        install::possible(options, history),
    ensures
        history.len() == 0 ==> install::action_after(options, history) == (ActionView::Check {
            path: "/usr/lib/green-light/privileged-install.sh"@,
        }),
        history == seq![EventView::Checked { exists: true }] ==> install::action_after(
            options,
            history,
        ) == (ActionView::Check { path: options.run_file }),
        history == seq![EventView::Checked { exists: true }, EventView::Checked { exists: true }]
            ==> {
            &&& options.sha256 is None ==> install::action_after(options, history) == (
            ActionView::Hash { path: options.run_file })
            &&& options.sha256 is Some ==> install::action_after(options, history) is Launch
        },
        history.len() > 0 && history.last() is Hashed ==> install::action_after(
            options,
            history,
        ) is Launch,
{
    if history.len() > 0 {
        install::lemma_history(options, history.drop_last());
        assert(history == history.drop_last().push(history.last()));
        if history.len() == 2 {
            assert(history.drop_last() == seq![history[0]]);
        }
        if history.len() == 1 {
            assert(history.drop_last() == Seq::<EventView>::empty());
        }
    }
}

/// An install ends with an error exactly for its reason: the script or the run
/// file is missing, the run file cannot be read, `pkexec` cannot be launched, or
/// it exits without success. An exit with 126 or 127 means that the user was not
/// authenticated; any other is told as it is, and an exit without a code as -1.
pub proof fn errors_have_their_reasons(options: InstallOptionsView, history: Seq<EventView>)
    requires
        install::possible(options, history),
        history.len() > 0,
    ensures
        ({
            let action = install::action_after(options, history);
            match history.last() {
                EventView::Checked { exists: false } => if history.len() == 1 {
                    action == (ActionView::Finish { error: Some(InstallErrorView::NoScript) })
                } else {
                    action == (ActionView::Finish {
                        error: Some(InstallErrorView::NoRunFile { run_file: options.run_file }),
                    })
                },
                EventView::Checked { exists: true } => !(action is Finish),
                EventView::Hashed { .. } => !(action is Finish),
                EventView::NotHashed => action == (ActionView::Finish {
                    error: Some(InstallErrorView::NotHashed),
                }),
                EventView::NotLaunched => action == (ActionView::Finish {
                    error: Some(InstallErrorView::NotLaunched),
                }),
                EventView::Exited { success: true, .. } => action == (ActionView::Finish {
                    error: None,
                }),
                EventView::Exited { success: false, code } => {
                    let cancelled = code == Some(126i32) || code == Some(127i32);
                    &&& cancelled <==> action == (ActionView::Finish {
                        error: Some(InstallErrorView::NotAuthenticated),
                    })
                    &&& !cancelled && code is Some ==> action == (ActionView::Finish {
                        error: Some(InstallErrorView::Failed { code: code.unwrap() }),
                    })
                    &&& code is None ==> action == (ActionView::Finish {
                        error: Some(InstallErrorView::Failed { code: -1i32 }),
                    })
                },
            }
        }),
{
    install::lemma_history(options, history.drop_last());
    assert(history == history.drop_last().push(history.last()));
}

/// Everything that can come of an action is accepted after it, and nothing after
/// the end.
pub proof fn outcomes_are_accepted(
    options: InstallOptionsView,
    history: Seq<EventView>,
    flag: bool,
    code: Option<i32>,
    content: Seq<u8>,
    event: EventView,
)
    requires
        install::possible(options, history),
    ensures
        ({
            let d = install::state_after(options, history);
            match install::action_after(options, history) {
                ActionView::Check { .. } => d.accepts(EventView::Checked { exists: flag }),
                ActionView::Hash { .. } => d.accepts(EventView::Hashed { content }) && d.accepts(
                    EventView::NotHashed,
                ),
                ActionView::Launch { .. } => d.accepts(EventView::Exited { success: flag, code })
                    && d.accepts(EventView::NotLaunched),
                ActionView::Finish { .. } => !d.accepts(event),
            }
        }),
{
    install::lemma_history(options, history);
    if history.len() > 0 {
        install::lemma_history(options, history.drop_last());
    }
}

/// What is told of an error.
pub proof fn errors_are_told(run_file: Seq<char>, code: i32)
    ensures
        InstallErrorView::NoScript.text() == Some(
            "Privileged install script not found at "@
                + "/usr/lib/green-light/privileged-install.sh"@,
        ),
        (InstallErrorView::NoRunFile { run_file }).text() == Some(
            "Run file not found: "@ + run_file,
        ),
        InstallErrorView::NotHashed.text() is None,
        InstallErrorView::NotLaunched.text() == Some(
            "Failed to launch pkexec \u{2014} is polkit installed?"@,
        ),
        InstallErrorView::NotAuthenticated.text() == Some("Authentication was cancelled."@),
        (InstallErrorView::Failed { code }).text() == Some(
            "Install script exited with code "@ + number::signed_decimal(code as int)
                + " (see /var/log/green-light.log)"@,
        ),
{
}

} // verus!
