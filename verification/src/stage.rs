//! The three stages of one invocation: wake the camera, read its
//! information record, sync its media.
//!
//! Each stage is attempted once, in this order. A stage that fails is
//! reported in one line and has no bearing on the stages after it.

use vstd::prelude::*;

verus! {

/// A top-level stage.
#[derive(Clone, Copy, PartialEq, Eq, Structural, Debug)]
pub enum Stage {
    /// Send the wake signal.
    Wake,
    /// Query the device information record.
    Info,
    /// List the media and walk the files.
    Sync,
}

/// The line reported for a stage that failed.
pub open spec fn failure_text(stage: Stage) -> Seq<char> {
    match stage {
        Stage::Wake => "failed to WoL"@,
        Stage::Info => "failed to get gopro info"@,
        Stage::Sync => "failed to enumerate dl files"@,
    }
}

/// The stage attempted after `stage`, if any.
pub open spec fn following(stage: Stage) -> Option<Stage> {
    match stage {
        Stage::Wake => Some(Stage::Info),
        Stage::Info => Some(Stage::Sync),
        Stage::Sync => None,
    }
}

/// How many stages are left from `stage` on, itself included.
pub open spec fn stages_left(stage: Stage) -> nat {
    match stage {
        Stage::Wake => 3,
        Stage::Info => 2,
        Stage::Sync => 1,
    }
}

/// What is reported for `stage` given whether it succeeded: nothing, or its
/// one line.
pub open spec fn report(stage: Stage, succeeded: bool) -> Seq<Seq<char>> {
    if succeeded {
        Seq::empty()
    } else {
        seq![failure_text(stage)]
    }
}

/// The stages attempted from `stage` on, in order.
pub open spec fn attempts_from(stage: Stage) -> Seq<Stage>
    decreases stages_left(stage),
{
    match following(stage) {
        Some(next) => seq![stage] + attempts_from(next),
        None => seq![stage],
    }
}

/// The lines reported from `stage` on, in order, where `succeeds` tells
/// which stages succeed.
pub open spec fn reports_from(stage: Stage, succeeds: spec_fn(Stage) -> bool) -> Seq<Seq<char>>
    decreases stages_left(stage),
{
    match following(stage) {
        Some(next) => report(stage, succeeds(stage)) + reports_from(next, succeeds),
        None => report(stage, succeeds(stage)),
    }
}

/// Whatever fails, all three stages are attempted, in the same order, and
/// what is reported is the line of each failed stage and nothing else: the
/// outcome of one stage shows in its own line only.
pub proof fn law_stages_are_isolated(succeeds: spec_fn(Stage) -> bool)
    ensures
        attempts_from(Stage::Wake) == seq![Stage::Wake, Stage::Info, Stage::Sync],
        reports_from(Stage::Wake, succeeds) == report(Stage::Wake, succeeds(Stage::Wake)) + report(
            Stage::Info,
            succeeds(Stage::Info),
        ) + report(Stage::Sync, succeeds(Stage::Sync)),
{
    reveal_with_fuel(attempts_from, 3);
    reveal_with_fuel(reports_from, 3);
}

/// The stage an invocation begins with.
pub fn first_stage() -> (stage: Stage)
    ensures
        stage == Stage::Wake,
{
    Stage::Wake
}

/// The line to report for `stage` when it failed.
pub fn failure_message(stage: Stage) -> (line: &'static str)
    ensures
        line@ == failure_text(stage),
{
    match stage {
        Stage::Wake => "failed to WoL",
        Stage::Info => "failed to get gopro info",
        Stage::Sync => "failed to enumerate dl files",
    }
}

/// Closes `stage` with its outcome: says which stage comes next and what,
/// if anything, is to be reported. The next stage is the same whether
/// `stage` succeeded or not; a line is reported exactly when it failed.
pub fn conclude(stage: Stage, succeeded: bool) -> (then: (Option<Stage>, Option<&'static str>))
    ensures
        then.0 == following(stage),
        match then.1 {
            Some(line) => !succeeded && line@ == failure_text(stage),
            None => succeeded,
        },
{
    let next = match stage {
        Stage::Wake => Some(Stage::Info),
        Stage::Info => Some(Stage::Sync),
        Stage::Sync => None,
    };
    if succeeded {
        (next, None)
    } else {
        (next, Some(failure_message(stage)))
    }
}

} // verus!
