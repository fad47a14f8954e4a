//! Putting a downloaded build in the place of the running one.
//!
//! A running executable cannot be overwritten everywhere, but it can be renamed
//! out of the way: the running one is moved aside, the new one takes its name,
//! and the copy left behind is deleted at the next start. Every step is undone
//! if the next one fails: a half-applied update would leave the user with no
//! working executable at all.
//!
//! The caller performs each step and says how it went.

use vstd::prelude::*;

verus! {

/// A step that can go wrong.
#[derive(Clone, Copy, Debug, PartialEq, Eq, Structural)]
pub enum Stage {
    MovingAside,
    PuttingInPlace,
    Starting,
}

/// What is to be done next.
#[derive(Clone, Copy, Debug, PartialEq, Eq, Structural)]
pub enum Step {
    /// Rename the running executable out of the way.
    MoveAside,
    /// Rename the download to the executable's name.
    PutInPlace,
    /// Run it.
    Start,
    /// Rename the download back to where it waited.
    TakeOut,
    /// Rename the executable that was moved aside back, after a failure.
    PutBack(Stage),
    /// The new build runs.
    Done,
    Failed(Stage),
}

/// Where things start.
pub fn first_step() -> (step: Step)
    ensures
        step == Step::MoveAside,
{
    Step::MoveAside
}

/// What follows a step that went well, or did not. Undoing goes on whatever
/// becomes of it: there is nothing else left to try.
pub open spec fn following(step: Step, well: bool) -> Step {
    match step {
        Step::MoveAside => if well {
            Step::PutInPlace
        } else {
            Step::Failed(Stage::MovingAside)
        },
        Step::PutInPlace => if well {
            Step::Start
        } else {
            Step::PutBack(Stage::PuttingInPlace)
        },
        Step::Start => if well {
            Step::Done
        } else {
            Step::TakeOut
        },
        Step::TakeOut => Step::PutBack(Stage::Starting),
        Step::PutBack(stage) => Step::Failed(stage),
        Step::Done => Step::Done,
        Step::Failed(stage) => Step::Failed(stage),
    }
}

pub fn next_step(step: Step, well: bool) -> (next: Step)
    ensures
        next == following(step, well),
{
    match step {
        Step::MoveAside => if well {
            Step::PutInPlace
        } else {
            Step::Failed(Stage::MovingAside)
        },
        Step::PutInPlace => if well {
            Step::Start
        } else {
            Step::PutBack(Stage::PuttingInPlace)
        },
        Step::Start => if well {
            Step::Done
        } else {
            Step::TakeOut
        },
        Step::TakeOut => Step::PutBack(Stage::Starting),
        Step::PutBack(stage) => Step::Failed(stage),
        Step::Done => Step::Done,
        Step::Failed(stage) => Step::Failed(stage),
    }
}

/// Why a swap failed, for the user.
pub fn failure(stage: Stage, exe: &str) -> (text: String)
    ensures
        text@ == match stage {
            Stage::MovingAside => "moving "@ + exe@ + " aside"@,
            Stage::PuttingInPlace => "putting "@ + exe@ + " in place"@,
            Stage::Starting => "starting the new version"@,
        },
{
    match stage {
        Stage::MovingAside => {
            let mut text = "moving ".to_owned();
            text.append(exe);
            text.append(" aside");
            text
        },
        Stage::PuttingInPlace => {
            let mut text = "putting ".to_owned();
            text.append(exe);
            text.append(" in place");
            text
        },
        Stage::Starting => "starting the new version".to_owned(),
    }
}

// ---- laws ---------------------------------------------------------------

/// Which build a file name holds.
pub enum Build {
    Nothing,
    Running,
    Downloaded,
}

/// The three file names that a swap renames between.
pub struct Files {
    pub exe: Build,
    pub old: Build,
    pub staged: Build,
}

/// What a step does to the files if it goes well; otherwise it leaves them.
pub open spec fn done(files: Files, step: Step, well: bool) -> Files {
    if !well {
        files
    } else {
        match step {
            Step::MoveAside => Files { exe: Build::Nothing, old: files.exe, ..files },
            Step::PutInPlace => Files { exe: files.staged, staged: Build::Nothing, ..files },
            Step::TakeOut => Files { exe: Build::Nothing, staged: files.exe, ..files },
            Step::PutBack(_) => Files { exe: files.old, old: Build::Nothing, ..files },
            _ => files,
        }
    }
}

/// Where a swap has got to after some outcomes.
pub open spec fn swapped(files: Files, step: Step, outcomes: Seq<bool>) -> (Files, Step)
    decreases outcomes.len(),
{
    if outcomes.len() == 0 {
        (files, step)
    } else {
        swapped(
            done(files, step, outcomes[0]),
            following(step, outcomes[0]),
            outcomes.skip(1),
        )
    }
}

/// Whether the steps that undo others all go well.
pub open spec fn undoing_works(step: Step, outcomes: Seq<bool>) -> bool
    decreases outcomes.len(),
{
    outcomes.len() > 0 ==> {
        &&& (step is TakeOut || step is PutBack) ==> outcomes[0]
        &&& undoing_works(following(step, outcomes[0]), outcomes.skip(1))
    }
}

/// Which build is where at a step.
pub open spec fn in_order(files: Files, step: Step) -> bool {
    match step {
        Step::MoveAside | Step::Failed(_) => files.exe is Running && files.staged is Downloaded,
        Step::PutInPlace | Step::PutBack(_) => files.exe is Nothing && files.old is Running
            && files.staged is Downloaded,
        Step::Start | Step::TakeOut | Step::Done => files.exe is Downloaded && files.old is Running
            && files.staged is Nothing,
    }
}

proof fn steps_keep_order(files: Files, step: Step, outcomes: Seq<bool>)
    requires
        in_order(files, step),
        undoing_works(step, outcomes),
    ensures
        ({
            let (after, at) = swapped(files, step, outcomes);
            in_order(after, at)
        }),
    decreases outcomes.len(),
{
    if outcomes.len() > 0 {
        steps_keep_order(
            done(files, step, outcomes[0]),
            following(step, outcomes[0]),
            outcomes.skip(1),
        );
    }
}

/// A swap that is over leaves one working executable under its name, as long
/// as what can be renamed one way can be renamed back: the downloaded one if
/// it runs, otherwise the one that was there, with the download where it was.
pub proof fn a_failed_swap_is_undone(old: Build, outcomes: Seq<bool>)
    requires
        undoing_works(Step::MoveAside, outcomes),
    ensures
        ({
            let files = Files { exe: Build::Running, old, staged: Build::Downloaded };
            let (after, at) = swapped(files, Step::MoveAside, outcomes);
            &&& at is Done ==> after.exe is Downloaded && after.old is Running
            &&& at is Failed ==> after.exe is Running && after.staged is Downloaded
        }),
{
    let files = Files { exe: Build::Running, old, staged: Build::Downloaded };
    steps_keep_order(files, Step::MoveAside, outcomes);
}

proof fn over_stays_over(files: Files, step: Step, outcomes: Seq<bool>)
    requires
        step is Done || step is Failed,
    ensures
        swapped(files, step, outcomes).1 == step,
    decreases outcomes.len(),
{
    if outcomes.len() > 0 {
        over_stays_over(
            done(files, step, outcomes[0]),
            following(step, outcomes[0]),
            outcomes.skip(1),
        );
    }
}

/// A swap is over after five steps at most.
pub proof fn a_swap_ends(files: Files, outcomes: Seq<bool>)
    requires
        outcomes.len() >= 5,
    ensures
        ({
            let at = swapped(files, Step::MoveAside, outcomes).1;
            at is Done || at is Failed
        }),
{
    reveal_with_fuel(swapped, 6);
    let s0 = Step::MoveAside;
    let s1 = following(s0, outcomes[0]);
    let s2 = following(s1, outcomes[1]);
    let s3 = following(s2, outcomes[2]);
    let s4 = following(s3, outcomes[3]);
    let s5 = following(s4, outcomes[4]);
    assert(s5 is Done || s5 is Failed);
    let o1 = outcomes.skip(1);
    let o2 = o1.skip(1);
    let o3 = o2.skip(1);
    let o4 = o3.skip(1);
    let f1 = done(files, s0, outcomes[0]);
    let f2 = done(f1, s1, outcomes[1]);
    let f3 = done(f2, s2, outcomes[2]);
    let f4 = done(f3, s3, outcomes[3]);
    let f5 = done(f4, s4, outcomes[4]);
    assert(o1[0] == outcomes[1] && o2[0] == outcomes[2] && o3[0] == outcomes[3] && o4[0]
        == outcomes[4]);
    over_stays_over(f5, s5, o4.skip(1));
}

} // verus!
