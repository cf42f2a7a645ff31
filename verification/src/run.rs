//! The driver's settings: timing records, the renaming mode, and the stages that one
//! invocation runs.

use vstd::prelude::*;

verus! {

/// Timings of the driver's stages, in milliseconds, with an option to log each one.
pub struct Trace {
    log: bool,
    points: Vec<(usize, String)>,
}

impl Trace {
    /// Whether each measured stage is logged.
    pub closed spec fn logs(&self) -> bool {
        self.log
    }

    /// The recorded (milliseconds, stage name) pairs, oldest first.
    pub closed spec fn recorded(&self) -> Seq<(usize, Seq<char>)> {
        self.points@.map_values(|p: (usize, String)| (p.0, p.1@))
    }

    pub fn new(log: bool) -> (t: Trace)
        ensures
            t.logs() == log,
            t.recorded() == Seq::<(usize, Seq<char>)>::empty(),
    {
        let t = Trace { log: log, points: Vec::new() };
        assert(t.recorded() =~= Seq::<(usize, Seq<char>)>::empty());
        t
    }

    /// Records that the stage `msg` took `time` milliseconds; says whether the stage
    /// should be logged.
    pub fn record(&mut self, msg: &str, time: usize) -> (should_log: bool)
        ensures
            should_log == old(self).logs(),
            final(self).logs() == old(self).logs(),
            final(self).recorded() == old(self).recorded().push((time, msg@)),
    {
        let name = msg.to_owned();
        self.points.push((time, name));
        assert(self.recorded() =~= old(self).recorded().push((time, msg@)));
        self.log
    }

    /// The number of recorded stages.
    pub fn len(&self) -> (n: usize)
        ensures
            n == self.recorded().len(),
    {
        self.points.len()
    }
}

/// The whole milliseconds in a duration of `secs` seconds and `subsec_nanos` nanoseconds.
pub fn elapsed_millis(secs: u64, subsec_nanos: u32) -> (ms: u64)
    requires
        secs * 1000 + subsec_nanos / 1_000_000 <= u64::MAX,
    ensures
        ms == secs * 1000 + subsec_nanos / 1_000_000,
{
    secs * 1000 + (subsec_nanos as u64 / 1_000_000)
}

/// Whether identifiers are renamed: not at all, to short names, or to names that keep
/// the source name for debugging.
#[derive(PartialEq, Eq, Structural)]
pub enum Rename {
    Off,
    On,
    Debug,
}

/// One run of the driver: the file's name and bytes, whether the output is formatted
/// (which turns off automatic semicolon insertion in the writer), and the renaming mode.
pub struct Invocation {
    pub filename: String,
    pub input: Vec<u8>,
    pub fmt: bool,
    pub rename: Rename,
}

/// The stages of a run, in order.
#[derive(PartialEq, Eq, Structural, Clone, Copy, Debug)]
pub enum Stage {
    Parse,
    Bind,
    Eval,
    /// Renaming, in debug mode or not.
    Rename(bool),
    Deblock,
    /// Writing the output, with automatic semicolon insertion turned off or not.
    Write(bool),
}

/// The stages that an invocation with renaming mode `rename` and formatting `fmt` runs:
/// parse, bind, eval, then renaming unless it is off, then deblock and write.
pub open spec fn stage_plan(rename: Rename, fmt: bool) -> Seq<Stage> {
    seq![Stage::Parse, Stage::Bind, Stage::Eval] + (if rename == Rename::Off {
        Seq::empty()
    } else {
        seq![Stage::Rename(rename == Rename::Debug)]
    }) + seq![Stage::Deblock, Stage::Write(fmt)]
}

/// The stages that `inv` runs.
pub fn stages(inv: &Invocation) -> (plan: Vec<Stage>)
    ensures
        plan@ == stage_plan(inv.rename, inv.fmt),
{
    let mut plan: Vec<Stage> = Vec::new();
    plan.push(Stage::Parse);
    plan.push(Stage::Bind);
    plan.push(Stage::Eval);
    let renames = match inv.rename {
        Rename::Off => false,
        _ => true,
    };
    if renames {
        let debug = match inv.rename {
            Rename::Debug => true,
            _ => false,
        };
        plan.push(Stage::Rename(debug));
    }
    plan.push(Stage::Deblock);
    plan.push(Stage::Write(inv.fmt));
    assert(plan@ =~= stage_plan(inv.rename, inv.fmt));
    plan
}

/// The stage that runs after `done` in a run with renaming mode `rename` and formatting
/// `fmt`, given whether `done` succeeded: a failed parse ends the run (with the parse
/// error), and so does the write.
pub open spec fn stage_after(rename: Rename, fmt: bool, done: Stage, ok: bool) -> Option<Stage> {
    match done {
        Stage::Parse => if ok {
            Some(Stage::Bind)
        } else {
            None
        },
        Stage::Bind => Some(Stage::Eval),
        Stage::Eval => if rename == Rename::Off {
            Some(Stage::Deblock)
        } else {
            Some(Stage::Rename(rename == Rename::Debug))
        },
        Stage::Rename(_) => Some(Stage::Deblock),
        Stage::Deblock => Some(Stage::Write(fmt)),
        Stage::Write(_) => None,
    }
}

/// The stage that `inv` runs after `done`, given whether `done` succeeded; `None` when the
/// run is over.
pub fn next_stage(inv: &Invocation, done: Stage, ok: bool) -> (next: Option<Stage>)
    ensures
        next == stage_after(inv.rename, inv.fmt, done, ok),
{
    match done {
        Stage::Parse => if ok {
            Some(Stage::Bind)
        } else {
            None
        },
        Stage::Bind => Some(Stage::Eval),
        Stage::Eval => match inv.rename {
            Rename::Off => Some(Stage::Deblock),
            Rename::On => Some(Stage::Rename(false)),
            Rename::Debug => Some(Stage::Rename(true)),
        },
        Stage::Rename(_) => Some(Stage::Deblock),
        Stage::Deblock => Some(Stage::Write(inv.fmt)),
        Stage::Write(_) => None,
    }
}

/// Stepping from stage to stage with every stage succeeding runs exactly the planned
/// stages in order, and stops after the last.
pub proof fn law_steps_follow_plan(rename: Rename, fmt: bool, i: int)
    requires
        0 <= i < stage_plan(rename, fmt).len(),
    ensures
        stage_after(rename, fmt, stage_plan(rename, fmt)[i], true) == if i + 1 < stage_plan(
            rename,
            fmt,
        ).len() {
            Some(stage_plan(rename, fmt)[i + 1])
        } else {
            None::<Stage>
        },
{
    let plan = stage_plan(rename, fmt);
    if rename == Rename::Off {
        assert(plan =~= seq![Stage::Parse, Stage::Bind, Stage::Eval, Stage::Deblock, Stage::Write(fmt)]);
    } else {
        assert(plan =~= seq![
            Stage::Parse,
            Stage::Bind,
            Stage::Eval,
            Stage::Rename(rename == Rename::Debug),
            Stage::Deblock,
            Stage::Write(fmt),
        ]);
    }
}

/// The plan starts with parsing, and a failed parse stops the run there.
pub proof fn law_failed_parse_stops(rename: Rename, fmt: bool)
    ensures
        stage_plan(rename, fmt)[0] == Stage::Parse,
        stage_after(rename, fmt, Stage::Parse, false) is None,
{
}

impl Stage {
    /// The name under which the stage's time is recorded.
    pub fn label(&self) -> (name: &'static str)
        ensures
            *self == Stage::Parse ==> name@ == "parse"@,
            *self == Stage::Bind ==> name@ == "bind"@,
            *self == Stage::Eval ==> name@ == "eval"@,
            *self is Rename ==> name@ == "rename"@,
            *self == Stage::Deblock ==> name@ == "deblock"@,
            *self is Write ==> name@ == "write"@,
    {
        match *self {
            Stage::Parse => "parse",
            Stage::Bind => "bind",
            Stage::Eval => "eval",
            Stage::Rename(_) => "rename",
            Stage::Deblock => "deblock",
            Stage::Write(_) => "write",
        }
    }
}

} // verus!
