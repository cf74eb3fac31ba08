//! The steps of a release pipeline, in the order in which they run.

use vstd::prelude::*;

verus! {

/// A phase of the release pipeline.
///
/// The variants are listed in execution order.
#[derive(Clone, Copy, Debug, PartialEq, Eq, Hash, Structural)]
pub enum PluginStep {
    PreFlight,
    GetLastRelease,
    DeriveNextVersion,
    GenerateNotes,
    Prepare,
    VerifyRelease,
    Commit,
    Publish,
    Notify,
}

/// Number of pipeline steps.
pub const STEP_COUNT: usize = 9;

/// The step at position `i` of the pipeline; positions past the end name the last step.
pub open spec fn step_at(i: int) -> PluginStep {
    if i <= 0 {
        PluginStep::PreFlight
    } else if i == 1 {
        PluginStep::GetLastRelease
    } else if i == 2 {
        PluginStep::DeriveNextVersion
    } else if i == 3 {
        PluginStep::GenerateNotes
    } else if i == 4 {
        PluginStep::Prepare
    } else if i == 5 {
        PluginStep::VerifyRelease
    } else if i == 6 {
        PluginStep::Commit
    } else if i == 7 {
        PluginStep::Publish
    } else {
        PluginStep::Notify
    }
}

/// All steps in pipeline order.
pub open spec fn all_steps() -> Seq<PluginStep> {
    Seq::new(STEP_COUNT as nat, |i: int| step_at(i))
}

impl PluginStep {
    /// Position of the step in the pipeline, starting at zero.
    pub open spec fn position(self) -> int {
        match self {
            PluginStep::PreFlight => 0,
            PluginStep::GetLastRelease => 1,
            PluginStep::DeriveNextVersion => 2,
            PluginStep::GenerateNotes => 3,
            PluginStep::Prepare => 4,
            PluginStep::VerifyRelease => 5,
            PluginStep::Commit => 6,
            PluginStep::Publish => 7,
            PluginStep::Notify => 8,
        }
    }

    /// A step is safe in a dry run when it has no effect outside the work tree:
    /// everything up to and including release verification.
    pub open spec fn dry_run_safe(self) -> bool {
        self.position() <= PluginStep::VerifyRelease.position()
    }

    /// A singleton step is served by exactly one plugin.
    pub open spec fn singleton(self) -> bool {
        self == PluginStep::GetLastRelease
    }

    /// The configuration name of the step.
    pub open spec fn name(self) -> Seq<char> {
        match self {
            PluginStep::PreFlight => "pre_flight"@,
            PluginStep::GetLastRelease => "get_last_release"@,
            PluginStep::DeriveNextVersion => "derive_next_version"@,
            PluginStep::GenerateNotes => "generate_notes"@,
            PluginStep::Prepare => "prepare"@,
            PluginStep::VerifyRelease => "verify_release"@,
            PluginStep::Commit => "commit"@,
            PluginStep::Publish => "publish"@,
            PluginStep::Notify => "notify"@,
        }
    }

    /// Position of the step in the pipeline.
    pub fn index(&self) -> (r: usize)
        ensures
            r == self.position(),
            r < STEP_COUNT,
            step_at(r as int) == *self,
    {
        match self {
            PluginStep::PreFlight => 0,
            PluginStep::GetLastRelease => 1,
            PluginStep::DeriveNextVersion => 2,
            PluginStep::GenerateNotes => 3,
            PluginStep::Prepare => 4,
            PluginStep::VerifyRelease => 5,
            PluginStep::Commit => 6,
            PluginStep::Publish => 7,
            PluginStep::Notify => 8,
        }
    }

    /// The step at a position, if the position is inside the pipeline.
    pub fn from_index(i: usize) -> (r: Option<PluginStep>)
        ensures
            i < STEP_COUNT ==> r == Some(step_at(i as int)),
            i >= STEP_COUNT ==> r is None,
    {
        if i == 0 {
            Some(PluginStep::PreFlight)
        } else if i == 1 {
            Some(PluginStep::GetLastRelease)
        } else if i == 2 {
            Some(PluginStep::DeriveNextVersion)
        } else if i == 3 {
            Some(PluginStep::GenerateNotes)
        } else if i == 4 {
            Some(PluginStep::Prepare)
        } else if i == 5 {
            Some(PluginStep::VerifyRelease)
        } else if i == 6 {
            Some(PluginStep::Commit)
        } else if i == 7 {
            Some(PluginStep::Publish)
        } else if i == 8 {
            Some(PluginStep::Notify)
        } else {
            None
        }
    }

    /// Whether the step may run in a dry run.
    pub fn is_dry(&self) -> (r: bool)
        ensures
            r == self.dry_run_safe(),
    {
        match self {
            PluginStep::Commit | PluginStep::Publish | PluginStep::Notify => false,
            _ => true,
        }
    }

    /// Whether the step must be served by exactly one plugin.
    pub fn is_singleton(&self) -> (r: bool)
        ensures
            r == self.singleton(),
    {
        match self {
            PluginStep::GetLastRelease => true,
            _ => false,
        }
    }

    /// The configuration name of the step.
    pub fn as_str(&self) -> (r: &'static str)
        ensures
            r@ == self.name(),
    {
        match self {
            PluginStep::PreFlight => "pre_flight",
            PluginStep::GetLastRelease => "get_last_release",
            PluginStep::DeriveNextVersion => "derive_next_version",
            PluginStep::GenerateNotes => "generate_notes",
            PluginStep::Prepare => "prepare",
            PluginStep::VerifyRelease => "verify_release",
            PluginStep::Commit => "commit",
            PluginStep::Publish => "publish",
            PluginStep::Notify => "notify",
        }
    }

    /// The step with a configuration name, if the name is that of a step.
    pub fn from_name(name: &str) -> (r: Option<PluginStep>)
        ensures
            match r {
                Some(step) => step.name() == name@,
                None => forall|step: PluginStep| step.name() != name@,
            },
    {
        let wanted: String = name.to_owned();
        let mut i: usize = 0;
        while i < STEP_COUNT
            invariant
                i <= STEP_COUNT,
                wanted@ == name@,
                forall|j: int| 0 <= j < i ==> step_at(j).name() != name@,
            decreases STEP_COUNT - i,
        {
            match PluginStep::from_index(i) {
                Some(step) => {
                    let candidate: String = step.as_str().to_owned();
                    if candidate == wanted {
                        return Some(step);
                    }
                },
                None => {},
            }
            i = i + 1;
        }
        proof {
            assert forall|step: PluginStep| step.name() != name@ by {
                lemma_step_positions(step);
            }
        }
        None
    }

    /// All steps in pipeline order.
    pub fn all() -> (r: Vec<PluginStep>)
        ensures
            r@ == all_steps(),
    {
        let mut steps: Vec<PluginStep> = Vec::new();
        let mut i: usize = 0;
        while i < STEP_COUNT
            invariant
                i <= STEP_COUNT,
                steps@.len() == i,
                forall|j: int| 0 <= j < i ==> steps@[j] == step_at(j),
            decreases STEP_COUNT - i,
        {
            match PluginStep::from_index(i) {
                Some(step) => steps.push(step),
                None => {},
            }
            i = i + 1;
        }
        assert(steps@ =~= all_steps());
        steps
    }

    /// The steps that a dry run leaves out, in pipeline order.
    pub fn skipped_in_dry_run() -> (r: Vec<PluginStep>)
        ensures
            r@ == seq![PluginStep::Commit, PluginStep::Publish, PluginStep::Notify],
            forall|s: PluginStep| r@.contains(s) <==> !s.dry_run_safe(),
    {
        let mut steps: Vec<PluginStep> = Vec::new();
        steps.push(PluginStep::Commit);
        steps.push(PluginStep::Publish);
        steps.push(PluginStep::Notify);
        proof {
            let expected = seq![PluginStep::Commit, PluginStep::Publish, PluginStep::Notify];
            assert(steps@ =~= expected);
            assert(expected[0] == PluginStep::Commit);
            assert(expected[1] == PluginStep::Publish);
            assert(expected[2] == PluginStep::Notify);
            assert forall|s: PluginStep| expected.contains(s) <==> !s.dry_run_safe() by {
                if !s.dry_run_safe() {
                    assert(s == expected[0] || s == expected[1] || s == expected[2]);
                }
            }
        }
        steps
    }
}

/// Positions and steps correspond one to one.
pub proof fn lemma_step_positions(s: PluginStep)
    ensures
        0 <= s.position() < STEP_COUNT,
        step_at(s.position()) == s,
{
}

} // verus!
