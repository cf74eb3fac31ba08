use semantic_rs::step::{PluginStep, STEP_COUNT};

#[test]
fn steps_are_listed_in_pipeline_order() {
    let all = PluginStep::all();
    assert_eq!(
        all,
        vec![
            PluginStep::PreFlight,
            PluginStep::GetLastRelease,
            PluginStep::DeriveNextVersion,
            PluginStep::GenerateNotes,
            PluginStep::Prepare,
            PluginStep::VerifyRelease,
            PluginStep::Commit,
            PluginStep::Publish,
            PluginStep::Notify,
        ]
    );
    assert_eq!(all.len(), STEP_COUNT);
}

#[test]
fn index_and_step_correspond() {
    for (i, step) in PluginStep::all().into_iter().enumerate() {
        assert_eq!(step.index(), i);
        assert_eq!(PluginStep::from_index(i), Some(step));
    }
    assert_eq!(PluginStep::from_index(9), None);
    assert_eq!(PluginStep::from_index(usize::MAX), None);
    assert_eq!(PluginStep::Prepare.index(), 4);
}

#[test]
fn steps_up_to_the_verification_are_dry_run_safe() {
    let safe: Vec<PluginStep> = PluginStep::all().into_iter().filter(|s| s.is_dry()).collect();
    assert_eq!(
        safe,
        vec![
            PluginStep::PreFlight,
            PluginStep::GetLastRelease,
            PluginStep::DeriveNextVersion,
            PluginStep::GenerateNotes,
            PluginStep::Prepare,
            PluginStep::VerifyRelease,
        ]
    );
}

#[test]
fn dry_run_skips_exactly_the_unsafe_steps() {
    let skipped = PluginStep::skipped_in_dry_run();
    assert_eq!(skipped, vec![PluginStep::Commit, PluginStep::Publish, PluginStep::Notify]);
    for step in PluginStep::all() {
        assert_eq!(skipped.contains(&step), !step.is_dry());
    }
}

#[test]
fn only_the_last_release_is_a_singleton_step() {
    let singletons: Vec<PluginStep> =
        PluginStep::all().into_iter().filter(|s| s.is_singleton()).collect();
    assert_eq!(singletons, vec![PluginStep::GetLastRelease]);
}

#[test]
fn steps_have_their_configuration_names() {
    let names: Vec<&str> = PluginStep::all().iter().map(|s| s.as_str()).collect();
    assert_eq!(
        names,
        vec![
            "pre_flight",
            "get_last_release",
            "derive_next_version",
            "generate_notes",
            "prepare",
            "verify_release",
            "commit",
            "publish",
            "notify",
        ]
    );
}
