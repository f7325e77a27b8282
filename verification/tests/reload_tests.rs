use ayiou::engine::{candidate_mismatch_message, not_reloadable_message, reload_steps, ReloadSteps};
use ayiou::plugin::{ApplyConfigOutcome, HandleOutcome};

#[test]
fn a_plugin_without_a_reloader_is_refused() {
    assert_eq!(reload_steps(false, true, true, true), ReloadSteps::NotReloadable);
    assert_eq!(reload_steps(false, false, false, false), ReloadSteps::NotReloadable);
    assert_eq!(not_reloadable_message("echo"), "plugin `echo` is not reloadable");
}

#[test]
fn a_candidate_for_another_instance_is_refused() {
    assert_eq!(reload_steps(true, false, true, true), ReloadSteps::CandidateMismatch);
    assert_eq!(
        candidate_mismatch_message("other", "echo"),
        "reload candidate instance `other` does not match `echo`"
    );
}

#[test]
fn a_swap_reinitialises_enabled_and_restarts_running_instances() {
    assert_eq!(reload_steps(true, true, true, true), ReloadSteps::Swap { init: true, start: true });
    assert_eq!(reload_steps(true, true, true, false), ReloadSteps::Swap { init: true, start: false });
    assert_eq!(reload_steps(true, true, false, true), ReloadSteps::Swap { init: false, start: false });
    assert_eq!(reload_steps(true, true, false, false), ReloadSteps::Swap { init: false, start: false });
}

#[test]
fn default_outcomes_are_the_neutral_ones() {
    assert_eq!(ApplyConfigOutcome::default(), ApplyConfigOutcome::skipped());
    assert_eq!(HandleOutcome::default(), HandleOutcome::pass());
    assert_eq!(HandleOutcome::pass(), HandleOutcome::from_block(false));
}
