use pi_grok::extension_args::{disable_all_extensions, extract_extension_paths, remove_extension_path};
use pi_grok::self_heal::{HealAction, HealError, SelfHeal};

fn args(list: &[&str]) -> Vec<String> {
    list.iter().map(|s| s.to_string()).collect()
}

/// Run a self-heal against a boot rule, returning the final action and the
/// culprits announced.
fn run(pi_args: Vec<String>, boots: impl Fn(&[String]) -> bool) -> (HealAction, Vec<Option<String>>) {
    let (mut heal, mut action) = SelfHeal::start(pi_args);
    let mut announced = Vec::new();
    for _ in 0..100 {
        action = match action {
            HealAction::Probe(a) => heal.advance(boots(&a)),
            HealAction::Relaunch { culprit, args } => {
                announced.push(culprit);
                heal.advance(boots(&args))
            }
            done => return (done, announced),
        };
    }
    panic!("self-heal did not finish");
}

fn crashes_with(bad: &'static str) -> impl Fn(&[String]) -> bool {
    move |a: &[String]| !a.iter().any(|x| x == bad)
}

#[test]
fn booting_args_are_kept() {
    let pi = args(&["--mode", "rpc", "--extension", "a.ts"]);
    let (action, announced) = run(pi.clone(), |_| true);
    assert!(matches!(action, HealAction::Done(ref a) if *a == pi));
    assert!(announced.is_empty());
}

#[test]
fn the_culprit_is_removed_and_pi_relaunched() {
    let pi = args(&["--extension", "a.ts", "--extension", "b.ts", "--extension", "c.ts", "-x"]);
    let (action, announced) = run(pi.clone(), crashes_with("b.ts"));
    assert_eq!(announced, vec![Some("b.ts".to_string())]);
    match action {
        HealAction::Done(a) => assert_eq!(a, args(&["--extension", "a.ts", "--extension", "c.ts", "-x"])),
        other => panic!("expected done, got {other:?}"),
    }
}

#[test]
fn a_combination_conflict_disables_every_extension() {
    let pi = args(&["--extension", "a.ts", "--extension", "b.ts"]);
    // Any two extensions together crash Pi; each alone boots.
    let conflict = |a: &[String]| a.iter().filter(|x| x.ends_with(".ts")).count() < 2;
    let (action, announced) = run(pi.clone(), conflict);
    assert_eq!(announced, vec![None]);
    match action {
        HealAction::Done(a) => assert_eq!(a, args(&["--no-extensions"])),
        other => panic!("expected done, got {other:?}"),
    }
}

#[test]
fn failures_that_extensions_do_not_explain_give_up() {
    let (action, _) = run(args(&["--mode", "rpc"]), |_| false);
    assert!(matches!(action, HealAction::Fail(HealError::NoExtensions)));
    let (action, _) = run(args(&["--extension", "a.ts"]), |_| false);
    assert!(matches!(action, HealAction::Fail(HealError::NotExtensionProblem)));
    assert!(HealError::NotExtensionProblem.message().contains("not an extension problem"));
    // The culprit is found, but Pi still fails without it.
    let (action, _) = run(args(&["--extension", "a.ts", "-y"]), |a: &[String]| {
        !a.iter().any(|x| x == "a.ts") && a.iter().any(|x| x == "--no-extensions")
    });
    assert!(matches!(action, HealAction::Fail(HealError::RelaunchFailed)));
}

#[test]
fn disabling_extensions_is_final() {
    let pi = args(&["--extension", "a.ts", "-x", "--extension", "b.ts"]);
    let once = disable_all_extensions(&pi);
    assert!(extract_extension_paths(&once).is_empty());
    assert_eq!(disable_all_extensions(&once), once);
}

#[test]
fn removing_a_path_drops_only_that_path() {
    let pi = args(&["--extension", "a.ts", "--extension", "b.ts", "--extension", "a.ts", "-x"]);
    let removed = remove_extension_path(&pi, "a.ts");
    assert_eq!(extract_extension_paths(&removed), args(&["b.ts"]));
}
