use pi_grok::culprit_search::{BisectAction, CulpritSearch, ProbeSubset};
use pi_grok::extension_args::{
    disable_all_extensions, extract_extension_paths, probe_args, remove_extension_path,
};
use pi_grok::extension_identity::ext_identity_from_path;

fn args(items: &[&str]) -> Vec<String> {
    items.iter().map(|s| s.to_string()).collect()
}

#[test]
fn extension_pairs_are_extracted_in_order() {
    let a = args(&["--model", "x", "--extension", "/a.ts", "--extension", "/b.ts", "--extension"]);
    assert_eq!(extract_extension_paths(&a), args(&["/a.ts", "/b.ts"]));
    assert!(extract_extension_paths(&args(&["--no-extensions"])).is_empty());
}

#[test]
fn disabling_extensions_strips_pairs_and_adds_the_flag_once() {
    let a = args(&["--extension", "/a.ts", "--model", "x", "--extension", "/b.ts"]);
    assert_eq!(disable_all_extensions(&a), args(&["--model", "x", "--no-extensions"]));
    let b = args(&["--no-extensions", "--extension", "/a.ts"]);
    assert_eq!(disable_all_extensions(&b), args(&["--no-extensions"]));
}

#[test]
fn removing_one_extension_keeps_the_others() {
    let a = args(&["--extension", "/a.ts", "--extension", "/b.ts", "--extension", "/a.ts"]);
    assert_eq!(remove_extension_path(&a, "/a.ts"), args(&["--extension", "/b.ts"]));
    assert_eq!(remove_extension_path(&a, "/c.ts"), a);
}

#[test]
fn probe_arguments_append_one_pair_per_extension() {
    let base = args(&["--no-extensions"]);
    let subset = args(&["/a.ts", "/b.ts"]);
    assert_eq!(
        probe_args(&base, &subset),
        args(&["--no-extensions", "--extension", "/a.ts", "--extension", "/b.ts"])
    );
}

#[test]
fn extension_identity_is_privacy_safe() {
    assert_eq!(
        ext_identity_from_path("/home/u/.npm/node_modules/@scope/pkg/dist/index.js"),
        ("pkg".to_string(), "@scope/pkg".to_string())
    );
    assert_eq!(
        ext_identity_from_path(r"C:\Users\u\node_modules\plain\index.js"),
        ("plain".to_string(), "plain".to_string())
    );
    assert_eq!(
        ext_identity_from_path("/home/u/.pi/agent/extensions/todo/index.ts"),
        ("todo".to_string(), "todo".to_string())
    );
    assert_eq!(
        ext_identity_from_path("/home/u/.pi/agent/extensions/todo.ts"),
        ("todo".to_string(), "extensions".to_string())
    );
    assert_eq!(
        ext_identity_from_path("/tmp/work/tool.mjs"),
        ("tool".to_string(), "work".to_string())
    );
    assert_eq!(ext_identity_from_path("/.hidden/x.ts.ts"), ("x".to_string(), "x".to_string()));
    assert_eq!(ext_identity_from_path(""), ("unknown".to_string(), "unknown".to_string()));
}

fn run(count: usize, outcome: impl Fn(ProbeSubset) -> bool) -> (Option<usize>, usize) {
    let (mut search, mut action) = CulpritSearch::start(count);
    let mut probes = 0;
    loop {
        match action {
            BisectAction::Finished(result) => return (result, probes),
            BisectAction::Probe(subset) => {
                probes += 1;
                action = search.advance(outcome(subset));
            }
        }
    }
}

#[test]
fn bisection_isolates_a_single_crashing_extension() {
    for count in 1..9 {
        for culprit in 0..count {
            let (found, probes) = run(count, |p| match p {
                ProbeSubset::Prefix(k) => k <= culprit,
                ProbeSubset::Single(i) => i != culprit,
            });
            assert_eq!(found, Some(culprit));
            assert!(probes <= 2 * count + 2);
        }
    }
}

#[test]
fn bisection_reports_no_culprit_when_everything_boots_or_only_combinations_fail() {
    assert_eq!(run(4, |_| true).0, None);
    // Extensions 1 and 2 conflict only together.
    let (found, _) = run(4, |p| match p {
        ProbeSubset::Prefix(k) => k < 3,
        ProbeSubset::Single(_) => true,
    });
    assert_eq!(found, None);
    // The suspect passes alone, but another extension fails alone.
    let (found, _) = run(4, |p| match p {
        ProbeSubset::Prefix(k) => k < 3,
        ProbeSubset::Single(i) => i != 0,
    });
    assert_eq!(found, Some(0));
}
