use heaven::target::{
    build_layout, choose_target, expand_target_dir, summarize_changes, supported_targets,
    BuildLayout, ChangeSummary, Target, TargetChoice,
};

fn strings(items: &[&str]) -> Vec<String> {
    items.iter().map(|s| s.to_string()).collect()
}

#[test]
fn target_names_round_trip() {
    assert_eq!(Target::Web.name(), "web");
    assert_eq!(Target::Node.name(), "node");
    assert_eq!(Target::parse("web"), Some(Target::Web));
    assert_eq!(Target::parse("node"), Some(Target::Node));
    assert_eq!(Target::parse(Target::Web.name()), Some(Target::Web));
}

#[test]
fn unsupported_target_names() {
    assert_eq!(Target::parse("Web"), None);
    assert_eq!(Target::parse("wasm"), None);
    assert_eq!(Target::parse(""), None);
    assert_eq!(Target::parse("web "), None);
}

#[test]
fn default_target_dir_expands() {
    assert_eq!(expand_target_dir("target/app/{target}", "web"), "target/app/web");
    assert_eq!(expand_target_dir("target/app/{target}", "node"), "target/app/node");
    assert_eq!(expand_target_dir("out", "node"), "out");
    assert_eq!(expand_target_dir("{target}/{target}", "web"), "web/web");
}

#[test]
fn supported_targets_keeps_order_and_filters() {
    let names = strings(&["src", "node", "web", "lib", "target", "node"]);
    assert_eq!(supported_targets(&names), strings(&["node", "web", "node"]));
    assert_eq!(supported_targets(&strings(&["main", "lib"])), Vec::<String>::new());
    assert_eq!(supported_targets(&Vec::new()), Vec::<String>::new());
}

#[test]
fn requested_target_wins() {
    let choice = choose_target(&Some("wasm".to_string()), &strings(&["web"]));
    assert!(matches!(choice, TargetChoice::Requested(t) if t == "wasm"));
}

#[test]
fn target_from_project() {
    assert!(matches!(choose_target(&None, &Vec::new()), TargetChoice::NoneAvailable));
    assert!(matches!(choose_target(&None, &strings(&["node"])), TargetChoice::Only(t) if t == "node"));
    assert!(matches!(
        choose_target(&None, &strings(&["web", "node"])),
        TargetChoice::Ask { default } if default == "web"
    ));
}

#[test]
fn web_layout() {
    match build_layout(Target::Web, "target/app/{target}") {
        BuildLayout::Web { target_dir, lib_dir, copy_dest } => {
            assert_eq!(target_dir, "target/app/web");
            assert_eq!(lib_dir, "target/app/web/assets/lib");
            assert_eq!(copy_dest, "target/app/web/");
        }
        _ => panic!("expected a web layout"),
    }
}

#[test]
fn node_layout() {
    match build_layout(Target::Node, "dist/{target}") {
        BuildLayout::Node { target_dir, wasm_dest } => {
            assert_eq!(target_dir, "dist/node");
            assert_eq!(wasm_dest, "dist/node/assets/app.wasm");
        }
        _ => panic!("expected a node layout"),
    }
}

#[test]
fn change_summaries() {
    assert!(matches!(summarize_changes(&strings(&["main/a.mbt"])), ChangeSummary::One(p) if p == "main/a.mbt"));
    assert!(matches!(summarize_changes(&strings(&["a", "b", "c"])), ChangeSummary::Many(3)));
    assert!(matches!(summarize_changes(&Vec::new()), ChangeSummary::Many(0)));
}
