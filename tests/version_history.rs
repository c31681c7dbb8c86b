use scenario_engine::upgrade::{upgrade_function_selector, upgrade_plan, upgrade_post_processing, PostProcessing, UpgradeAction};
use scenario_engine::version::{
    all_versions, find_version_str, is_sorted, is_template_with_autogenerated_json,
    is_template_with_autogenerated_wasm, template_versions_with_autogenerated_json,
    template_versions_with_autogenerated_wasm, validate_template_tag, versions, versions_iter,
    FrameworkVersion, VersionIterator,
};

fn v(s: &str) -> FrameworkVersion {
    FrameworkVersion::from_string_template(s).unwrap()
}

#[test]
fn template_versions_test() {
    assert!(validate_template_tag("0.43.0"));
    assert!(!validate_template_tag("0.42.0"));
    assert!(!validate_template_tag("0.47.0"));
}

#[test]
fn check_string_eq() {
    assert_eq!(versions()[0].version_string(), "0.28.0")
}

#[test]
fn template_versions_with_autogenerated_wasm_test() {
    assert_eq!(template_versions_with_autogenerated_wasm()[0].version_string(), "0.45.0");

    assert!(is_template_with_autogenerated_wasm(v("0.45.0")));
    assert!(!is_template_with_autogenerated_wasm(v("0.44.0")));
}

#[test]
fn template_versions_with_autogenerated_json_test() {
    assert_eq!(template_versions_with_autogenerated_json()[0].version_string(), "0.44.0");

    assert!(is_template_with_autogenerated_json(v("0.44.0")));
    assert!(!is_template_with_autogenerated_json(v("0.43.0")));
}

#[test]
fn framework_version_test() {
    assert_eq!(is_sorted(&all_versions()), true);
}

#[test]
fn tag_parsing_rejects_malformed_tags() {
    assert_eq!(FrameworkVersion::from_string_template("0.43"), None);
    assert_eq!(FrameworkVersion::from_string_template("0..1"), None);
    assert_eq!(FrameworkVersion::from_string_template("0.43.0.1"), None);
    assert_eq!(FrameworkVersion::from_string_template("v0.43.0"), None);
    assert_eq!(FrameworkVersion::from_string_template("0.43.99999999999999999999"), None);
    assert_eq!(FrameworkVersion::from_string_template("1.2.3"), Some(FrameworkVersion::new(1, 2, 3)));
    assert!(!validate_template_tag("not a version"));
    assert!(validate_template_tag("0.45.2"));
    assert!(!validate_template_tag("0.45.3"));
}

#[test]
fn find_version_by_text() {
    assert_eq!(find_version_str("0.39.8"), Some(FrameworkVersion::new(0, 39, 8)));
    assert_eq!(find_version_str("0.39.9"), None);
    assert_eq!(find_version_str("0.039.8"), None);
}

#[test]
fn template_version_lists() {
    let wasm: Vec<String> = template_versions_with_autogenerated_wasm().iter().map(|v| v.version_string()).collect();
    assert_eq!(wasm, vec!["0.45.0", "0.45.2"]);
    let json: Vec<String> = template_versions_with_autogenerated_json().iter().map(|v| v.version_string()).collect();
    assert_eq!(json, vec!["0.44.0", "0.45.0", "0.45.2"]);
}

#[test]
fn iteration_stops_at_third_entry() {
    let list = vec![v("1.0.0"), v("1.1.0"), v("1.2.0"), v("1.3.0"), v("2.0.0")];
    let mut it = VersionIterator::over(list, v("1.2.0"));
    assert_eq!(it.next(), Some((v("1.0.0"), v("1.1.0"))));
    assert_eq!(it.next(), Some((v("1.1.0"), v("1.2.0"))));
    assert_eq!(it.next(), None);
    assert_eq!(it.next(), None);
}

#[test]
fn iteration_over_known_versions() {
    let mut it = versions_iter(v("0.29.2"));
    assert_eq!(it.next(), Some((v("0.28.0"), v("0.29.0"))));
    assert_eq!(it.next(), Some((v("0.29.0"), v("0.29.2"))));
    assert_eq!(it.next(), None);

    let mut all = versions_iter(v("9.9.9"));
    let mut n = 0;
    while all.next().is_some() {
        n += 1;
    }
    assert_eq!(n, versions().len() - 1);
}

#[test]
fn upgrade_selection() {
    assert_eq!(upgrade_function_selector(v("0.31.0")), UpgradeAction::UpgradeTo31);
    assert_eq!(upgrade_function_selector(v("0.45.0")), UpgradeAction::UpgradeTo45);
    assert_eq!(upgrade_function_selector(v("0.44.0")), UpgradeAction::VersionBump);
    assert_eq!(upgrade_post_processing(v("0.44.0")), PostProcessing::CargoCheck);
    assert_eq!(upgrade_post_processing(v("0.39.0")), PostProcessing::MilestoneThenCheck);
    assert_eq!(upgrade_post_processing(v("0.39.1")), PostProcessing::Nothing);
}

#[test]
fn upgrade_plan_up_to_target() {
    let plan = upgrade_plan(v("0.30.0"));
    assert_eq!(plan.len(), 4);
    assert_eq!(plan[0].from, v("0.28.0"));
    assert_eq!(plan[3].to, v("0.30.0"));
    assert_eq!(plan[3].post, PostProcessing::CargoCheck);
    assert_eq!(upgrade_plan(v("0.28.0")).len(), 0);
}
