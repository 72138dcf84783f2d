use gitops_bootstrap::helm::{edit_outcome, helm_repo_url, helm_show_values_args, text_is_blank, EditOutcome};
use gitops_bootstrap::yaml::{diff_yaml, values_equal, YamlEntry, YamlNumber, YamlValue};

fn s(t: &str) -> YamlValue {
    YamlValue::String(t.to_string())
}

fn num(n: u64) -> YamlValue {
    YamlValue::Number(YamlNumber::PosInt(n))
}

fn map(entries: Vec<(&str, YamlValue)>) -> YamlValue {
    YamlValue::Mapping(entries.into_iter().map(|(k, v)| YamlEntry { key: s(k), value: v }).collect())
}

#[test]
fn diff_of_equal_values_is_none() {
    let v = map(vec![("a", num(1)), ("b", map(vec![("c", s("x"))]))]);
    assert!(diff_yaml(&v, &v).is_none());
}

#[test]
fn diff_keeps_only_changed_and_new_keys() {
    let base = map(vec![("replicas", num(1)), ("image", map(vec![("tag", s("1.0")), ("pull", s("Always"))]))]);
    let new = map(vec![
        ("replicas", num(1)),
        ("image", map(vec![("tag", s("2.0")), ("pull", s("Always"))])),
        ("extra", YamlValue::Bool(true)),
    ]);
    let d = diff_yaml(&base, &new).unwrap();
    let expected = map(vec![("image", map(vec![("tag", s("2.0"))])), ("extra", YamlValue::Bool(true))]);
    assert!(values_equal(&d, &expected));
}

#[test]
fn diff_of_non_mappings_is_the_new_value() {
    assert!(values_equal(&diff_yaml(&num(1), &num(2)).unwrap(), &num(2)));
    assert!(diff_yaml(&s("a"), &s("a")).is_none());
    let seq = YamlValue::Sequence(vec![num(1)]);
    assert!(values_equal(&diff_yaml(&map(vec![]), &seq).unwrap(), &seq));
}

#[test]
fn numbers_compare_as_serde_yaml_does() {
    let nan1 = YamlValue::Number(YamlNumber::Float(f64::NAN.to_bits()));
    let nan2 = YamlValue::Number(YamlNumber::Float(0x7ff8_0000_0000_0001));
    assert!(values_equal(&nan1, &nan2));
    let pz = YamlValue::Number(YamlNumber::Float(0.0f64.to_bits()));
    let nz = YamlValue::Number(YamlNumber::Float((-0.0f64).to_bits()));
    assert!(values_equal(&pz, &nz));
    assert!(!values_equal(&num(1), &YamlValue::Number(YamlNumber::Float(1.0f64.to_bits()))));
}

#[test]
fn repo_url_is_read_from_spec() {
    let repo = map(vec![("spec", map(vec![("url", s("https://charts.example.com"))]))]);
    assert_eq!(helm_repo_url(&repo).unwrap(), "https://charts.example.com");
    let bad = map(vec![("spec", map(vec![]))]);
    assert_eq!(helm_repo_url(&bad).unwrap_err(), "Could not find spec.url in helm-repo.yaml");
}

#[test]
fn show_values_args_follow_the_chart() {
    let release = map(vec![(
        "spec",
        map(vec![("chart", map(vec![("spec", map(vec![("chart", s("redis")), ("version", s("18.1.0"))]))]))]),
    )]);
    let args = helm_show_values_args(&release, "https://charts").unwrap();
    assert_eq!(args, vec!["show", "values", "redis", "--repo", "https://charts", "--version", "18.1.0"]);
    let no_version = map(vec![("spec", map(vec![("chart", map(vec![("spec", map(vec![("chart", s("redis"))]))]))]))]);
    assert_eq!(helm_show_values_args(&no_version, "u").unwrap(), vec!["show", "values", "redis", "--repo", "u"]);
    let no_spec = map(vec![("spec", map(vec![]))]);
    assert_eq!(helm_show_values_args(&no_spec, "u").unwrap_err(), "Could not find spec.chart.spec in helm-release.yaml");
    let no_chart = map(vec![("spec", map(vec![("chart", map(vec![("spec", map(vec![]))]))]))]);
    assert_eq!(helm_show_values_args(&no_chart, "u").unwrap_err(), "Could not find chart name");
}

#[test]
fn editing_outcomes() {
    assert!(text_is_blank(" \n\t"));
    assert!(matches!(edit_outcome("a: 1", None, "  \n", Ok(map(vec![]))), EditOutcome::Cancelled));
    let same = edit_outcome("a: 1", Some(map(vec![("a", num(1))])), "a: 1", Ok(map(vec![("a", num(1))])));
    assert!(matches!(same, EditOutcome::Unchanged));
    let changed = edit_outcome("a: 1", Some(map(vec![("a", num(1))])), "a: 2", Ok(map(vec![("a", num(2))])));
    match changed {
        EditOutcome::Changed(v) => assert!(values_equal(&v, &map(vec![("a", num(2))]))),
        _ => panic!("expected a change"),
    }
    let from_blank = edit_outcome("", None, "b: 1", Ok(map(vec![("b", num(1))])));
    assert!(matches!(from_blank, EditOutcome::Changed(_)));
    match edit_outcome("", None, "b: [", Err("bad".to_string())) {
        EditOutcome::Retry(t) => assert_eq!(
            t,
            "\n# ERROR: Invalid YAML: bad\n# Please fix the errors and save, or clear the file to cancel.\nb: ["
        ),
        _ => panic!("expected a retry"),
    }
}
