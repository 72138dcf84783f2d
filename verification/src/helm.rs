use vstd::prelude::*;
use crate::collections::views;
use crate::text::{append_str, chars_of, string_from_chars, trim, trim_chars};
use crate::yaml::{YamlEntry, diff_yaml, opt_view, yaml_diff, YamlValue, YamlView, yaml_as_str, yaml_get, value_as_str, value_get};

verus! {

broadcast use vstd::string::group_string_axioms;

/// The value under `key` of an optional value.
pub open spec fn opt_get(v: Option<YamlView>, key: Seq<char>) -> Option<YamlView> {
    match v {
        Some(x) => yaml_get(x, key),
        None => None,
    }
}

/// The text of an optional value, if it is a string.
pub open spec fn opt_str(v: Option<YamlView>) -> Option<Seq<char>> {
    match v {
        Some(x) => yaml_as_str(x),
        None => None,
    }
}

/// The chart repository's URL that `helm-repo.yaml` (a HelmRepository) gives under
/// `spec.url`, or the error that the program reports when it is missing.
pub open spec fn spec_repo_url(repo: YamlView) -> Result<Seq<char>, Seq<char>> {
    match opt_str(opt_get(yaml_get(repo, "spec"@), "url"@)) {
        Some(u) => Ok(u),
        None => Err("Could not find spec.url in helm-repo.yaml"@),
    }
}

/// The arguments of `helm` that print the default values of the chart that
/// `helm-release.yaml` (a HelmRelease) names under `spec.chart.spec`, taken from the
/// repository at `url` (with `--version` when the release pins one), or the error that
/// the program reports.
pub open spec fn spec_show_values_args(release: YamlView, url: Seq<char>) -> Result<Seq<Seq<char>>, Seq<char>> {
    match opt_get(opt_get(yaml_get(release, "spec"@), "chart"@), "spec"@) {
        None => Err("Could not find spec.chart.spec in helm-release.yaml"@),
        Some(chart_spec) => match opt_str(yaml_get(chart_spec, "chart"@)) {
            None => Err("Could not find chart name"@),
            Some(chart) => {
                let base = seq!["show"@, "values"@, chart, "--repo"@, url];
                match opt_str(yaml_get(chart_spec, "version"@)) {
                    Some(version) => Ok(base + seq!["--version"@, version]),
                    None => Ok(base),
                }
            },
        },
    }
}

/// The views of a result of texts.
pub open spec fn result_view(r: Result<String, String>) -> Result<Seq<char>, Seq<char>> {
    match r {
        Ok(s) => Ok(s@),
        Err(e) => Err(e@),
    }
}

/// The views of a result of argument lists.
pub open spec fn args_result_view(r: Result<Vec<String>, String>) -> Result<Seq<Seq<char>>, Seq<char>> {
    match r {
        Ok(v) => Ok(views(v@)),
        Err(e) => Err(e@),
    }
}

/// The chart repository's URL in `helm-repo.yaml`.
pub fn helm_repo_url(repo: &YamlValue) -> (r: Result<String, String>)
    ensures
        result_view(r) == spec_repo_url(repo@),
{
    let url = match value_get(repo, "spec") {
        Some(s) => match value_get(s, "url") {
            Some(u) => value_as_str(u),
            None => None,
        },
        None => None,
    };
    match url {
        Some(u) => Ok(u.to_owned()),
        None => Err("Could not find spec.url in helm-repo.yaml".to_owned()),
    }
}

/// The arguments of `helm show values` for the chart of `helm-release.yaml`.
pub fn helm_show_values_args(release: &YamlValue, url: &str) -> (r: Result<Vec<String>, String>)
    ensures
        args_result_view(r) == spec_show_values_args(release@, url@),
{
    let chart_spec = match value_get(release, "spec") {
        Some(s) => match value_get(s, "chart") {
            Some(c) => value_get(c, "spec"),
            None => None,
        },
        None => None,
    };
    let chart_spec = match chart_spec {
        Some(c) => c,
        None => {
            return Err("Could not find spec.chart.spec in helm-release.yaml".to_owned());
        },
    };
    let chart = match value_get(chart_spec, "chart") {
        Some(c) => value_as_str(c),
        None => None,
    };
    let chart = match chart {
        Some(c) => c,
        None => {
            return Err("Could not find chart name".to_owned());
        },
    };
    let mut args: Vec<String> = Vec::new();
    args.push("show".to_owned());
    args.push("values".to_owned());
    args.push(chart.to_owned());
    args.push("--repo".to_owned());
    args.push(url.to_owned());
    let version = match value_get(chart_spec, "version") {
        Some(v) => value_as_str(v),
        None => None,
    };
    let ghost base = views(args@);
    match version {
        Some(v) => {
            args.push("--version".to_owned());
            args.push(v.to_owned());
        },
        None => {},
    }
    proof {
        assert(base =~= seq!["show"@, "values"@, chart@, "--repo"@, url@]);
        if version is Some {
            assert(views(args@) =~= base + seq!["--version"@, version.unwrap()@]);
        } else {
            assert(views(args@) =~= base);
        }
    }
    Ok(args)
}

/// What the program does with the values file after the editor closed.
#[derive(Debug)]
pub enum EditOutcome {
    /// The file was emptied: editing is cancelled.
    Cancelled,
    /// The values differ in nothing from the defaults.
    Unchanged,
    /// The values that differ from the defaults.
    Changed(YamlValue),
    /// The file is no valid YAML: it is rewritten with this text (an error note above
    /// what was written) and the editor opens again.
    Retry(String),
}

/// The text holds nothing but white space.
pub open spec fn is_blank(s: Seq<char>) -> bool {
    trim(s).len() == 0
}

/// The values that the edited file is compared with: those of the initial file, or an
/// empty mapping if it was blank or no valid YAML.
pub open spec fn edit_base(initial: Seq<char>, initial_parsed: Option<YamlView>) -> YamlView {
    if is_blank(initial) {
        YamlView::Mapping(Seq::empty())
    } else {
        match initial_parsed {
            Some(v) => v,
            None => YamlView::Mapping(Seq::empty()),
        }
    }
}

/// The note put above an edited file that is no valid YAML.
pub open spec fn retry_text(error: Seq<char>, edited: Seq<char>) -> Seq<char> {
    "\n# ERROR: Invalid YAML: "@ + error + "\n# Please fix the errors and save, or clear the file to cancel.\n"@ + edited
}

/// The mathematical form of an outcome.
pub enum EditOutcomeView {
    Cancelled,
    Unchanged,
    Changed(YamlView),
    Retry(Seq<char>),
}

impl View for EditOutcome {
    type V = EditOutcomeView;

    open spec fn view(&self) -> EditOutcomeView {
        match self {
            EditOutcome::Cancelled => EditOutcomeView::Cancelled,
            EditOutcome::Unchanged => EditOutcomeView::Unchanged,
            EditOutcome::Changed(v) => EditOutcomeView::Changed(v@),
            EditOutcome::Retry(t) => EditOutcomeView::Retry(t@),
        }
    }
}

/// What the program does with an edited values file: cancel if it is blank; record the
/// difference from the initial values if it is valid YAML; otherwise ask again.
pub open spec fn spec_edit_outcome(initial: Seq<char>, initial_parsed: Option<YamlView>, edited: Seq<char>, edited_parsed: Result<YamlView, Seq<char>>) -> EditOutcomeView {
    if is_blank(edited) {
        EditOutcomeView::Cancelled
    } else {
        match edited_parsed {
            Ok(v) => match yaml_diff(edit_base(initial, initial_parsed), v) {
                Some(d) => EditOutcomeView::Changed(d),
                None => EditOutcomeView::Unchanged,
            },
            Err(e) => EditOutcomeView::Retry(retry_text(e, edited)),
        }
    }
}

/// Whether a text is blank.
pub fn text_is_blank(s: &str) -> (r: bool)
    ensures
        r == is_blank(s@),
{
    trim_chars(&chars_of(s)).len() == 0
}

/// Decides what becomes of an edited values file. `initial_parsed` is the initial text
/// read as YAML (none if it is no valid YAML); `edited_parsed` is the edited text read as
/// YAML, or the parser's message.
pub fn edit_outcome(initial: &str, initial_parsed: Option<YamlValue>, edited: &str, edited_parsed: Result<YamlValue, String>) -> (r: EditOutcome)
    ensures
        r@ == spec_edit_outcome(initial@, opt_view(initial_parsed), edited@, match edited_parsed { Ok(v) => Ok(v@), Err(e) => Err(e@) }),
{
    if text_is_blank(edited) {
        return EditOutcome::Cancelled;
    }
    match edited_parsed {
        Ok(v) => {
            let empty: Vec<YamlEntry> = Vec::new();
            assert(crate::yaml::yes(empty@) =~= Seq::<(YamlView, YamlView)>::empty());
            let base = if text_is_blank(initial) {
                YamlValue::Mapping(empty)
            } else {
                match initial_parsed {
                    Some(b) => b,
                    None => YamlValue::Mapping(empty),
                }
            };
            assert(base@ == edit_base(initial@, opt_view(initial_parsed)));
            match diff_yaml(&base, &v) {
                Some(d) => EditOutcome::Changed(d),
                None => EditOutcome::Unchanged,
            }
        },
        Err(e) => {
            let mut t: Vec<char> = Vec::new();
            append_str(&mut t, "\n# ERROR: Invalid YAML: ");
            append_str(&mut t, e.as_str());
            append_str(&mut t, "\n# Please fix the errors and save, or clear the file to cancel.\n");
            append_str(&mut t, edited);
            EditOutcome::Retry(string_from_chars(t.as_slice()))
        },
    }
}

} // verus!
