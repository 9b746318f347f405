//! Tests of alert translation, quick-fix building, rule parsing and
//! completion dispatch.

use vale_ls::alerts::{
    alert_to_diagnostic, alert_to_range, alerts_to_diagnostics, code_actions, make_title,
    severity_to_level, Alert,
};
use vale_ls::ini::{
    block_tags, completion_kind, filter_entries, inline_tags, line_has_rule_key, rule_options,
    IniCompletion,
};
use vale_ls::pkg::{filter_packages, Package};
use vale_ls::protocol::{Position, Severity};
use vale_ls::styles::{EntryType, PathEntry};
use vale_ls::yml::{Extends, Rule};

fn alert(action: Option<&str>, line: usize, span: (usize, usize), link: &str) -> Alert {
    Alert {
        action_name: action.map(|s| s.to_string()),
        action_params: None,
        check: "Vale.Terms".to_string(),
        matched: "colour".to_string(),
        description: "".to_string(),
        link: link.to_string(),
        line,
        span,
        severity: "warning".to_string(),
        message: "Use 'color'.".to_string(),
    }
}

#[test]
fn alert_range_conversion() {
    // one-based line 3, inclusive columns 5..=10 become zero-based line 2,
    // end-exclusive characters 4..10
    let r = alert_to_range(&alert(None, 3, (5, 10), ""));
    assert_eq!(r.start, Position { line: 2, character: 4 });
    assert_eq!(r.end, Position { line: 2, character: 10 });
}

#[test]
fn severity_mapping() {
    assert_eq!(severity_to_level("error"), Severity::Error);
    assert_eq!(severity_to_level("warning"), Severity::Warning);
    assert_eq!(severity_to_level("suggestion"), Severity::Information);
    assert_eq!(severity_to_level("anything"), Severity::Hint);
}

#[test]
fn one_diagnostic_per_alert() {
    let alerts = vec![
        alert(Some("replace"), 1, (1, 6), ""),
        alert(None, 2, (3, 8), ""),
        alert(None, 9, (2, 4), ""),
    ];
    let ds = alerts_to_diagnostics(&alerts);
    assert_eq!(ds.len(), 3);
    for (d, a) in ds.iter().zip(alerts.iter()) {
        assert_eq!(d.range.start.line, a.line - 1);
        assert_eq!(d.range.start.character, a.span.0 - 1);
        assert_eq!(d.range.end.character, a.span.1);
        assert_eq!(d.code, "Vale.Terms");
        assert_eq!(d.source, "vale-ls");
        assert_eq!(d.data.check, a.check);
    }
}

#[test]
fn diagnostic_link_attachment() {
    let with_link = alert_to_diagnostic(&alert(None, 1, (1, 2), "https://vale.sh/docs"));
    assert_eq!(with_link.code_description.as_deref(), Some("https://vale.sh/docs"));
    let bad_link = alert_to_diagnostic(&alert(None, 1, (1, 2), "not a url"));
    assert!(bad_link.code_description.is_none());
    let no_link = alert_to_diagnostic(&alert(None, 1, (1, 2), ""));
    assert!(no_link.code_description.is_none());
}

#[test]
fn removal_edit_reaches_one_further() {
    let suggestions = vec!["".to_string()];
    let removal = code_actions(&alert(Some("remove"), 4, (7, 12), ""), &suggestions);
    let replace = code_actions(&alert(Some("replace"), 4, (7, 12), ""), &suggestions);
    assert_eq!(removal.len(), 1);
    assert_eq!(replace.len(), 1);
    assert_eq!(removal[0].range.start, replace[0].range.start);
    assert_eq!(
        removal[0].range.end.character,
        replace[0].range.end.character + 1
    );
}

#[test]
fn quick_fix_titles_and_texts() {
    let suggestions = vec!["color".to_string(), "hue".to_string()];
    let actions = code_actions(&alert(Some("replace"), 1, (1, 7), ""), &suggestions);
    assert_eq!(actions.len(), 2);
    assert_eq!(actions[0].title, "Replace with \u{2018}color\u{2019}");
    assert_eq!(actions[0].new_text, "color");
    assert_eq!(actions[1].new_text, "hue");

    let removals = code_actions(&alert(Some("remove"), 1, (1, 7), ""), &suggestions);
    assert_eq!(removals[0].title, "Remove \u{2018}colour\u{2019}");

    // no action name, no actions at all
    assert!(code_actions(&alert(None, 1, (1, 7), ""), &suggestions).is_empty());

    assert_eq!(make_title("remove", "x", "y"), "Remove \u{2018}x\u{2019}");
    assert_eq!(make_title("replace", "x", "y"), "Replace with \u{2018}y\u{2019}");
}

#[test]
fn rule_parsing_families() {
    let r = Rule::new("extends: existence\nmessage: \"no\"\nlink: https://vale.sh/docs\n");
    assert_eq!(r.extends, Extends::Existence);
    assert_eq!(r.source(), "https://vale.sh/docs");
    assert!(r.can_compile());

    let r = Rule::new("extends: spelling\n");
    assert_eq!(r.extends, Extends::Spelling);
    assert!(!r.can_compile());
    assert_eq!(r.source(), "");

    let r = Rule::new("extends: nonsense\n");
    assert_eq!(r.extends, Extends::Invalid);
    assert!(!r.can_compile());

    // text that does not load as YAML yields an invalid rule
    let r = Rule::new(": : :");
    assert_eq!(r.extends, Extends::Invalid);

    let r = Rule::new("");
    assert_eq!(r.extends, Extends::Invalid);
}

#[test]
fn rule_line_completions() {
    let r = Rule::new("extends: substitution\n");
    let ext = r.complete("extends: ");
    assert_eq!(ext.len(), 11);
    assert_eq!(ext[0], "existence");
    assert_eq!(ext[10], "script");
    let lvl = r.complete("level: ");
    assert_eq!(lvl, vec!["suggestion", "warning", "error"]);
    assert!(r.complete("message: ").is_empty());
}

#[test]
fn ini_completion_dispatch() {
    assert_eq!(completion_kind("BasedOnStyles = "), IniCompletion::Styles);
    assert_eq!(completion_kind("MinAlertLevel = "), IniCompletion::Levels);
    assert_eq!(completion_kind("IgnoredScopes = "), IniCompletion::InlineTags);
    assert_eq!(completion_kind("SkippedScopes = "), IniCompletion::BlockTags);
    assert_eq!(completion_kind("Vale.Terms = "), IniCompletion::RuleOptions);
    assert_eq!(completion_kind("Vocab = "), IniCompletion::Vocab);
    assert_eq!(completion_kind("Packages = "), IniCompletion::Packages);
    assert_eq!(completion_kind("# a comment"), IniCompletion::NoMatch);

    assert!(line_has_rule_key("Google.Headings = error"));
    assert!(!line_has_rule_key("NoDotHere = error"));
    assert!(!line_has_rule_key("Trailing.Dot. = x"));
    assert!(line_has_rule_key("a.b ="));
    assert!(!line_has_rule_key("a.b="));
}

#[test]
fn ini_option_lists() {
    assert_eq!(inline_tags().len(), 8);
    assert_eq!(block_tags(), vec!["script", "style", "pre", "figure"]);
    let opts = rule_options();
    assert_eq!(opts.len(), 5);
    assert_eq!(opts[0].0, "YES");
    assert_eq!(opts[4].1, "Set the severity to 'error'.");
}

#[test]
fn completion_filters_skip_present_names() {
    let entries = vec![
        PathEntry {
            name: "Google".to_string(),
            size: 3,
            path: "s/Google".to_string(),
            kind: EntryType::Style,
        },
        PathEntry {
            name: "Microsoft".to_string(),
            size: 2,
            path: "s/Microsoft".to_string(),
            kind: EntryType::Style,
        },
    ];
    let kept = filter_entries("BasedOnStyles = Google", &entries);
    assert_eq!(kept.len(), 1);
    assert_eq!(kept[0].name, "Microsoft");

    let pkgs = vec![
        Package {
            name: "Hugo".to_string(),
            description: "d".to_string(),
            homepage: "h".to_string(),
        },
        Package {
            name: "MDX".to_string(),
            description: "d".to_string(),
            homepage: "h".to_string(),
        },
    ];
    let kept = filter_packages("Packages = MDX", &pkgs);
    assert_eq!(kept.len(), 1);
    assert_eq!(kept[0].name, "Hugo");
}
