//! From linter alerts to diagnostics and quick-fix edits.
//!
//! An alert arrives with a one-based line and a one-based, inclusive column
//! span. A diagnostic's range is zero-based and end-exclusive, so the line
//! and start column drop by one while the end column stands as it is. A
//! removal edit alone widens its end by one more character, so that
//! deleting the matched text does not leave a doubled space behind.

use vstd::prelude::*;

use crate::protocol::{Position, Range, Severity};

verus! {

/// One finding of the external linter, as its structured output delivers
/// it.
#[derive(Debug)]
pub struct Alert {
    pub action_name: Option<String>,
    pub action_params: Option<Vec<String>>,
    pub check: String,
    pub matched: String,
    pub description: String,
    pub link: String,
    pub line: usize,
    pub span: (usize, usize),
    pub severity: String,
    pub message: String,
}

/// Specification view of an [`Alert`].
pub ghost struct AlertV {
    pub action_name: Option<Seq<char>>,
    pub action_params: Option<Seq<Seq<char>>>,
    pub check: Seq<char>,
    pub matched: Seq<char>,
    pub description: Seq<char>,
    pub link: Seq<char>,
    pub line: int,
    pub span: (int, int),
    pub severity: Seq<char>,
    pub message: Seq<char>,
}

impl View for Alert {
    type V = AlertV;

    open spec fn view(&self) -> AlertV {
        AlertV {
            action_name: match self.action_name {
                Some(ref s) => Some(s@),
                None => None,
            },
            action_params: match self.action_params {
                Some(ref v) => Some(v.deep_view()),
                None => None,
            },
            check: self.check@,
            matched: self.matched@,
            description: self.description@,
            link: self.link@,
            line: self.line as int,
            span: (self.span.0 as int, self.span.1 as int),
            severity: self.severity@,
            message: self.message@,
        }
    }
}

impl DeepView for Alert {
    type V = AlertV;

    open spec fn deep_view(&self) -> AlertV {
        self.view()
    }
}

/// An alert the conversions accept: positive line and start column, as the
/// one-based format promises, with room to widen the end by one.
pub open spec fn wf_alert(a: AlertV) -> bool {
    1 <= a.line && 1 <= a.span.0 && 0 <= a.span.1 && a.span.1 + 1 <= usize::MAX
}

/// The diagnostic range of an alert: line and start column made
/// zero-based, the end column kept, which turns the inclusive span
/// end-exclusive.
pub open spec fn spec_alert_range(a: AlertV) -> Range {
    Range {
        start: Position {
            line: (a.line - 1) as usize,
            character: (a.span.0 - 1) as usize,
        },
        end: Position { line: (a.line - 1) as usize, character: a.span.1 as usize },
    }
}

/// The range an alert's diagnostic covers.
pub fn alert_to_range(alert: &Alert) -> (r: Range)
    requires
        wf_alert(alert@),
    ensures
        r == spec_alert_range(alert@),
{
    Range {
        start: Position { line: alert.line - 1, character: alert.span.0 - 1 },
        end: Position { line: alert.line - 1, character: alert.span.1 },
    }
}

/// How severity texts map to levels: the three known names, and a hint
/// for anything else.
pub open spec fn spec_severity(s: Seq<char>) -> Severity {
    if s == "error"@ {
        Severity::Error
    } else if s == "warning"@ {
        Severity::Warning
    } else if s == "suggestion"@ {
        Severity::Information
    } else {
        Severity::Hint
    }
}

/// Maps an alert's severity text to the diagnostic level.
pub fn severity_to_level(severity: &str) -> (r: Severity)
    ensures
        r == spec_severity(severity@),
{
    if crate::text::str_eq(severity, "error") {
        Severity::Error
    } else if crate::text::str_eq(severity, "warning") {
        Severity::Warning
    } else if crate::text::str_eq(severity, "suggestion") {
        Severity::Information
    } else {
        Severity::Hint
    }
}

/// Whether a text parses as a well-formed URL. A function of the text
/// alone.
pub uninterp spec fn url_ok(s: Seq<char>) -> bool;

/// Relies on url::Url::parse: it accepts exactly the well-formed absolute
/// URLs, by the text alone.
#[verifier::external_body]
fn parse_url_ok(s: &str) -> (r: bool)
    ensures
        r == url_ok(s@),
{
    url::Url::parse(s).is_ok()
}

/// One diagnostic ready to publish, carrying its originating alert so a
/// later fix request can reconstruct it without re-running the linter.
#[derive(Debug)]
pub struct Diagnostic {
    pub range: Range,
    pub severity: Severity,
    pub code: String,
    pub source: String,
    pub message: String,
    pub code_description: Option<String>,
    pub data: Alert,
}

/// Specification view of a [`Diagnostic`].
pub ghost struct DiagnosticV {
    pub range: Range,
    pub severity: Severity,
    pub code: Seq<char>,
    pub source: Seq<char>,
    pub message: Seq<char>,
    pub code_description: Option<Seq<char>>,
    pub data: AlertV,
}

impl View for Diagnostic {
    type V = DiagnosticV;

    open spec fn view(&self) -> DiagnosticV {
        DiagnosticV {
            range: self.range,
            severity: self.severity,
            code: self.code@,
            source: self.source@,
            message: self.message@,
            code_description: match self.code_description {
                Some(ref s) => Some(s@),
                None => None,
            },
            data: self.data@,
        }
    }
}

impl DeepView for Diagnostic {
    type V = DiagnosticV;

    open spec fn deep_view(&self) -> DiagnosticV {
        self.view()
    }
}

/// The diagnostic an alert turns into: the converted range, the mapped
/// severity, the check identifier as its code, this server as its source,
/// the alert itself as payload, and the alert's link attached only when it
/// is non-empty and a well-formed URL.
pub open spec fn spec_diagnostic(a: AlertV) -> DiagnosticV {
    DiagnosticV {
        range: spec_alert_range(a),
        severity: spec_severity(a.severity),
        code: a.check,
        source: "vale-ls"@,
        message: a.message,
        code_description: if a.link.len() > 0 && url_ok(a.link) {
            Some(a.link)
        } else {
            None
        },
        data: a,
    }
}

fn clone_string_vec(v: &Vec<String>) -> (r: Vec<String>)
    ensures
        r.deep_view() == v.deep_view(),
{
    let mut out: Vec<String> = Vec::new();
    let mut i: usize = 0;
    while i < v.len()
        invariant
            0 <= i <= v.len(),
            out.deep_view() =~= v.deep_view().take(i as int),
        decreases v.len() - i,
    {
        let ghost dv0 = out.deep_view();
        out.push(v[i].clone());
        proof {
            assert(out.deep_view() =~= dv0.push(v.deep_view()[i as int]));
            assert(v.deep_view().take(i + 1) =~= v.deep_view().take(i as int).push(
                v.deep_view()[i as int],
            ));
        }
        i += 1;
    }
    proof {
        assert(v.deep_view().take(v.len() as int) =~= v.deep_view());
    }
    out
}

fn clone_alert(alert: &Alert) -> (r: Alert)
    ensures
        r@ == alert@,
{
    Alert {
        action_name: match &alert.action_name {
            Some(s) => Some(s.clone()),
            None => None,
        },
        action_params: match &alert.action_params {
            Some(v) => Some(clone_string_vec(v)),
            None => None,
        },
        check: alert.check.clone(),
        matched: alert.matched.clone(),
        description: alert.description.clone(),
        link: alert.link.clone(),
        line: alert.line,
        span: (alert.span.0, alert.span.1),
        severity: alert.severity.clone(),
        message: alert.message.clone(),
    }
}

/// Builds the diagnostic for one alert.
pub fn alert_to_diagnostic(alert: &Alert) -> (d: Diagnostic)
    requires
        wf_alert(alert@),
    ensures
        d@ == spec_diagnostic(alert@),
{
    let link_attached = alert.link.as_str().unicode_len() > 0 && parse_url_ok(
        alert.link.as_str(),
    );
    Diagnostic {
        range: alert_to_range(alert),
        severity: severity_to_level(alert.severity.as_str()),
        code: alert.check.clone(),
        source: "vale-ls".to_owned(),
        message: alert.message.clone(),
        code_description: if link_attached {
            Some(alert.link.clone())
        } else {
            None
        },
        data: clone_alert(alert),
    }
}

/// Turns a lint run's alerts into diagnostics: exactly one per alert, in
/// order, each built by the fixed conversion rule.
pub fn alerts_to_diagnostics(alerts: &Vec<Alert>) -> (r: Vec<Diagnostic>)
    requires
        forall|i: int| 0 <= i < alerts.deep_view().len() ==> wf_alert(alerts.deep_view()[i]),
    ensures
        r.deep_view().len() == alerts.deep_view().len(),
        forall|i: int|
            0 <= i < alerts.deep_view().len() ==> r.deep_view()[i] == spec_diagnostic(
                alerts.deep_view()[i],
            ),
{
    let mut out: Vec<Diagnostic> = Vec::new();
    let mut i: usize = 0;
    while i < alerts.len()
        invariant
            0 <= i <= alerts.len(),
            forall|k: int|
                0 <= k < alerts.deep_view().len() ==> wf_alert(alerts.deep_view()[k]),
            out.deep_view().len() == i,
            forall|k: int|
                0 <= k < i ==> out.deep_view()[k] == spec_diagnostic(alerts.deep_view()[k]),
        decreases alerts.len() - i,
    {
        proof {
            assert(alerts.deep_view()[i as int] == alerts[i as int]@);
        }
        let d = alert_to_diagnostic(&alerts[i]);
        let ghost dv0 = out.deep_view();
        out.push(d);
        proof {
            assert(out.deep_view() =~= dv0.push(spec_diagnostic(alerts.deep_view()[i as int])));
        }
        i += 1;
    }
    out
}

/// The quick-fix title for one suggestion: removals name the matched
/// text, every other action names the replacement.
pub open spec fn spec_title(action: Seq<char>, matched: Seq<char>, fix: Seq<char>) -> Seq<char> {
    if action == "remove"@ {
        "Remove \u{2018}"@ + matched + "\u{2019}"@
    } else {
        "Replace with \u{2018}"@ + fix + "\u{2019}"@
    }
}

/// Builds the title of one quick-fix action.
pub fn make_title(action: &str, matched: &str, fix: &str) -> (r: String)
    ensures
        r@ == spec_title(action@, matched@, fix@),
{
    let mut out: String;
    if crate::text::str_eq(action, "remove") {
        out = "\u{2018}".to_owned();
        let mut t: String = "Remove ".to_owned();
        t.append(out.as_str());
        t.append(matched);
        t.append("\u{2019}");
        proof {
            reveal_strlit("Remove ");
            reveal_strlit("\u{2018}");
            reveal_strlit("Remove \u{2018}");
            assert(("Remove "@ + "\u{2018}"@) =~= "Remove \u{2018}"@);
        }
        t
    } else {
        out = "\u{2018}".to_owned();
        let mut t: String = "Replace with ".to_owned();
        t.append(out.as_str());
        t.append(fix);
        t.append("\u{2019}");
        proof {
            reveal_strlit("Replace with ");
            reveal_strlit("\u{2018}");
            reveal_strlit("Replace with \u{2018}");
            assert(("Replace with "@ + "\u{2018}"@) =~= "Replace with \u{2018}"@);
        }
        t
    }
}

/// The range a fix edit replaces: the alert's diagnostic range, except
/// that a removal reaches one character further so no doubled space is
/// left behind.
pub open spec fn spec_action_range(a: AlertV) -> Range {
    let base = spec_alert_range(a);
    if a.action_name == Some("remove"@) {
        Range {
            start: base.start,
            end: Position { line: base.end.line, character: (a.span.1 + 1) as usize },
        }
    } else {
        base
    }
}

/// Law: for one and the same alert span, the removal edit's end character
/// stands exactly one past the end character any other action kind gets.
pub proof fn lemma_removal_extends_end(a: AlertV, b: AlertV)
    requires
        wf_alert(a),
        wf_alert(b),
        a.line == b.line,
        a.span == b.span,
        a.action_name == Some("remove"@),
        b.action_name is Some,
        b.action_name != Some("remove"@),
    ensures
        spec_action_range(a).end.character == spec_action_range(b).end.character + 1,
        spec_action_range(a).start == spec_action_range(b).start,
        spec_action_range(a).end.line == spec_action_range(b).end.line,
{
}

/// What the tool's fix subcommand returns: replacement suggestions in
/// order, and its error text.
#[derive(Debug)]
pub struct Fix {
    pub suggestions: Vec<String>,
    pub error: String,
}

/// One quick-fix edit: its displayed title, the range it replaces and the
/// replacement text.
#[derive(Debug)]
pub struct QuickFix {
    pub title: String,
    pub range: Range,
    pub new_text: String,
}

/// Specification view of a [`QuickFix`].
pub ghost struct QuickFixV {
    pub title: Seq<char>,
    pub range: Range,
    pub new_text: Seq<char>,
}

impl View for QuickFix {
    type V = QuickFixV;

    open spec fn view(&self) -> QuickFixV {
        QuickFixV { title: self.title@, range: self.range, new_text: self.new_text@ }
    }
}

impl DeepView for QuickFix {
    type V = QuickFixV;

    open spec fn deep_view(&self) -> QuickFixV {
        self.view()
    }
}

/// The quick-fix actions for one alert and the fix suggestions the tool
/// returned: none at all when the alert carries no action name, else one
/// replacement edit per suggestion over the action range.
pub fn code_actions(alert: &Alert, suggestions: &Vec<String>) -> (r: Vec<QuickFix>)
    requires
        wf_alert(alert@),
    ensures
        alert@.action_name is None ==> r.deep_view().len() == 0,
        alert@.action_name matches Some(name) ==> r.deep_view().len()
            == suggestions.deep_view().len() && forall|i: int|
            0 <= i < suggestions.deep_view().len() ==> r.deep_view()[i] == (QuickFixV {
                title: spec_title(name, alert@.matched, suggestions.deep_view()[i]),
                range: spec_action_range(alert@),
                new_text: suggestions.deep_view()[i],
            }),
{
    let name = match &alert.action_name {
        Some(n) => n.clone(),
        None => {
            return Vec::new();
        },
    };
    let mut range = alert_to_range(alert);
    if crate::text::str_eq(name.as_str(), "remove") {
        range.end.character = range.end.character + 1;
    }
    let mut out: Vec<QuickFix> = Vec::new();
    let mut i: usize = 0;
    while i < suggestions.len()
        invariant
            0 <= i <= suggestions.len(),
            wf_alert(alert@),
            alert@.action_name == Some(name@),
            range == spec_action_range(alert@),
            out.deep_view().len() == i,
            forall|k: int|
                0 <= k < i ==> out.deep_view()[k] == (QuickFixV {
                    title: spec_title(name@, alert@.matched, suggestions.deep_view()[k]),
                    range: spec_action_range(alert@),
                    new_text: suggestions.deep_view()[k],
                }),
        decreases suggestions.len() - i,
    {
        let fix = suggestions[i].clone();
        let title = make_title(name.as_str(), alert.matched.as_str(), fix.as_str());
        let ghost dv0 = out.deep_view();
        out.push(QuickFix { title, range, new_text: fix });
        proof {
            assert(out.deep_view() =~= dv0.push(out@[out.len() - 1]@));
        }
        i += 1;
    }
    out
}

} // verus!
