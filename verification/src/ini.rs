//! Completions for the linter's configuration format.
//!
//! One pure dispatcher classifies a line by the key it carries — including
//! the scoped rule-assignment shape `word.word =` — and pure builders and
//! filters supply the candidate lists.

use vstd::prelude::*;

use crate::styles::PathEntry;
use crate::styles::PathEntryV;
use crate::text::{has_sub, str_contains};

verus! {

/// A word character of the rule-assignment shape: ASCII letters, digits
/// and the underscore.
pub open spec fn is_word(c: char) -> bool {
    ('a' <= c && c <= 'z') || ('A' <= c && c <= 'Z') || ('0' <= c && c <= '9') || c == '_'
}

/// Executable word-character test.
pub fn is_word_char(c: char) -> (r: bool)
    ensures
        r == is_word(c),
{
    ('a' <= c && c <= 'z') || ('A' <= c && c <= 'Z') || ('0' <= c && c <= '9') || c == '_'
}

/// A rule assignment sits in the line with its dot at `d` and the space
/// before the equals sign at `j`: word characters directly around the dot
/// and all the way up to the space.
pub open spec fn rule_key_at(line: Seq<char>, d: int, j: int) -> bool {
    1 <= d && d + 1 < j && j + 1 < line.len() && line[d] == '.' && is_word(line[d - 1]) && (
    forall|k: int| d < k < j ==> is_word(line[k])) && line[j] == ' ' && line[j + 1] == '='
}

/// The line carries a scoped rule assignment, the shape
/// `word.word =` anywhere in it.
pub open spec fn has_rule_key(line: Seq<char>) -> bool {
    exists|d: int, j: int| rule_key_at(line, d, j)
}

/// Scans a line for the rule-assignment shape.
pub fn line_has_rule_key(line: &str) -> (r: bool)
    ensures
        r == has_rule_key(line@),
{
    let n = line.unicode_len();
    if n < 5 {
        proof {
            assert forall|d: int, jj: int| !rule_key_at(line@, d, jj) by {
                if rule_key_at(line@, d, jj) {
                    assert(jj >= 3 && jj + 1 < n);
                }
            }
        }
        return false;
    }
    let mut j: usize = 0;
    while j < n - 1
        invariant
            n == line@.len(),
            5 <= n,
            0 <= j <= n - 1,
            forall|d: int, jj: int| jj < j ==> !rule_key_at(line@, d, jj),
        decreases n - j,
    {
        if line.get_char(j) == ' ' && line.get_char(j + 1) == '=' {
            let mut m = j;
            while m > 0 && is_word_char(line.get_char(m - 1))
                invariant
                    n == line@.len(),
                    0 <= m <= j,
                    j + 1 < n,
                    forall|k: int| m <= k < j ==> is_word(line@[k]),
                decreases m,
            {
                m -= 1;
            }
            if m < j && m >= 2 && line.get_char(m - 1) == '.' && is_word_char(
                line.get_char(m - 2),
            ) {
                proof {
                    assert(rule_key_at(line@, m - 1, j as int));
                }
                return true;
            }
            proof {
                assert forall|d: int| !rule_key_at(line@, d, j as int) by {
                    if rule_key_at(line@, d, j as int) {
                        // the dot is no word character, so it sits left of
                        // the scanned run; maximality of the run pins it to
                        // the position directly before the run
                        assert(d < m) by {
                            if m <= d {
                                assert(is_word(line@[d]));
                            }
                        }
                        assert(d == m - 1) by {
                            if d < m - 1 {
                                assert(is_word(line@[m - 1]));
                                assert(m >= 1);
                                assert(false);
                            }
                        }
                        assert(m < j && m >= 2 && line@[m - 1] == '.' && is_word(line@[m - 2]));
                        assert(false);
                    }
                }
            }
        } else {
            proof {
                assert forall|d: int| !rule_key_at(line@, d, j as int) by {}
            }
        }
        j += 1;
    }
    proof {
        assert forall|d: int, jj: int| !rule_key_at(line@, d, jj) by {
            if rule_key_at(line@, d, jj) {
                assert(jj < j);
            }
        }
    }
    false
}

/// What a configuration line completes to.
#[derive(Debug, Clone, Copy, PartialEq, Eq, Structural)]
pub enum IniCompletion {
    /// The style names, after `BasedOnStyles`.
    Styles,
    /// The alert levels, after `MinAlertLevel`.
    Levels,
    /// Inline markup tags, after `IgnoredScopes`.
    InlineTags,
    /// Block markup tags, after `SkippedScopes`.
    BlockTags,
    /// The per-rule options, after a scoped rule assignment.
    RuleOptions,
    /// The vocabulary names, after `Vocab`.
    Vocab,
    /// The registry packages, after `Packages`.
    Packages,
    /// Nothing to offer.
    NoMatch,
}

/// How a line dispatches, first match deciding: the known keys in their
/// fixed order, the rule-assignment shape between them.
pub open spec fn spec_completion_kind(line: Seq<char>) -> IniCompletion {
    if has_sub(line, "BasedOnStyles"@) {
        IniCompletion::Styles
    } else if has_sub(line, "MinAlertLevel"@) {
        IniCompletion::Levels
    } else if has_sub(line, "IgnoredScopes"@) {
        IniCompletion::InlineTags
    } else if has_sub(line, "SkippedScopes"@) {
        IniCompletion::BlockTags
    } else if has_rule_key(line) {
        IniCompletion::RuleOptions
    } else if has_sub(line, "Vocab"@) {
        IniCompletion::Vocab
    } else if has_sub(line, "Packages"@) {
        IniCompletion::Packages
    } else {
        IniCompletion::NoMatch
    }
}

/// Classifies one configuration line for completion.
pub fn completion_kind(line: &str) -> (r: IniCompletion)
    ensures
        r == spec_completion_kind(line@),
{
    if str_contains(line, "BasedOnStyles") {
        IniCompletion::Styles
    } else if str_contains(line, "MinAlertLevel") {
        IniCompletion::Levels
    } else if str_contains(line, "IgnoredScopes") {
        IniCompletion::InlineTags
    } else if str_contains(line, "SkippedScopes") {
        IniCompletion::BlockTags
    } else if line_has_rule_key(line) {
        IniCompletion::RuleOptions
    } else if str_contains(line, "Vocab") {
        IniCompletion::Vocab
    } else if str_contains(line, "Packages") {
        IniCompletion::Packages
    } else {
        IniCompletion::NoMatch
    }
}

/// The inline markup tags offered after `IgnoredScopes`.
pub open spec fn inline_tag_labels() -> Seq<Seq<char>> {
    seq!["small"@, "abbr"@, "em"@, "kbd"@, "tt"@, "code"@, "b"@, "i"@]
}

/// The inline markup tags, in offer order.
pub fn inline_tags() -> (r: Vec<String>)
    ensures
        r.deep_view() =~= inline_tag_labels(),
{
    let mut out: Vec<String> = Vec::new();
    out.push("small".to_owned());
    out.push("abbr".to_owned());
    out.push("em".to_owned());
    out.push("kbd".to_owned());
    out.push("tt".to_owned());
    out.push("code".to_owned());
    out.push("b".to_owned());
    out.push("i".to_owned());
    out
}

/// The block markup tags offered after `SkippedScopes`.
pub open spec fn block_tag_labels() -> Seq<Seq<char>> {
    seq!["script"@, "style"@, "pre"@, "figure"@]
}

/// The block markup tags, in offer order.
pub fn block_tags() -> (r: Vec<String>)
    ensures
        r.deep_view() =~= block_tag_labels(),
{
    let mut out: Vec<String> = Vec::new();
    out.push("script".to_owned());
    out.push("style".to_owned());
    out.push("pre".to_owned());
    out.push("figure".to_owned());
    out
}

/// The alert levels offered after `MinAlertLevel`.
pub fn level_options() -> (r: Vec<String>)
    ensures
        r.deep_view() =~= crate::yml::level_labels(),
{
    let mut out: Vec<String> = Vec::new();
    out.push("suggestion".to_owned());
    out.push("warning".to_owned());
    out.push("error".to_owned());
    out
}

/// The labels and explanations offered after a scoped rule assignment.
pub open spec fn rule_option_pairs() -> Seq<(Seq<char>, Seq<char>)> {
    seq![
        ("YES"@, "Enable the given rule in this scope."@),
        ("NO"@, "Disable the given rule in this scope."@),
        ("suggestion"@, "Set the severity to 'suggestion'."@),
        ("warning"@, "Set the severity to 'warning'."@),
        ("error"@, "Set the severity to 'error'."@),
    ]
}

/// The per-rule options with their explanations, in offer order.
pub fn rule_options() -> (r: Vec<(String, String)>)
    ensures
        r.deep_view() =~= rule_option_pairs(),
{
    let mut out: Vec<(String, String)> = Vec::new();
    out.push(("YES".to_owned(), "Enable the given rule in this scope.".to_owned()));
    out.push(("NO".to_owned(), "Disable the given rule in this scope.".to_owned()));
    out.push(("suggestion".to_owned(), "Set the severity to 'suggestion'.".to_owned()));
    out.push(("warning".to_owned(), "Set the severity to 'warning'.".to_owned()));
    out.push(("error".to_owned(), "Set the severity to 'error'.".to_owned()));
    out
}

/// The entries whose name the line does not already carry, in order.
pub open spec fn spec_filter_entries(line: Seq<char>, s: Seq<PathEntryV>) -> Seq<PathEntryV>
    decreases s.len(),
{
    if s.len() == 0 {
        Seq::empty()
    } else {
        let rest = spec_filter_entries(line, s.drop_last());
        if !has_sub(line, s.last().name) {
            rest.push(s.last())
        } else {
            rest
        }
    }
}

/// Keeps the style or vocabulary entries the line does not already name,
/// for completion.
pub fn filter_entries(line: &str, entries: &Vec<PathEntry>) -> (r: Vec<PathEntry>)
    ensures
        r.deep_view() == spec_filter_entries(line@, entries.deep_view()),
{
    let ghost all = entries.deep_view();
    let mut out: Vec<PathEntry> = Vec::new();
    let mut i: usize = 0;
    while i < entries.len()
        invariant
            all == entries.deep_view(),
            0 <= i <= entries.len(),
            out.deep_view() =~= spec_filter_entries(line@, all.take(i as int)),
        decreases entries.len() - i,
    {
        proof {
            assert(all.take(i + 1).drop_last() =~= all.take(i as int));
        }
        if !str_contains(line, entries[i].name.as_str()) {
            let ghost dv0 = out.deep_view();
            let e = &entries[i];
            out.push(
                PathEntry {
                    name: e.name.clone(),
                    size: e.size,
                    path: e.path.clone(),
                    kind: e.kind,
                },
            );
            proof {
                assert(out.deep_view() =~= dv0.push(all[i as int]));
            }
        }
        i += 1;
    }
    proof {
        assert(all.take(entries.len() as int) =~= all);
    }
    out
}

} // verus!
