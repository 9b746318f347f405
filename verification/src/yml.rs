//! Rule definition files.
//!
//! A rule file names the family it extends; that closed set decides which
//! completions apply and whether the rule can be compiled to a pattern.
//! Reading the two interesting string keys out of the YAML text is the
//! trusted step; everything drawn from them is verified.

use vstd::prelude::*;

use crate::text::{has_sub, str_contains, str_eq};

verus! {

/// The closed set of rule families a definition can extend.
#[derive(Debug, Clone, Copy, PartialEq, Eq, Structural)]
pub enum Extends {
    Existence,
    Substitution,
    Occurrence,
    Repetition,
    Consistency,
    Conditional,
    Capitalization,
    Metric,
    Spelling,
    Sequence,
    Script,
    Invalid,
}

/// What YAML loading makes of a text at a given string key: the key's
/// string value in the first document, or nothing — when the text does not
/// load, holds no document, lacks the key, or holds no string there. A
/// function of text and key alone.
pub uninterp spec fn yaml_str(src: Seq<char>, key: Seq<char>) -> Option<Seq<char>>;

/// Relies on yaml_rust::YamlLoader::load_from_str and Yaml's string-key
/// indexing: the string value under `key` in the first document, if the
/// text loads and carries one.
#[verifier::external_body]
fn yaml_lookup(src: &str, key: &str) -> (r: Option<String>)
    ensures
        match r {
            Some(v) => yaml_str(src@, key@) == Some(v@),
            None => yaml_str(src@, key@) is None,
        },
{
    match yaml_rust::YamlLoader::load_from_str(src) {
        Ok(docs) => {
            if docs.is_empty() {
                None
            } else {
                docs[0][key].as_str().map(|s| s.to_string())
            }
        },
        Err(_) => None,
    }
}

/// Which family a (possibly absent) `extends` value names.
pub open spec fn spec_extends_of(e: Option<Seq<char>>) -> Extends {
    match e {
        None => Extends::Invalid,
        Some(s) => {
            if s == "existence"@ {
                Extends::Existence
            } else if s == "substitution"@ {
                Extends::Substitution
            } else if s == "occurrence"@ {
                Extends::Occurrence
            } else if s == "repetition"@ {
                Extends::Repetition
            } else if s == "consistency"@ {
                Extends::Consistency
            } else if s == "conditional"@ {
                Extends::Conditional
            } else if s == "capitalization"@ {
                Extends::Capitalization
            } else if s == "metric"@ {
                Extends::Metric
            } else if s == "spelling"@ {
                Extends::Spelling
            } else if s == "sequence"@ {
                Extends::Sequence
            } else if s == "script"@ {
                Extends::Script
            } else {
                Extends::Invalid
            }
        },
    }
}

/// Whether a family compiles to a single pattern: the structural and
/// pattern families do; the dictionary-, sequence- and script-based ones,
/// and an invalid tag, do not.
pub open spec fn spec_can_compile(e: Extends) -> bool {
    match e {
        Extends::Existence => true,
        Extends::Substitution => true,
        Extends::Occurrence => true,
        Extends::Repetition => true,
        Extends::Consistency => true,
        Extends::Conditional => true,
        Extends::Capitalization => true,
        Extends::Metric => false,
        Extends::Spelling => false,
        Extends::Sequence => false,
        Extends::Script => false,
        Extends::Invalid => false,
    }
}

/// One parsed rule definition: its family tag and its documentation link.
#[derive(Debug)]
pub struct Rule {
    pub extends: Extends,
    pub source: String,
}

impl Rule {
    /// Parses a rule definition text: the family from its `extends` key —
    /// invalid when the text does not load or carries none — and the
    /// documentation link from its `link` key, empty when absent.
    pub fn new(src: &str) -> (r: Rule)
        ensures
            r.extends == spec_extends_of(yaml_str(src@, "extends"@)),
            r.source@ == match yaml_str(src@, "link"@) {
                Some(l) => l,
                None => Seq::<char>::empty(),
            },
    {
        let extends = match yaml_lookup(src, "extends") {
            None => Extends::Invalid,
            Some(tag) => {
                let t = tag.as_str();
                if str_eq(t, "existence") {
                    Extends::Existence
                } else if str_eq(t, "substitution") {
                    Extends::Substitution
                } else if str_eq(t, "occurrence") {
                    Extends::Occurrence
                } else if str_eq(t, "repetition") {
                    Extends::Repetition
                } else if str_eq(t, "consistency") {
                    Extends::Consistency
                } else if str_eq(t, "conditional") {
                    Extends::Conditional
                } else if str_eq(t, "capitalization") {
                    Extends::Capitalization
                } else if str_eq(t, "metric") {
                    Extends::Metric
                } else if str_eq(t, "spelling") {
                    Extends::Spelling
                } else if str_eq(t, "sequence") {
                    Extends::Sequence
                } else if str_eq(t, "script") {
                    Extends::Script
                } else {
                    Extends::Invalid
                }
            },
        };
        let source = match yaml_lookup(src, "link") {
            Some(l) => l,
            None => String::new(),
        };
        Rule { extends, source }
    }

    /// The documentation link the rule names.
    pub fn source(&self) -> (r: String)
        ensures
            r@ == self.source@,
    {
        self.source.clone()
    }

    /// Whether this rule can be compiled to a single pattern.
    pub fn can_compile(&self) -> (r: bool)
        ensures
            r == spec_can_compile(self.extends),
    {
        match self.extends {
            Extends::Existence => true,
            Extends::Substitution => true,
            Extends::Occurrence => true,
            Extends::Repetition => true,
            Extends::Consistency => true,
            Extends::Conditional => true,
            Extends::Capitalization => true,
            Extends::Metric => false,
            Extends::Spelling => false,
            Extends::Sequence => false,
            Extends::Script => false,
            Extends::Invalid => false,
        }
    }

    /// The completion labels for one line of a rule file: the family names
    /// on an `extends:` line, the level names on a `level:` line, nothing
    /// anywhere else.
    pub fn complete(&self, line: &str) -> (r: Vec<String>)
        ensures
            has_sub(line@, "extends:"@) ==> r.deep_view() =~= extends_labels(),
            !has_sub(line@, "extends:"@) && has_sub(line@, "level:"@) ==> r.deep_view()
                =~= level_labels(),
            !has_sub(line@, "extends:"@) && !has_sub(line@, "level:"@) ==> r.deep_view().len()
                == 0,
    {
        let mut out: Vec<String> = Vec::new();
        if str_contains(line, "extends:") {
            out.push("existence".to_owned());
            out.push("substitution".to_owned());
            out.push("occurrence".to_owned());
            out.push("repetition".to_owned());
            out.push("consistency".to_owned());
            out.push("conditional".to_owned());
            out.push("capitalization".to_owned());
            out.push("metric".to_owned());
            out.push("spelling".to_owned());
            out.push("sequence".to_owned());
            out.push("script".to_owned());
            proof {
                assert(out.deep_view() =~= extends_labels());
            }
        } else if str_contains(line, "level:") {
            out.push("suggestion".to_owned());
            out.push("warning".to_owned());
            out.push("error".to_owned());
            proof {
                assert(out.deep_view() =~= level_labels());
            }
        }
        out
    }
}

/// The eleven family names, in the order completions offer them.
pub open spec fn extends_labels() -> Seq<Seq<char>> {
    seq![
        "existence"@,
        "substitution"@,
        "occurrence"@,
        "repetition"@,
        "consistency"@,
        "conditional"@,
        "capitalization"@,
        "metric"@,
        "spelling"@,
        "sequence"@,
        "script"@,
    ]
}

/// The three alert levels, in the order completions offer them.
pub open spec fn level_labels() -> Seq<Seq<char>> {
    seq!["suggestion"@, "warning"@, "error"@]
}

} // verus!
