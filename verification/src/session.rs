//! Per-session state: the open documents and the request-scoped settings.
//!
//! The document store only ever tracks URIs whose path classifies as one of
//! the linter's own formats; everything else is dropped and later lookups
//! report no document. Both stores behave as maps keyed by exact string
//! equality, with an insert replacing the value already there.

use vstd::prelude::*;

use crate::document::{rope_from_str, rope_text};
use crate::text::{has_prefix, has_sub, rfind_char, str_contains, str_eq, str_starts_with};

verus! {

/// What kind of document a URI's path points at.
#[derive(Debug, Clone, Copy, PartialEq, Eq, Structural)]
pub enum DocKind {
    /// A linter configuration file.
    Ini,
    /// A rule definition under the configured style root.
    Rule,
    /// Anything else; such documents are not tracked.
    Untracked,
}

/// The suffix of a path after its final dot, or the whole path when it has
/// none: what `str::split('.').last()` yields.
pub open spec fn spec_ext(p: Seq<char>) -> Seq<char> {
    p.subrange(rfind_char(p, '.') + 1, p.len() as int)
}

/// How a path classifies: a configuration file wherever the reserved
/// configuration name appears in it; a rule when it has the rule suffix and
/// lies under the configured style root; untracked otherwise.
pub open spec fn spec_classify(path: Seq<char>, styles_root: Option<Seq<char>>) -> DocKind {
    if has_sub(path, ".vale.ini"@) {
        DocKind::Ini
    } else if spec_ext(path) == "yml"@ && styles_root is Some && has_prefix(
        path,
        styles_root->0,
    ) {
        DocKind::Rule
    } else {
        DocKind::Untracked
    }
}

/// Classifies a path against the currently configured style root, if one
/// could be resolved.
pub fn classify(path: &str, styles_root: &Option<String>) -> (r: DocKind)
    ensures
        r == spec_classify(
            path@,
            match styles_root {
                Some(s) => Some(s@),
                None => None,
            },
        ),
{
    if str_contains(path, ".vale.ini") {
        return DocKind::Ini;
    }
    let n = path.unicode_len();
    proof {
        crate::text::lemma_rfind_char(path@, '.');
    }
    let ext = match crate::text::str_rfind(path, '.') {
        Some(i) => crate::text::substr(path, i + 1, n),
        None => crate::text::substr(path, 0, n),
    };
    if str_eq(ext.as_str(), "yml") {
        match styles_root {
            Some(root) => {
                if str_starts_with(path, root.as_str()) {
                    return DocKind::Rule;
                }
            },
            None => {},
        }
    }
    DocKind::Untracked
}

/// The map a list of `(uri, document)` entries stands for, later entries
/// overriding earlier ones.
pub open spec fn doc_map(entries: Seq<(String, ropey::Rope)>) -> Map<Seq<char>, Seq<char>>
    decreases entries.len(),
{
    if entries.len() == 0 {
        Map::empty()
    } else {
        doc_map(entries.drop_last()).insert(
            entries.last().0@,
            rope_text(entries.last().1),
        )
    }
}

/// No two entries carry the same URI.
pub open spec fn distinct_keys(entries: Seq<(String, ropey::Rope)>) -> bool {
    forall|i: int, j: int|
        0 <= i < j < entries.len() ==> entries[i].0@ != entries[j].0@
}

proof fn lemma_doc_map_at(entries: Seq<(String, ropey::Rope)>, i: int)
    requires
        distinct_keys(entries),
        0 <= i < entries.len(),
    ensures
        doc_map(entries).contains_key(entries[i].0@),
        doc_map(entries)[entries[i].0@] == rope_text(entries[i].1),
    decreases entries.len(),
{
    if i < entries.len() - 1 {
        lemma_doc_map_at(entries.drop_last(), i);
    }
}

proof fn lemma_doc_map_absent(entries: Seq<(String, ropey::Rope)>, k: Seq<char>)
    requires
        forall|i: int| 0 <= i < entries.len() ==> entries[i].0@ != k,
    ensures
        !doc_map(entries).contains_key(k),
    decreases entries.len(),
{
    if entries.len() > 0 {
        lemma_doc_map_absent(entries.drop_last(), k);
    }
}

proof fn lemma_doc_map_update(entries: Seq<(String, ropey::Rope)>, i: int, e: (String, ropey::Rope))
    requires
        distinct_keys(entries),
        0 <= i < entries.len(),
        e.0@ == entries[i].0@,
    ensures
        doc_map(entries.update(i, e)) == doc_map(entries).insert(e.0@, rope_text(e.1)),
    decreases entries.len(),
{
    let upd = entries.update(i, e);
    if i == entries.len() - 1 {
        assert(upd.drop_last() =~= entries.drop_last());
        assert(doc_map(upd) =~= doc_map(entries).insert(e.0@, rope_text(e.1)));
    } else {
        let last = entries.last();
        assert(upd.drop_last() =~= entries.drop_last().update(i, e));
        lemma_doc_map_update(entries.drop_last(), i, e);
        assert(last.0@ != e.0@);
        assert(doc_map(upd) =~= doc_map(entries).insert(e.0@, rope_text(e.1)));
    }
}

/// The open documents of a session, keyed by URI.
#[derive(Debug)]
pub struct DocumentSession {
    entries: Vec<(String, ropey::Rope)>,
}

impl DocumentSession {
    /// The store is well formed: no URI occurs twice. Every constructor
    /// establishes this and every method keeps it.
    pub closed spec fn wf(&self) -> bool {
        distinct_keys(self.entries@)
    }

    /// A session with no documents.
    pub fn new() -> (r: DocumentSession)
        ensures
            r@ == Map::<Seq<char>, Seq<char>>::empty(),
            r.wf(),
    {
        DocumentSession { entries: Vec::new() }
    }

    /// Stores the full new text of a document, but only when its path
    /// classifies as a tracked kind; an untracked URI leaves the session
    /// unchanged. Returns the classification it went by.
    pub fn update(
        &mut self,
        uri: &str,
        path: &str,
        text: &str,
        styles_root: &Option<String>,
    ) -> (r: DocKind)
        requires
            old(self).wf(),
        ensures
            final(self).wf(),
            r == spec_classify(
                path@,
                match styles_root {
                    Some(s) => Some(s@),
                    None => None,
                },
            ),
            final(self)@ == if r is Untracked {
                old(self)@
            } else {
                old(self)@.insert(uri@, text@)
            },
    {
        let kind = classify(path, styles_root);
        if matches!(kind, DocKind::Untracked) {
            return kind;
        }
        let rope = rope_from_str(text);
        let n = self.entries.len();
        let mut i: usize = 0;
        while i < n
            invariant
                n == self.entries.len(),
                0 <= i <= n,
                self.entries@ == old(self).entries@,
                distinct_keys(self.entries@),
                rope_text(rope) == text@,
                !(kind is Untracked),
                kind == spec_classify(
                    path@,
                    match styles_root {
                        Some(s) => Some(s@),
                        None => None,
                    },
                ),
                forall|k: int| 0 <= k < i ==> self.entries@[k].0@ != uri@,
            decreases n - i,
        {
            if str_eq(self.entries[i].0.as_str(), uri) {
                let ghost before = self.entries@;
                let key = uri.to_owned();
                self.entries.set(i, (key, rope));
                proof {
                    lemma_doc_map_update(before, i as int, self.entries@[i as int]);
                    assert(distinct_keys(self.entries@));
                }
                return kind;
            }
            i += 1;
        }
        let ghost before = self.entries@;
        let key = uri.to_owned();
        self.entries.push((key, rope));
        proof {
            assert(self.entries@.drop_last() =~= before);
            lemma_doc_map_absent(before, uri@);
            assert(doc_map(self.entries@) =~= doc_map(before).insert(uri@, text@));
            assert(distinct_keys(self.entries@));
        }
        kind
    }

    /// The stored document under a URI, if the session tracks one.
    pub fn get_doc(&self, uri: &str) -> (r: Option<&ropey::Rope>)
        requires
            self.wf(),
        ensures
            match r {
                Some(doc) => self@.contains_key(uri@) && rope_text(*doc) == self@[uri@],
                None => !self@.contains_key(uri@),
            },
    {
        let n = self.entries.len();
        let mut i: usize = 0;
        while i < n
            invariant
                n == self.entries.len(),
                0 <= i <= n,
                distinct_keys(self.entries@),
                forall|k: int| 0 <= k < i ==> self.entries@[k].0@ != uri@,
            decreases n - i,
        {
            if str_eq(self.entries[i].0.as_str(), uri) {
                proof {
                    lemma_doc_map_at(self.entries@, i as int);
                }
                return Some(&self.entries[i].1);
            }
            i += 1;
        }
        proof {
            lemma_doc_map_absent(self.entries@, uri@);
        }
        None
    }
}

impl View for DocumentSession {
    type V = Map<Seq<char>, Seq<char>>;

    closed spec fn view(&self) -> Map<Seq<char>, Seq<char>> {
        doc_map(self.entries@)
    }
}

/// One request-scoped setting value, as far as the session reads them:
/// a boolean, a text, or something it has no use for.
#[derive(Debug, Clone)]
pub enum SettingValue {
    Flag(bool),
    Text(String),
    Other,
}

/// Specification view of a [`SettingValue`].
pub ghost enum SettingV {
    Flag(bool),
    Text(Seq<char>),
    Other,
}

impl View for SettingValue {
    type V = SettingV;

    open spec fn view(&self) -> SettingV {
        match self {
            SettingValue::Flag(b) => SettingV::Flag(*b),
            SettingValue::Text(s) => SettingV::Text(s@),
            SettingValue::Other => SettingV::Other,
        }
    }
}

/// The map a list of `(name, value)` entries stands for.
pub open spec fn setting_map(entries: Seq<(String, SettingValue)>) -> Map<Seq<char>, SettingV>
    decreases entries.len(),
{
    if entries.len() == 0 {
        Map::empty()
    } else {
        setting_map(entries.drop_last()).insert(entries.last().0@, entries.last().1@)
    }
}

/// No two entries carry the same name.
pub open spec fn distinct_setting_keys(entries: Seq<(String, SettingValue)>) -> bool {
    forall|i: int, j: int|
        0 <= i < j < entries.len() ==> entries[i].0@ != entries[j].0@
}

proof fn lemma_setting_map_at(entries: Seq<(String, SettingValue)>, i: int)
    requires
        distinct_setting_keys(entries),
        0 <= i < entries.len(),
    ensures
        setting_map(entries).contains_key(entries[i].0@),
        setting_map(entries)[entries[i].0@] == entries[i].1@,
    decreases entries.len(),
{
    if i < entries.len() - 1 {
        lemma_setting_map_at(entries.drop_last(), i);
    }
}

proof fn lemma_setting_map_absent(entries: Seq<(String, SettingValue)>, k: Seq<char>)
    requires
        forall|i: int| 0 <= i < entries.len() ==> entries[i].0@ != k,
    ensures
        !setting_map(entries).contains_key(k),
    decreases entries.len(),
{
    if entries.len() > 0 {
        lemma_setting_map_absent(entries.drop_last(), k);
    }
}

proof fn lemma_setting_map_update(
    entries: Seq<(String, SettingValue)>,
    i: int,
    e: (String, SettingValue),
)
    requires
        distinct_setting_keys(entries),
        0 <= i < entries.len(),
        e.0@ == entries[i].0@,
    ensures
        setting_map(entries.update(i, e)) == setting_map(entries).insert(e.0@, e.1@),
    decreases entries.len(),
{
    let upd = entries.update(i, e);
    if i == entries.len() - 1 {
        assert(upd.drop_last() =~= entries.drop_last());
        assert(setting_map(upd) =~= setting_map(entries).insert(e.0@, e.1@));
    } else {
        assert(upd.drop_last() =~= entries.drop_last().update(i, e));
        lemma_setting_map_update(entries.drop_last(), i, e);
        assert(entries.last().0@ != e.0@);
        assert(setting_map(upd) =~= setting_map(entries).insert(e.0@, e.1@));
    }
}

/// The request-scoped settings of a session, keyed by name; a later write
/// to a name wins.
#[derive(Debug)]
pub struct Settings {
    entries: Vec<(String, SettingValue)>,
}

impl Settings {
    /// The store is well formed: no name occurs twice. Every constructor
    /// establishes this and every method keeps it.
    pub closed spec fn wf(&self) -> bool {
        distinct_setting_keys(self.entries@)
    }

    /// An empty settings store.
    pub fn new() -> (r: Settings)
        ensures
            r@ == Map::<Seq<char>, SettingV>::empty(),
            r.wf(),
    {
        Settings { entries: Vec::new() }
    }

    /// Writes one setting, replacing any value the name already had.
    pub fn set(&mut self, key: &str, value: SettingValue)
        requires
            old(self).wf(),
        ensures
            final(self).wf(),
            final(self)@ == old(self)@.insert(key@, value@),
    {
        let ghost vv = value@;
        let n = self.entries.len();
        let mut i: usize = 0;
        while i < n
            invariant
                n == self.entries.len(),
                0 <= i <= n,
                self.entries@ == old(self).entries@,
                vv == value@,
                distinct_setting_keys(self.entries@),
                forall|k: int| 0 <= k < i ==> self.entries@[k].0@ != key@,
            decreases n - i,
        {
            if str_eq(self.entries[i].0.as_str(), key) {
                let ghost before = self.entries@;
                let k = key.to_owned();
                self.entries.set(i, (k, value));
                proof {
                    lemma_setting_map_update(before, i as int, self.entries@[i as int]);
                    assert(distinct_setting_keys(self.entries@));
                }
                return ;
            }
            i += 1;
        }
        let ghost before = self.entries@;
        let k = key.to_owned();
        self.entries.push((k, value));
        proof {
            assert(self.entries@.drop_last() =~= before);
            lemma_setting_map_absent(before, key@);
            assert(setting_map(self.entries@) =~= setting_map(before).insert(key@, vv));
            assert(distinct_setting_keys(self.entries@));
        }
    }

    /// Reads one setting back.
    pub fn get(&self, key: &str) -> (r: Option<&SettingValue>)
        requires
            self.wf(),
        ensures
            match r {
                Some(v) => self@.contains_key(key@) && self@[key@] == v@,
                None => !self@.contains_key(key@),
            },
    {
        let n = self.entries.len();
        let mut i: usize = 0;
        while i < n
            invariant
                n == self.entries.len(),
                0 <= i <= n,
                distinct_setting_keys(self.entries@),
                forall|k: int| 0 <= k < i ==> self.entries@[k].0@ != key@,
            decreases n - i,
        {
            if str_eq(self.entries[i].0.as_str(), key) {
                proof {
                    lemma_setting_map_at(self.entries@, i as int);
                }
                return Some(&self.entries[i].1);
            }
            i += 1;
        }
        proof {
            lemma_setting_map_absent(self.entries@, key@);
        }
        None
    }

    /// The string value of a setting, or empty when the setting is absent
    /// or not a text.
    pub fn get_string(&self, key: &str) -> (r: String)
        requires
            self.wf(),
        ensures
            r@ == if self@.contains_key(key@) && self@[key@] is Text {
                self@[key@]->Text_0
            } else {
                Seq::<char>::empty()
            },
    {
        match self.get(key) {
            Some(SettingValue::Text(s)) => s.clone(),
            _ => String::new(),
        }
    }

    /// Whether a boolean setting stands at true.
    pub fn flag_is_true(&self, key: &str) -> (r: bool)
        requires
            self.wf(),
        ensures
            r == (self@.contains_key(key@) && self@[key@] == SettingV::Flag(true)),
    {
        match self.get(key) {
            Some(SettingValue::Flag(b)) => *b,
            _ => false,
        }
    }
}

impl View for Settings {
    type V = Map<Seq<char>, SettingV>;

    closed spec fn view(&self) -> Map<Seq<char>, SettingV> {
        setting_map(self.entries@)
    }
}

/// The first place a link's text occurs in a document's lines: the line,
/// and the column of its first occurrence in that line.
pub fn find_link(lines: &Vec<String>, link: &str) -> (r: Option<(usize, usize)>)
    ensures
        match r {
            Some((li, col)) => li < lines.deep_view().len() && crate::text::sub_at(
                lines.deep_view()[li as int],
                link@,
                col as int,
            ) && (forall|k: int|
                0 <= k < li ==> !has_sub(lines.deep_view()[k], link@)) && (forall|c: int|
                0 <= c < col ==> !crate::text::sub_at(lines.deep_view()[li as int], link@, c)),
            None => forall|k: int|
                0 <= k < lines.deep_view().len() ==> !has_sub(lines.deep_view()[k], link@),
        },
{
    let n = lines.len();
    let mut i: usize = 0;
    while i < n
        invariant
            n == lines.len(),
            0 <= i <= n,
            forall|k: int| 0 <= k < i ==> !has_sub(lines.deep_view()[k], link@),
        decreases n - i,
    {
        match crate::text::str_find(lines[i].as_str(), link) {
            Some(col) => {
                return Some((i, col));
            },
            None => {},
        }
        i += 1;
    }
    None
}

} // verus!
