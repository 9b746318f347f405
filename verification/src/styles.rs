//! The style-repository indexer.
//!
//! A style root holds style directories (each with rule files), a `Vocab`
//! directory of vocabulary domains, and a reserved configuration directory.
//! The indexer classifies a snapshot of that tree — names and kinds of the
//! root's children and grandchildren, as the caller listed them — into typed
//! entries, and prepares the vocabulary-file edits. Nothing here touches the
//! filesystem: callers list directories and read or write files themselves
//! and hand the text in.

use vstd::prelude::*;

use crate::text::{
    has_prefix, has_suffix, join_lines, lemma_rfind_char, rfind_char, sort_strings, spec_join_nl,
    spec_lines, spec_sort, split_lines, str_eq, str_ends_with, str_rfind, str_starts_with, substr,
};

verus! {

/// The kind of one entry of the style repository.
#[derive(Debug, Clone, Copy, PartialEq, Eq, Structural)]
pub enum EntryType {
    Style,
    Vocab,
    Rule,
}

/// One classified entry of the style repository.
#[derive(Debug, Clone)]
pub struct PathEntry {
    pub name: String,
    pub size: usize,
    pub path: String,
    pub kind: EntryType,
}

/// Specification view of a [`PathEntry`].
pub ghost struct PathEntryV {
    pub name: Seq<char>,
    pub size: int,
    pub path: Seq<char>,
    pub kind: EntryType,
}

impl View for PathEntry {
    type V = PathEntryV;

    open spec fn view(&self) -> PathEntryV {
        PathEntryV { name: self.name@, size: self.size as int, path: self.path@, kind: self.kind }
    }
}

impl DeepView for PathEntry {
    type V = PathEntryV;

    open spec fn deep_view(&self) -> PathEntryV {
        self.view()
    }
}

/// One child of a directory in a snapshot: its name and whether it is
/// itself a directory.
#[derive(Debug, Clone)]
pub struct FsChild {
    pub name: String,
    pub is_dir: bool,
}

/// Specification view of an [`FsChild`].
pub ghost struct FsChildV {
    pub name: Seq<char>,
    pub is_dir: bool,
}

impl View for FsChild {
    type V = FsChildV;

    open spec fn view(&self) -> FsChildV {
        FsChildV { name: self.name@, is_dir: self.is_dir }
    }
}

impl DeepView for FsChild {
    type V = FsChildV;

    open spec fn deep_view(&self) -> FsChildV {
        self.view()
    }
}

/// One immediate child of the style root, together with its own listed
/// children.
#[derive(Debug, Clone)]
pub struct FsDir {
    pub name: String,
    pub is_dir: bool,
    pub children: Vec<FsChild>,
}

/// Specification view of an [`FsDir`].
pub ghost struct FsDirV {
    pub name: Seq<char>,
    pub is_dir: bool,
    pub children: Seq<FsChildV>,
}

impl View for FsDir {
    type V = FsDirV;

    open spec fn view(&self) -> FsDirV {
        FsDirV { name: self.name@, is_dir: self.is_dir, children: self.children.deep_view() }
    }
}

impl DeepView for FsDir {
    type V = FsDirV;

    open spec fn deep_view(&self) -> FsDirV {
        self.view()
    }
}

/// A listing of the style root: its immediate children, each with its own
/// immediate children.
#[derive(Debug, Clone)]
pub struct FsSnapshot {
    pub dirs: Vec<FsDir>,
}

/// `dir` and `name` joined with a single separator.
pub open spec fn child_path(dir: Seq<char>, name: Seq<char>) -> Seq<char> {
    dir + "/"@ + name
}

/// A rule-file name: anything carrying the `.yml` suffix besides a stem.
pub open spec fn yml_name(n: Seq<char>) -> bool {
    n.len() > 4 && has_suffix(n, ".yml"@)
}

/// The rule entries contributed by the children of one style directory, in
/// listed order.
pub open spec fn spec_rules(dir: Seq<char>, cs: Seq<FsChildV>) -> Seq<PathEntryV>
    decreases cs.len(),
{
    if cs.len() == 0 {
        Seq::empty()
    } else {
        let rest = spec_rules(dir, cs.drop_last());
        let c = cs.last();
        if !c.is_dir && yml_name(c.name) {
            rest.push(
                PathEntryV {
                    name: c.name,
                    size: 0,
                    path: child_path(dir, c.name),
                    kind: EntryType::Rule,
                },
            )
        } else {
            rest
        }
    }
}

/// The vocabulary entries contributed by the children of the `Vocab`
/// directory: one per subdirectory, in listed order.
pub open spec fn spec_vocab(dir: Seq<char>, cs: Seq<FsChildV>) -> Seq<PathEntryV>
    decreases cs.len(),
{
    if cs.len() == 0 {
        Seq::empty()
    } else {
        let rest = spec_vocab(dir, cs.drop_last());
        let c = cs.last();
        if c.is_dir {
            rest.push(
                PathEntryV {
                    name: c.name,
                    size: 0,
                    path: child_path(dir, c.name),
                    kind: EntryType::Vocab,
                },
            )
        } else {
            rest
        }
    }
}

/// What one immediate child of the root contributes to the index.
pub open spec fn spec_entries_for(root: Seq<char>, d: FsDirV) -> Seq<PathEntryV> {
    if d.name == ".vale-config"@ {
        Seq::empty()
    } else if d.name == "Vocab"@ && d.is_dir {
        spec_vocab(child_path(root, d.name), d.children)
    } else if d.is_dir {
        seq![
            PathEntryV {
                name: d.name,
                size: d.children.len() as int,
                path: child_path(root, d.name),
                kind: EntryType::Style,
            },
        ] + spec_rules(child_path(root, d.name), d.children)
    } else {
        Seq::empty()
    }
}

/// The whole index of a snapshot, in listed order.
pub open spec fn spec_index(root: Seq<char>, dirs: Seq<FsDirV>) -> Seq<PathEntryV>
    decreases dirs.len(),
{
    if dirs.len() == 0 {
        Seq::empty()
    } else {
        spec_index(root, dirs.drop_last()) + spec_entries_for(root, dirs.last())
    }
}

/// The entries of `s` whose kind is `k`, in order.
pub open spec fn spec_of_kind(s: Seq<PathEntryV>, k: EntryType) -> Seq<PathEntryV>
    decreases s.len(),
{
    if s.len() == 0 {
        Seq::empty()
    } else {
        let rest = spec_of_kind(s.drop_last(), k);
        if s.last().kind == k {
            rest.push(s.last())
        } else {
            rest
        }
    }
}

/// The entry standing for the linter's bundled default style.
pub open spec fn builtin_style() -> PathEntryV {
    PathEntryV { name: "Vale"@, size: 4, path: Seq::empty(), kind: EntryType::Style }
}

/// The configured style root, and the classification of snapshots of it.
#[derive(Debug, Clone)]
pub struct StylesPath {
    root: String,
}

/// `dir` joined to `name` with a single separator, in executable form.
pub fn join_path(dir: &str, name: &str) -> (r: String)
    ensures
        r@ == child_path(dir@, name@),
{
    let mut out: String = dir.to_owned();
    out.append("/");
    out.append(name);
    out
}

impl StylesPath {
    /// A new indexer over the given root directory.
    pub fn new(root: String) -> (r: StylesPath)
        ensures
            r@ == root@,
    {
        StylesPath { root }
    }

    /// Replaces the root directory.
    pub fn set_path(&mut self, path: String)
        ensures
            final(self)@ == path@,
    {
        self.root = path;
    }

    /// The configured root directory.
    pub fn path(&self) -> (r: String)
        ensures
            r@ == self@,
    {
        self.root.clone()
    }

    /// True if `path` lies under the indexed root.
    pub fn has(&self, path: &str) -> (r: bool)
        ensures
            r == has_prefix(path@, self@),
    {
        str_starts_with(path, self.root.as_str())
    }

    /// Classifies a snapshot of the root into typed entries: vocabulary
    /// domains under `Vocab`, one style per other directory with one rule
    /// per `.yml` file inside it, and nothing for the reserved
    /// configuration directory.
    pub fn index(&self, snap: &FsSnapshot) -> (r: Vec<PathEntry>)
        ensures
            r.deep_view() == spec_index(self@, snap.dirs.deep_view()),
    {
        let mut out: Vec<PathEntry> = Vec::new();
        let ghost dirs = snap.dirs.deep_view();
        let mut i: usize = 0;
        while i < snap.dirs.len()
            invariant
                dirs == snap.dirs.deep_view(),
                0 <= i <= snap.dirs.len(),
                out.deep_view() =~= spec_index(self@, dirs.take(i as int)),
            decreases snap.dirs.len() - i,
        {
            let d = &snap.dirs[i];
            let ghost dv = dirs[i as int];
            let ghost before = out.deep_view();
            if str_eq(d.name.as_str(), ".vale-config") {
                assert(spec_entries_for(self@, dv) =~= Seq::<PathEntryV>::empty());
            } else if str_eq(d.name.as_str(), "Vocab") && d.is_dir {
                let vocab_dir = join_path(self.root.as_str(), d.name.as_str());
                let mut j: usize = 0;
                while j < d.children.len()
                    invariant
                        dv.children == d.children.deep_view(),
                        vocab_dir@ == child_path(self@, dv.name),
                        0 <= j <= d.children.len(),
                        out.deep_view() =~= before + spec_vocab(
                            vocab_dir@,
                            dv.children.take(j as int),
                        ),
                    decreases d.children.len() - j,
                {
                    let c = &d.children[j];
                    proof {
                        assert(dv.children.take(j + 1).drop_last() =~= dv.children.take(j as int));
                    }
                    if c.is_dir {
                        let ghost dv0 = out.deep_view();
                        out.push(
                            PathEntry {
                                name: c.name.clone(),
                                size: 0,
                                path: join_path(vocab_dir.as_str(), c.name.as_str()),
                                kind: EntryType::Vocab,
                            },
                        );
                        proof {
                            assert(out.deep_view() =~= dv0.push(out@[out.len() - 1]@));
                        }
                    }
                    j += 1;
                }
                proof {
                    assert(dv.children.take(d.children.len() as int) =~= dv.children);
                }
            } else if d.is_dir {
                let style_dir = join_path(self.root.as_str(), d.name.as_str());
                let ghost dv0 = out.deep_view();
                out.push(
                    PathEntry {
                        name: d.name.clone(),
                        size: d.children.len(),
                        path: style_dir.clone(),
                        kind: EntryType::Style,
                    },
                );
                let ghost after_style = out.deep_view();
                proof {
                    assert(after_style =~= dv0.push(out@[out.len() - 1]@));
                }
                let mut j: usize = 0;
                while j < d.children.len()
                    invariant
                        dv.children == d.children.deep_view(),
                        style_dir@ == child_path(self@, dv.name),
                        0 <= j <= d.children.len(),
                        out.deep_view() =~= after_style + spec_rules(
                            style_dir@,
                            dv.children.take(j as int),
                        ),
                    decreases d.children.len() - j,
                {
                    let c = &d.children[j];
                    proof {
                        assert(dv.children.take(j + 1).drop_last() =~= dv.children.take(j as int));
                    }
                    if !c.is_dir && str_ends_with(c.name.as_str(), ".yml")
                        && c.name.unicode_len() > 4 {
                        let ghost dv1 = out.deep_view();
                        out.push(
                            PathEntry {
                                name: c.name.clone(),
                                size: 0,
                                path: join_path(style_dir.as_str(), c.name.as_str()),
                                kind: EntryType::Rule,
                            },
                        );
                        proof {
                            assert(out.deep_view() =~= dv1.push(out@[out.len() - 1]@));
                        }
                    }
                    j += 1;
                }
                proof {
                    assert(dv.children.take(d.children.len() as int) =~= dv.children);
                }
            }
            proof {
                assert(dirs.take(i + 1).drop_last() =~= dirs.take(i as int));
                assert(out.deep_view() =~= before + spec_entries_for(self@, dv));
            }
            i += 1;
        }
        proof {
            assert(dirs.take(snap.dirs.len() as int) =~= dirs);
        }
        out
    }

    /// The indexed entries of one kind, in index order.
    pub fn get(&self, snap: &FsSnapshot, kind: &EntryType) -> (r: Vec<PathEntry>)
        ensures
            r.deep_view() == spec_of_kind(spec_index(self@, snap.dirs.deep_view()), *kind),
    {
        let idx = self.index(snap);
        let ghost all = idx.deep_view();
        let mut out: Vec<PathEntry> = Vec::new();
        let mut i: usize = 0;
        while i < idx.len()
            invariant
                all == idx.deep_view(),
                0 <= i <= idx.len(),
                out.deep_view() =~= spec_of_kind(all.take(i as int), *kind),
            decreases idx.len() - i,
        {
            proof {
                assert(all.take(i + 1).drop_last() =~= all.take(i as int));
            }
            if idx[i].kind == *kind {
                let ghost dv0 = out.deep_view();
                let e = &idx[i];
                out.push(
                    PathEntry {
                        name: e.name.clone(),
                        size: e.size,
                        path: e.path.clone(),
                        kind: e.kind,
                    },
                );
                proof {
                    assert(out.deep_view() =~= dv0.push(all[i as int]));
                }
            }
            i += 1;
        }
        proof {
            assert(all.take(idx.len() as int) =~= all);
        }
        out
    }

    /// How many entries of the given kind the snapshot holds.
    pub fn count(&self, snap: &FsSnapshot, kind: &EntryType) -> (r: usize)
        ensures
            r == spec_of_kind(spec_index(self@, snap.dirs.deep_view()), *kind).len(),
    {
        let found = self.get(snap, kind);
        found.len()
    }

    /// The vocabulary entries of the snapshot.
    pub fn get_vocab(&self, snap: &FsSnapshot) -> (r: Vec<PathEntry>)
        ensures
            r.deep_view() == spec_of_kind(
                spec_index(self@, snap.dirs.deep_view()),
                EntryType::Vocab,
            ),
    {
        self.get(snap, &EntryType::Vocab)
    }

    /// The style entries of the snapshot, with the built-in default style
    /// first.
    pub fn get_styles(&self, snap: &FsSnapshot) -> (r: Vec<PathEntry>)
        ensures
            r.deep_view() == seq![builtin_style()] + spec_of_kind(
                spec_index(self@, snap.dirs.deep_view()),
                EntryType::Style,
            ),
    {
        let mut out: Vec<PathEntry> = Vec::new();
        out.push(
            PathEntry {
                name: String::from_str("Vale"),
                size: 4,
                path: String::new(),
                kind: EntryType::Style,
            },
        );
        let mut rest = self.get(snap, &EntryType::Style);
        let ghost restv = rest.deep_view();
        let ghost first = out.deep_view();
        let mut i: usize = 0;
        while i < rest.len()
            invariant
                restv == rest.deep_view(),
                0 <= i <= rest.len(),
                out.deep_view() =~= first + restv.take(i as int),
            decreases rest.len() - i,
        {
            let ghost dv0 = out.deep_view();
            let e = &rest[i];
            out.push(
                PathEntry {
                    name: e.name.clone(),
                    size: e.size,
                    path: e.path.clone(),
                    kind: e.kind.clone(),
                },
            );
            proof {
                assert(out.deep_view() =~= dv0.push(restv[i as int]));
                assert(restv.take(i + 1) =~= restv.take(i as int).push(restv[i as int]));
            }
            i += 1;
        }
        proof {
            assert(restv.take(rest.len() as int) =~= restv);
            assert(first =~= seq![builtin_style()]);
        }
        out
    }

    /// The name of the entry a path points at: what follows the final
    /// separator.
    pub fn entry_name(&self, path: &str) -> (r: String)
        ensures
            ({
                let p = path@;
                let i = rfind_char(p, '/');
                r@ == p.subrange(i + 1, p.len() as int)
            }),
    {
        let n = path.unicode_len();
        proof {
            lemma_rfind_char(path@, '/');
        }
        match str_rfind(path, '/') {
            Some(i) => substr(path, i + 1, n),
            None => substr(path, 0, n),
        }
    }

    /// The file a vocabulary term goes into: `accept.txt` or `reject.txt`
    /// under the domain's directory.
    pub fn vocab_file(&self, name: &str, accept: bool) -> (r: String)
        ensures
            r@ == child_path(
                child_path(child_path(self@, "Vocab"@), name@),
                if accept {
                    "accept.txt"@
                } else {
                    "reject.txt"@
                },
            ),
    {
        let dir = join_path(join_path(self.root.as_str(), "Vocab").as_str(), name);
        if accept {
            join_path(dir.as_str(), "accept.txt")
        } else {
            join_path(dir.as_str(), "reject.txt")
        }
    }

    /// The accept-list of `name` with `term` appended and every line put in
    /// sorted order: returns the file to write and its new content.
    pub fn add_to_accept(&self, name: &str, term: &str, current: &str) -> (r: (String, String))
        ensures
            r.0@ == child_path(child_path(child_path(self@, "Vocab"@), name@), "accept.txt"@),
            r.1@ == spec_join_nl(spec_sort(spec_lines(current@).push(term@))),
    {
        (self.vocab_file(name, true), rewrite_vocab(current, term))
    }

    /// The reject-list of `name` with `term` appended and every line put in
    /// sorted order: returns the file to write and its new content.
    pub fn add_to_reject(&self, name: &str, term: &str, current: &str) -> (r: (String, String))
        ensures
            r.0@ == child_path(child_path(child_path(self@, "Vocab"@), name@), "reject.txt"@),
            r.1@ == spec_join_nl(spec_sort(spec_lines(current@).push(term@))),
    {
        (self.vocab_file(name, false), rewrite_vocab(current, term))
    }
}

impl View for StylesPath {
    type V = Seq<char>;

    closed spec fn view(&self) -> Seq<char> {
        self.root@
    }
}

/// The new content of a vocabulary file once `term` joins it: the old lines
/// plus the term, sorted.
pub fn rewrite_vocab(current: &str, term: &str) -> (r: String)
    ensures
        r@ == spec_join_nl(spec_sort(spec_lines(current@).push(term@))),
{
    let mut lines = split_lines(current);
    let ghost lv = lines.deep_view();
    lines.push(term.to_owned());
    proof {
        assert(lines.deep_view() =~= lv.push(term@));
    }
    sort_strings(&mut lines);
    join_lines(&lines)
}

} // verus!
