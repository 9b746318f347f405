//! Tests of the style-repository indexer and the vocabulary-file logic.

use vale_ls::styles::{EntryType, FsChild, FsDir, FsSnapshot, StylesPath};

fn leaf(name: &str, is_dir: bool) -> FsChild {
    FsChild { name: name.to_string(), is_dir }
}

fn dir(name: &str, children: Vec<FsChild>) -> FsDir {
    FsDir { name: name.to_string(), is_dir: true, children }
}

/// A snapshot shaped like the repository fixture: two style directories
/// holding eight rule files between them, one vocabulary domain, and the
/// reserved configuration directory that must be skipped.
fn fixture() -> FsSnapshot {
    FsSnapshot {
        dirs: vec![
            dir(
                "Google",
                vec![
                    leaf("Acronyms.yml", false),
                    leaf("Colons.yml", false),
                    leaf("Contractions.yml", false),
                    leaf("Ellipses.yml", false),
                    leaf("EmDash.yml", false),
                    leaf("Exclamation.yml", false),
                    leaf("FirstPerson.yml", false),
                ],
            ),
            dir("Test", vec![leaf("Repetition.yml", false)]),
            dir("Vocab", vec![leaf("Basics", true)]),
            dir(".vale-config", vec![leaf("ignored.yml", false)]),
        ],
    }
}

#[test]
fn index() {
    let p = StylesPath::new(".github/styles".to_string());
    let snap = fixture();

    assert_eq!(p.count(&snap, &EntryType::Style), 2);
    assert_eq!(p.count(&snap, &EntryType::Rule), 8);
    assert_eq!(p.count(&snap, &EntryType::Vocab), 1);

    let style = p
        .get_styles(&snap)
        .into_iter()
        .find(|s| s.name == "Test")
        .unwrap();

    assert_eq!(style.name, "Test");
    assert_eq!(style.size, 1);
}

#[test]
fn index_shapes_entries() {
    let p = StylesPath::new("root".to_string());
    let snap = FsSnapshot {
        dirs: vec![
            dir(
                "Style1",
                vec![
                    leaf("A.yml", false),
                    leaf("B.yml", false),
                    leaf("C.yml", false),
                ],
            ),
            dir("Vocab", vec![leaf("Blog", true), leaf("Docs", true)]),
        ],
    };

    // one style of size three plus the built-in entry, three rules, two
    // vocabulary domains
    assert_eq!(p.count(&snap, &EntryType::Style), 1);
    assert_eq!(p.count(&snap, &EntryType::Rule), 3);
    assert_eq!(p.count(&snap, &EntryType::Vocab), 2);

    let styles = p.get_styles(&snap);
    assert_eq!(styles.len(), 2);
    assert_eq!(styles[0].name, "Vale");
    assert_eq!(styles[0].size, 4);
    assert_eq!(styles[0].path, "");
    assert_eq!(styles[1].name, "Style1");
    assert_eq!(styles[1].size, 3);
    assert_eq!(styles[1].path, "root/Style1");

    let rules = p.get(&snap, &EntryType::Rule);
    assert_eq!(rules[0].name, "A.yml");
    assert_eq!(rules[0].path, "root/Style1/A.yml");

    let vocab = p.get_vocab(&snap);
    assert_eq!(vocab.len(), 2);
    assert_eq!(vocab[0].name, "Blog");
    assert_eq!(vocab[1].name, "Docs");
}

#[test]
fn index_skips_files_and_config() {
    let p = StylesPath::new("r".to_string());
    let snap = FsSnapshot {
        dirs: vec![
            FsDir {
                name: "README.md".to_string(),
                is_dir: false,
                children: vec![],
            },
            dir(".vale-config", vec![leaf("x.yml", false)]),
            dir("S", vec![leaf("nested", true), leaf("r.yml", false)]),
        ],
    };
    // the loose file and the reserved directory contribute nothing; the
    // nested directory inside a style is not a rule
    assert_eq!(p.count(&snap, &EntryType::Style), 1);
    assert_eq!(p.count(&snap, &EntryType::Rule), 1);
    assert_eq!(p.count(&snap, &EntryType::Vocab), 0);
}

#[test]
fn vocab_append_to_empty_then_sorted() {
    let p = StylesPath::new("styles".to_string());

    let (path, content) = p.add_to_accept("Basics", "foo", "");
    assert_eq!(path, "styles/Vocab/Basics/accept.txt");
    assert_eq!(content, "foo");

    let (path2, content2) = p.add_to_accept("Basics", "bar", &content);
    assert_eq!(path2, "styles/Vocab/Basics/accept.txt");
    assert_eq!(content2, "bar\nfoo");
}

#[test]
fn vocab_reject_list_sorts_existing_lines() {
    let p = StylesPath::new("s".to_string());
    let (path, content) = p.add_to_reject("Names", "delta", "zulu\nalpha");
    assert_eq!(path, "s/Vocab/Names/reject.txt");
    assert_eq!(content, "alpha\ndelta\nzulu");
}

#[test]
fn vocab_carriage_returns_normalized() {
    // lines read from a file with CRLF endings are split the same way and
    // rejoined with bare newlines
    let p = StylesPath::new("s".to_string());
    let (_, content) = p.add_to_accept("Basics", "c", "a\r\nb");
    assert_eq!(content, "a\nb\nc");
}

#[test]
fn paths_and_names() {
    let mut p = StylesPath::new("a/b".to_string());
    assert_eq!(p.path(), "a/b");
    p.set_path("c".to_string());
    assert_eq!(p.path(), "c");
    assert!(p.has("c/Google/A.yml"));
    assert!(!p.has("d/Google/A.yml"));
    assert_eq!(p.entry_name("x/y/z.yml"), "z.yml");
    assert_eq!(p.entry_name("plain"), "plain");
}
