//! Tests of document tracking, classification, and token lookups.

use ropey::Rope;
use vale_ls::document::{doc_lines, position_to_range, range_to_token, token_bounds};
use vale_ls::protocol::{Position, Range};
use vale_ls::session::{classify, find_link, DocKind, DocumentSession, SettingValue, Settings};

#[test]
fn classify_paths() {
    let root = Some("/ws/styles".to_string());
    assert_eq!(classify("/ws/.vale.ini", &root), DocKind::Ini);
    assert_eq!(classify("/ws/sub/.vale.ini", &None), DocKind::Ini);
    assert_eq!(classify("/ws/styles/S/rule.yml", &root), DocKind::Rule);
    assert_eq!(classify("/elsewhere/rule.yml", &root), DocKind::Untracked);
    assert_eq!(classify("/ws/styles/S/rule.yml", &None), DocKind::Untracked);
    assert_eq!(classify("/ws/readme.md", &root), DocKind::Untracked);
}

#[test]
fn session_tracks_only_classified() {
    let root = Some("/ws/styles".to_string());
    let mut s = DocumentSession::new();

    let kind = s.update("file:///ws/.vale.ini", "/ws/.vale.ini", "MinAlertLevel = suggestion", &root);
    assert_eq!(kind, DocKind::Ini);
    assert!(s.get_doc("file:///ws/.vale.ini").is_some());

    let kind = s.update("file:///ws/notes.txt", "/ws/notes.txt", "hello", &root);
    assert_eq!(kind, DocKind::Untracked);
    assert!(s.get_doc("file:///ws/notes.txt").is_none());

    // a second update replaces the stored text wholesale
    s.update("file:///ws/.vale.ini", "/ws/.vale.ini", "StylesPath = styles", &root);
    let doc = s.get_doc("file:///ws/.vale.ini").unwrap();
    let lines = doc_lines(doc);
    assert_eq!(lines, vec!["StylesPath = styles".to_string()]);
}

#[test]
fn token_bounds_expands_to_whitespace() {
    // cursor on the V of Vale: the token covers columns 16..20
    let line = "BasedOnStyles = Vale";
    assert_eq!(token_bounds(line, 16), Some((16, 20)));
    // repeating the identical call yields the identical answer
    assert_eq!(token_bounds(line, 16), Some((16, 20)));
    // a cursor with whitespace on both sides finds no token
    assert_eq!(token_bounds("a b c", 2), None);
    // sitting on a space with a word to the right drags the range right
    assert_eq!(token_bounds("a  b c", 2), Some((2, 4)));
    // the single-character token quirk: no movement either way, no token
    assert_eq!(token_bounds("a b", 0), None);
}

#[test]
fn token_bounds_count_characters_not_bytes() {
    let doc = Rope::from_str("a\u{00f1}o nuevo\n");
    let r = position_to_range(&Position { line: 0, character: 1 }, &doc).unwrap();
    assert_eq!(r.start.character, 0);
    assert_eq!(r.end.character, 3);
    assert_eq!(range_to_token(&r, &doc), "a\u{00f1}o");
}

#[test]
fn position_to_range_through_document() {
    let doc = Rope::from_str("BasedOnStyles = Vale\nMinAlertLevel = error\n");
    let r = position_to_range(&Position { line: 0, character: 16 }, &doc).unwrap();
    assert_eq!(r.start, Position { line: 0, character: 16 });
    assert_eq!(r.end, Position { line: 0, character: 20 });
    assert_eq!(range_to_token(&r, &doc), "Vale");

    let r2 = position_to_range(&Position { line: 1, character: 1 }, &doc).unwrap();
    assert_eq!(range_to_token(&r2, &doc), "MinAlertLevel");

    // a position outside the document finds nothing
    assert!(position_to_range(&Position { line: 9, character: 0 }, &doc).is_none());
}

#[test]
fn range_to_token_out_of_bounds_is_empty() {
    let doc = Rope::from_str("short\n");
    let r = Range {
        start: Position { line: 0, character: 2 },
        end: Position { line: 0, character: 99 },
    };
    assert_eq!(range_to_token(&r, &doc), "");
    let r2 = Range {
        start: Position { line: 7, character: 0 },
        end: Position { line: 7, character: 1 },
    };
    assert_eq!(range_to_token(&r2, &doc), "");
}

#[test]
fn document_lines_keep_terminators() {
    let doc = Rope::from_str("one\ntwo");
    assert_eq!(doc_lines(&doc), vec!["one\n".to_string(), "two".to_string()]);
}

#[test]
fn find_link_first_occurrence() {
    let lines = vec![
        "extends: existence".to_string(),
        "link: https://vale.sh/docs".to_string(),
        "again https://vale.sh/docs".to_string(),
    ];
    assert_eq!(find_link(&lines, "https://vale.sh/docs"), Some((1, 6)));
    assert_eq!(find_link(&lines, "absent"), None);
}

#[test]
fn settings_last_write_wins() {
    let mut s = Settings::new();
    assert!(!s.flag_is_true("installVale"));
    s.set("installVale", SettingValue::Flag(true));
    assert!(s.flag_is_true("installVale"));
    s.set("installVale", SettingValue::Flag(false));
    assert!(!s.flag_is_true("installVale"));

    s.set("configPath", SettingValue::Text("/ws/.vale.ini".to_string()));
    assert_eq!(s.get_string("configPath"), "/ws/.vale.ini");
    assert_eq!(s.get_string("missing"), "");
    s.set("configPath", SettingValue::Other);
    assert_eq!(s.get_string("configPath"), "");
}
