//! Aggregation behaviour: parsing real metadata texts and folding their
//! declarations into the association map.

use mime_pick::aggregate::{build_associations, fold_document, Notice, SourceFile};
use mime_pick::assoc::AssocMap;
use mime_pick::document::{Document, Section};

fn file(path: &str, text: &str) -> SourceFile {
    SourceFile { path: path.to_string(), text: text.to_string() }
}

#[test]
fn single_declaration_single_entry() {
    let files = vec![file(
        "/apps/editor.desktop",
        "[Desktop Entry]\nMimeType=text/plain\n",
    )];
    let (map, notes) = build_associations(&files);
    assert_eq!(map.len(), 1);
    assert_eq!(map.key_at(0).as_str(), "text/plain");
    assert_eq!(map.handlers_at(0), &vec!["/apps/editor.desktop".to_string()]);
    assert!(notes.is_empty());
}

#[test]
fn trailing_delimiter_yields_one_association() {
    let files = vec![file(
        "/apps/editor.desktop",
        "[Desktop Entry]\nMimeType=text/plain;\n",
    )];
    let (map, _notes) = build_associations(&files);
    assert_eq!(map.len(), 1);
    assert_eq!(map.key_at(0).as_str(), "text/plain");
    assert_eq!(map.handlers_at(0), &vec!["/apps/editor.desktop".to_string()]);
}

#[test]
fn two_tokens_preserve_order() {
    let files = vec![file(
        "/apps/editor.desktop",
        "[Desktop Entry]\nMimeType=text/plain;application/x-foo\n",
    )];
    let (map, _notes) = build_associations(&files);
    assert_eq!(map.len(), 2);
    assert_eq!(map.key_at(0).as_str(), "text/plain");
    assert_eq!(map.key_at(1).as_str(), "application/x-foo");
    assert_eq!(map.handlers_at(0), &vec!["/apps/editor.desktop".to_string()]);
    assert_eq!(map.handlers_at(1), &vec!["/apps/editor.desktop".to_string()]);
}

#[test]
fn foreign_section_contributes_nothing() {
    let files = vec![file(
        "/apps/odd.desktop",
        "[Desktop Action new]\nMimeType=text/plain;image/png\n",
    )];
    let (map, notes) = build_associations(&files);
    assert_eq!(map.len(), 0);
    assert_eq!(notes.len(), 1);
    match &notes[0] {
        Notice::UnrecognizedSection { path, section } => {
            assert_eq!(path, "/apps/odd.desktop");
            assert_eq!(section, "Desktop Action new");
        }
        other => panic!("unexpected notice {:?}", notice_name(other)),
    }
}

#[test]
fn keys_outside_any_section_report_missing_section() {
    let files = vec![file("/apps/bare.desktop", "MimeType=text/plain\n")];
    let (map, notes) = build_associations(&files);
    assert_eq!(map.len(), 0);
    assert_eq!(notes.len(), 1);
    assert!(matches!(&notes[0], Notice::MissingSection { path } if path == "/apps/bare.desktop"));
}

#[test]
fn entry_section_without_declaration_reports_missing_mime_type() {
    let files = vec![file(
        "/apps/quiet.desktop",
        "[Desktop Entry]\nName=Quiet\n",
    )];
    let (map, notes) = build_associations(&files);
    assert_eq!(map.len(), 0);
    assert_eq!(notes.len(), 1);
    assert!(matches!(&notes[0], Notice::MissingMimeType { path } if path == "/apps/quiet.desktop"));
}

#[test]
fn malformed_file_reports_parse_failure_and_run_continues() {
    let files = vec![
        file("/apps/broken.desktop", "[Desktop Entry\nMimeType=text/plain\n"),
        file("/apps/fine.desktop", "[Desktop Entry]\nMimeType=text/plain\n"),
    ];
    let (map, notes) = build_associations(&files);
    assert_eq!(map.len(), 1);
    assert_eq!(map.handlers_at(0), &vec!["/apps/fine.desktop".to_string()]);
    assert_eq!(notes.len(), 1);
    assert!(matches!(&notes[0], Notice::ParseFailure { path, .. } if path == "/apps/broken.desktop"));
}

#[test]
fn shared_type_collects_candidates_in_discovery_order() {
    let files = vec![
        file("/apps/a.desktop", "[Desktop Entry]\nMimeType=text/plain;\n"),
        file("/apps/b.desktop", "[Desktop Entry]\nMimeType=text/plain;image/png\n"),
    ];
    let (map, notes) = build_associations(&files);
    assert_eq!(map.len(), 2);
    assert_eq!(map.key_at(0).as_str(), "text/plain");
    assert_eq!(
        map.handlers_at(0),
        &vec!["/apps/a.desktop".to_string(), "/apps/b.desktop".to_string()]
    );
    assert_eq!(map.key_at(1).as_str(), "image/png");
    assert_eq!(map.handlers_at(1), &vec!["/apps/b.desktop".to_string()]);
    assert!(notes.is_empty());
    assert_eq!(map.total_candidates(), 3);
}

#[test]
fn every_entry_has_at_least_one_candidate() {
    let files = vec![
        file("/apps/a.desktop", "[Desktop Entry]\nMimeType=text/plain;;image/png;\n"),
        file("/apps/none.desktop", "[Desktop Entry]\nName=NoTypes\n"),
        file("/apps/bad.desktop", "not an ini ["),
    ];
    let (map, _notes) = build_associations(&files);
    for i in 0..map.len() {
        assert!(!map.handlers_at(i).is_empty());
    }
}

#[test]
fn fold_document_built_by_hand() {
    let doc = Document {
        sections: vec![Section {
            name: Some("Desktop Entry".to_string()),
            entries: vec![
                ("Name".to_string(), "Editor".to_string()),
                ("MimeType".to_string(), "text/x-rust;text/x-c".to_string()),
            ],
        }],
    };
    let mut map = AssocMap::new();
    let notes = fold_document(&mut map, &"/apps/editor.desktop".to_string(), &doc);
    assert!(notes.is_empty());
    assert_eq!(map.len(), 2);
    assert_eq!(map.key_at(0).as_str(), "text/x-rust");
    assert_eq!(map.key_at(1).as_str(), "text/x-c");
}

fn notice_name(n: &Notice) -> &'static str {
    match n {
        Notice::ParseFailure { .. } => "ParseFailure",
        Notice::UnrecognizedSection { .. } => "UnrecognizedSection",
        Notice::MissingSection { .. } => "MissingSection",
        Notice::MissingMimeType { .. } => "MissingMimeType",
    }
}
