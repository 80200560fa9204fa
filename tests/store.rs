use nexus_core::create::{fresh_note_file_name, new_note, note_file_name};
use nexus_core::errors::NoteError;
use nexus_core::link::{apply_link, resolve_link, resolve_prefix, select_note_names};
use nexus_core::metadata::Metadata;
use nexus_core::note::Note;
use nexus_core::text::{chars_of, ends_with, starts_with};

fn strings(items: &[&str]) -> Vec<String> {
    items.iter().map(|s| s.to_string()).collect()
}

fn target_of(m: &Metadata, branch: &str) -> Option<String> {
    m.prev.iter().find(|(b, _)| b == branch).map(|(_, t)| t.clone())
}

#[test]
fn serialized_note_splits_back_into_document_and_body() {
    let note = new_note("first".to_string(), "hello\nworld\n".to_string());
    let front = "name: first\nhash: abc\nprev: {}\n";
    let text = note.to_string(front);
    assert_eq!(text, "---\nname: first\nhash: abc\nprev: {}\n\n---\nhello\nworld\n");
    let (meta, body) = Note::split_source(&text).unwrap();
    assert_eq!(meta, format!("{}\n", front));
    assert_eq!(body, "hello\nworld\n");
}

#[test]
fn empty_body_round_trips() {
    let note = Note::new(Metadata::new("n".to_string(), &String::new()), String::new());
    let text = note.to_string("name: n");
    let (meta, body) = Note::split_source(&text).unwrap();
    assert_eq!(meta, "name: n\n");
    assert_eq!(body, "");
}

#[test]
fn text_without_second_delimiter_is_rejected() {
    let r = Note::split_source("---\nname: x\nhash: y\nbody");
    assert!(matches!(r, Err(NoteError::Deserialization)));
}

#[test]
fn text_without_delimiters_is_rejected() {
    assert!(matches!(Note::split_source("just a body"), Err(NoteError::Deserialization)));
    assert!(matches!(Note::split_source(""), Err(NoteError::Deserialization)));
}

#[test]
fn body_with_delimiter_line_is_rejected() {
    let r = Note::split_source("---\nname: x\n---\nbody\n---\nmore");
    assert!(matches!(r, Err(NoteError::Deserialization)));
}

#[test]
fn delimiter_needs_its_line_break() {
    let (meta, body) = Note::split_source("---\nname: ---x\n---\nb---").unwrap();
    assert_eq!(meta, "name: ---x\n");
    assert_eq!(body, "b---");
}

#[test]
fn hash_is_sha1_hex_of_body() {
    let m = Metadata::new("n".to_string(), &"abc".to_string());
    assert_eq!(m.hash, "a9993e364706816aba3e25717850c26c9cd0d89d");
    let e = Metadata::new("n".to_string(), &String::new());
    assert_eq!(e.hash, "da39a3ee5e6b4b0d3255bfef95601890afd80709");
    assert_eq!(m.name, "n");
    assert!(m.prev.is_empty());
}

#[test]
fn same_body_same_hash_different_body_different_hash() {
    let a = new_note("a".to_string(), "body".to_string());
    let b = new_note("b".to_string(), "body".to_string());
    let c = new_note("a".to_string(), "body!".to_string());
    assert_eq!(a.metadata.hash, b.metadata.hash);
    assert_ne!(a.metadata.hash, c.metadata.hash);
    assert_eq!(a.contents(), "body");
}

#[test]
fn fresh_file_names_differ_and_end_in_md() {
    let a = fresh_note_file_name();
    let b = fresh_note_file_name();
    assert_ne!(a, b);
    assert!(a.ends_with(".md"));
    assert_eq!(a.len(), 39);
}

#[test]
fn file_name_adds_extension() {
    assert_eq!(note_file_name("abc"), "abc.md");
    assert_eq!(note_file_name(""), ".md");
}

#[test]
fn prefix_resolution_takes_first_match() {
    let names = strings(&["abc123.md", "abcd99.md"]);
    assert_eq!(resolve_prefix(&names, "abc1").unwrap(), "abc123.md");
    assert_eq!(resolve_prefix(&names, "abc").unwrap(), "abc123.md");
    assert_eq!(resolve_prefix(&names, "abcd").unwrap(), "abcd99.md");
    match resolve_prefix(&names, "zzz") {
        Err(NoteError::DoesNotExist(p)) => assert_eq!(p, "zzz"),
        _ => panic!("expected DoesNotExist"),
    }
}

#[test]
fn prefix_resolution_over_no_names_fails() {
    assert!(matches!(resolve_prefix(&Vec::new(), ""), Err(NoteError::DoesNotExist(_))));
}

#[test]
fn link_resolution_reports_the_missing_side() {
    let names = strings(&["abc123.md", "def456.md"]);
    let (s, t) = resolve_link(&names, "abc", "def").unwrap();
    assert_eq!((s.as_str(), t.as_str()), ("abc123.md", "def456.md"));
    match resolve_link(&names, "x", "y") {
        Err(NoteError::DoesNotExist(p)) => assert_eq!(p, "x"),
        _ => panic!("expected DoesNotExist"),
    }
    match resolve_link(&names, "abc", "y") {
        Err(NoteError::DoesNotExist(p)) => assert_eq!(p, "y"),
        _ => panic!("expected DoesNotExist"),
    }
}

#[test]
fn only_md_entries_are_notes() {
    let entries = strings(&["a.md", "tmp", "b.txt", "c.md", "md", ".md"]);
    assert_eq!(select_note_names(&entries), strings(&["a.md", "c.md", ".md"]));
    assert!(select_note_names(&Vec::new()).is_empty());
}

#[test]
fn linking_twice_is_idempotent() {
    let mut note = new_note("n".to_string(), "b".to_string());
    apply_link(&mut note, "t.md".to_string(), Some("main".to_string()));
    apply_link(&mut note, "t.md".to_string(), Some("main".to_string()));
    assert_eq!(note.metadata.prev.len(), 1);
    assert_eq!(target_of(&note.metadata, "main").as_deref(), Some("t.md"));
}

#[test]
fn relinking_a_branch_overwrites_it() {
    let mut note = new_note("n".to_string(), "b".to_string());
    apply_link(&mut note, "old.md".to_string(), Some("main".to_string()));
    apply_link(&mut note, "other.md".to_string(), Some("side".to_string()));
    apply_link(&mut note, "new.md".to_string(), Some("main".to_string()));
    assert_eq!(note.metadata.prev.len(), 2);
    assert_eq!(target_of(&note.metadata, "main").as_deref(), Some("new.md"));
    assert_eq!(target_of(&note.metadata, "side").as_deref(), Some("other.md"));
    assert!(note.metadata.prev.iter().all(|(_, t)| t != "old.md"));
    assert_eq!(note.contents(), "b");
}

#[test]
fn missing_branch_means_default() {
    let mut a = new_note("n".to_string(), "b".to_string());
    let mut b = new_note("n".to_string(), "b".to_string());
    apply_link(&mut a, "t.md".to_string(), None);
    apply_link(&mut b, "t.md".to_string(), Some("default".to_string()));
    assert_eq!(a.metadata.prev, b.metadata.prev);
    assert_eq!(target_of(&a.metadata, "default").as_deref(), Some("t.md"));
}

#[test]
fn metadata_from_parts_keeps_last_target_per_branch() {
    let prev = vec![
        ("a".to_string(), "1.md".to_string()),
        ("b".to_string(), "2.md".to_string()),
        ("a".to_string(), "3.md".to_string()),
    ];
    let m = Metadata::from_parts("n".to_string(), "h".to_string(), prev);
    assert_eq!(m.prev.len(), 2);
    assert_eq!(target_of(&m, "a").as_deref(), Some("3.md"));
    assert_eq!(target_of(&m, "b").as_deref(), Some("2.md"));
    assert_eq!((m.name.as_str(), m.hash.as_str()), ("n", "h"));
}

#[test]
fn insert_prev_adds_new_branch() {
    let mut m = Metadata::new("n".to_string(), &"x".to_string());
    m.insert_prev("dev".to_string(), "d.md".to_string());
    assert_eq!(target_of(&m, "dev").as_deref(), Some("d.md"));
}

#[test]
fn character_helpers() {
    assert_eq!(chars_of("añb"), vec!['a', 'ñ', 'b']);
    assert!(starts_with("abc", "ab"));
    assert!(starts_with("abc", ""));
    assert!(!starts_with("ab", "abc"));
    assert!(!starts_with("abc", "b"));
    assert!(ends_with("x.md", ".md"));
    assert!(!ends_with("md", ".md"));
    assert!(!ends_with("x.mdx", ".md"));
}
