use note_logic::text::contains;
use note_logic::{FfiRequest, Note, NoteManager};

fn is_lower_hex(c: char) -> bool {
    c.is_ascii_digit() || ('a'..='f').contains(&c)
}

#[test]
fn test_create_note() {
    let mut manager = NoteManager::new();
    let note = manager.create_note("Test".to_string(), "Content".to_string());
    assert_eq!(note.title, "Test");
    assert_eq!(note.content, "Content");
}

#[test]
fn test_search_notes() {
    let mut manager = NoteManager::new();
    manager.create_note("Hello World".to_string(), "Test content".to_string());
    manager.create_note("Goodbye".to_string(), "Test content".to_string());

    let results = manager.search_notes("Hello");
    assert_eq!(results.len(), 1);
}

#[test]
fn test_delete_note() {
    let mut manager = NoteManager::new();
    let note = manager.create_note("Test".to_string(), "Content".to_string());
    assert!(manager.delete_note(&note.id));
    assert_eq!(manager.get_all_notes().len(), 0);
}

#[test]
fn new_manager_is_empty() {
    let manager = NoteManager::new();
    assert!(manager.get_all_notes().is_empty());
    assert!(manager.search_notes("").is_empty());
    assert!(manager.get_note("anything").is_none());
}

#[test]
fn created_note_has_uuid_id_and_equal_timestamps() {
    let mut manager = NoteManager::new();
    let note = manager.create_note("T".to_string(), "C".to_string());
    let id: Vec<char> = note.id.chars().collect();
    assert_eq!(id.len(), 36);
    for (i, c) in id.iter().enumerate() {
        if i == 8 || i == 13 || i == 18 || i == 23 {
            assert_eq!(*c, '-');
        } else {
            assert!(is_lower_hex(*c));
        }
    }
    assert_eq!(id[14], '4');
    assert!(matches!(id[19], '8' | '9' | 'a' | 'b'));
    assert_eq!(note.created_at, note.updated_at);
    let ts: Vec<char> = note.created_at.chars().collect();
    let n = ts.len();
    assert!(n >= 25);
    assert!(ts[n - 6] == '+' || ts[n - 6] == '-');
    assert_eq!(ts[n - 3], ':');
    assert!(ts[n - 5].is_ascii_digit() && ts[n - 4].is_ascii_digit());
    assert!(ts[n - 2].is_ascii_digit() && ts[n - 1].is_ascii_digit());
}

#[test]
fn two_created_notes_have_different_ids() {
    let mut manager = NoteManager::new();
    let a = manager.create_note("A".to_string(), "".to_string());
    let b = manager.create_note("B".to_string(), "".to_string());
    assert_ne!(a.id, b.id);
}

#[test]
fn create_note_with_uses_given_id_and_time() {
    let mut manager = NoteManager::new();
    let note = manager.create_note_with(
        "Title".to_string(),
        "Body".to_string(),
        "id-1".to_string(),
        "2024-01-02T03:04:05+00:00".to_string(),
    );
    assert_eq!(note.id, "id-1");
    assert_eq!(note.title, "Title");
    assert_eq!(note.content, "Body");
    assert_eq!(note.created_at, "2024-01-02T03:04:05+00:00");
    assert_eq!(note.updated_at, "2024-01-02T03:04:05+00:00");
    let all = manager.get_all_notes();
    assert_eq!(all.len(), 1);
    assert_eq!(all[0].id, "id-1");
}

#[test]
fn get_note_after_create_returns_it() {
    let mut manager = NoteManager::new();
    manager.create_note("First".to_string(), "one".to_string());
    let note = manager.create_note("Second".to_string(), "two".to_string());
    let found = manager.get_note(&note.id).unwrap();
    assert_eq!(found.id, note.id);
    assert_eq!(found.title, "Second");
    assert_eq!(found.content, "two");
    assert_eq!(found.created_at, note.created_at);
}

#[test]
fn get_note_unknown_id_is_none() {
    let mut manager = NoteManager::new();
    manager.create_note("First".to_string(), "one".to_string());
    assert!(manager.get_note("no-such-id").is_none());
}

#[test]
fn get_note_with_repeated_id_returns_the_first() {
    let mut manager = NoteManager::new();
    manager.create_note_with("a".to_string(), "".to_string(), "x".to_string(), "t1".to_string());
    manager.create_note_with("b".to_string(), "".to_string(), "x".to_string(), "t2".to_string());
    assert_eq!(manager.get_note("x").unwrap().title, "a");
}

#[test]
fn get_all_notes_keeps_creation_order() {
    let mut manager = NoteManager::new();
    manager.create_note("1".to_string(), "".to_string());
    manager.create_note("2".to_string(), "".to_string());
    manager.create_note("3".to_string(), "".to_string());
    let titles: Vec<String> = manager.get_all_notes().into_iter().map(|n| n.title).collect();
    assert_eq!(titles, vec!["1", "2", "3"]);
}

#[test]
fn update_note_revises_title_and_content_only() {
    let mut manager = NoteManager::new();
    let note = manager.create_note("Old".to_string(), "old body".to_string());
    let other = manager.create_note("Other".to_string(), "x".to_string());
    let updated = manager
        .update_note(note.id.clone(), "New".to_string(), "new body".to_string())
        .unwrap();
    assert_eq!(updated.id, note.id);
    assert_eq!(updated.title, "New");
    assert_eq!(updated.content, "new body");
    assert_eq!(updated.created_at, note.created_at);
    let read = manager.get_note(&note.id).unwrap();
    assert_eq!(read.title, "New");
    assert_eq!(read.updated_at, updated.updated_at);
    let untouched = manager.get_note(&other.id).unwrap();
    assert_eq!(untouched.title, "Other");
    assert_eq!(manager.get_all_notes().len(), 2);
    assert_eq!(manager.get_all_notes()[0].id, note.id);
}

#[test]
fn update_note_unknown_id_is_none_and_changes_nothing() {
    let mut manager = NoteManager::new();
    let note = manager.create_note("Keep".to_string(), "me".to_string());
    assert!(manager
        .update_note("missing".to_string(), "X".to_string(), "Y".to_string())
        .is_none());
    let all = manager.get_all_notes();
    assert_eq!(all.len(), 1);
    assert_eq!(all[0].title, "Keep");
    assert_eq!(all[0].updated_at, note.updated_at);
}

#[test]
fn update_note_with_sets_given_time() {
    let mut manager = NoteManager::new();
    manager.create_note_with("a".to_string(), "b".to_string(), "k".to_string(), "t0".to_string());
    let up = manager
        .update_note_with("k".to_string(), "c".to_string(), "d".to_string(), "t1".to_string())
        .unwrap();
    assert_eq!(up.id, "k");
    assert_eq!(up.title, "c");
    assert_eq!(up.content, "d");
    assert_eq!(up.created_at, "t0");
    assert_eq!(up.updated_at, "t1");
    assert!(manager
        .update_note_with("z".to_string(), "c".to_string(), "d".to_string(), "t2".to_string())
        .is_none());
}

#[test]
fn update_with_repeated_id_changes_only_the_first() {
    let mut manager = NoteManager::new();
    manager.create_note_with("a".to_string(), "".to_string(), "x".to_string(), "t".to_string());
    manager.create_note_with("b".to_string(), "".to_string(), "x".to_string(), "t".to_string());
    manager.update_note_with("x".to_string(), "A".to_string(), "".to_string(), "u".to_string());
    let all = manager.get_all_notes();
    assert_eq!(all[0].title, "A");
    assert_eq!(all[1].title, "b");
}

#[test]
fn delete_unknown_id_returns_false() {
    let mut manager = NoteManager::new();
    manager.create_note("Stay".to_string(), "".to_string());
    assert!(!manager.delete_note("missing"));
    assert_eq!(manager.get_all_notes().len(), 1);
}

#[test]
fn delete_removes_only_the_first_with_the_id() {
    let mut manager = NoteManager::new();
    manager.create_note_with("a".to_string(), "".to_string(), "x".to_string(), "t".to_string());
    manager.create_note_with("m".to_string(), "".to_string(), "y".to_string(), "t".to_string());
    manager.create_note_with("b".to_string(), "".to_string(), "x".to_string(), "t".to_string());
    assert!(manager.delete_note("x"));
    let titles: Vec<String> = manager.get_all_notes().into_iter().map(|n| n.title).collect();
    assert_eq!(titles, vec!["m", "b"]);
    assert!(manager.delete_note("x"));
    assert!(!manager.delete_note("x"));
    assert_eq!(manager.get_all_notes().len(), 1);
}

#[test]
fn deleted_note_is_no_longer_found() {
    let mut manager = NoteManager::new();
    let a = manager.create_note("A".to_string(), "".to_string());
    let b = manager.create_note("B".to_string(), "".to_string());
    assert!(manager.delete_note(&a.id));
    assert!(manager.get_note(&a.id).is_none());
    assert_eq!(manager.get_note(&b.id).unwrap().title, "B");
}

#[test]
fn search_matches_title_or_content_in_order() {
    let mut manager = NoteManager::new();
    manager.create_note("apple pie".to_string(), "sweet".to_string());
    manager.create_note("bread".to_string(), "made with apple".to_string());
    manager.create_note("soup".to_string(), "salty".to_string());
    let titles: Vec<String> = manager.search_notes("apple").into_iter().map(|n| n.title).collect();
    assert_eq!(titles, vec!["apple pie", "bread"]);
    assert!(manager.search_notes("APPLE").is_empty());
    assert!(manager.search_notes("pie sweet").is_empty());
}

#[test]
fn search_empty_keyword_finds_every_note() {
    let mut manager = NoteManager::new();
    manager.create_note("".to_string(), "".to_string());
    manager.create_note("x".to_string(), "y".to_string());
    assert_eq!(manager.search_notes("").len(), 2);
}

#[test]
fn search_non_ascii_keyword() {
    let mut manager = NoteManager::new();
    manager.create_note("购物清单".to_string(), "牛奶和面包".to_string());
    manager.create_note("工作".to_string(), "会议".to_string());
    let found = manager.search_notes("面包");
    assert_eq!(found.len(), 1);
    assert_eq!(found[0].title, "购物清单");
}

#[test]
fn new_note_is_found_by_its_own_title() {
    let mut manager = NoteManager::new();
    manager.create_note("other".to_string(), "text".to_string());
    let note = manager.create_note("unique title".to_string(), "body".to_string());
    let found = manager.search_notes("unique title");
    assert_eq!(found.last().unwrap().id, note.id);
}

#[test]
fn contains_agrees_with_std() {
    let cases = [
        ("abc", ""),
        ("", ""),
        ("", "a"),
        ("abc", "abc"),
        ("abc", "abcd"),
        ("abcabd", "abd"),
        ("aaab", "aab"),
        ("你好世界", "世界"),
        ("你好世界", "好你"),
        ("Test content", "Hello"),
    ];
    for (hay, needle) in cases {
        assert_eq!(contains(hay, needle), hay.contains(needle), "{:?} {:?}", hay, needle);
    }
}

#[test]
fn note_clone_copies_every_field() {
    let note = Note {
        id: "i".to_string(),
        title: "t".to_string(),
        content: "c".to_string(),
        created_at: "a".to_string(),
        updated_at: "b".to_string(),
    };
    let copy = note.clone();
    assert_eq!(copy.id, "i");
    assert_eq!(copy.title, "t");
    assert_eq!(copy.content, "c");
    assert_eq!(copy.created_at, "a");
    assert_eq!(copy.updated_at, "b");
}

#[test]
fn request_carries_its_parameters() {
    let request = FfiRequest::CreateNote {
        title: "Test".to_string(),
        content: "Content".to_string(),
    };
    match request.clone() {
        FfiRequest::CreateNote { title, content } => {
            assert_eq!(title, "Test");
            assert_eq!(content, "Content");
        }
        _ => panic!("wrong variant"),
    }
    assert!(format!("{:?}", request).contains("CreateNote"));
}
