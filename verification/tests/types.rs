use sandbox::string_map::StringMap;
use sandbox::text::{decimal_text, same_text, text_less, to_chars};
use sandbox::types::{
    ImageRef, SandboxId, SandboxImageDigest, SandboxState, SecretRef, SeedFile,
};

#[test]
fn ids_and_digests_hold_their_text() {
    let id = SandboxId::new("abc");
    assert_eq!(id.as_str(), "abc");
    assert_eq!(id.to_string(), "abc");
    assert!(id.same(&SandboxId::new(String::from("abc"))));
    assert!(!id.same(&SandboxId::new("abd")));
    assert!(id.clone() == id);
    assert_eq!(SandboxImageDigest::new("sha256:1").as_str(), "sha256:1");
    assert_eq!(ImageRef::Tag("t:1".to_string()).as_str(), "t:1");
}

#[test]
fn secrets_are_not_shown() {
    let secret = SecretRef { name: "n".to_string(), key: "k".to_string() };
    assert_eq!(secret.debug_text(), "<redacted>");
}

#[test]
fn states_have_names() {
    assert_eq!(SandboxState::Creating.debug_name(), "Creating");
    assert_eq!(SandboxState::Stopping.debug_name(), "Stopping");
    assert_eq!(SandboxState::Failed.debug_name(), "Failed");
}

#[test]
fn seed_files_are_copied_with_their_bytes() {
    let file = SeedFile {
        path: "/w/a".to_string(),
        contents: bytes::Bytes::from_static(b"\xff\x00x"),
    };
    let copy = file.clone();
    assert_eq!(copy.path, "/w/a");
    assert_eq!(&copy.contents[..], b"\xff\x00x");
}

#[test]
fn a_string_map_is_sorted_and_replaces() {
    let mut map: StringMap<u8> = StringMap::new();
    map.insert("b".to_string(), 1);
    map.insert("a".to_string(), 2);
    map.insert("ab".to_string(), 3);
    map.insert("b".to_string(), 4);
    assert_eq!(map.len(), 3);
    assert_eq!(map.entry(0), ("a", &2));
    assert_eq!(map.entry(1), ("ab", &3));
    assert_eq!(map.entry(2), ("b", &4));
    assert_eq!(map.get("b"), Some(&4));
    assert_eq!(map.get("c"), None);
}

#[test]
fn the_last_pair_of_a_key_counts() {
    let map = StringMap::from_pairs(vec![
        ("k".to_string(), "1".to_string()),
        ("j".to_string(), "2".to_string()),
        ("k".to_string(), "3".to_string()),
    ]);
    assert_eq!(map.len(), 2);
    assert_eq!(map.get("k"), Some(&"3".to_string()));
    assert_eq!(map.copy().get("j"), Some(&"2".to_string()));
}

#[test]
fn text_helpers() {
    assert_eq!(to_chars("aé"), vec!['a', 'é']);
    assert!(same_text("a", "a"));
    assert!(!same_text("a", "b"));
    assert!(text_less("", "a"));
    assert!(text_less("Z", "a"));
    assert!(text_less("a", "aa"));
    assert!(!text_less("b", "ab"));
    assert!(!text_less("a", "a"));
    assert_eq!(decimal_text(0), "0");
    assert_eq!(decimal_text(10), "10");
    assert_eq!(decimal_text(u64::MAX), "18446744073709551615");
}
