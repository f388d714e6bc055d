use gallery_core::ident::{new_ulid_to_path, shard_path};

#[test]
fn fetch_test_new_ulid_to_path() {
    let s = shard_path("01JG0M004KYHATX7J2W7MB28X4");
    assert!(s.ends_with(".webp"));
    assert_eq!(s, String::from("01J/G0/M004KYHATX7J2W7MB28X4.webp"));
}

#[test]
fn lib_test_new_ulid_to_path() {
    let s = shard_path("01JG0M004KYHATX7J2W7MB28X4");
    assert!(s.ends_with(".webp"));
    assert_eq!(s, String::from("01J/G0/M004KYHATX7J2W7MB28X4.webp"));
}

#[test]
fn fresh_path_has_fixed_shard_layout() {
    let p = new_ulid_to_path();
    let bytes = p.as_bytes();
    assert_eq!(bytes.len(), 26 + 2 + 5);
    assert_eq!(bytes[3], b'/');
    assert_eq!(bytes[6], b'/');
    assert!(p.ends_with(".webp"));
    for (i, c) in p.chars().enumerate() {
        if i != 3 && i != 6 && i < 28 {
            assert!(c.is_ascii_digit() || (c.is_ascii_uppercase() && !"ILOU".contains(c)));
        }
    }
}

#[test]
fn fresh_paths_differ() {
    let a = new_ulid_to_path();
    let b = new_ulid_to_path();
    assert_ne!(a, b);
}
