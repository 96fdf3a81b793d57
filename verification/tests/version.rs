use get_3gpp_spec::{parse_version, Version};

fn version(major: u32, minor: u32, editorial: u32) -> Option<Version> {
    Some(Version { major, minor, editorial })
}

#[test]
fn three_character_token() {
    assert_eq!(parse_version("23501-5g1.zip"), version(5, 16, 1));
    assert_eq!(parse_version("5g1"), version(5, 16, 1));
    assert_eq!(parse_version("23501-5G1.zip"), version(5, 16, 1));
    assert_eq!(parse_version("23501-000.zip"), version(0, 0, 0));
    assert_eq!(parse_version("23501-zZ9.zip"), version(35, 35, 9));
    assert_eq!(parse_version("23501-a0A.zip"), version(10, 0, 10));
}

#[test]
fn six_character_token() {
    assert_eq!(parse_version("23501-050100.zip"), version(5, 1, 0));
    assert_eq!(parse_version("050100"), version(5, 1, 0));
    assert_eq!(parse_version("23501-999900.zip"), version(99, 99, 0));
    assert_eq!(parse_version("23501-181200.zip"), version(18, 12, 0));
}

#[test]
fn both_tokens_for_one_version() {
    assert_eq!(parse_version("23501-510.zip"), parse_version("23501-050100.zip"));
}

#[test]
fn other_lengths_give_nothing() {
    assert_eq!(parse_version("23501-5g1a.zip"), None);
    assert_eq!(parse_version("23501-5g1ab.zip"), None);
    assert_eq!(parse_version("23501-5g.zip"), None);
    assert_eq!(parse_version("23501-0501000.zip"), None);
    assert_eq!(parse_version("23501-.zip"), None);
    assert_eq!(parse_version(""), None);
    assert_eq!(parse_version(".zip"), None);
}

#[test]
fn other_characters_give_nothing() {
    assert_eq!(parse_version("23501-5_1.zip"), None);
    assert_eq!(parse_version("23501-5\u{e9}1.zip"), None);
    assert_eq!(parse_version("23501-0501a0.zip"), None);
    assert_eq!(parse_version("23501-+50100.zip"), None);
    assert_eq!(parse_version("23501-05 100.zip"), None);
}

#[test]
fn directories_do_not_count() {
    assert_eq!(parse_version("archive/23_series/23501-5g1.zip"), version(5, 16, 1));
    assert_eq!(parse_version("a-b/5g1.zip"), version(5, 16, 1));
    assert_eq!(parse_version("23501-5g1.zip/"), None);
}

#[test]
fn zip_is_stripped_once_and_in_lower_case() {
    assert_eq!(parse_version("23501-5g1"), version(5, 16, 1));
    assert_eq!(parse_version("23501-5g1.zip.zip"), None);
    assert_eq!(parse_version("23501-5g1.ZIP"), None);
    assert_eq!(parse_version("23501-5g1.txt"), None);
    assert_eq!(parse_version("zip"), version(35, 18, 25));
}

#[test]
fn versions_are_ordered_by_major_minor_editorial() {
    let low = Version { major: 1, minor: 9, editorial: 9 };
    let mid = Version { major: 2, minor: 0, editorial: 5 };
    let high = Version { major: 2, minor: 1, editorial: 0 };
    assert!(low < mid);
    assert!(mid < high);
    assert!(Version { major: 2, minor: 0, editorial: 4 } < mid);
}

#[test]
fn version_parsing_twice_gives_the_same() {
    for name in ["23501-5g1.zip", "23501-050100.zip", "x"] {
        assert_eq!(parse_version(name), parse_version(name));
    }
}
