use simple_blockchain::utils::{checked_format_hash, format_hash};

#[test]
fn format_hash_keeps_a_short_hash() {
    assert_eq!(format_hash("abcdef", 10), "abcdef");
    assert_eq!(format_hash("abcdef", 6), "abcdef");
    assert_eq!(format_hash("", 0), "");
    assert_eq!(format_hash("abc", 3), "abc");
}

#[test]
fn format_hash_shortens_a_long_hash() {
    let hash = "0a5775ab600be2579df904ccda813bd4e3d3bf5ea74196cfeb4778787657d6f1";
    assert_eq!(format_hash(hash, 16), "0a5775ab...7d6f1");
    assert_eq!(format_hash(hash, 16).len(), 16);
    assert_eq!(format_hash(hash, 63), "0a5775ab600be2579df904ccda813bd...3bf5ea74196cfeb4778787657d6f1");
    assert_eq!(format_hash(hash, 63).len(), 63);
    assert_eq!(format_hash(hash, 64), hash);
}

#[test]
fn format_hash_at_the_smallest_lengths() {
    assert_eq!(format_hash("abcdefgh", 5), "ab...");
    assert_eq!(format_hash("abcdefgh", 6), "abc...");
    assert_eq!(format_hash("abcdefgh", 7), "abc...h");
}

#[test]
fn format_hash_counts_bytes() {
    let text = "ééééé";
    assert_eq!(text.len(), 10);
    assert_eq!(format_hash(text, 9), "éé...é");
    assert_eq!(format_hash(text, 10), text);
}

#[test]
fn checked_format_hash_agrees_where_it_can() {
    let hash = "0a5775ab600be2579df904ccda813bd4e3d3bf5ea74196cfeb4778787657d6f1";
    assert_eq!(checked_format_hash(hash, 16), Some("0a5775ab...7d6f1".to_string()));
    assert_eq!(checked_format_hash(hash, 64), Some(hash.to_string()));
    assert_eq!(checked_format_hash("abc", 4), Some("abc".to_string()));
    assert_eq!(checked_format_hash("abcdefgh", 5), Some("ab...".to_string()));
    assert_eq!(checked_format_hash("ééééé", 9), Some("éé...é".to_string()));
    assert_eq!(checked_format_hash("", 0), Some(String::new()));
}

#[test]
fn checked_format_hash_refuses_what_cannot_be_cut() {
    assert_eq!(checked_format_hash("abcdefgh", 4), None);
    assert_eq!(checked_format_hash("abcdefgh", 0), None);
    assert_eq!(checked_format_hash("ééééé", 7), None);
    assert_eq!(checked_format_hash("ééééé", 8), None);
}
