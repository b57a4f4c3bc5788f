use fqdn::name::{LABEL_LIMIT, NAME_LIMIT};
use fqdn::{is_valid_fqdn, FQDN};

/// Labels of `label_len` letters joined by dots, cut to exactly `total` bytes.
fn dotted(label_len: usize, total: usize) -> String {
    let mut s = String::new();
    while s.len() < total {
        if s.len() % (label_len + 1) == label_len {
            s.push('.');
        } else {
            s.push('x');
        }
    }
    s
}

#[test]
fn limits_have_their_values() {
    assert_eq!(LABEL_LIMIT, 62);
    assert_eq!(NAME_LIMIT, 253);
}

#[test]
fn name_of_252_bytes_is_accepted() {
    let s = dotted(60, 252);
    assert_eq!(s.len(), 252);
    assert!(s.is_valid_fqdn());
}

#[test]
fn name_of_253_bytes_is_rejected() {
    let s = dotted(60, 253);
    assert_eq!(s.len(), 253);
    assert!(!s.is_valid_fqdn());
}

#[test]
fn much_longer_name_is_rejected() {
    let s = dotted(10, 1000);
    assert!(!is_valid_fqdn(&s));
}

#[test]
fn label_of_61_bytes_is_accepted() {
    let s = format!("{}.com", "a".repeat(61));
    assert!(s.is_valid_fqdn());
}

#[test]
fn label_of_62_bytes_is_rejected() {
    let s = format!("{}.com", "a".repeat(62));
    assert!(!s.is_valid_fqdn());
}

#[test]
fn long_label_at_the_end_is_rejected() {
    let s = format!("www.{}", "b".repeat(62));
    assert!(!s.is_valid_fqdn());
    let t = format!("www.{}", "b".repeat(61));
    assert!(t.is_valid_fqdn());
}

#[test]
fn long_label_in_the_middle_is_rejected() {
    let s = format!("www.{}.org.", "c".repeat(70));
    assert!(!s.is_valid_fqdn());
}

#[test]
fn single_label_is_accepted() {
    assert!("a".is_valid_fqdn());
    assert!(is_valid_fqdn("localhost"));
}

#[test]
fn empty_labels_are_accepted() {
    assert!(".".is_valid_fqdn());
    assert!("a..b".is_valid_fqdn());
    assert!(".leading".is_valid_fqdn());
    assert!("...".is_valid_fqdn());
}

#[test]
fn label_characters_are_not_checked() {
    assert!("under_score.-hyphen-.sp ace".is_valid_fqdn());
}

#[test]
fn non_ascii_anywhere_is_rejected() {
    assert!(!"example.c\u{f6}m".is_valid_fqdn());
    assert!(!"\u{e9}".is_valid_fqdn());
    assert!(!"caf\u{e9}".is_valid_fqdn());
    assert!(!is_valid_fqdn("\u{1f600}.com"));
}

#[test]
fn long_non_ascii_name_is_rejected() {
    let s = format!("{}\u{e9}", dotted(20, 200));
    assert!(!s.is_valid_fqdn());
}

#[test]
fn repeated_calls_agree() {
    let inputs = ["", "a.b", "Ã¼", "this.is.a.valid.fqdn", "x"];
    for s in inputs.iter() {
        assert_eq!(s.is_valid_fqdn(), s.is_valid_fqdn());
        assert_eq!(s.is_valid_fqdn(), is_valid_fqdn(s));
    }
    let long = dotted(60, 253);
    assert_eq!(long.is_valid_fqdn(), long.is_valid_fqdn());
}

#[test]
fn string_and_str_agree() {
    let owned = String::from("mail.example.org.");
    assert!(owned.is_valid_fqdn());
    assert!(owned.as_str().is_valid_fqdn());
}
