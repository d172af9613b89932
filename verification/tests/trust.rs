use seashell::trust::{
    answer_accepts, check_host, first_step, format_entry, is_valid_entry, on_answer, split_fields,
    HostStatus, TrustStep,
};

const KEY: &str = "AAAAC3NzaC1lZDI1NTE5AAAAIJ";
const OTHER: &str = "AAAAC3NzaC1lZDI1NTE5AAAAXX";
const ED: &str = "ssh-ed25519";
const FINGERPRINT: &str = "SHA256:abcDEF123";

fn words(line: &str) -> Vec<String> {
    let chars: Vec<char> = line.chars().collect();
    split_fields(&chars)
        .iter()
        .map(|w| w.iter().collect())
        .collect()
}

#[test]
fn empty_store_then_trust_then_known() {
    let mut store = String::new();
    // unknown: the user is asked
    assert_eq!(check_host(&store, "10.0.0.5", ED, KEY), HostStatus::Unknown);
    assert_eq!(first_step(&store, "10.0.0.5", ED, KEY), TrustStep::Ask);
    // yes: accept, and one entry to append
    let decision = on_answer("yes\n", FINGERPRINT, "10.0.0.5", ED, KEY);
    assert!(decision.accept);
    let line = decision.append.unwrap();
    assert_eq!(line, format!("10.0.0.5 {} {}\n", ED, KEY));
    store.push_str(&line);
    assert_eq!(store.lines().count(), 1);
    assert!(is_valid_entry(store.lines().next().unwrap(), "10.0.0.5", ED, KEY));
    // the same key again: accepted without a question
    assert_eq!(check_host(&store, "10.0.0.5", ED, KEY), HostStatus::Known);
    assert_eq!(first_step(&store, "10.0.0.5", ED, KEY), TrustStep::Accept);
    // another key for the same address: refused, nothing to append
    assert_eq!(check_host(&store, "10.0.0.5", ED, OTHER), HostStatus::Changed);
    assert_eq!(first_step(&store, "10.0.0.5", ED, OTHER), TrustStep::Refuse);
    assert_eq!(check_host(&store, "10.0.0.5", "ssh-rsa", KEY), HostStatus::Changed);
    // another address is unknown still
    assert_eq!(check_host(&store, "10.0.0.6", ED, KEY), HostStatus::Unknown);
    assert_eq!(check_host(&store, "10.0.0.50", ED, KEY), HostStatus::Unknown);
}

#[test]
fn declined_answer_records_nothing() {
    for answer in ["no", "", "n", "y", "yess", "ye s", "maybe", "SHA256:abc", "\n"] {
        let decision = on_answer(answer, FINGERPRINT, "h", ED, KEY);
        assert!(!decision.accept);
        assert!(decision.append.is_none());
    }
}

#[test]
fn accepted_answers() {
    for answer in ["yes", "YES", "Yes", "yEs", " yes ", "\tyes\r\n", FINGERPRINT, "  SHA256:abcDEF123\n"] {
        assert!(answer_accepts(answer, FINGERPRINT));
    }
    for answer in ["sha256:abcdef123", "yes!", "y e s", "ｙes"] {
        assert!(!answer_accepts(answer, FINGERPRINT));
    }
    // a fingerprint of blanks is never given by a trimmed answer
    assert!(!answer_accepts("  ", "  "));
    assert!(answer_accepts("", ""));
}

#[test]
fn entry_line_format() {
    assert_eq!(format_entry("a", "b", "c"), "a b c\n");
    assert_eq!(format_entry("::1", ED, KEY), format!("::1 {} {}\n", ED, KEY));
    assert_eq!(format_entry("", "", ""), "  \n");
}

#[test]
fn comments_and_blank_lines_are_passed_over() {
    let store = format!(
        "# hosts\n\n   \n  # 10.0.0.5 {ed} {key}\n#10.0.0.5 {ed} {other}\n\t10.0.0.5   {ed}\t{key}  trailing words\n",
        ed = ED,
        key = KEY,
        other = OTHER
    );
    assert_eq!(check_host(&store, "10.0.0.5", ED, KEY), HostStatus::Known);
    assert_eq!(check_host(&store, "#10.0.0.5", ED, OTHER), HostStatus::Unknown);
    assert_eq!(check_host("10.0.0.5 ssh-ed25519", "10.0.0.5", ED, KEY), HostStatus::Unknown);
    assert_eq!(check_host("10.0.0.5", "10.0.0.5", ED, KEY), HostStatus::Unknown);
}

#[test]
fn first_entry_of_an_address_decides() {
    let store = format!("h {ed} {other}\nh {ed} {key}\n", ed = ED, key = KEY, other = OTHER);
    assert_eq!(check_host(&store, "h", ED, KEY), HostStatus::Changed);
    assert_eq!(check_host(&store, "h", ED, OTHER), HostStatus::Known);
    let store = format!("g {ed} {other}\r\nh {ed} {key}", ed = ED, key = KEY, other = OTHER);
    assert_eq!(check_host(&store, "h", ED, KEY), HostStatus::Known);
    assert_eq!(check_host(&store, "g", ED, OTHER), HostStatus::Known);
}

#[test]
fn entry_after_a_text_without_final_line_feed_joins_the_last_line() {
    let mut store = String::from("# no line feed at the end");
    store.push_str(&format_entry("h", ED, KEY));
    assert_eq!(check_host(&store, "h", ED, KEY), HostStatus::Unknown);
}

#[test]
fn valid_entries() {
    assert!(is_valid_entry("h a k", "h", "a", "k"));
    assert!(is_valid_entry("  h  a  k  more", "h", "a", "k"));
    assert!(!is_valid_entry("h a", "h", "a", "k"));
    assert!(!is_valid_entry("h a x", "h", "a", "k"));
    assert!(!is_valid_entry("h x k", "h", "a", "k"));
    assert!(!is_valid_entry("x a k", "h", "a", "k"));
    assert!(!is_valid_entry("#h a k", "#h", "a", "k"));
    assert!(!is_valid_entry("# h a k", "h", "a", "k"));
    assert!(!is_valid_entry("", "", "", ""));
    assert!(!is_valid_entry("h a k", "H", "a", "k"));
}

#[test]
fn fields_agree_with_split_whitespace() {
    for line in [
        "",
        " ",
        "a",
        " a ",
        "a b",
        "a  b\tc\u{a0}d\u{3000}e\u{2003}f\u{85}g\u{1680}h",
        "\u{200b}zero-width is no space",
        "x\u{2028}y\u{2029}z\u{202f}w\u{205f}v\u{0b}u\u{0c}t",
        "ends with space ",
    ] {
        let wanted: Vec<String> = line.split_whitespace().map(String::from).collect();
        assert_eq!(words(line), wanted);
    }
}
