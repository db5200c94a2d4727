use portier::labels::split_on_dots;
use portier::string_list::{parse_list_line, StringList, StringListEntry};

#[test]
fn entries_from_values() {
    let list = StringList::from(vec![
        "example.com".to_string(),
        "@/etc/tlds.txt".to_string(),
        "".to_string(),
        "@".to_string(),
    ]);
    assert_eq!(list.inner.len(), 4);
    assert!(matches!(&list.inner[0], StringListEntry::Literal(v) if v == "example.com"));
    assert!(matches!(&list.inner[1], StringListEntry::File(p) if p == "/etc/tlds.txt"));
    assert!(matches!(&list.inner[2], StringListEntry::Literal(v) if v.is_empty()));
    assert!(matches!(&list.inner[3], StringListEntry::File(p) if p.is_empty()));
}

#[test]
fn list_lines() {
    assert_eq!(parse_list_line("com"), Some("com".to_string()));
    assert_eq!(parse_list_line("  \t*.kobe.jp  // comment"), Some("*.kobe.jp".to_string()));
    assert_eq!(parse_list_line("// ===BEGIN ICANN DOMAINS==="), None);
    assert_eq!(parse_list_line("# Version 2024"), None);
    assert_eq!(parse_list_line("   "), None);
    assert_eq!(parse_list_line(""), None);
    assert_eq!(parse_list_line("/x"), Some("/x".to_string()));
    assert_eq!(parse_list_line("\u{3000}公司.cn\u{a0}x"), Some("公司.cn".to_string()));
}

#[test]
fn labels_split_on_dots() {
    assert_eq!(split_on_dots("a.b.c"), vec!["a", "b", "c"]);
    assert_eq!(split_on_dots(""), vec![""]);
    assert_eq!(split_on_dots(".com."), vec!["", "com", ""]);
}
