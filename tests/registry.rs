use ca_injector::{append_path, redact_path, registry_lists, split_registry};

#[test]
fn append_then_redact_scenario() {
    let c = append_path("a.crt\nb.crt\n", "c.crt").unwrap();
    assert_eq!(c, "a.crt\nb.crt\nc.crt\n");
    assert_eq!(redact_path(&c, "b.crt"), "a.crt\nc.crt\n");
}

#[test]
fn append_twice_is_append_once() {
    let once = append_path("a.crt\n", "c.crt").unwrap();
    assert_eq!(append_path(&once, "c.crt"), None);
    assert_eq!(append_path("", "c.crt"), Some("c.crt\n".to_string()));
}

#[test]
fn redact_absent_keeps_text() {
    assert_eq!(redact_path("a.crt\nb.crt\n", "z.crt"), "a.crt\nb.crt\n");
    assert_eq!(redact_path("", "z.crt"), "");
}

#[test]
fn redact_removes_duplicates() {
    assert_eq!(redact_path("x\na\nx\nb\nx", "x"), "a\nb");
}

#[test]
fn lines_match_exactly() {
    assert!(registry_lists("a.crt\nb.crt\n", "b.crt"));
    assert!(!registry_lists("a.crt\nb.crt.old\n", "b.crt"));
    assert_eq!(split_registry("a\n\nb"), vec!["a".to_string(), "".to_string(), "b".to_string()]);
    assert_eq!(split_registry(""), vec!["".to_string()]);
}
