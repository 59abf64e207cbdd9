use ca_injector::names::{replace_pem, underscore_spaces};
use ca_injector::text::join;
use ca_injector::{file_name, get_trust_store_command, template_filename, tr_filename};

#[test]
fn spaces_and_pem_are_rewritten() {
    assert_eq!(tr_filename("file with spaces.pem"), "file_with_spaces.crt");
    assert_eq!(tr_filename("/some/dir/test.pem"), "test.crt");
    assert_eq!(tr_filename("certificate.crt"), "certificate.crt");
}

#[test]
fn transform_is_idempotent() {
    let once = tr_filename("a b.pem.pem");
    assert_eq!(once, "a_b.pem.crt");
    assert_eq!(tr_filename(&once), once);
}

#[test]
fn file_name_follows_path_rules() {
    assert_eq!(file_name("/a/b/c.pem"), Some("c.pem".to_string()));
    assert_eq!(file_name("a/b/"), Some("b".to_string()));
    assert_eq!(file_name("a/b/."), Some("b".to_string()));
    assert_eq!(file_name("x.pem"), Some("x.pem".to_string()));
    assert_eq!(file_name("/"), None);
    assert_eq!(file_name(""), None);
    assert_eq!(file_name("a/.."), None);
    assert_eq!(file_name("."), None);
}

#[test]
fn only_the_pem_extension_is_rewritten() {
    assert_eq!(replace_pem(".pem.pem"), ".pem.crt");
    assert_eq!(replace_pem("x.pe"), "x.pe");
    assert_eq!(replace_pem("..pemm"), "..pemm");
    assert_eq!(replace_pem(".pem"), ".crt");
    assert_eq!(tr_filename("a.pem.x"), "a.pem.x");
    assert_eq!(tr_filename("x.pemfile"), "x.pemfile");
    assert_eq!(underscore_spaces(" a  b "), "_a__b_");
}

#[test]
fn anchor_path_is_joined() {
    assert_eq!(
        template_filename(
            "/tmp/my ca.pem",
            &get_trust_store_command(&vec![false, true]).unwrap()
        ),
        "/usr/share/ca-certificates/my_ca.crt"
    );
    assert_eq!(join("/", ".pki/nssdb"), "/.pki/nssdb");
    assert_eq!(join("", "x"), "x");
}
