use ca_injector::nss::{certutil_remove_args, nss_targets, nssdbs, profile_pattern};
use ca_injector::{candidate_dirs, get_trust_store_command, CaError};

#[test]
fn first_present_flavour_is_chosen() {
    let l = get_trust_store_command(&vec![false, true, true, false, true]).unwrap();
    assert_eq!(l.dir, "/usr/share/ca-certificates");
    assert_eq!(l.bin, "/usr/sbin/update-ca-certificates");
    assert!(l.args.is_empty());
    assert_eq!(l.registry, Some("/etc/ca-certificates.conf".to_string()));
    let l = get_trust_store_command(&vec![false, false, false, false, true]).unwrap();
    assert_eq!(l.bin, "update-ca-certificates");
    assert_eq!(l.registry, None);
}

#[test]
fn no_flavour_is_unsupported() {
    let r = get_trust_store_command(&vec![false; 5]);
    assert!(matches!(r, Err(CaError::UnsupportedPlatform)));
    assert!(matches!(get_trust_store_command(&vec![]), Err(CaError::UnsupportedPlatform)));
    assert_eq!(candidate_dirs().len(), 5);
}

#[test]
fn database_list_and_filter() {
    let dbs = nssdbs("/home/u", vec!["/home/u/.mozilla/firefox/p".to_string()]);
    assert_eq!(
        dbs,
        vec![
            "/home/u/.mozilla/firefox/p".to_string(),
            "/home/u/.pki/nssdb".to_string(),
            "/home/u/snap/chromium/current/.pki/nssdb".to_string(),
            "/etc/pki/nssdb".to_string(),
        ]
    );
    assert_eq!(profile_pattern("/home/u"), "/home/u/.mozilla/firefox/*");
    let t = nss_targets(&dbs, &vec![true, false, false]);
    assert_eq!(t, vec!["/home/u/.mozilla/firefox/p".to_string()]);
    assert_eq!(certutil_remove_args("d", "n"), vec!["-D", "-d", "d", "-n", "n"]);
}
