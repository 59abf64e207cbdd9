use std::collections::HashMap;

use ca_injector::{install_ca, tr_filename, uninstall_ca, Action, CaError, Event, Session};

struct Host {
    dirs: Vec<String>,
    files: HashMap<String, String>,
    rebuild_ok: bool,
    rebuild_starts: bool,
    certutil: bool,
    home: Option<String>,
    profiles: Vec<String>,
    runs: Vec<(String, Vec<String>)>,
    failing_db: Option<String>,
    registry_writable: bool,
    actions: Vec<String>,
}

fn host(dirs: &[&str]) -> Host {
    let mut files = HashMap::new();
    files.insert("/etc/ca-certificates.conf".to_string(), "a.crt\nb.crt\n".to_string());
    Host {
        dirs: dirs.iter().map(|d| d.to_string()).collect(),
        files,
        rebuild_ok: true,
        rebuild_starts: true,
        certutil: true,
        home: Some("/home/u".to_string()),
        profiles: vec![],
        runs: vec![],
        failing_db: None,
        registry_writable: true,
        actions: vec![],
    }
}

fn drive(start: (Session, Action), h: &mut Host) -> Result<(), CaError> {
    let (mut s, mut a) = start;
    loop {
        let ev = match a {
            Action::ProbeDirs(ps) => {
                h.actions.push("probe".to_string());
                Event::Probed(ps.iter().map(|p| h.dirs.contains(p)).collect())
            }
            Action::CopyFile { from, to } => {
                h.actions.push("copy".to_string());
                match h.files.get(&from).cloned() {
                    Some(c) if h.dirs.iter().any(|d| to.starts_with(d.as_str())) => {
                        h.files.insert(to, c);
                        Event::Done(Ok(()))
                    }
                    _ => Event::Done(Err("cannot copy".to_string())),
                }
            }
            Action::RemoveFile(p) => {
                h.actions.push("remove".to_string());
                match h.files.remove(&p) {
                    Some(_) => Event::Done(Ok(())),
                    None => Event::Done(Err("no such file".to_string())),
                }
            }
            Action::ReadFile(p) => match h.files.get(&p) {
                Some(c) => Event::Read(Ok(c.clone())),
                None => Event::Read(Err("unreadable".to_string())),
            },
            Action::ReplaceFile { path, content } => {
                h.actions.push("replace".to_string());
                if h.registry_writable {
                    h.files.insert(path, content);
                    Event::Done(Ok(()))
                } else {
                    Event::Done(Err("read-only".to_string()))
                }
            }
            Action::Run { program, args } => {
                let fails = match &h.failing_db {
                    Some(db) => args.contains(db),
                    None => false,
                };
                h.runs.push((program.clone(), args));
                if program.ends_with("certutil") {
                    if fails {
                        Event::Ran(Err("crashed".to_string()))
                    } else {
                        Event::Ran(Ok(true))
                    }
                } else if h.rebuild_starts {
                    Event::Ran(Ok(h.rebuild_ok))
                } else {
                    Event::Ran(Err("no such program".to_string()))
                }
            }
            Action::Locate(name) => {
                if h.certutil {
                    Event::Located(Ok(format!("/usr/bin/{}", name)))
                } else {
                    Event::Located(Err("not found".to_string()))
                }
            }
            Action::HomeDir => Event::Home(h.home.clone()),
            Action::ListDirs(_) => Event::Listed(h.profiles.clone()),
            Action::Finish(r) => return r,
        };
        a = s.step(ev);
    }
}

#[test]
fn test_install() {
    for filename in vec![
        "test.pem",
        "file with spaces.pem",
        "certificate.crt",
        "this_other_thing.crt",
    ] {
        let mut h = host(&["/usr/share/ca-certificates"]);
        let test_pem = format!("/tmp/dir/{}", filename);
        h.files.insert(test_pem.clone(), "PEM".to_string());
        drive(install_ca(&test_pem), &mut h).unwrap();

        let s = h.files.get("/etc/ca-certificates.conf").unwrap().clone();
        assert!(s.contains(&tr_filename(filename)));
        drive(uninstall_ca(&test_pem), &mut h).unwrap();

        let s = h.files.get("/etc/ca-certificates.conf").unwrap().clone();
        assert!(!s.contains(&tr_filename(filename)));
    }
}

#[test]
fn install_then_uninstall_leaves_nothing() {
    let mut h = host(&["/usr/share/ca-certificates"]);
    h.files.insert("/tmp/my ca.pem".to_string(), "PEM".to_string());
    drive(install_ca("/tmp/my ca.pem"), &mut h).unwrap();
    assert!(h.files.contains_key("/usr/share/ca-certificates/my_ca.crt"));
    assert_eq!(h.files["/etc/ca-certificates.conf"], "a.crt\nb.crt\nmy_ca.crt\n");
    drive(uninstall_ca("/tmp/my ca.pem"), &mut h).unwrap();
    assert!(!h.files.contains_key("/usr/share/ca-certificates/my_ca.crt"));
    assert_eq!(h.files["/etc/ca-certificates.conf"], "a.crt\nb.crt\n");
}

#[test]
fn install_twice_does_not_duplicate() {
    let mut h = host(&["/usr/share/ca-certificates"]);
    h.files.insert("/tmp/c.crt".to_string(), "PEM".to_string());
    drive(install_ca("/tmp/c.crt"), &mut h).unwrap();
    drive(install_ca("/tmp/c.crt"), &mut h).unwrap();
    assert_eq!(h.files["/etc/ca-certificates.conf"], "a.crt\nb.crt\nc.crt\n");
}

#[test]
fn unsupported_platform_changes_nothing() {
    let mut h = host(&[]);
    h.files.insert("/tmp/c.pem".to_string(), "PEM".to_string());
    let before = h.files.clone();
    assert_eq!(drive(install_ca("/tmp/c.pem"), &mut h), Err(CaError::UnsupportedPlatform));
    assert_eq!(h.files, before);
    assert_eq!(h.actions, vec!["probe".to_string()]);
    assert!(h.runs.is_empty());
}

#[test]
fn earliest_flavour_wins() {
    let mut h = host(&["/usr/share/pki/trust/anchors", "/etc/pki/ca-trust/source/anchors"]);
    h.files.insert("/tmp/c.pem".to_string(), "PEM".to_string());
    drive(install_ca("/tmp/c.pem"), &mut h).unwrap();
    assert!(h.files.contains_key("/etc/pki/ca-trust/source/anchors/c.crt"));
    assert!(!h.files.contains_key("/usr/share/pki/trust/anchors/c.crt"));
    assert_eq!(h.runs[0], ("update-ca-trust".to_string(), vec!["extract".to_string()]));
    // this flavour has no registry
    assert_eq!(h.files["/etc/ca-certificates.conf"], "a.crt\nb.crt\n");
}

#[test]
fn nss_databases_get_certutil() {
    let mut h = host(&["/etc/ca-certificates/trust-source/anchors", "/home/u/.pki/nssdb"]);
    h.files.insert("/tmp/c.pem".to_string(), "PEM".to_string());
    drive(install_ca("/tmp/c.pem"), &mut h).unwrap();
    assert_eq!(h.runs.len(), 2);
    assert_eq!(h.runs[0], ("trust".to_string(), vec!["extract-compat".to_string()]));
    let args: Vec<&str> = h.runs[1].1.iter().map(|a| a.as_str()).collect();
    assert_eq!(h.runs[1].0, "/usr/bin/certutil");
    assert_eq!(
        args,
        vec!["-A", "-d", "/home/u/.pki/nssdb", "-t", "C,,", "-n", "/tmp/c.pem", "-i", "/tmp/c.pem"]
    );
    drive(uninstall_ca("/tmp/c.pem"), &mut h).unwrap();
    let args: Vec<&str> = h.runs[3].1.iter().map(|a| a.as_str()).collect();
    assert_eq!(args, vec!["-D", "-d", "/home/u/.pki/nssdb", "-n", "/tmp/c.pem"]);
}

#[test]
fn missing_or_failing_database_does_not_stop_propagation() {
    let mut h = host(&[
        "/usr/share/pki/trust/anchors",
        "/home/u/.mozilla/firefox/main.default",
        "/etc/pki/nssdb",
    ]);
    h.profiles = vec![
        "/home/u/.mozilla/firefox/main.default".to_string(),
        "/home/u/.mozilla/firefox/gone".to_string(),
    ];
    h.failing_db = Some("/home/u/.mozilla/firefox/main.default".to_string());
    h.files.insert("/tmp/c.pem".to_string(), "PEM".to_string());
    assert_eq!(drive(install_ca("/tmp/c.pem"), &mut h), Ok(()));
    let dbs: Vec<String> = h.runs[1..].iter().map(|r| r.1[2].clone()).collect();
    assert_eq!(dbs, vec!["/home/u/.mozilla/firefox/main.default".to_string(), "/etc/pki/nssdb".to_string()]);
}

#[test]
fn missing_home_probes_from_root() {
    let mut h = host(&["/usr/share/pki/trust/anchors", "/.pki/nssdb"]);
    h.home = None;
    h.files.insert("/tmp/c.pem".to_string(), "PEM".to_string());
    drive(install_ca("/tmp/c.pem"), &mut h).unwrap();
    assert_eq!(h.runs.len(), 2);
    assert_eq!(h.runs[1].1[2], "/.pki/nssdb");
}

#[test]
fn copy_failure_is_reported() {
    let mut h = host(&["/usr/share/ca-certificates"]);
    let r = drive(install_ca("/tmp/absent.pem"), &mut h);
    assert!(matches!(r, Err(CaError::CopyFailed(_))));
}

#[test]
fn remove_failure_is_reported() {
    let mut h = host(&["/usr/share/ca-certificates"]);
    let r = drive(uninstall_ca("/tmp/never.pem"), &mut h);
    assert_eq!(r, Err(CaError::FileRemoveFailed("no such file".to_string())));
}

#[test]
fn unreadable_registry_is_reported() {
    let mut h = host(&["/usr/local/share/ca-certificates"]);
    h.files.remove("/etc/ca-certificates.conf");
    h.files.insert("/tmp/c.pem".to_string(), "PEM".to_string());
    let r = drive(install_ca("/tmp/c.pem"), &mut h);
    assert_eq!(r, Err(CaError::RegistryIoError("unreadable".to_string())));
    // the anchor file stays where it was copied
    assert!(h.files.contains_key("/usr/local/share/ca-certificates/c.crt"));
}

#[test]
fn unwritable_registry_is_reported() {
    let mut h = host(&["/usr/share/ca-certificates"]);
    h.registry_writable = false;
    h.files.insert("/tmp/c.pem".to_string(), "PEM".to_string());
    let r = drive(install_ca("/tmp/c.pem"), &mut h);
    assert_eq!(r, Err(CaError::RegistryWriteError("read-only".to_string())));
}

#[test]
fn failed_rebuild_is_reported() {
    let mut h = host(&["/usr/share/ca-certificates"]);
    h.rebuild_ok = false;
    h.files.insert("/tmp/c.pem".to_string(), "PEM".to_string());
    assert_eq!(drive(install_ca("/tmp/c.pem"), &mut h), Err(CaError::RebuildFailed(None)));
    assert!(h.files.contains_key("/usr/share/ca-certificates/c.crt"));
}

#[test]
fn missing_certutil_is_reported() {
    let mut h = host(&["/usr/share/ca-certificates"]);
    h.certutil = false;
    h.files.insert("/tmp/c.pem".to_string(), "PEM".to_string());
    let r = drive(install_ca("/tmp/c.pem"), &mut h);
    assert_eq!(r, Err(CaError::ToolNotFound("not found".to_string())));
    assert_eq!(h.files["/etc/ca-certificates.conf"], "a.crt\nb.crt\nc.crt\n");
}

#[test]
fn unexpected_event_ends_session() {
    let (mut s, _) = install_ca("/tmp/c.pem");
    let a = s.step(Event::Home(None));
    assert!(matches!(a, Action::Finish(Err(CaError::OutOfOrder))));
    assert!(s.is_finished());
}

#[test]
fn rebuild_that_cannot_start_is_reported() {
    let mut h = host(&["/usr/share/pki/trust/anchors"]);
    h.rebuild_starts = false;
    h.files.insert("/tmp/c.pem".to_string(), "PEM".to_string());
    assert_eq!(
        drive(install_ca("/tmp/c.pem"), &mut h),
        Err(CaError::RebuildFailed(Some("no such program".to_string())))
    );
}
