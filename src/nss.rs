//! The NSS certificate databases of the current user and the `certutil`
//! commands run against them.
use vstd::prelude::*;
use crate::registry::views;
use crate::text::{join, join_path};

verus! {

/// The home directory, or the filesystem root when none is known.
pub open spec fn home_of(home: Option<Seq<char>>) -> Seq<char> {
    match home {
        Some(h) => h,
        None => "/"@,
    }
}

/// The glob pattern that matches every browser profile under `home`.
pub open spec fn profile_pattern_of(home: Seq<char>) -> Seq<char> {
    join_path(home, ".mozilla/firefox/*"@)
}

/// The databases to try: the profiles found, then the fixed locations.
pub open spec fn databases_of(home: Seq<char>, profiles: Seq<Seq<char>>) -> Seq<Seq<char>> {
    profiles + seq![
        join_path(home, ".pki/nssdb"@),
        join_path(home, "snap/chromium/current/.pki/nssdb"@),
        "/etc/pki/nssdb"@,
    ]
}

/// The databases whose flag says that they are directories; a database
/// without a flag counts as absent.
pub open spec fn existing(dbs: Seq<Seq<char>>, is_dir: Seq<bool>) -> Seq<Seq<char>>
    decreases dbs.len(),
{
    if dbs.len() == 0 {
        dbs
    } else {
        let k = dbs.len() - 1;
        let rest = existing(dbs.drop_last(), is_dir);
        if k < is_dir.len() && is_dir[k] {
            rest.push(dbs[k])
        } else {
            rest
        }
    }
}

/// `certutil` arguments that add `cert` as a trusted CA named `cert` to `db`.
pub open spec fn add_args(db: Seq<char>, cert: Seq<char>) -> Seq<Seq<char>> {
    seq!["-A"@, "-d"@, db, "-t"@, "C,,"@, "-n"@, cert, "-i"@, cert]
}

/// `certutil` arguments that delete the certificate named `cert` from `db`.
pub open spec fn remove_args(db: Seq<char>, cert: Seq<char>) -> Seq<Seq<char>> {
    seq!["-D"@, "-d"@, db, "-n"@, cert]
}

/// The home directory to search, falling back to the filesystem root.
pub fn home_or_root(home: Option<String>) -> (r: String)
    ensures
        r@ == home_of(
            match home {
                Some(h) => Some(h@),
                None => None,
            },
        ),
{
    match home {
        Some(h) => h,
        None => "/".to_owned(),
    }
}

/// The glob pattern for the browser profiles under `home`.
pub fn profile_pattern(home: &str) -> (r: String)
    ensures
        r@ == profile_pattern_of(home@),
{
    join(home, ".mozilla/firefox/*")
}

/// The NSS databases to try for a user: each profile found, then the
/// well-known local and system locations. Neither deduplicated nor filtered.
pub fn nssdbs(home: &str, profiles: Vec<String>) -> (r: Vec<String>)
    ensures
        views(r@) == databases_of(home@, views(profiles@)),
{
    let mut r = profiles;
    r.push(join(home, ".pki/nssdb"));
    r.push(join(home, "snap/chromium/current/.pki/nssdb"));
    r.push("/etc/pki/nssdb".to_owned());
    assert(views(r@) =~= databases_of(home@, views(profiles@)));
    r
}

/// The databases that exist as directories, in their order.
pub fn nss_targets(dbs: &Vec<String>, is_dir: &Vec<bool>) -> (r: Vec<String>)
    ensures
        views(r@) == existing(views(dbs@), is_dir@),
{
    let mut r: Vec<String> = Vec::new();
    let mut i: usize = 0;
    while i < dbs.len()
        invariant
            i <= dbs@.len(),
            views(r@) == existing(views(dbs@).take(i as int), is_dir@),
        decreases dbs.len() - i,
    {
        let ghost t = views(dbs@).take(i + 1);
        assert(t.drop_last() =~= views(dbs@).take(i as int));
        assert(t[i as int] == dbs@[i as int]@);
        if i < is_dir.len() && is_dir[i] {
            r.push(dbs[i].clone());
            assert(views(r@) =~= existing(views(dbs@).take(i as int), is_dir@).push(
                dbs@[i as int]@,
            ));
        }
        i = i + 1;
    }
    assert(views(dbs@).take(dbs@.len() as int) =~= views(dbs@));
    r
}

/// The `certutil` arguments that add the certificate file `cert` to `db`,
/// named by its path as given.
pub fn certutil_add_args(db: &str, cert: &str) -> (r: Vec<String>)
    ensures
        views(r@) == add_args(db@, cert@),
{
    let mut r: Vec<String> = Vec::new();
    r.push("-A".to_owned());
    r.push("-d".to_owned());
    r.push(db.to_owned());
    r.push("-t".to_owned());
    r.push("C,,".to_owned());
    r.push("-n".to_owned());
    r.push(cert.to_owned());
    r.push("-i".to_owned());
    r.push(cert.to_owned());
    assert(views(r@) =~= add_args(db@, cert@));
    r
}

/// The `certutil` arguments that delete the certificate named `cert` from `db`.
pub fn certutil_remove_args(db: &str, cert: &str) -> (r: Vec<String>)
    ensures
        views(r@) == remove_args(db@, cert@),
{
    let mut r: Vec<String> = Vec::new();
    r.push("-D".to_owned());
    r.push("-d".to_owned());
    r.push(db.to_owned());
    r.push("-n".to_owned());
    r.push(cert.to_owned());
    assert(views(r@) =~= remove_args(db@, cert@));
    r
}

/// The databases acted on are exactly those reported as directories: one that
/// is missing is skipped, and every one that exists is kept.
pub proof fn targets_are_existing(dbs: Seq<Seq<char>>, is_dir: Seq<bool>)
    ensures
        forall|j: int|
            0 <= j < dbs.len() && j < is_dir.len() && is_dir[j] ==> existing(dbs, is_dir).contains(
                #[trigger] dbs[j],
            ),
        forall|x: Seq<char>|
            existing(dbs, is_dir).contains(x) ==> exists|j: int|
                0 <= j < dbs.len() && j < is_dir.len() && is_dir[j] && #[trigger] dbs[j] == x,
    decreases dbs.len(),
{
    if dbs.len() > 0 {
        let k = dbs.len() - 1;
        let init = dbs.drop_last();
        let rest = existing(init, is_dir);
        targets_are_existing(init, is_dir);
        assert forall|j: int|
            0 <= j < dbs.len() && j < is_dir.len() && is_dir[j] implies existing(
                dbs,
                is_dir,
            ).contains(#[trigger] dbs[j]) by {
            if j < k {
                assert(init[j] == dbs[j]);
                let i = choose|i: int| 0 <= i < rest.len() && rest[i] == init[j];
                assert(existing(dbs, is_dir)[i] == rest[i]);
            } else {
                assert(existing(dbs, is_dir) == rest.push(dbs[k]));
                assert(existing(dbs, is_dir)[rest.len() as int] == dbs[k]);
            }
        }
        assert forall|x: Seq<char>| existing(dbs, is_dir).contains(x) implies exists|j: int|
            0 <= j < dbs.len() && j < is_dir.len() && is_dir[j] && #[trigger] dbs[j] == x by {
            let e = existing(dbs, is_dir);
            let i = choose|i: int| 0 <= i < e.len() && e[i] == x;
            if i < rest.len() {
                assert(e[i] == rest[i]);
                assert(rest.contains(x));
                let j = choose|j: int|
                    0 <= j < init.len() && j < is_dir.len() && is_dir[j] && #[trigger] init[j]
                        == x;
                assert(dbs[j] == init[j]);
            } else {
                assert(dbs[k] == x);
            }
        }
    }
}

} // verus!
