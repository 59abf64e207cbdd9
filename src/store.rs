//! The trust-store flavours this library knows, and the choice among them.
use vstd::prelude::*;
use crate::error::CaError;

verus! {

/// Number of known trust-store flavours.
pub const FLAVOURS: usize = 5;

/// Where a trust-store flavour keeps its anchors and how its bundle is rebuilt.
#[derive(Debug, Clone)]
pub struct TrustStoreLayout {
    /// Directory that holds one file per trust anchor.
    pub dir: String,
    /// Program that rebuilds the consolidated bundle.
    pub bin: String,
    /// Arguments passed to `bin`, in order.
    pub args: Vec<String>,
    /// File that lists the installed anchor names, where the flavour has one.
    pub registry: Option<String>,
}

/// A layout as plain text values.
pub struct LayoutView {
    pub dir: Seq<char>,
    pub bin: Seq<char>,
    pub args: Seq<Seq<char>>,
    pub registry: Option<Seq<char>>,
}

impl View for TrustStoreLayout {
    type V = LayoutView;

    open spec fn view(&self) -> LayoutView {
        LayoutView {
            dir: self.dir@,
            bin: self.bin@,
            args: self.args@.map_values(|a: String| a@),
            registry: match self.registry {
                Some(r) => Some(r@),
                None => None,
            },
        }
    }
}

/// The anchor directory probed in position `i`, most specific first.
pub open spec fn candidate_dir(i: int) -> Seq<char> {
    if i == 0 {
        "/etc/pki/ca-trust/source/anchors"@
    } else if i == 1 {
        "/usr/share/ca-certificates"@
    } else if i == 2 {
        "/usr/local/share/ca-certificates"@
    } else if i == 3 {
        "/etc/ca-certificates/trust-source/anchors"@
    } else {
        "/usr/share/pki/trust/anchors"@
    }
}

/// The layout bound to the anchor directory in position `i`.
pub open spec fn candidate(i: int) -> LayoutView {
    if i == 0 {
        LayoutView {
            dir: candidate_dir(0),
            bin: "update-ca-trust"@,
            args: seq!["extract"@],
            registry: None,
        }
    } else if i == 1 || i == 2 {
        LayoutView {
            dir: candidate_dir(i),
            bin: "/usr/sbin/update-ca-certificates"@,
            args: seq![],
            registry: Some("/etc/ca-certificates.conf"@),
        }
    } else if i == 3 {
        LayoutView {
            dir: candidate_dir(3),
            bin: "trust"@,
            args: seq!["extract-compat"@],
            registry: None,
        }
    } else {
        LayoutView {
            dir: candidate_dir(4),
            bin: "update-ca-certificates"@,
            args: seq![],
            registry: None,
        }
    }
}

/// Whether position `i` is the first whose directory was found.
pub open spec fn first_present(present: Seq<bool>, i: int) -> bool {
    &&& 0 <= i < FLAVOURS
    &&& i < present.len()
    &&& present[i]
    &&& forall|j: int| 0 <= j < i ==> !present[j]
}

/// Whether none of the probed directories was found.
pub open spec fn none_present(present: Seq<bool>) -> bool {
    forall|j: int| 0 <= j < FLAVOURS && j < present.len() ==> !present[j]
}

/// The anchor directories to probe, in order.
pub fn candidate_dirs() -> (r: Vec<String>)
    ensures
        r@.len() == FLAVOURS,
        forall|i: int| 0 <= i < FLAVOURS ==> #[trigger] r@[i]@ == candidate_dir(i),
{
    let mut r: Vec<String> = Vec::new();
    r.push("/etc/pki/ca-trust/source/anchors".to_owned());
    r.push("/usr/share/ca-certificates".to_owned());
    r.push("/usr/local/share/ca-certificates".to_owned());
    r.push("/etc/ca-certificates/trust-source/anchors".to_owned());
    r.push("/usr/share/pki/trust/anchors".to_owned());
    r
}

fn candidate_layout(i: usize) -> (r: TrustStoreLayout)
    requires
        i < FLAVOURS,
    ensures
        r@ == candidate(i as int),
{
    let dirs = candidate_dirs();
    let dir = dirs[i].clone();
    let mut args: Vec<String> = Vec::new();
    let r = if i == 0 {
        args.push("extract".to_owned());
        TrustStoreLayout { dir, bin: "update-ca-trust".to_owned(), args, registry: None }
    } else if i == 1 || i == 2 {
        TrustStoreLayout {
            dir,
            bin: "/usr/sbin/update-ca-certificates".to_owned(),
            args,
            registry: Some("/etc/ca-certificates.conf".to_owned()),
        }
    } else if i == 3 {
        args.push("extract-compat".to_owned());
        TrustStoreLayout { dir, bin: "trust".to_owned(), args, registry: None }
    } else {
        TrustStoreLayout { dir, bin: "update-ca-certificates".to_owned(), args, registry: None }
    };
    assert(r@.args =~= candidate(i as int).args);
    r
}

/// Chooses the trust-store layout from which of the anchor directories (in the
/// order of `candidate_dirs`) exist: the first one found wins.
pub fn get_trust_store_command(present: &Vec<bool>) -> (r: Result<TrustStoreLayout, CaError>)
    ensures
        r is Err <==> none_present(present@),
        r matches Err(e) ==> e == CaError::UnsupportedPlatform,
        r matches Ok(l) ==> exists|i: int| first_present(present@, i) && l@ == candidate(i),
{
    let mut i: usize = 0;
    while i < FLAVOURS && i < present.len()
        invariant
            forall|j: int| 0 <= j < i ==> !present@[j],
            i <= FLAVOURS,
        decreases FLAVOURS - i,
    {
        if present[i] {
            let l = candidate_layout(i);
            assert(first_present(present@, i as int));
            return Ok(l);
        }
        i = i + 1;
    }
    Err(CaError::UnsupportedPlatform)
}

} // verus!
