//! The name under which a certificate is placed in the anchor directory.
use vstd::prelude::*;
use crate::store::TrustStoreLayout;
use crate::text::{join, join_path, push_char};

verus! {

/// Index of the last `/` in `s`, or -1 when there is none.
pub open spec fn last_slash(s: Seq<char>) -> int
    decreases s.len(),
{
    if s.len() == 0 {
        -1
    } else if s.last() == '/' {
        s.len() - 1
    } else {
        last_slash(s.drop_last())
    }
}

/// The final component of a path, as `Path::file_name` gives it: empty and `.`
/// components are passed over, and a path that ends in `..`, or has no normal
/// component at the end, has none.
pub open spec fn file_name_of(s: Seq<char>) -> Option<Seq<char>>
    decreases s.len() via file_name_of_decreases
{
    let k = last_slash(s);
    let seg = s.subrange(k + 1, s.len() as int);
    if seg.len() == 0 || seg == seq!['.'] {
        if k < 0 {
            None
        } else {
            file_name_of(s.subrange(0, k))
        }
    } else if seg == seq!['.', '.'] {
        None
    } else {
        Some(seg)
    }
}

/// Every space replaced by an underscore.
pub open spec fn underscored(s: Seq<char>) -> Seq<char> {
    s.map_values(|c: char| if c == ' ' { '_' } else { c })
}

pub open spec fn is_pem_at(s: Seq<char>, i: int) -> bool {
    0 <= i && i + 4 <= s.len() && s[i] == '.' && s[i + 1] == 'p' && s[i + 2] == 'e' && s[i + 3]
        == 'm'
}

/// Whether the text ends in the `.pem` extension.
pub open spec fn ends_in_pem(s: Seq<char>) -> bool {
    is_pem_at(s, s.len() - 4)
}

/// A trailing `.pem` extension replaced by `.crt`; any other text unchanged.
pub open spec fn ext_to_crt(s: Seq<char>) -> Seq<char> {
    if ends_in_pem(s) {
        s.subrange(0, s.len() - 4) + seq!['.', 'c', 'r', 't']
    } else {
        s
    }
}

/// The anchor file name for a certificate path: its file name with spaces made
/// underscores and a `.pem` extension made `.crt`.
pub open spec fn anchor_name_of(path: Seq<char>) -> Option<Seq<char>> {
    match file_name_of(path) {
        Some(b) => Some(ext_to_crt(underscored(b))),
        None => None,
    }
}

proof fn lemma_last_slash_bounds(s: Seq<char>)
    ensures
        -1 <= last_slash(s) < s.len(),
    decreases s.len(),
{
    if s.len() > 0 {
        lemma_last_slash_bounds(s.drop_last());
    }
}

#[via_fn]
proof fn file_name_of_decreases(s: Seq<char>) {
    lemma_last_slash_bounds(s);
}

proof fn lemma_last_slash(s: Seq<char>, k: int)
    requires
        -1 <= k < s.len(),
        k >= 0 ==> s[k] == '/',
        forall|j: int| k < j < s.len() ==> s[j] != '/',
    ensures
        last_slash(s) == k,
    decreases s.len(),
{
    if s.len() > 0 && k < s.len() - 1 {
        lemma_last_slash(s.drop_last(), k);
    }
}

/// The final component of a path, when it has one.
pub fn file_name(path: &str) -> (r: Option<String>)
    ensures
        r matches Some(b) ==> file_name_of(path@) == Some(b@),
        r is None ==> file_name_of(path@) is None,
{
    let mut end: usize = path.unicode_len();
    assert(path@.subrange(0, end as int) =~= path@);
    loop
        invariant
            end <= path@.len(),
            file_name_of(path@) == file_name_of(path@.subrange(0, end as int)),
        decreases end,
    {
        let ghost s = path@.subrange(0, end as int);
        let mut k: usize = end;
        while k > 0 && path.get_char(k - 1) != '/'
            invariant
                k <= end <= path@.len(),
                forall|j: int| k <= j < end ==> path@[j] != '/',
            decreases k,
        {
            k = k - 1;
        }
        // `k` is one past the last separator, or 0 when there is none
        proof {
            if k > 0 {
                lemma_last_slash(s, k - 1);
            } else {
                lemma_last_slash(s, -1);
            }
            assert(s.subrange(last_slash(s) + 1, s.len() as int) =~= path@.subrange(
                k as int,
                end as int,
            ));
        }
        let len = end - k;
        let dot = len == 1 && path.get_char(k) == '.';
        let dots = len == 2 && path.get_char(k) == '.' && path.get_char(k + 1) == '.';
        proof {
            let seg = path@.subrange(k as int, end as int);
            if len == 1 {
                if dot {
                    assert(seg =~= seq!['.']);
                } else {
                    assert(seg[0] != seq!['.'][0]);
                }
            } else {
                assert(seg.len() != 1);
            }
            if len == 2 {
                if dots {
                    assert(seg =~= seq!['.', '.']);
                } else {
                    assert(seg[0] != seq!['.', '.'][0] || seg[1] != seq!['.', '.'][1]);
                }
            } else {
                assert(seg.len() != 2);
            }
        }
        if len == 0 || dot {
            if k == 0 {
                return None;
            }
            proof {
                assert(s.subrange(0, k - 1) =~= path@.subrange(0, k - 1));
            }
            end = k - 1;
        } else if dots {
            return None;
        } else {
            return Some(path.substring_char(k, end).to_owned());
        }
    }
}

/// Replaces every space by an underscore.
pub fn underscore_spaces(s: &str) -> (r: String)
    ensures
        r@ == underscored(s@),
{
    let mut r = String::new();
    let n = s.unicode_len();
    let mut i: usize = 0;
    while i < n
        invariant
            n == s@.len(),
            i <= n,
            r@ =~= underscored(s@.subrange(0, i as int)),
        decreases n - i,
    {
        let c = s.get_char(i);
        push_char(&mut r, if c == ' ' { '_' } else { c });
        i = i + 1;
        assert(underscored(s@.subrange(0, i as int)) =~= underscored(s@.subrange(0, i - 1)).push(
            if c == ' ' { '_' } else { c },
        ));
    }
    assert(s@.subrange(0, n as int) =~= s@);
    r
}

/// Replaces a trailing `.pem` extension by `.crt`.
pub fn replace_pem(s: &str) -> (r: String)
    ensures
        r@ == ext_to_crt(s@),
{
    let n = s.unicode_len();
    if n >= 4 && s.get_char(n - 4) == '.' && s.get_char(n - 3) == 'p' && s.get_char(n - 2) == 'e'
        && s.get_char(n - 1) == 'm' {
        let mut r = s.substring_char(0, n - 4).to_owned();
        r.append(".crt");
        proof {
            reveal_strlit(".crt");
            assert(r@ =~= ext_to_crt(s@));
        }
        r
    } else {
        s.to_owned()
    }
}

/// The anchor file name of a certificate path.
pub fn tr_filename(filename: &str) -> (r: String)
    requires
        file_name_of(filename@) is Some,
    ensures
        anchor_name_of(filename@) == Some(r@),
{
    let base = file_name(filename);
    match base {
        Some(b) => {
            let u = underscore_spaces(b.as_str());
            replace_pem(u.as_str())
        },
        None => String::new(),
    }
}

/// Where a certificate path is placed inside the layout's anchor directory.
pub fn template_filename(filename: &str, tsc: &TrustStoreLayout) -> (r: String)
    requires
        file_name_of(filename@) is Some,
    ensures
        anchor_name_of(filename@) matches Some(n) && r@ == join_path(tsc.dir@, n),
{
    let name = tr_filename(filename);
    join(tsc.dir.as_str(), name.as_str())
}

proof fn lemma_file_name_shape(s: Seq<char>)
    ensures
        file_name_of(s) matches Some(b) ==> b.len() > 0 && b != seq!['.'] && b != seq!['.', '.']
            && forall|j: int| 0 <= j < b.len() ==> b[j] != '/',
    decreases s.len(),
{
    lemma_last_slash_bounds(s);
    let k = last_slash(s);
    let seg = s.subrange(k + 1, s.len() as int);
    lemma_after_last_slash(s);
    if seg.len() == 0 || seg == seq!['.'] {
        if k >= 0 {
            lemma_file_name_shape(s.subrange(0, k));
        }
    }
}

proof fn lemma_after_last_slash(s: Seq<char>)
    ensures
        forall|j: int| last_slash(s) < j < s.len() ==> s[j] != '/',
    decreases s.len(),
{
    if s.len() > 0 && s.last() != '/' {
        lemma_after_last_slash(s.drop_last());
        lemma_last_slash_bounds(s.drop_last());
        assert forall|j: int| last_slash(s) < j < s.len() implies s[j] != '/' by {
            if j < s.len() - 1 {
                assert(s[j] == s.drop_last()[j]);
            }
        }
    }
}

/// The anchor name is a fixed point of the transform: applying it to its own
/// result gives that result again, so install and uninstall agree on it.
pub proof fn anchor_name_idempotent(path: Seq<char>)
    requires
        anchor_name_of(path) is Some,
    ensures
        anchor_name_of(anchor_name_of(path)->0) == anchor_name_of(path),
{
    let b = file_name_of(path)->0;
    lemma_file_name_shape(path);
    let u = underscored(b);
    let n = ext_to_crt(u);
    assert forall|j: int| 0 <= j < n.len() implies n[j] != '/' && n[j] != ' ' by {
        if ends_in_pem(u) && j >= n.len() - 4 {
            assert(n[j] == seq!['.', 'c', 'r', 't'][j - (n.len() - 4)]);
        } else {
            assert(n[j] == u[j]);
            assert(u[j] == (if b[j] == ' ' { '_' } else { b[j] }));
        }
    }
    if n.len() == 1 && n == seq!['.'] {
        assert(b =~= seq!['.']);
    }
    if n.len() == 2 && n == seq!['.', '.'] {
        assert(b =~= seq!['.', '.']);
    }
    lemma_last_slash(n, -1);
    assert(n.subrange(0, n.len() as int) =~= n);
    assert(file_name_of(n) == Some(n));
    assert(underscored(n) =~= n);
    if ends_in_pem(u) {
        assert(n[n.len() - 3] == 'c');
    }
    assert(ext_to_crt(n) == n);
}

/// The anchor name holds no newline when the path holds none.
pub proof fn lemma_anchor_plain(path: Seq<char>)
    requires
        anchor_name_of(path) is Some,
        forall|j: int| 0 <= j < path.len() ==> path[j] != '\n',
    ensures
        anchor_name_of(path)->0.len() > 0,
        forall|j: int|
            0 <= j < anchor_name_of(path)->0.len() ==> anchor_name_of(path)->0[j] != '\n',
{
    lemma_file_name_from_path(path);
    let b = file_name_of(path)->0;
    lemma_file_name_shape(path);
    let u = underscored(b);
    let n = ext_to_crt(u);
    assert forall|j: int| 0 <= j < n.len() implies n[j] != '\n' by {
        if ends_in_pem(u) && j >= n.len() - 4 {
            assert(n[j] == seq!['.', 'c', 'r', 't'][j - (n.len() - 4)]);
        } else {
            assert(n[j] == u[j]);
        }
    }
}

proof fn lemma_file_name_from_path(s: Seq<char>)
    ensures
        file_name_of(s) matches Some(b) ==> forall|j: int|
            0 <= j < b.len() ==> exists|i: int| 0 <= i < s.len() && s[i] == #[trigger] b[j],
    decreases s.len(),
{
    lemma_last_slash_bounds(s);
    let k = last_slash(s);
    let seg = s.subrange(k + 1, s.len() as int);
    if seg.len() == 0 || seg == seq!['.'] {
        if k >= 0 {
            let t = s.subrange(0, k);
            lemma_file_name_from_path(t);
            if let Some(b) = file_name_of(t) {
                assert forall|j: int| 0 <= j < b.len() implies exists|i: int|
                    0 <= i < s.len() && s[i] == #[trigger] b[j] by {
                    let i = choose|i: int| 0 <= i < t.len() && t[i] == b[j];
                    assert(s[i] == t[i]);
                }
            }
        }
    } else if seg != seq!['.', '.'] {
        assert forall|j: int| 0 <= j < seg.len() implies exists|i: int|
            0 <= i < s.len() && s[i] == #[trigger] seg[j] by {
            assert(s[k + 1 + j] == seg[j]);
        }
    }
}

} // verus!
