//! The registry: a text file that lists installed anchor names, one per line.
use vstd::prelude::*;
use crate::text::push_char;

verus! {

/// The lines of a text, split at each `\n`; a text always has at least one
/// line, and a text that ends in `\n` has an empty last line.
pub open spec fn split_lines(s: Seq<char>) -> Seq<Seq<char>>
    decreases s.len(),
{
    if s.len() == 0 {
        seq![Seq::<char>::empty()]
    } else {
        let init = split_lines(s.drop_last());
        if s.last() == '\n' {
            init.push(Seq::<char>::empty())
        } else {
            init.update(init.len() - 1, init.last().push(s.last()))
        }
    }
}

/// Lines put back together with `\n` between them.
pub open spec fn join_lines(ls: Seq<Seq<char>>) -> Seq<char>
    decreases ls.len(),
{
    if ls.len() == 0 {
        Seq::<char>::empty()
    } else if ls.len() == 1 {
        ls[0]
    } else {
        join_lines(ls.drop_last()) + seq!['\n'] + ls.last()
    }
}

/// The lines other than `name`, in their order.
pub open spec fn without(ls: Seq<Seq<char>>, name: Seq<char>) -> Seq<Seq<char>>
    decreases ls.len(),
{
    if ls.len() == 0 {
        ls
    } else if ls.last() == name {
        without(ls.drop_last(), name)
    } else {
        without(ls.drop_last(), name).push(ls.last())
    }
}

/// Whether some line of the registry is exactly `name`.
pub open spec fn lists(content: Seq<char>, name: Seq<char>) -> bool {
    split_lines(content).contains(name)
}

/// The registry after adding `name`: unchanged when it is listed already,
/// else `name` and a newline after the existing text.
pub open spec fn appended(content: Seq<char>, name: Seq<char>) -> Seq<char> {
    if lists(content, name) {
        content
    } else {
        content + name + seq!['\n']
    }
}

/// The registry after removing every line that is exactly `name`.
pub open spec fn redacted(content: Seq<char>, name: Seq<char>) -> Seq<char> {
    join_lines(without(split_lines(content), name))
}

pub open spec fn views(v: Seq<String>) -> Seq<Seq<char>> {
    v.map_values(|l: String| l@)
}

pub proof fn lemma_split_nonempty(s: Seq<char>)
    ensures
        split_lines(s).len() >= 1,
    decreases s.len(),
{
    if s.len() > 0 {
        lemma_split_nonempty(s.drop_last());
    }
}

/// Splits a text into its lines.
pub fn split_registry(content: &str) -> (r: Vec<String>)
    ensures
        views(r@) == split_lines(content@),
{
    let mut lines: Vec<String> = Vec::new();
    let mut cur = String::new();
    let n = content.unicode_len();
    let mut i: usize = 0;
    assert(content@.take(0) =~= Seq::<char>::empty());
    while i < n
        invariant
            n == content@.len(),
            i <= n,
            views(lines@).push(cur@) == split_lines(content@.take(i as int)),
        decreases n - i,
    {
        let c = content.get_char(i);
        let ghost prev = content@.take(i as int);
        proof {
            lemma_split_nonempty(prev);
        }
        assert(content@.take(i + 1).drop_last() =~= prev);
        if c == '\n' {
            let done = cur;
            lines.push(done);
            cur = String::new();
            assert(views(lines@).push(cur@) =~= split_lines(prev).push(Seq::<char>::empty()));
        } else {
            let ghost before = cur@;
            push_char(&mut cur, c);
            assert(views(lines@).push(cur@) =~= split_lines(prev).update(
                split_lines(prev).len() - 1,
                before.push(c),
            ));
        }
        i = i + 1;
    }
    assert(content@.take(n as int) =~= content@);
    lines.push(cur);
    assert(views(lines@) =~= split_lines(content@));
    lines
}

/// Whether some line of the registry is exactly `name`.
pub fn registry_lists(content: &str, name: &str) -> (r: bool)
    ensures
        r == lists(content@, name@),
{
    let lines = split_registry(content);
    let want = name.to_owned();
    let mut i: usize = 0;
    while i < lines.len()
        invariant
            i <= lines@.len(),
            views(lines@) == split_lines(content@),
            want@ == name@,
            forall|j: int| 0 <= j < i ==> lines@[j]@ != want@,
        decreases lines.len() - i,
    {
        let same = lines[i].eq(&want);
        if same {
            assert(views(lines@)[i as int] == lines@[i as int]@);
            assert(split_lines(content@)[i as int] == name@);
            return true;
        }
        i = i + 1;
    }
    assert forall|j: int| 0 <= j < split_lines(content@).len() implies split_lines(content@)[j]
        != name@ by {
        assert(views(lines@)[j] == lines@[j]@);
    }
    false
}

/// The new registry text when `name` is to be added, or `None` when it is
/// listed already and the file need not be written.
pub fn append_path(content: &str, name: &str) -> (r: Option<String>)
    ensures
        r is None <==> lists(content@, name@),
        r matches Some(t) ==> t@ == appended(content@, name@),
{
    if registry_lists(content, name) {
        None
    } else {
        let mut t = content.to_owned();
        t.append(name);
        push_char(&mut t, '\n');
        Some(t)
    }
}

/// The registry text with every line that is exactly `name` taken out.
pub fn redact_path(content: &str, name: &str) -> (r: String)
    ensures
        r@ == redacted(content@, name@),
{
    let lines = split_registry(content);
    let want = name.to_owned();
    let mut out = String::new();
    let mut any = false;
    let mut i: usize = 0;
    while i < lines.len()
        invariant
            i <= lines@.len(),
            views(lines@) == split_lines(content@),
            want@ == name@,
            any == (without(views(lines@).take(i as int), name@).len() > 0),
            out@ == join_lines(without(views(lines@).take(i as int), name@)),
        decreases lines.len() - i,
    {
        let ghost ls = views(lines@);
        assert(ls.take(i + 1).drop_last() =~= ls.take(i as int));
        assert(ls.take(i + 1).last() == lines@[i as int]@);
        let same = lines[i].eq(&want);
        if !same {
            let ghost kept = without(ls.take(i as int), name@);
            if any {
                push_char(&mut out, '\n');
                out.append(lines[i].as_str());
                assert(kept.push(lines@[i as int]@).drop_last() =~= kept);
            } else {
                out = lines[i].clone();
            }
            any = true;
        }
        i = i + 1;
    }
    assert(views(lines@).take(lines@.len() as int) =~= views(lines@));
    out
}

proof fn lemma_join_split(s: Seq<char>)
    ensures
        join_lines(split_lines(s)) == s,
    decreases s.len(),
{
    if s.len() > 0 {
        let init = split_lines(s.drop_last());
        lemma_join_split(s.drop_last());
        lemma_split_nonempty(s.drop_last());
        if s.last() == '\n' {
            assert(init.push(Seq::<char>::empty()).drop_last() =~= init);
            assert(join_lines(init) + seq!['\n'] + Seq::<char>::empty() =~= s);
        } else {
            let k = init.len() - 1;
            let upd = init.update(k, init.last().push(s.last()));
            if init.len() == 1 {
                assert(upd[0] =~= s);
            } else {
                assert(upd.drop_last() =~= init.drop_last());
                assert(join_lines(init) == join_lines(init.drop_last()) + seq!['\n']
                    + init.last());
                assert(s =~= s.drop_last().push(s.last()));
                assert(join_lines(init.drop_last()) + seq!['\n'] + init.last().push(s.last())
                    =~= s);
            }
        }
    }
}

proof fn lemma_without_absent(ls: Seq<Seq<char>>, name: Seq<char>)
    requires
        !ls.contains(name),
    ensures
        without(ls, name) == ls,
    decreases ls.len(),
{
    if ls.len() > 0 {
        assert(ls.last() == ls[ls.len() - 1]);
        assert(!ls.drop_last().contains(name)) by {
            if ls.drop_last().contains(name) {
                let j = choose|j: int| 0 <= j < ls.drop_last().len() && ls.drop_last()[j] == name;
                assert(ls[j] == name);
            }
        }
        lemma_without_absent(ls.drop_last(), name);
        assert(ls.drop_last().push(ls.last()) =~= ls);
    }
}

/// Redacting a name that no line holds gives back the registry unchanged.
pub proof fn redact_absent_keeps(content: Seq<char>, name: Seq<char>)
    requires
        !lists(content, name),
    ensures
        redacted(content, name) == content,
{
    lemma_without_absent(split_lines(content), name);
    lemma_join_split(content);
}

proof fn lemma_split_plain_tail(c: Seq<char>, t: Seq<char>)
    requires
        forall|j: int| 0 <= j < t.len() ==> t[j] != '\n',
    ensures
        split_lines(c + t) == split_lines(c).update(
            split_lines(c).len() - 1,
            split_lines(c).last() + t,
        ),
    decreases t.len(),
{
    lemma_split_nonempty(c);
    if t.len() == 0 {
        assert(c + t =~= c);
        assert(split_lines(c).last() + t =~= split_lines(c).last());
        assert(split_lines(c).update(split_lines(c).len() - 1, split_lines(c).last())
            =~= split_lines(c));
    } else {
        let u = t.drop_last();
        lemma_split_plain_tail(c, u);
        assert((c + t).drop_last() =~= c + u);
        assert((c + t).last() == t.last());
        assert((split_lines(c).last() + u).push(t.last()) =~= split_lines(c).last() + t);
        assert(split_lines(c + t) =~= split_lines(c).update(
            split_lines(c).len() - 1,
            split_lines(c).last() + t,
        ));
    }
}

proof fn lemma_split_ends_empty(c: Seq<char>)
    requires
        c.len() == 0 || c.last() == '\n',
    ensures
        split_lines(c).len() >= 1,
        split_lines(c).last() == Seq::<char>::empty(),
{
    lemma_split_nonempty(c);
}

/// Adding a name twice leaves the registry as adding it once does, for a
/// registry that is empty or ends in a newline and a name without a newline.
pub proof fn append_twice_same(content: Seq<char>, name: Seq<char>)
    requires
        content.len() == 0 || content.last() == '\n',
        forall|j: int| 0 <= j < name.len() ==> name[j] != '\n',
    ensures
        appended(appended(content, name), name) == appended(content, name),
{
    if !lists(content, name) {
        let once = content + name + seq!['\n'];
        lemma_split_ends_empty(content);
        lemma_split_plain_tail(content, name);
        let ls = split_lines(content + name);
        let k = split_lines(content).len() - 1;
        assert(split_lines(content).last() + name =~= name);
        assert(ls[k] == name);
        assert(once.drop_last() =~= content + name);
        assert(split_lines(once) == ls.push(Seq::<char>::empty()));
        assert(split_lines(once)[k] == name);
        assert(lists(once, name));
    }
}

pub open spec fn no_newline(l: Seq<char>) -> bool {
    forall|j: int| 0 <= j < l.len() ==> l[j] != '\n'
}

proof fn lemma_split_lines_plain(s: Seq<char>)
    ensures
        forall|k: int| 0 <= k < split_lines(s).len() ==> no_newline(#[trigger] split_lines(s)[k]),
    decreases s.len(),
{
    if s.len() > 0 {
        lemma_split_lines_plain(s.drop_last());
        lemma_split_nonempty(s.drop_last());
    }
}

proof fn lemma_without_shape(ls: Seq<Seq<char>>, name: Seq<char>)
    requires
        forall|k: int| 0 <= k < ls.len() ==> no_newline(#[trigger] ls[k]),
    ensures
        !without(ls, name).contains(name),
        forall|k: int|
            0 <= k < without(ls, name).len() ==> no_newline(#[trigger] without(ls, name)[k]),
    decreases ls.len(),
{
    if ls.len() > 0 {
        lemma_without_shape(ls.drop_last(), name);
        let w = without(ls.drop_last(), name);
        if ls.last() != name {
            assert(forall|k: int| 0 <= k < w.len() ==> w.push(ls.last())[k] == w[k]);
            if w.push(ls.last()).contains(name) {
                let k = choose|k: int| 0 <= k < w.push(ls.last()).len() && w.push(ls.last())[k]
                    == name;
                assert(w.contains(name) || ls.last() == name);
            }
        }
    }
}

proof fn lemma_split_join(ls: Seq<Seq<char>>)
    requires
        ls.len() >= 1,
        forall|k: int| 0 <= k < ls.len() ==> no_newline(#[trigger] ls[k]),
    ensures
        split_lines(join_lines(ls)) == ls,
    decreases ls.len(),
{
    let e = Seq::<char>::empty();
    if ls.len() == 1 {
        lemma_split_plain_tail(e, ls[0]);
        assert(e + ls[0] =~= ls[0]);
        assert(seq![e].update(0, e + ls[0]) =~= ls);
    } else {
        let init = ls.drop_last();
        lemma_split_join(init);
        let x = join_lines(init) + seq!['\n'];
        assert(x.drop_last() =~= join_lines(init));
        assert(split_lines(x) == init.push(e));
        lemma_split_plain_tail(x, ls.last());
        assert(e + ls.last() =~= ls.last());
        assert(init.push(e).update(init.len() as int, ls.last()) =~= ls);
    }
}

/// After a redaction no line of the registry is the redacted name, whatever
/// the registry held before; in particular an install undone by an uninstall
/// leaves the name unlisted.
pub proof fn redact_removes(content: Seq<char>, name: Seq<char>)
    requires
        name.len() > 0,
    ensures
        !lists(redacted(content, name), name),
{
    let ls = split_lines(content);
    lemma_split_lines_plain(content);
    lemma_without_shape(ls, name);
    let w = without(ls, name);
    if w.len() == 0 {
        assert(split_lines(join_lines(w)) =~= seq![Seq::<char>::empty()]);
        assert(seq![Seq::<char>::empty()][0] != name);
    } else {
        lemma_split_join(w);
    }
}

/// Adding a name and then redacting it leaves the name unlisted.
pub proof fn append_then_redact_unlists(content: Seq<char>, name: Seq<char>)
    requires
        name.len() > 0,
    ensures
        !lists(redacted(appended(content, name), name), name),
{
    redact_removes(appended(content, name), name);
}

/// Adding a name that was not listed and then redacting it gives back the
/// registry as it was, for a registry that is empty or ends in a newline and a
/// name without a newline.
pub proof fn redact_undoes_append(content: Seq<char>, name: Seq<char>)
    requires
        content.len() == 0 || content.last() == '\n',
        forall|j: int| 0 <= j < name.len() ==> name[j] != '\n',
        !lists(content, name),
    ensures
        redacted(appended(content, name), name) == content,
{
    let e = Seq::<char>::empty();
    let ls = split_lines(content);
    let k = ls.len() - 1;
    lemma_split_ends_empty(content);
    assert(ls[k] == e);
    assert(name != e);
    lemma_split_plain_tail(content, name);
    assert(e + name =~= name);
    let x = ls.update(k, name);
    let once = content + name + seq!['\n'];
    assert(once.drop_last() =~= content + name);
    assert(split_lines(once) == x.push(e));
    assert(x.push(e).drop_last() =~= x);
    assert(x.drop_last() =~= ls.drop_last());
    assert(!ls.drop_last().contains(name)) by {
        if ls.drop_last().contains(name) {
            let j = choose|j: int| 0 <= j < ls.drop_last().len() && ls.drop_last()[j] == name;
            assert(ls[j] == name);
        }
    }
    lemma_without_absent(ls.drop_last(), name);
    assert(x.push(e).last() == e);
    assert(without(x.push(e), name) == without(x, name).push(e));
    assert(x.last() == name);
    assert(without(x, name) == without(x.drop_last(), name));
    assert(without(x.push(e), name) == ls.drop_last().push(e));
    assert(ls.drop_last().push(e) =~= ls);
    lemma_join_split(content);
}

} // verus!
