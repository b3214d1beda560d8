//! Paths compared as the file system reads them: by their components, so that
//! `a/b`, `a//b`, `a/./b` and `a/b/` name the same file.
use crate::probe::{chars_of, string_push};
use vstd::prelude::*;

verus! {

/// The pieces of `s` between its slashes, as `str::split('/')` gives them.
pub open spec fn split_slashes(s: Seq<char>) -> Seq<Seq<char>>
    decreases s.len(),
{
    if s.len() == 0 {
        seq![Seq::<char>::empty()]
    } else {
        let prev = split_slashes(s.drop_last());
        if s.last() == '/' {
            prev.push(Seq::<char>::empty())
        } else {
            prev.update(prev.len() - 1, prev.last().push(s.last()))
        }
    }
}

pub open spec fn is_dot(p: Seq<char>) -> bool {
    p == seq!['.']
}

/// A piece that is a component of its own: neither empty nor `.`.
pub open spec fn kept(p: Seq<char>) -> bool {
    p.len() > 0 && !is_dot(p)
}

pub open spec fn starts_at_root(s: Seq<char>) -> bool {
    s.len() > 0 && s[0] == '/'
}

/// The components that a path of these pieces has: the root where it starts
/// with a slash, else a leading `.` where its first piece is one; then every
/// piece that is neither empty nor `.`.
pub open spec fn assemble(root: bool, pieces: Seq<Seq<char>>) -> Seq<Seq<char>> {
    (if root {
        seq![seq!['/']]
    } else if pieces.len() > 0 && is_dot(pieces[0]) {
        seq![seq!['.']]
    } else {
        Seq::<Seq<char>>::empty()
    }) + pieces.filter(|p: Seq<char>| kept(p))
}

/// The components of the path `s`, as `Path::components` gives them on Unix:
/// repeated slashes, a trailing slash and `.` pieces other than a leading one
/// are left out.
pub open spec fn path_components(s: Seq<char>) -> Seq<Seq<char>> {
    assemble(starts_at_root(s), split_slashes(s))
}

pub proof fn lemma_split_slashes_nonempty(s: Seq<char>)
    ensures
        split_slashes(s).len() >= 1,
    decreases s.len(),
{
    if s.len() > 0 {
        lemma_split_slashes_nonempty(s.drop_last());
    }
}

proof fn lemma_assemble_push(root: bool, done: Seq<Seq<char>>, p: Seq<char>)
    ensures
        assemble(root, done.push(p)) == assemble(root, done) + (if done.len() == 0 && !root
            && is_dot(p) {
            seq![p]
        } else if kept(p) {
            seq![p]
        } else {
            Seq::<Seq<char>>::empty()
        }),
{
    done.lemma_filter_push(p, |p: Seq<char>| kept(p));
    assert(done.push(p)[0] == if done.len() == 0 {
        p
    } else {
        done[0]
    });
    if done.len() == 0 {
        assert(done.filter(|p: Seq<char>| kept(p)).len() == 0) by {
            done.lemma_filter_len(|p: Seq<char>| kept(p));
        }
        assert(done.filter(|p: Seq<char>| kept(p)) =~= Seq::<Seq<char>>::empty());
    }
    assert(assemble(root, done.push(p)) =~= assemble(root, done) + (if done.len() == 0 && !root
        && is_dot(p) {
        seq![p]
    } else if kept(p) {
        seq![p]
    } else {
        Seq::<Seq<char>>::empty()
    }));
}

/// Appends the piece to the components where it is one: a leading `.` of a
/// path not at the root, or any piece neither empty nor `.`.
fn finish_piece(out: &mut Vec<String>, piece: String, first: bool, root: bool)
    ensures
        final(out)@.map_values(|s: String| s@) == old(out)@.map_values(|s: String| s@) + (if first
            && !root && is_dot(piece@) {
            seq![piece@]
        } else if kept(piece@) {
            seq![piece@]
        } else {
            Seq::<Seq<char>>::empty()
        }),
{
    let mut dot = String::new();
    string_push(&mut dot, '.');
    proof {
        assert(dot@ =~= seq!['.']);
    }
    let is_dot_piece = piece == dot;
    let ghost before = out@.map_values(|s: String| s@);
    let ghost p = piece@;
    if (first && !root && is_dot_piece) || (!piece.as_str().is_empty() && !is_dot_piece) {
        out.push(piece);
        proof {
            assert(out@.map_values(|s: String| s@) =~= before + seq![p]);
        }
    } else {
        proof {
            assert(before + Seq::<Seq<char>>::empty() =~= before);
        }
    }
}

/// The components of `path`, as [`path_components`] states them.
pub fn components_of(path: &str) -> (r: Vec<String>)
    ensures
        r@.map_values(|s: String| s@) == path_components(path@),
{
    let chars = chars_of(path);
    let root = chars.len() > 0 && chars[0] == '/';
    let mut out: Vec<String> = Vec::new();
    if root {
        let mut slash = String::new();
        string_push(&mut slash, '/');
        out.push(slash);
        proof {
            assert(out@.map_values(|s: String| s@) =~= seq![seq!['/']]);
        }
    }
    proof {
        assert(chars@.take(0) =~= Seq::<char>::empty());
        let none = Seq::<Seq<char>>::empty();
        assert(none.filter(|p: Seq<char>| kept(p)).len() == 0) by {
            none.lemma_filter_len(|p: Seq<char>| kept(p));
        }
        assert(out@.map_values(|s: String| s@) =~= assemble(root, none));
        assert(split_slashes(chars@.take(0)).drop_last() =~= none);
    }
    let mut cur = String::new();
    let mut first = true;
    let mut i: usize = 0;
    while i < chars.len()
        invariant
            chars@ == path@,
            root == starts_at_root(path@),
            i <= chars@.len(),
            split_slashes(chars@.take(i as int)).len() >= 1,
            cur@ == split_slashes(chars@.take(i as int)).last(),
            first == (split_slashes(chars@.take(i as int)).len() == 1),
            out@.map_values(|s: String| s@) == assemble(
                root,
                split_slashes(chars@.take(i as int)).drop_last(),
            ),
        decreases chars@.len() - i,
    {
        let c = chars[i];
        let ghost prefix = chars@.take(i as int);
        let ghost pieces = split_slashes(prefix);
        proof {
            assert(chars@.take(i + 1).drop_last() =~= prefix);
            assert(chars@.take(i + 1).last() == c);
        }
        if c == '/' {
            let ghost done = pieces.drop_last();
            let ghost last = cur@;
            finish_piece(&mut out, cur, first, root);
            cur = String::new();
            first = false;
            proof {
                lemma_assemble_push(root, done, last);
                assert(done.push(last) =~= pieces);
                assert(split_slashes(chars@.take(i + 1)) == pieces.push(Seq::<char>::empty()));
                assert(split_slashes(chars@.take(i + 1)).drop_last() =~= pieces);
            }
        } else {
            string_push(&mut cur, c);
            proof {
                assert(split_slashes(chars@.take(i + 1)).drop_last() =~= pieces.drop_last());
            }
        }
        i = i + 1;
    }
    proof {
        assert(chars@.take(i as int) =~= chars@);
        let pieces = split_slashes(chars@);
        lemma_assemble_push(root, pieces.drop_last(), pieces.last());
        assert(pieces.drop_last().push(pieces.last()) =~= pieces);
    }
    finish_piece(&mut out, cur, first, root);
    out
}

/// Whether the two paths, given by their components, name the same file.
pub fn same_components(a: &Vec<String>, b: &Vec<String>) -> (r: bool)
    ensures
        r == (a@.map_values(|s: String| s@) == b@.map_values(|s: String| s@)),
{
    if a.len() != b.len() {
        proof {
            assert(a@.map_values(|s: String| s@).len() != b@.map_values(|s: String| s@).len());
        }
        return false;
    }
    let mut i: usize = 0;
    while i < a.len()
        invariant
            a@.len() == b@.len(),
            i <= a@.len(),
            forall|j: int| 0 <= j < i ==> a@[j]@ == b@[j]@,
        decreases a@.len() - i,
    {
        if a[i] != b[i] {
            proof {
                assert(a@.map_values(|s: String| s@)[i as int] != b@.map_values(|s: String| s@)[i as int]);
            }
            return false;
        }
        i = i + 1;
    }
    proof {
        assert(a@.map_values(|s: String| s@) =~= b@.map_values(|s: String| s@));
    }
    true
}

pub open spec fn slash_free(s: Seq<char>) -> bool {
    forall|i: int| 0 <= i < s.len() ==> s[i] != '/'
}

proof fn lemma_split_slash_free(s: Seq<char>)
    requires
        slash_free(s),
    ensures
        split_slashes(s) == seq![s],
    decreases s.len(),
{
    if s.len() > 0 {
        assert(slash_free(s.drop_last()));
        lemma_split_slash_free(s.drop_last());
        assert(s.drop_last().push(s.last()) =~= s);
        assert(split_slashes(s) =~= seq![s]);
    } else {
        assert(s =~= Seq::<char>::empty());
    }
}

proof fn lemma_split_one_piece_slash_free(s: Seq<char>)
    requires
        split_slashes(s).len() == 1,
    ensures
        slash_free(s),
    decreases s.len(),
{
    if s.len() > 0 {
        lemma_split_slashes_nonempty(s.drop_last());
        lemma_split_one_piece_slash_free(s.drop_last());
        assert forall|i: int| 0 <= i < s.len() implies s[i] != '/' by {
            if i < s.len() - 1 {
                assert(s.drop_last()[i] == s[i]);
            }
        }
    }
}

proof fn lemma_split_first_piece(s: Seq<char>)
    requires
        s.len() > 0,
        s[0] != '/',
    ensures
        split_slashes(s)[0].len() > 0,
    decreases s.len(),
{
    lemma_split_slashes_nonempty(s);
    if s.len() > 1 {
        lemma_split_slashes_nonempty(s.drop_last());
        lemma_split_first_piece(s.drop_last());
    } else {
        lemma_split_slashes_nonempty(s.drop_last());
        assert(s.drop_last() =~= Seq::<char>::empty());
    }
}

proof fn lemma_split_append_slash_free(s: Seq<char>, t: Seq<char>)
    requires
        slash_free(t),
    ensures
        split_slashes(s + t).len() == split_slashes(s).len(),
        split_slashes(s + t).last() == split_slashes(s).last() + t,
    decreases t.len(),
{
    lemma_split_slashes_nonempty(s);
    if t.len() == 0 {
        assert(s + t =~= s);
        assert(split_slashes(s).last() + t =~= split_slashes(s).last());
    } else {
        assert(slash_free(t.drop_last()));
        lemma_split_append_slash_free(s, t.drop_last());
        assert((s + t).drop_last() =~= s + t.drop_last());
        assert((s + t).last() == t.last());
        assert(split_slashes(s).last() + t.drop_last() + seq![t.last()] =~= split_slashes(s).last()
            + t);
        lemma_split_slashes_nonempty(s + t.drop_last());
        assert(split_slashes(s + t).last() =~= split_slashes(s + t.drop_last()).last().push(
            t.last(),
        ));
    }
}

proof fn lemma_two_kept(pieces: Seq<Seq<char>>)
    requires
        pieces.len() >= 2,
        kept(pieces[0]),
        kept(pieces.last()),
    ensures
        pieces.filter(|p: Seq<char>| kept(p)).len() >= 2,
{
    let d = pieces.drop_last();
    assert(d.push(pieces.last()) =~= pieces);
    d.lemma_filter_push(pieces.last(), |p: Seq<char>| kept(p));
    d.lemma_filter_contains(|p: Seq<char>| kept(p), 0);
    assert(d[0] == pieces[0]);
    assert(d.filter(|p: Seq<char>| kept(p)).contains(d[0]));
}

/// A path with no slash, neither empty nor `.`, has itself as its one component.
pub proof fn lemma_single_component(c: Seq<char>)
    requires
        slash_free(c),
        kept(c),
    ensures
        path_components(c) == seq![c],
{
    lemma_split_slash_free(c);
    let pieces = split_slashes(c);
    pieces.lemma_filter_push(c, |p: Seq<char>| kept(p));
    assert(pieces =~= Seq::<Seq<char>>::empty().push(c));
    let none = Seq::<Seq<char>>::empty();
    assert(none.filter(|p: Seq<char>| kept(p)).len() == 0) by {
        none.lemma_filter_len(|p: Seq<char>| kept(p));
    }
    none.lemma_filter_push(c, |p: Seq<char>| kept(p));
    assert(none.filter(|p: Seq<char>| kept(p)) =~= none);
    assert(path_components(c) =~= seq![c]);
}

/// Two paths that end in the same slash-free tail of two characters or more,
/// where one of them is slash-free and no `.` on its own, name the same file
/// only where they are the same text.
pub proof fn lemma_same_components_same_text(c: Seq<char>, x: Seq<char>, t: Seq<char>)
    requires
        slash_free(c),
        kept(c),
        slash_free(t),
        t.len() >= 2,
        x.len() >= t.len(),
        x.subrange(x.len() - t.len(), x.len() as int) == t,
        path_components(x) == path_components(c),
    ensures
        x == c,
{
    lemma_single_component(c);
    let pieces = split_slashes(x);
    lemma_split_slashes_nonempty(x);
    let head = x.subrange(0, x.len() - t.len());
    assert(head + t =~= x);
    lemma_split_append_slash_free(head, t);
    let last = pieces.last();
    assert(last.len() >= t.len()) by {
        lemma_split_slashes_nonempty(head);
        assert(last == split_slashes(head).last() + t);
    }
    assert(kept(last));
    let comps = path_components(x);
    assert(comps == seq![c]);
    if starts_at_root(x) {
        assert(comps[0] == seq!['/']);
        assert(c.len() == 1);
        assert(c[0] == '/');
    }
    if !starts_at_root(x) && is_dot(pieces[0]) {
        assert(comps[0] == seq!['.']);
    }
    let filtered = pieces.filter(|p: Seq<char>| kept(p));
    assert(!starts_at_root(x) && !is_dot(pieces[0]));
    assert(comps =~= filtered);
    if pieces.len() >= 2 {
        lemma_split_first_piece(x);
        lemma_two_kept(pieces);
    }
    assert(pieces.len() == 1);
    lemma_split_one_piece_slash_free(x);
    lemma_single_component(x);
    assert(seq![x][0] == seq![c][0]);
}

} // verus!
