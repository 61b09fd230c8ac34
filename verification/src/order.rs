//! The order of strings (`Ord` of `str`: character by character, a prefix
//! first) and sorted lists of distinct strings.
use vstd::prelude::*;
use crate::model::strings_view;
use crate::text::{chars_of, seq_eq};

verus! {

/// `a` sorts before `b`.
pub open spec fn lex_lt(a: Seq<char>, b: Seq<char>) -> bool
    decreases a.len(),
{
    if a.len() == 0 {
        b.len() > 0
    } else if b.len() == 0 {
        false
    } else if a[0] < b[0] {
        true
    } else if a[0] == b[0] {
        lex_lt(a.drop_first(), b.drop_first())
    } else {
        false
    }
}

/// Of two different strings, one sorts before the other.
pub proof fn lemma_lex_total(a: Seq<char>, b: Seq<char>)
    ensures
        a != b ==> lex_lt(a, b) || lex_lt(b, a),
        !(lex_lt(a, b) && lex_lt(b, a)),
        !lex_lt(a, a),
    decreases a.len(),
{
    if a.len() > 0 && b.len() > 0 && a[0] == b[0] {
        lemma_lex_total(a.drop_first(), b.drop_first());
        if a != b {
            assert(a.drop_first() != b.drop_first()) by {
                if a.drop_first() == b.drop_first() {
                    assert(a =~= seq![a[0]] + a.drop_first());
                    assert(b =~= seq![b[0]] + b.drop_first());
                }
            }
        }
    } else if a.len() == 0 && b.len() == 0 {
        assert(a =~= b);
    }
    if a.len() > 0 {
        lemma_lex_total(a.drop_first(), a.drop_first());
    }
}

/// The order is transitive.
pub proof fn lemma_lex_trans(a: Seq<char>, b: Seq<char>, c: Seq<char>)
    requires
        lex_lt(a, b),
        lex_lt(b, c),
    ensures
        lex_lt(a, c),
    decreases a.len(),
{
    if a.len() > 0 && b.len() > 0 && c.len() > 0 && a[0] == b[0] && b[0] == c[0] {
        lemma_lex_trans(a.drop_first(), b.drop_first(), c.drop_first());
    }
}

/// Whether `a` sorts before `b` (see [`lex_lt`]).
pub fn lex_less(a: &Vec<char>, b: &Vec<char>) -> (r: bool)
    ensures
        r == lex_lt(a@, b@),
{
    let mut i: usize = 0;
    assert(a@.skip(0) =~= a@);
    assert(b@.skip(0) =~= b@);
    while i < a.len() && i < b.len() && a[i] == b[i]
        invariant
            i <= a.len(),
            i <= b.len(),
            lex_lt(a@, b@) == lex_lt(a@.skip(i as int), b@.skip(i as int)),
        decreases a.len() - i,
    {
        assert(a@.skip(i as int).drop_first() =~= a@.skip(i + 1));
        assert(b@.skip(i as int).drop_first() =~= b@.skip(i + 1));
        i = i + 1;
    }
    if i == a.len() {
        assert(a@.skip(i as int).len() == 0);
        i < b.len()
    } else if i == b.len() {
        false
    } else {
        a[i] < b[i]
    }
}

/// Each string sorts before every later one.
pub open spec fn strictly_sorted(s: Seq<Seq<char>>) -> bool {
    forall|i: int, j: int| 0 <= i < j < s.len() ==> lex_lt(#[trigger] s[i], #[trigger] s[j])
}

/// `s` lists the distinct strings of `v` in order.
pub open spec fn sorted_set_of(s: Seq<Seq<char>>, v: Seq<Seq<char>>) -> bool {
    strictly_sorted(s) && s.to_set() == v.to_set()
}

/// Two sorted lists of the same strings are the same list.
pub proof fn lemma_sorted_set_unique(s: Seq<Seq<char>>, t: Seq<Seq<char>>)
    requires
        strictly_sorted(s),
        strictly_sorted(t),
        s.to_set() == t.to_set(),
    ensures
        s == t,
    decreases s.len() + t.len(),
{
    if s.len() == 0 || t.len() == 0 {
        if s.len() > 0 {
            assert(s.to_set().contains(s[0]));
        }
        if t.len() > 0 {
            assert(t.to_set().contains(t[0]));
        }
        assert(s =~= t);
    } else {
        assert(s.to_set().contains(s[0]));
        assert(t.to_set().contains(t[0]));
        let i = choose|i: int| 0 <= i < t.len() && t[i] == s[0];
        let j = choose|j: int| 0 <= j < s.len() && s[j] == t[0];
        if i > 0 {
            assert(lex_lt(t[0], t[i]));
            if j > 0 {
                assert(lex_lt(s[0], s[j]));
                lemma_lex_total(s[0], t[0]);
            } else {
                lemma_lex_total(s[0], t[0]);
            }
        }
        if j > 0 {
            assert(lex_lt(s[0], s[j]));
            lemma_lex_total(s[0], t[0]);
        }
        assert(s[0] == t[0]);
        let s1 = s.drop_first();
        let t1 = t.drop_first();
        assert forall|x: Seq<char>| s1.to_set().contains(x) implies t1.to_set().contains(x) by {
            let k = choose|k: int| 0 <= k < s1.len() && s1[k] == x;
            assert(s[k + 1] == x);
            assert(lex_lt(s[0], s[k + 1]));
            assert(t.to_set().contains(x));
            let m = choose|m: int| 0 <= m < t.len() && t[m] == x;
            if m == 0 {
                lemma_lex_total(x, x);
            }
            assert(t1[m - 1] == x);
        }
        assert forall|x: Seq<char>| t1.to_set().contains(x) implies s1.to_set().contains(x) by {
            let k = choose|k: int| 0 <= k < t1.len() && t1[k] == x;
            assert(t[k + 1] == x);
            assert(lex_lt(t[0], t[k + 1]));
            assert(s.to_set().contains(x));
            let m = choose|m: int| 0 <= m < s.len() && s[m] == x;
            if m == 0 {
                lemma_lex_total(x, x);
            }
            assert(s1[m - 1] == x);
        }
        assert(s1.to_set() =~= t1.to_set());
        lemma_sorted_set_unique(s1, t1);
        assert(s =~= seq![s[0]] + s1);
        assert(t =~= seq![t[0]] + t1);
    }
}

/// `s` with `x` put in its place; `s` itself when `x` is in it.
pub open spec fn insert_sorted(s: Seq<Seq<char>>, x: Seq<char>) -> Seq<Seq<char>>
    decreases s.len(),
{
    if s.len() == 0 {
        seq![x]
    } else if s[0] == x {
        s
    } else if lex_lt(x, s[0]) {
        seq![x] + s
    } else {
        seq![s[0]] + insert_sorted(s.drop_first(), x)
    }
}

/// Putting a string in its place keeps a list sorted and adds the string
/// to its set.
pub proof fn lemma_insert_sorted(s: Seq<Seq<char>>, x: Seq<char>)
    requires
        strictly_sorted(s),
    ensures
        strictly_sorted(insert_sorted(s, x)),
        insert_sorted(s, x).to_set() == s.to_set().insert(x),
    decreases s.len(),
{
    let r = insert_sorted(s, x);
    if s.len() == 0 {
        assert(r.to_set() =~= s.to_set().insert(x)) by {
            assert forall|y: Seq<char>| r.to_set().contains(y) <==> s.to_set().insert(x).contains(y) by {
                if r.to_set().contains(y) {
                    let k = choose|k: int| 0 <= k < r.len() && r[k] == y;
                    assert(k == 0);
                }
                if y == x {
                    assert(r[0] == x);
                }
            }
        }
    } else if s[0] == x {
        assert(s.to_set().contains(s[0]));
        assert(r.to_set() =~= s.to_set().insert(x));
    } else if lex_lt(x, s[0]) {
        assert forall|i: int, j: int| 0 <= i < j < r.len() implies lex_lt(#[trigger] r[i], #[trigger] r[j]) by {
            if i == 0 {
                assert(r[j] == s[j - 1]);
                if j - 1 > 0 {
                    assert(lex_lt(s[0], s[j - 1]));
                    lemma_lex_trans(x, s[0], s[j - 1]);
                }
            } else {
                assert(r[i] == s[i - 1] && r[j] == s[j - 1]);
            }
        }
        assert forall|y: Seq<char>| r.to_set().contains(y) <==> s.to_set().insert(x).contains(y) by {
            if r.to_set().contains(y) {
                let k = choose|k: int| 0 <= k < r.len() && r[k] == y;
                if k > 0 {
                    assert(s[k - 1] == y);
                }
            }
            if s.to_set().contains(y) {
                let k = choose|k: int| 0 <= k < s.len() && s[k] == y;
                assert(r[k + 1] == y);
            }
            if y == x {
                assert(r[0] == x);
            }
        }
        assert(r.to_set() =~= s.to_set().insert(x));
    } else {
        let t = s.drop_first();
        assert(strictly_sorted(t)) by {
            assert forall|i: int, j: int| 0 <= i < j < t.len() implies lex_lt(#[trigger] t[i], #[trigger] t[j]) by {
                assert(t[i] == s[i + 1] && t[j] == s[j + 1]);
            }
        }
        lemma_insert_sorted(t, x);
        let rest = insert_sorted(t, x);
        lemma_lex_total(x, s[0]);
        assert(lex_lt(s[0], x));
        assert forall|k: int| 0 <= k < rest.len() implies lex_lt(s[0], #[trigger] rest[k]) by {
            assert(rest.to_set().contains(rest[k]));
            assert(t.to_set().insert(x).contains(rest[k]));
            if rest[k] != x {
                assert(t.to_set().contains(rest[k]));
                let m = choose|m: int| 0 <= m < t.len() && t[m] == rest[k];
                assert(s[m + 1] == rest[k]);
            }
        }
        assert forall|i: int, j: int| 0 <= i < j < r.len() implies lex_lt(#[trigger] r[i], #[trigger] r[j]) by {
            if i == 0 {
                assert(r[j] == rest[j - 1]);
            } else {
                assert(r[i] == rest[i - 1] && r[j] == rest[j - 1]);
            }
        }
        assert forall|y: Seq<char>| r.to_set().contains(y) <==> s.to_set().insert(x).contains(y) by {
            if r.to_set().contains(y) {
                let k = choose|k: int| 0 <= k < r.len() && r[k] == y;
                if k == 0 {
                    assert(s[0] == y);
                } else {
                    assert(rest[k - 1] == y);
                    assert(rest.to_set().contains(y));
                    if y != x {
                        assert(t.to_set().contains(y));
                        let m = choose|m: int| 0 <= m < t.len() && t[m] == y;
                        assert(s[m + 1] == y);
                    }
                }
            }
            if s.to_set().insert(x).contains(y) {
                if y == x {
                    assert(rest.to_set().contains(x));
                    let m = choose|m: int| 0 <= m < rest.len() && rest[m] == x;
                    assert(r[m + 1] == x);
                } else {
                    let k = choose|k: int| 0 <= k < s.len() && s[k] == y;
                    if k == 0 {
                        assert(r[0] == y);
                    } else {
                        assert(t[k - 1] == y);
                        assert(rest.to_set().contains(y));
                        let m = choose|m: int| 0 <= m < rest.len() && rest[m] == y;
                        assert(r[m + 1] == y);
                    }
                }
            }
        }
        assert(r.to_set() =~= s.to_set().insert(x));
    }
}

/// Every list of strings has a sorted list of its distinct strings.
pub proof fn lemma_sorted_exists(v: Seq<Seq<char>>)
    ensures
        exists|s: Seq<Seq<char>>| sorted_set_of(s, v),
    decreases v.len(),
{
    if v.len() == 0 {
        let e = Seq::<Seq<char>>::empty();
        assert(e.to_set() =~= v.to_set());
        assert(sorted_set_of(e, v));
    } else {
        let u = v.drop_last();
        lemma_sorted_exists(u);
        let s0 = choose|s: Seq<Seq<char>>| sorted_set_of(s, u);
        lemma_insert_sorted(s0, v.last());
        let s1 = insert_sorted(s0, v.last());
        assert forall|y: Seq<char>| v.to_set().contains(y) <==> u.to_set().insert(v.last()).contains(y) by {
            if v.to_set().contains(y) {
                let k = choose|k: int| 0 <= k < v.len() && v[k] == y;
                if k < v.len() - 1 {
                    assert(u[k] == y);
                }
            }
            if u.to_set().contains(y) {
                let k = choose|k: int| 0 <= k < u.len() && u[k] == y;
                assert(v[k] == y);
            }
        }
        assert(v.to_set() =~= u.to_set().insert(v.last()));
        assert(sorted_set_of(s1, v));
    }
}

/// The distinct strings of `ids`, in order.
pub fn sorted_unique(ids: &Vec<String>) -> (r: Vec<String>)
    ensures
        sorted_set_of(strings_view(r@), strings_view(ids@)),
{
    let ghost iv = strings_view(ids@);
    let mut out: Vec<Vec<char>> = Vec::new();
    let mut k: usize = 0;
    while k < ids.len()
        invariant
            k <= ids.len(),
            iv == strings_view(ids@),
            strictly_sorted(crate::source_files::vecs_view(out@)),
            crate::source_files::vecs_view(out@).to_set() == iv.take(k as int).to_set(),
        decreases ids.len() - k,
    {
        let x = chars_of(ids[k].as_str());
        let ghost ov = crate::source_files::vecs_view(out@);
        let mut p: usize = 0;
        while p < out.len() && lex_less(&out[p], &x)
            invariant
                p <= out.len(),
                ov == crate::source_files::vecs_view(out@),
                forall|q: int| 0 <= q < p ==> lex_lt(#[trigger] ov[q], x@),
            decreases out.len() - p,
        {
            p = p + 1;
        }
        assert(iv.take(k + 1) =~= iv.take(k as int).push(x@));
        if p < out.len() && seq_eq(&out[p], &x) {
            assert(ov[p as int] == x@);
            assert(ov.to_set() =~= ov.to_set().insert(x@));
        } else {
            proof {
                if p < out.len() {
                    assert(!lex_lt(ov[p as int], x@));
                    lemma_lex_total(ov[p as int], x@);
                    assert(lex_lt(x@, ov[p as int]));
                    assert forall|q: int| p <= q < ov.len() implies lex_lt(x@, #[trigger] ov[q]) by {
                        if q > p {
                            lemma_lex_trans(x@, ov[p as int], ov[q]);
                        }
                    }
                }
            }
            out.insert(p, x);
            let ghost nv = crate::source_files::vecs_view(out@);
            assert(nv =~= ov.insert(p as int, x@));
            proof {
                assert forall|i: int, j: int| 0 <= i < j < nv.len() implies lex_lt(
                    #[trigger] nv[i],
                    #[trigger] nv[j],
                ) by {
                    if i < p && j < p {
                        assert(nv[i] == ov[i] && nv[j] == ov[j]);
                    } else if i < p && j == p {
                        assert(nv[i] == ov[i]);
                    } else if i < p && j > p {
                        assert(nv[i] == ov[i] && nv[j] == ov[j - 1]);
                        lemma_lex_trans(ov[i], x@, ov[j - 1]);
                    } else if i == p {
                        assert(nv[j] == ov[j - 1]);
                    } else {
                        assert(nv[i] == ov[i - 1] && nv[j] == ov[j - 1]);
                    }
                }
                assert(nv.to_set() =~= ov.to_set().insert(x@)) by {
                    assert forall|y: Seq<char>| nv.to_set().contains(y) implies ov.to_set().insert(
                        x@,
                    ).contains(y) by {
                        let i = choose|i: int| 0 <= i < nv.len() && nv[i] == y;
                        if i < p {
                            assert(ov[i] == y);
                        } else if i > p {
                            assert(ov[i - 1] == y);
                        }
                    }
                    assert forall|y: Seq<char>| ov.to_set().insert(x@).contains(y) implies nv.to_set().contains(
                        y,
                    ) by {
                        if y == x@ {
                            assert(nv[p as int] == y);
                        } else {
                            let i = choose|i: int| 0 <= i < ov.len() && ov[i] == y;
                            if i < p {
                                assert(nv[i] == y);
                            } else {
                                assert(nv[i + 1] == y);
                            }
                        }
                    }
                }
            }
        }
        proof {
            assert(iv.take(k + 1).to_set() =~= iv.take(k as int).to_set().insert(x@)) by {
                let a = iv.take(k as int);
                assert forall|y: Seq<char>| iv.take(k + 1).to_set().contains(y) implies a.to_set().insert(
                    x@,
                ).contains(y) by {
                    let i = choose|i: int| 0 <= i < k + 1 && #[trigger] iv.take(k + 1)[i] == y;
                    if i < k {
                        assert(a[i] == y);
                    }
                }
                assert forall|y: Seq<char>| a.to_set().insert(x@).contains(y) implies iv.take(
                    k + 1,
                ).to_set().contains(y) by {
                    if y == x@ {
                        assert(iv.take(k + 1)[k as int] == y);
                    } else {
                        let i = choose|i: int| 0 <= i < a.len() && a[i] == y;
                        assert(iv.take(k + 1)[i] == y);
                    }
                }
            }
            assert(x@ == iv[k as int]);
        }
        k = k + 1;
    }
    assert(iv.take(ids@.len() as int) =~= iv);
    let mut r: Vec<String> = Vec::new();
    let mut i: usize = 0;
    let ghost fin = crate::source_files::vecs_view(out@);
    while i < out.len()
        invariant
            i <= out.len(),
            fin == crate::source_files::vecs_view(out@),
            strings_view(r@) == fin.take(i as int),
        decreases out.len() - i,
    {
        let ghost before = strings_view(r@);
        r.push(crate::text::string_of(&out[i]));
        assert(strings_view(r@) =~= before.push(fin[i as int]));
        assert(fin.take(i + 1) =~= fin.take(i as int).push(fin[i as int]));
        i = i + 1;
    }
    assert(fin.take(out@.len() as int) =~= fin);
    r
}

} // verus!
