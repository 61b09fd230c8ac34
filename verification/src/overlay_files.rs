//! The overlay files of a U-Boot board: which directory holds them, what
//! each file's name and metadata say, and the order they are shown in.
use vstd::prelude::*;
use crate::hardware::{valid_overlay_id, OverlayEntry};
use crate::devices::opt_view;
use crate::model::{push_str, strings_view};
use crate::order::{lemma_lex_total, lemma_lex_trans, lex_less, lex_lt};
use crate::text::{chars_of, eq_str, owned, string_of};

verus! {

// ----------------------------------------------------------------------
// Order
// ----------------------------------------------------------------------

/// `a` comes strictly before `b`: by title, then by id.
pub open spec fn entry_lt(a: OverlayEntry, b: OverlayEntry) -> bool {
    lex_lt(a.title@, b.title@) || (a.title@ == b.title@ && lex_lt(a.id@, b.id@))
}

/// `a` comes before `b` or with it.
pub open spec fn entry_le(a: OverlayEntry, b: OverlayEntry) -> bool {
    !entry_lt(b, a)
}

/// The overlays are in order of title, then id.
pub open spec fn entries_sorted(s: Seq<OverlayEntry>) -> bool {
    forall|i: int, j: int| 0 <= i < j < s.len() ==> entry_le(#[trigger] s[i], #[trigger] s[j])
}

proof fn lemma_entry_lt_trans(a: OverlayEntry, b: OverlayEntry, c: OverlayEntry)
    requires
        entry_lt(a, b),
        entry_le(b, c),
    ensures
        entry_le(a, c),
{
    lemma_lex_total(a.title@, b.title@);
    lemma_lex_total(b.title@, c.title@);
    lemma_lex_total(a.title@, c.title@);
    lemma_lex_total(a.id@, b.id@);
    lemma_lex_total(b.id@, c.id@);
    lemma_lex_total(a.id@, c.id@);
    if lex_lt(c.title@, a.title@) {
        if lex_lt(a.title@, b.title@) {
            lemma_lex_trans(c.title@, a.title@, b.title@);
        }
    }
    if c.title@ == a.title@ && lex_lt(c.id@, a.id@) {
        if a.title@ == b.title@ {
            lemma_lex_trans(c.id@, a.id@, b.id@);
        }
    }
}

proof fn lemma_entry_le_trans(a: OverlayEntry, b: OverlayEntry, c: OverlayEntry)
    requires
        entry_le(a, b),
        entry_le(b, c),
    ensures
        entry_le(a, c),
{
    lemma_lex_total(a.title@, b.title@);
    lemma_lex_total(b.title@, c.title@);
    lemma_lex_total(a.title@, c.title@);
    lemma_lex_total(a.id@, b.id@);
    lemma_lex_total(b.id@, c.id@);
    lemma_lex_total(a.id@, c.id@);
    if lex_lt(c.title@, a.title@) {
        if lex_lt(a.title@, b.title@) {
            lemma_lex_trans(c.title@, a.title@, b.title@);
        } else if lex_lt(b.title@, c.title@) {
            lemma_lex_trans(b.title@, c.title@, a.title@);
        }
    }
    if c.title@ == a.title@ && lex_lt(c.id@, a.id@) {
        if a.title@ == b.title@ {
            if lex_lt(a.id@, b.id@) {
                lemma_lex_trans(c.id@, a.id@, b.id@);
            } else if lex_lt(b.id@, c.id@) {
                lemma_lex_trans(b.id@, c.id@, a.id@);
            }
        }
    }
}

fn entry_less(a: &OverlayEntry, b: &OverlayEntry) -> (r: bool)
    ensures
        r == entry_lt(*a, *b),
{
    let at = chars_of(a.title.as_str());
    let bt = chars_of(b.title.as_str());
    if lex_less(&at, &bt) {
        return true;
    }
    if !crate::text::seq_eq(&at, &bt) {
        return false;
    }
    lex_less(&chars_of(a.id.as_str()), &chars_of(b.id.as_str()))
}

/// The overlays sorted by title, then id: a sorted rearrangement of the
/// same entries.
pub fn sort_overlays(v: Vec<OverlayEntry>) -> (r: Vec<OverlayEntry>)
    ensures
        entries_sorted(r@),
        r@.to_multiset() == v@.to_multiset(),
{
    broadcast use vstd::seq_lib::group_to_multiset_ensures;
    let ghost orig = v@;
    let mut rest = v;
    let mut r: Vec<OverlayEntry> = Vec::new();
    while rest.len() > 0
        invariant
            entries_sorted(r@),
            r@.to_multiset().add(rest@.to_multiset()) == orig.to_multiset(),
        decreases rest@.len(),
    {
        let ghost before_rest = rest@;
        let x = rest.remove(0);
        proof {
            vstd::seq_lib::to_multiset_remove(before_rest, 0);
        }
        let mut p: usize = 0;
        while p < r.len() && !entry_less(&x, &r[p])
            invariant
                p <= r@.len(),
                forall|k: int| 0 <= k < p ==> !entry_lt(x, #[trigger] r@[k]),
            decreases r@.len() - p,
        {
            p = p + 1;
        }
        let ghost old_r = r@;
        proof {
            assert forall|k: int| 0 <= k < p implies entry_le(#[trigger] old_r[k], x) by {
                lemma_lex_total(x.title@, old_r[k].title@);
                lemma_lex_total(x.id@, old_r[k].id@);
            }
            if p < old_r.len() {
                assert(entry_lt(x, old_r[p as int]));
                assert forall|k: int| p <= k < old_r.len() implies entry_le(x, #[trigger] old_r[k]) by {
                    if k > p {
                        lemma_entry_lt_trans(x, old_r[p as int], old_r[k]);
                    } else {
                        lemma_lex_total(x.title@, old_r[k].title@);
                        lemma_lex_total(x.id@, old_r[k].id@);
                    }
                }
            }
        }
        r.insert(p, x);
        proof {
            vstd::seq_lib::to_multiset_insert(old_r, p as int, x);
            assert forall|i: int, j: int| 0 <= i < j < r@.len() implies entry_le(#[trigger] r@[i], #[trigger] r@[j]) by {
                if j < p {
                    assert(r@[i] == old_r[i] && r@[j] == old_r[j]);
                } else if j == p {
                    assert(r@[i] == old_r[i]);
                } else if i < p {
                    assert(r@[i] == old_r[i] && r@[j] == old_r[j - 1]);
                    lemma_entry_le_trans(old_r[i], x, old_r[j - 1]);
                } else if i == p {
                    assert(r@[j] == old_r[j - 1]);
                } else {
                    assert(r@[i] == old_r[i - 1] && r@[j] == old_r[j - 1]);
                }
            }
            broadcast use vstd::multiset::group_multiset_axioms;
            assert(x == before_rest[0]);
            assert(before_rest.contains(x));
            vstd::seq_lib::to_multiset_contains(before_rest, x);
            assert(before_rest.to_multiset().count(x) > 0);
            assert(r@.to_multiset() == old_r.to_multiset().insert(x));
            assert(rest@.to_multiset() == before_rest.to_multiset().remove(x));
            assert(r@.to_multiset().add(rest@.to_multiset()) =~= old_r.to_multiset().add(before_rest.to_multiset()));
        }
    }
    proof {
        assert(rest@.to_multiset() =~= vstd::multiset::Multiset::empty());
        assert(r@.to_multiset() =~= orig.to_multiset());
    }
    r
}

// ----------------------------------------------------------------------
// File names and titles
// ----------------------------------------------------------------------

/// The overlay a file of the overlay directory holds, and whether it is
/// enabled: `<id>.dtbo` is enabled, `<id>.dtbo.disabled` is not; other
/// files hold none.
pub open spec fn overlay_file_spec(name: Seq<char>) -> Option<(Seq<char>, bool)> {
    if crate::text::ends_with(name, ".dtbo.disabled"@) {
        Some((name.take(name.len() - 9), false))
    } else if crate::text::ends_with(name, ".dtbo"@) {
        Some((name, true))
    } else {
        None
    }
}

/// The overlay a file holds (see [`overlay_file_spec`]).
pub fn overlay_file(name: &str) -> (r: Option<(String, bool)>)
    ensures
        match overlay_file_spec(name@) {
            Some((id, enabled)) => r matches Some((i, e)) && i@ == id && e == enabled,
            None => r is None,
        },
{
    proof {
        reveal_strlit(".dtbo.disabled");
    }
    let v = chars_of(name);
    if crate::text::ends_with_str(&v, ".dtbo.disabled") {
        let id = crate::text::slice(&v, 0, v.len() - 9);
        Some((string_of(&id), false))
    } else if crate::text::ends_with_str(&v, ".dtbo") {
        Some((owned(name), true))
    } else {
        None
    }
}

/// The file name of overlay `id` when it is enabled or not: `<id>` or
/// `<id>.disabled`.
pub open spec fn overlay_file_name(id: Seq<char>, enabled: bool) -> Seq<char> {
    if enabled {
        id
    } else {
        id + ".disabled"@
    }
}

/// The rename that switches overlay `id` on (`enable`) or off: from its
/// current file name to its new one.
pub fn overlay_switch(id: &str, enable: bool) -> (r: (String, String))
    ensures
        r.0@ == overlay_file_name(id@, !enable),
        r.1@ == overlay_file_name(id@, enable),
{
    let mut off = chars_of(id);
    crate::text::extend_str(&mut off, ".disabled");
    if enable {
        (string_of(&off), owned(id))
    } else {
        (owned(id), string_of(&off))
    }
}

/// Switching an overlay renames it to the name [`overlay_file`] reads back
/// as that overlay in its new state.
pub proof fn law_switched_file_reads_back(id: Seq<char>, enable: bool)
    requires
        crate::text::ends_with(id, ".dtbo"@),
    ensures
        overlay_file_spec(overlay_file_name(id, enable)) == Some((id, enable)),
{
    reveal_strlit(".dtbo.disabled");
    reveal_strlit(".disabled");
    reveal_strlit(".dtbo");
    let n = overlay_file_name(id, enable);
    if enable {
        if crate::text::ends_with(n, ".dtbo.disabled"@) {
            assert(n.skip(n.len() - 14)[13] == n[n.len() - 1]);
            assert(".dtbo.disabled"@[13] == 'd');
            assert(n.skip(n.len() - 5)[4] == n[n.len() - 1]);
            assert(".dtbo"@[4] == 'o');
        }
    } else {
        assert(n.skip(n.len() - 14) =~= ".dtbo.disabled"@) by {
            assert(id.skip(id.len() - 5) == ".dtbo"@);
            assert forall|i: int| 0 <= i < 14 implies n.skip(n.len() - 14)[i] == ".dtbo.disabled"@[i] by {
                if i < 5 {
                    assert(n[n.len() - 14 + i] == id[id.len() - 5 + i]);
                    assert(id.skip(id.len() - 5)[i] == id[id.len() - 5 + i]);
                } else {
                    assert(n[n.len() - 14 + i] == ".disabled"@[i - 5]);
                }
            }
        }
        assert(n.take(n.len() - 9) =~= id);
    }
}

/// `s` without the `.dtbo` suffixes it ends with.
pub open spec fn strip_dtbo(s: Seq<char>) -> Seq<char>
    decreases s.len(),
{
    if crate::text::ends_with(s, ".dtbo"@) && ".dtbo"@.len() > 0 {
        strip_dtbo(s.take(s.len() - ".dtbo"@.len()))
    } else {
        s
    }
}

/// A word with its first letter in upper case (ASCII).
pub open spec fn capitalized(w: Seq<char>) -> Seq<char> {
    if w.len() == 0 {
        w
    } else {
        seq![crate::text::upper_spec(w[0])] + w.drop_first()
    }
}

/// The title of an overlay that names none: its id without `.dtbo`, with
/// `-` and `_` read as spaces, each word capitalized, single spaces
/// between words.
pub open spec fn humanized(id: Seq<char>) -> Seq<char> {
    let spaced = strip_dtbo(id).map_values(|c: char| if c == '-' || c == '_' { ' ' } else { c });
    crate::text::join_spec(crate::lex::words(spaced).map_values(|w: Seq<char>| capitalized(w)), " "@)
}

/// A word with its first letter in upper case (see [`capitalized`]).
fn capitalize(w: &Vec<char>) -> (r: Vec<char>)
    ensures
        r@ == capitalized(w@),
{
    let mut c: Vec<char> = Vec::new();
    if w.len() == 0 {
        return c;
    }
    c.push(crate::text::upper(w[0]));
    let mut j: usize = 1;
    while j < w.len()
        invariant
            1 <= j <= w@.len(),
            c@ == seq![crate::text::upper_spec(w@[0])] + w@.subrange(1, j as int),
        decreases w@.len() - j,
    {
        c.push(w[j]);
        assert(c@ =~= seq![crate::text::upper_spec(w@[0])] + w@.subrange(1, j + 1));
        j = j + 1;
    }
    assert(w@.subrange(1, w@.len() as int) =~= w@.drop_first());
    c
}

/// The title of an overlay that names none (see [`humanized`]); the id is
/// a valid overlay id, so ASCII.
pub fn humanize_overlay_id(id: &str) -> (r: String)
    requires
        valid_overlay_id(id@),
    ensures
        r@ == humanized(id@),
{
    proof {
        reveal_strlit(".dtbo");
    }
    let mut v = chars_of(id);
    let ghost orig = id@;
    assert(".dtbo"@.len() == 5);
    while crate::text::ends_with_str(&v, ".dtbo")
        invariant
            strip_dtbo(orig) == strip_dtbo(v@),
            ".dtbo"@.len() == 5,
        decreases v@.len(),
    {
        v = crate::text::slice(&v, 0, v.len() - 5);
    }
    let mut spaced: Vec<char> = Vec::new();
    let mut i: usize = 0;
    while i < v.len()
        invariant
            i <= v.len(),
            spaced@ == v@.take(i as int).map_values(|c: char| if c == '-' || c == '_' { ' ' } else { c }),
        decreases v.len() - i,
    {
        let c = v[i];
        spaced.push(if c == '-' || c == '_' { ' ' } else { c });
        assert(v@.take(i + 1) =~= v@.take(i as int).push(c));
        assert(spaced@ =~= v@.take(i + 1).map_values(|c: char| if c == '-' || c == '_' { ' ' } else { c }));
        i = i + 1;
    }
    assert(v@.take(v@.len() as int) =~= v@);
    let ws = crate::lex::words_exec(&spaced);
    let ghost wv = ws@.map_values(|x: Vec<char>| x@);
    let mut caps: Vec<String> = Vec::new();
    let mut k: usize = 0;
    while k < ws.len()
        invariant
            k <= ws.len(),
            wv == ws@.map_values(|x: Vec<char>| x@),
            strings_view(caps@) == wv.take(k as int).map_values(|w: Seq<char>| capitalized(w)),
        decreases ws.len() - k,
    {
        let w = &ws[k];
        let c = capitalize(w);
        assert(wv[k as int] == w@);
        push_str(&mut caps, string_of(&c).as_str());
        assert(wv.take(k + 1) =~= wv.take(k as int).push(wv[k as int]));
        assert(strings_view(caps@) =~= wv.take(k + 1).map_values(|w: Seq<char>| capitalized(w)));
        k = k + 1;
    }
    assert(wv.take(ws@.len() as int) =~= wv);
    crate::text::join_exec(&caps, " ")
}

/// The overlay directory `/etc/default/u-boot` names: the value of the
/// first line that, trimmed, sets `U_BOOT_FDT_OVERLAYS_DIR=`, without the
/// quotes around it.
pub open spec fn u_boot_dir_spec(config: Seq<char>) -> Option<Seq<char>> {
    u_boot_dir_from(crate::lex::lines(config), 0)
}

/// The value the first line at or after `from` gives.
pub open spec fn u_boot_dir_from(ls: Seq<Seq<char>>, from: int) -> Option<Seq<char>>
    decreases ls.len() - from,
{
    if from < 0 || from >= ls.len() {
        None
    } else {
        let t = crate::text::trim(ls[from]);
        if crate::text::starts_with(t, "U_BOOT_FDT_OVERLAYS_DIR="@) {
            Some(trim_quotes(t.skip("U_BOOT_FDT_OVERLAYS_DIR="@.len() as int)))
        } else {
            u_boot_dir_from(ls, from + 1)
        }
    }
}

/// `s` without the `'` and `"` characters at its ends.
pub open spec fn trim_quotes(s: Seq<char>) -> Seq<char>
    decreases s.len(),
{
    if s.len() > 0 && (s[0] == '\'' || s[0] == '"') {
        trim_quotes(s.drop_first())
    } else if s.len() > 0 && (s.last() == '\'' || s.last() == '"') {
        trim_quotes(s.drop_last())
    } else {
        s
    }
}

fn trim_quotes_exec(s: &Vec<char>) -> (r: Vec<char>)
    ensures
        r@ == trim_quotes(s@),
{
    let mut a: usize = 0;
    let mut b: usize = s.len();
    assert(s@.subrange(0, s@.len() as int) =~= s@);
    while a < b && (s[a] == '\'' || s[a] == '"')
        invariant
            a <= b <= s.len(),
            b == s.len(),
            trim_quotes(s@) == trim_quotes(s@.subrange(a as int, b as int)),
        decreases b - a,
    {
        assert(s@.subrange(a as int, b as int).drop_first() =~= s@.subrange(a + 1, b as int));
        a = a + 1;
    }
    while a < b && (s[b - 1] == '\'' || s[b - 1] == '"')
        invariant
            a <= b <= s.len(),
            trim_quotes(s@) == trim_quotes(s@.subrange(a as int, b as int)),
            a < b ==> !(s@[a as int] == '\'' || s@[a as int] == '"'),
        decreases b - a,
    {
        assert(s@.subrange(a as int, b as int).drop_last() =~= s@.subrange(a as int, b - 1));
        b = b - 1;
    }
    crate::text::slice(s, a, b)
}

/// The overlay directory `/etc/default/u-boot` names (see
/// [`u_boot_dir_spec`]).
pub fn u_boot_overlay_dir(config: &str) -> (r: Option<String>)
    ensures
        match u_boot_dir_spec(config@) {
            Some(d) => r matches Some(v) && v@ == d,
            None => r is None,
        },
{
    proof {
        reveal_strlit("U_BOOT_FDT_OVERLAYS_DIR=");
    }
    assert("U_BOOT_FDT_OVERLAYS_DIR="@.len() == 24);
    let ls = crate::lex::lines_exec(&chars_of(config));
    let ghost lv = crate::source_files::vecs_view(ls@);
    let mut i: usize = 0;
    while i < ls.len()
        invariant
            i <= ls.len(),
            lv == crate::source_files::vecs_view(ls@),
            lv == crate::lex::lines(config@),
            "U_BOOT_FDT_OVERLAYS_DIR="@.len() == 24,
            u_boot_dir_from(lv, 0) == u_boot_dir_from(lv, i as int),
        decreases ls.len() - i,
    {
        let t = crate::text::trim_exec(&ls[i]);
        assert(t@ == crate::text::trim(lv[i as int]));
        if crate::text::starts_with_str(&t, "U_BOOT_FDT_OVERLAYS_DIR=") {
            let rest = crate::text::slice(&t, 24, t.len());
            let v = trim_quotes_exec(&rest);
            return Some(string_of(&v));
        }
        i = i + 1;
    }
    None
}

// ----------------------------------------------------------------------
// Metadata
// ----------------------------------------------------------------------

/// The first index where `p` occurs in `s` (`str::find`).
pub open spec fn find_spec(s: Seq<char>, p: Seq<char>) -> Option<int> {
    if exists|i: int| crate::text::occurs_at(s, p, i) {
        Some(choose|i: int| crate::text::first_occurrence(s, p, 0, i))
    } else {
        None
    }
}

/// The first index where `p` occurs in `s` (see [`find_spec`]).
fn find_str(s: &Vec<char>, p: &str) -> (r: Option<usize>)
    ensures
        match find_spec(s@, p@) {
            Some(i) => r == Some(i as usize) && crate::text::occurs_at(s@, p@, i),
            None => r is None,
        },
{
    let pv = chars_of(p);
    let r = crate::text::find_from(s, &pv, 0);
    proof {
        match r {
            Some(i) => {
                assert(crate::text::first_occurrence(s@, p@, 0, i as int));
                let j = choose|j: int| crate::text::first_occurrence(s@, p@, 0, j);
                if j < i {
                    assert(!crate::text::occurs_at(s@, p@, j));
                }
                if j > i {
                    assert(!crate::text::occurs_at(s@, p@, i as int));
                }
            },
            None => {
                if exists|i: int| crate::text::occurs_at(s@, p@, i) {
                    let i = choose|i: int| crate::text::occurs_at(s@, p@, i);
                    assert(!crate::text::occurs_at(s@, p@, i));
                }
            },
        }
    }
    r
}

/// The pieces of `s` between escaped NULs (a backslash then a zero).
pub open spec fn split_escaped_nul(s: Seq<char>) -> Seq<Seq<char>>
    decreases s.len(),
{
    match find_spec(s, "\\0"@) {
        Some(i) => if 0 <= i && i + 2 <= s.len() {
            seq![s.take(i)] + split_escaped_nul(s.skip(i + 2))
        } else {
            seq![s]
        },
        None => seq![s],
    }
}

/// The values of one quoted string of a device-tree property: its pieces
/// between escaped NULs, trimmed, the empty ones dropped.
pub open spec fn nul_values(t: Seq<char>) -> Seq<Seq<char>> {
    split_escaped_nul(t).map_values(|p: Seq<char>| crate::text::trim(p)).filter(|p: Seq<char>| p.len() > 0)
}

/// The values of the quoted strings of a line of device-tree source, in
/// order; an unclosed quote ends the line.
pub open spec fn quoted_spec(s: Seq<char>) -> Seq<Seq<char>>
    decreases s.len(),
{
    match crate::lex::index_of(s, '"') {
        Some(i) => if 0 <= i < s.len() {
            let rem = s.skip(i + 1);
            match crate::lex::index_of(rem, '"') {
                Some(j) => if 0 <= j < rem.len() {
                    nul_values(rem.take(j)) + quoted_spec(rem.skip(j + 1))
                } else {
                    seq![]
                },
                None => seq![],
            }
        } else {
            seq![]
        },
        None => seq![],
    }
}

fn nul_values_exec(t: &Vec<char>) -> (r: Vec<String>)
    ensures
        strings_view(r@) == nul_values(t@),
{
    proof {
        reveal_strlit("\\0");
    }
    let mut pieces: Vec<Vec<char>> = Vec::new();
    let mut rest = t.clone();
    assert(pieces@.len() == 0);
    assert(crate::source_files::vecs_view(pieces@) =~= Seq::<Seq<char>>::empty());
    loop
        invariant
            crate::source_files::vecs_view(pieces@) + split_escaped_nul(rest@) == split_escaped_nul(t@),
            "\\0"@.len() == 2,
        ensures
            crate::source_files::vecs_view(pieces@) + split_escaped_nul(rest@) == split_escaped_nul(t@),
            find_spec(rest@, "\\0"@) is None,
        decreases rest@.len(),
    {
        match find_str(&rest, "\\0") {
            Some(i) => {
                proof {
                    let ghost f = find_spec(rest@, "\\0"@);
                    assert(f is Some);
                    let ghost j = f->0;
                    assert(crate::text::occurs_at(rest@, "\\0"@, j));
                    assert(rest@.len() == rest.len());
                    assert(j == i as int);
                }
                let head = crate::text::slice(&rest, 0, i);
                let tail = crate::text::slice(&rest, i + 2, rest.len());
                proof {
                    let ghost pv0 = crate::source_files::vecs_view(pieces@);
                    assert(split_escaped_nul(rest@) == seq![rest@.take(i as int)] + split_escaped_nul(rest@.skip(i + 2)));
                    assert(head@ =~= rest@.take(i as int));
                    assert(tail@ =~= rest@.skip(i + 2));
                    assert(crate::source_files::vecs_view(pieces@.push(head)) =~= pv0.push(head@));
                    assert(pv0.push(head@) + split_escaped_nul(tail@) =~= pv0 + (seq![head@] + split_escaped_nul(tail@)));
                }
                pieces.push(head);
                rest = tail;
            },
            None => {
                break;
            },
        }
    }
    let ghost before = pieces@;
    let ghost last = rest@;
    assert(split_escaped_nul(last) == seq![last]);
    pieces.push(rest);
    let ghost pv = crate::source_files::vecs_view(pieces@);
    assert(pv =~= split_escaped_nul(t@)) by {
        assert(crate::source_files::vecs_view(before.push(pieces@[pieces@.len() - 1])) =~= crate::source_files::vecs_view(before).push(last));
        assert(pieces@ == before.push(pieces@[pieces@.len() - 1]));
    }
    let mut r: Vec<String> = Vec::new();
    let mut k: usize = 0;
    let ghost trimmed = pv.map_values(|p: Seq<char>| crate::text::trim(p));
    while k < pieces.len()
        invariant
            k <= pieces.len(),
            pv == crate::source_files::vecs_view(pieces@),
            trimmed == pv.map_values(|p: Seq<char>| crate::text::trim(p)),
            strings_view(r@) == trimmed.take(k as int).filter(|p: Seq<char>| p.len() > 0),
        decreases pieces.len() - k,
    {
        let v = crate::text::trim_exec(&pieces[k]);
        proof {
            let tk = trimmed.take(k as int);
            let item = trimmed[k as int];
            assert(item == v@);
            assert(trimmed.take(k + 1) =~= tk.push(item));
            assert(tk.push(item).filter(|p: Seq<char>| p.len() > 0) == if item.len() > 0 {
                tk.filter(|p: Seq<char>| p.len() > 0).push(item)
            } else {
                tk.filter(|p: Seq<char>| p.len() > 0)
            }) by {
                reveal(Seq::filter);
                assert(tk.push(item).drop_last() =~= tk);
            }
        }
        if v.len() > 0 {
            push_str(&mut r, string_of(&v).as_str());
        }
        k = k + 1;
    }
    assert(trimmed.take(pieces@.len() as int) =~= trimmed);
    r
}


/// The values of the quoted strings of one line of device-tree source (see
/// [`quoted_spec`]).
pub fn quoted_values(line: &str) -> (r: Vec<String>)
    ensures
        strings_view(r@) == quoted_spec(line@),
{
    let mut values: Vec<String> = Vec::new();
    let mut rem = chars_of(line);
    loop
        invariant
            strings_view(values@) + quoted_spec(rem@) == quoted_spec(line@),
        ensures
            strings_view(values@) == quoted_spec(line@),
        decreases rem@.len(),
    {
        proof {
            crate::lex::lemma_index_of_props(rem@, '"');
        }
        match crate::lex::index_of_exec(&rem, '"') {
            None => {
                assert(strings_view(values@) + quoted_spec(rem@) =~= strings_view(values@));
                break;
            },
            Some(i) => {
                let after = crate::text::slice(&rem, i + 1, rem.len());
                proof {
                    assert(after@ =~= rem@.skip(i + 1));
                    crate::lex::lemma_index_of_props(after@, '"');
                }
                match crate::lex::index_of_exec(&after, '"') {
                    None => {
                        assert(strings_view(values@) + quoted_spec(rem@) =~= strings_view(
                            values@,
                        ));
                        break;
                    },
                    Some(j) => {
                        let inner = crate::text::slice(&after, 0, j);
                        let next = crate::text::slice(&after, j + 1, after.len());
                        let found = nul_values_exec(&inner);
                        let ghost v0 = strings_view(values@);
                        proof {
                            assert(inner@ =~= after@.take(j as int));
                            assert(next@ =~= after@.skip(j + 1));
                            assert(quoted_spec(rem@) == nul_values(inner@) + quoted_spec(next@));
                        }
                        let mut k: usize = 0;
                        while k < found.len()
                            invariant
                                k <= found.len(),
                                strings_view(values@) == v0 + strings_view(found@).take(k as int),
                            decreases found.len() - k,
                        {
                            let ghost before = strings_view(values@);
                            push_str(&mut values, found[k].as_str());
                            assert(strings_view(found@).take(k + 1) =~= strings_view(found@).take(
                                k as int,
                            ).push(found@[k as int]@));
                            k = k + 1;
                        }
                        proof {
                            assert(strings_view(found@).take(found@.len() as int) =~= strings_view(
                                found@,
                            ));
                            assert(v0 + nul_values(inner@) + quoted_spec(next@) =~= v0 + (
                            nul_values(inner@) + quoted_spec(next@)));
                        }
                        rem = next;
                    },
                }
            },
        }
    }
    values
}

/// The part of a device-tree source that holds an overlay's metadata: from
/// `metadata {` up to the line that closes it, if the text has one.
pub open spec fn metadata_section(text: Seq<char>) -> Option<Seq<char>> {
    match find_spec(text, "metadata {"@) {
        Some(start) => {
            let sec = text.skip(start);
            match find_spec(sec, "\n\t};"@) {
                Some(end) => Some(sec.take(end)),
                None => Some(sec),
            }
        },
        None => None,
    }
}

/// The first of `ls` that starts, after its leading white space, with
/// `prefix`.
pub open spec fn first_keyed(ls: Seq<Seq<char>>, prefix: Seq<char>) -> Option<Seq<char>>
    decreases ls.len(),
{
    if ls.len() == 0 {
        None
    } else if crate::text::starts_with(crate::text::trim_start(ls[0]), prefix) {
        Some(ls[0])
    } else {
        first_keyed(ls.drop_first(), prefix)
    }
}

/// The values given to a metadata key: those of the first line of the
/// metadata section that assigns it (`prefix` is the key and ` =`).
pub open spec fn key_values(text: Seq<char>, prefix: Seq<char>) -> Seq<Seq<char>> {
    match metadata_section(text) {
        Some(sec) => match first_keyed(crate::lex::lines(sec), prefix) {
            Some(line) => quoted_spec(line),
            None => seq![],
        },
        None => seq![],
    }
}

/// What an overlay's device-tree source says of it; a key it does not set
/// has no values.
pub struct OverlayMetadata {
    pub title: Vec<String>,
    pub description: Vec<String>,
    pub category: Vec<String>,
    pub exclusive: Vec<String>,
    pub package: Vec<String>,
}

fn keyed_values(ls: &Vec<Vec<char>>, prefix: &str) -> (r: Vec<String>)
    ensures
        strings_view(r@) == match first_keyed(ls@.map_values(|v: Vec<char>| v@), prefix@) {
            Some(line) => quoted_spec(line),
            None => seq![],
        },
{
    let ghost lv = ls@.map_values(|v: Vec<char>| v@);
    let mut i: usize = 0;
    assert(lv.skip(0) =~= lv);
    while i < ls.len()
        invariant
            i <= ls.len(),
            lv == ls@.map_values(|v: Vec<char>| v@),
            first_keyed(lv, prefix@) == first_keyed(lv.skip(i as int), prefix@),
        decreases ls.len() - i,
    {
        let t = crate::text::trim_start_exec(&ls[i]);
        proof {
            assert(lv.skip(i as int)[0] == ls@[i as int]@);
            assert(lv.skip(i as int).drop_first() =~= lv.skip(i + 1));
        }
        if crate::text::starts_with_str(&t, prefix) {
            let line = string_of(&ls[i]);
            return quoted_values(line.as_str());
        }
        i = i + 1;
    }
    assert(lv.skip(i as int).len() == 0);
    Vec::new()
}

/// Reads the metadata of an overlay from its device-tree source: the
/// values of `title`, `description`, `category`, `exclusive` and `package`.
pub fn parse_overlay_metadata(text: &str) -> (r: OverlayMetadata)
    ensures
        strings_view(r.title@) == key_values(text@, "title ="@),
        strings_view(r.description@) == key_values(text@, "description ="@),
        strings_view(r.category@) == key_values(text@, "category ="@),
        strings_view(r.exclusive@) == key_values(text@, "exclusive ="@),
        strings_view(r.package@) == key_values(text@, "package ="@),
{
    let t = chars_of(text);
    match find_str(&t, "metadata {") {
        None => OverlayMetadata {
            title: Vec::new(),
            description: Vec::new(),
            category: Vec::new(),
            exclusive: Vec::new(),
            package: Vec::new(),
        },
        Some(start) => {
            proof {
                reveal_strlit("metadata {");
                let f = find_spec(t@, "metadata {"@);
                assert(crate::text::occurs_at(t@, "metadata {"@, f->0));
                assert(t@.len() == t.len());
            }
            let sec = crate::text::slice(&t, start, t.len());
            let section = match find_str(&sec, "\n\t};") {
                Some(end) => {
                    proof {
                        reveal_strlit("\n\t};");
                        let f = find_spec(sec@, "\n\t};"@);
                        assert(crate::text::occurs_at(sec@, "\n\t};"@, f->0));
                        assert(sec@.len() == sec.len());
                    }
                    crate::text::slice(&sec, 0, end)
                },
                None => sec,
            };
            proof {
                assert(metadata_section(text@) == Some(section@));
            }
            let ls = crate::lex::lines_exec(&section);
            OverlayMetadata {
                title: keyed_values(&ls, "title ="),
                description: keyed_values(&ls, "description ="),
                category: keyed_values(&ls, "category ="),
                exclusive: keyed_values(&ls, "exclusive ="),
                package: keyed_values(&ls, "package ="),
            }
        },
    }
}

/// The first of a list of values, if any.
pub open spec fn first_value(v: Seq<Seq<char>>) -> Option<Seq<char>> {
    if v.len() > 0 {
        Some(v[0])
    } else {
        None
    }
}

/// The first of a list of strings, if any.
fn first_of(v: &Vec<String>) -> (r: Option<String>)
    ensures
        opt_view(r) == first_value(strings_view(v@)),
{
    if v.len() == 0 {
        None
    } else {
        Some(owned(v[0].as_str()))
    }
}

/// The entry shown for an overlay file: its id and state, the title its
/// metadata gives (else one made from the id), its description and
/// category, the overlays it excludes and the packages it needs.
pub fn overlay_entry(id: &str, enabled: bool, metadata: &OverlayMetadata) -> (r: OverlayEntry)
    requires
        valid_overlay_id(id@),
    ensures
        r.id@ == id@,
        r.enabled == enabled,
        r.title@ == if metadata.title@.len() > 0 {
            metadata.title@[0]@
        } else {
            humanized(id@)
        },
        opt_view(r.description) == first_value(strings_view(metadata.description@)),
        opt_view(r.category) == first_value(strings_view(metadata.category@)),
        r.exclusive@ == metadata.exclusive@,
        r.packages@ == metadata.package@,
{
    let title = if metadata.title.len() > 0 {
        owned(metadata.title[0].as_str())
    } else {
        humanize_overlay_id(id)
    };
    OverlayEntry {
        id: owned(id),
        title,
        description: first_of(&metadata.description),
        category: first_of(&metadata.category),
        enabled,
        exclusive: crate::model::clone_strings(&metadata.exclusive),
        packages: crate::model::clone_strings(&metadata.package),
    }
}


/// Why a U-Boot overlay directory cannot be switched: it holds no overlay,
/// or no U-Boot overlay updater is there.
pub open spec fn u_boot_unavailable(empty: bool, updater: bool) -> Option<Seq<char>> {
    if empty {
        Some("No device-tree overlay was found in the managed directory."@)
    } else if !updater {
        Some("A supported U-Boot overlay updater was not detected."@)
    } else {
        None
    }
}

/// The overlay status of a board whose overlays were read from the
/// directory `directory` found for `bootloader`: they are supported when
/// there is one, and can be switched when, besides, the updater command is
/// there and the boot loader is U-Boot.
pub fn u_boot_overlay_status(
    bootloader: &str,
    directory: &str,
    overlays: Vec<OverlayEntry>,
    has_updater_command: bool,
) -> (r: crate::hardware::OverlayStatus)
    ensures
        !r.synthetic,
        r.supported == (overlays@.len() > 0),
        r.mutable == (overlays@.len() > 0 && has_updater_command && bootloader@ == "u-boot"@),
        r.bootloader@ == bootloader@,
        r.directory matches Some(d) && d@ == directory@,
        r.revision@ == crate::hardware::overlay_revision_spec(overlays@),
        r.overlays@ == overlays@,
        opt_view(r.unavailable_reason) == u_boot_unavailable(
            overlays@.len() == 0,
            has_updater_command && bootloader@ == "u-boot"@,
        ),
{
    let b = chars_of(bootloader);
    let updater = has_updater_command && eq_str(&b, "u-boot");
    let empty = overlays.len() == 0;
    let reason = if empty {
        Some(owned("No device-tree overlay was found in the managed directory."))
    } else if !updater {
        Some(owned("A supported U-Boot overlay updater was not detected."))
    } else {
        None
    };
    let revision = crate::hardware::overlay_revision(&overlays);
    crate::hardware::OverlayStatus {
        synthetic: false,
        supported: !empty,
        mutable: !empty && updater,
        bootloader: owned(bootloader),
        directory: Some(owned(directory)),
        revision,
        overlays,
        unavailable_reason: reason,
    }
}

} // verus!
