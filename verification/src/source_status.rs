//! What the source files of a host say: which repositories they use and
//! which providers serve them.
use vstd::prelude::*;
use crate::lex::{lemma_word_len, lines, lines_exec, word_len};
use crate::source_files::{eligible_line, eligible_spec, is_http, vecs_view, SourceDocument};
use crate::fingerprint::{absorb_fields, fingerprint_text, Fingerprint};
use crate::model::strings_view;
use crate::sources::{classify_spec, classify_uri_chars, provider_catalog, MirrorProvider, SourceKind};
use crate::text::{chars_of, eq_str, is_ws, owned, slice, starts_with_str, string_of, ws};
use vstd::utf8::encode_utf8;

verus! {

/// The recognised URIs of one line, in order: the repository each points
/// into and the provider that serves it.
pub open spec fn classified_tokens(s: Seq<char>, dist: Seq<char>) -> Seq<(SourceKind, Seq<char>)>
    decreases s.len(),
{
    if s.len() == 0 {
        seq![]
    } else if is_ws(s[0]) {
        classified_tokens(s.drop_first(), dist)
    } else {
        let n = word_len(s);
        if 0 < n <= s.len() {
            let rest = classified_tokens(s.skip(n as int), dist);
            let tok = s.take(n as int);
            if is_http(tok) {
                match classify_spec(tok, dist) {
                    Some((kind, id, _)) => seq![(kind, id)] + rest,
                    None => rest,
                }
            } else {
                rest
            }
        } else {
            seq![]
        }
    }
}

/// The views of a list of entries.
pub open spec fn entries_view(v: Seq<(SourceKind, String)>) -> Seq<(SourceKind, Seq<char>)> {
    v.map_values(|e: (SourceKind, String)| (e.0, e.1@))
}

proof fn lemma_entries_push(v: Seq<(SourceKind, String)>, e: (SourceKind, String))
    ensures
        entries_view(v.push(e)) == entries_view(v).push((e.0, e.1@)),
{
    assert(entries_view(v.push(e)) =~= entries_view(v).push((e.0, e.1@)));
}

fn classified_tokens_exec(line: &Vec<char>, dist: &Vec<char>, out: &mut Vec<(SourceKind, String)>)
    ensures
        entries_view(final(out)@) == entries_view(old(out)@) + classified_tokens(line@, dist@),
{
    let ghost start = entries_view(out@);
    let mut at: usize = 0;
    assert(line@.skip(0) == line@);
    while at < line.len()
        invariant
            at <= line.len(),
            entries_view(out@) + classified_tokens(line@.skip(at as int), dist@) == start
                + classified_tokens(line@, dist@),
        decreases line.len() - at,
    {
        let ghost t = line@.skip(at as int);
        if ws(line[at]) {
            assert(t[0] == line@[at as int]);
            assert(t.drop_first() == line@.skip(at + 1));
            at = at + 1;
        } else {
            let mut end = at + 1;
            while end < line.len() && !ws(line[end])
                invariant
                    at < end <= line.len(),
                    forall|j: int| at <= j < end ==> !is_ws(line@[j]),
                decreases line.len() - end,
            {
                end = end + 1;
            }
            proof {
                assert forall|j: int| 0 <= j < end - at implies !is_ws(t[j]) by {
                    assert(t[j] == line@[at + j]);
                }
                if end < line.len() {
                    assert(t[end - at] == line@[end as int]);
                }
                lemma_word_len(t, end - at);
                assert(t[0] == line@[at as int]);
                assert(t.skip(end - at) == line@.skip(end as int));
                assert(t.take(end - at) == line@.subrange(at as int, end as int));
            }
            let tok = slice(line, at, end);
            let ghost rest = classified_tokens(line@.skip(end as int), dist@);
            if starts_with_str(&tok, "http://") || starts_with_str(&tok, "https://") {
                match classify_uri_chars(&tok, dist) {
                    Some((kind, id, _)) => {
                        let ghost before = out@;
                        let name = owned(id);
                        let ghost entry = (kind, name);
                        out.push((kind, name));
                        proof {
                            lemma_entries_push(before, entry);
                        }
                        assert(entries_view(out@) + rest =~= entries_view(before) + (seq![
                            (kind, id@),
                        ] + rest));
                    },
                    None => {},
                }
            }
            at = end;
        }
    }
    assert(line@.skip(at as int) =~= Seq::<char>::empty());
    assert(entries_view(out@) + Seq::<(SourceKind, Seq<char>)>::empty() =~= entries_view(out@));
}

/// The recognised URIs of the first `n` lines that name repositories.
pub open spec fn entries_upto(
    ls: Seq<Seq<char>>,
    n: int,
    deb822: bool,
    dist: Seq<char>,
) -> Seq<(SourceKind, Seq<char>)>
    decreases n,
{
    if n <= 0 {
        seq![]
    } else {
        entries_upto(ls, n - 1, deb822, dist) + if eligible_spec(ls[n - 1], deb822) {
            classified_tokens(ls[n - 1], dist)
        } else {
            seq![]
        }
    }
}

/// The recognised URIs of a source file, line by line.
pub open spec fn document_entries(doc: SourceDocument, dist: Seq<char>) -> Seq<
    (SourceKind, Seq<char>),
> {
    let ls = lines(doc.content@);
    entries_upto(ls, ls.len() as int, doc.format@ == "deb822"@, dist)
}

/// The recognised URIs of a source file (see [`document_entries`]).
pub fn inspect_document(document: &SourceDocument, distribution_id: &str) -> (r: Vec<
    (SourceKind, String),
>)
    ensures
        entries_view(r@) == document_entries(*document, distribution_id@),
{
    let fv = chars_of(document.format);
    let deb822 = eq_str(&fv, "deb822");
    let dist = chars_of(distribution_id);
    let content = chars_of(document.content.as_str());
    let ls = lines_exec(&content);
    let ghost lv = vecs_view(ls@);
    assert(lv == lines(document.content@));
    let mut r: Vec<(SourceKind, String)> = Vec::new();
    let mut i: usize = 0;
    while i < ls.len()
        invariant
            i <= ls.len(),
            lv == vecs_view(ls@),
            entries_view(r@) == entries_upto(lv, i as int, deb822, dist@),
        decreases ls.len() - i,
    {
        assert(lv[i as int] == ls@[i as int]@);
        if eligible_line(&ls[i], deb822) {
            classified_tokens_exec(&ls[i], &dist, &mut r);
        } else {
            assert(entries_view(r@) + Seq::<(SourceKind, Seq<char>)>::empty() =~= entries_view(
                r@,
            ));
        }
        i = i + 1;
    }
    r
}

/// The provider that serves a list of sources: none for no sources,
/// `mixed` when they are served by more than one.
pub open spec fn collapsed_spec(ids: Seq<Seq<char>>) -> Option<Seq<char>> {
    if ids.len() == 0 {
        None
    } else if forall|j: int| 0 <= j < ids.len() ==> #[trigger] ids[j] == ids[0] {
        Some(ids[0])
    } else {
        Some("mixed"@)
    }
}

/// The provider that serves a list of sources (see [`collapsed_spec`]).
pub fn collapsed_provider(ids: &Vec<String>) -> (r: Option<String>)
    ensures
        r matches Some(s) ==> collapsed_spec(strings_view(ids@)) == Some(s@),
        r is None ==> collapsed_spec(strings_view(ids@)) is None,
{
    let ghost v = strings_view(ids@);
    if ids.len() == 0 {
        return None;
    }
    let first = chars_of(ids[0].as_str());
    let mut i: usize = 1;
    while i < ids.len()
        invariant
            1 <= i <= ids.len(),
            v == strings_view(ids@),
            first@ == v[0],
            forall|j: int| 0 <= j < i ==> #[trigger] v[j] == v[0],
        decreases ids.len() - i,
    {
        let other = chars_of(ids[i].as_str());
        if !crate::text::seq_eq(&other, &first) {
            assert(v[i as int] != v[0]);
            return Some(owned("mixed"));
        }
        i = i + 1;
    }
    Some(ids[0].clone())
}

/// The kinds of source in their order.
pub open spec fn kind_at(i: int) -> SourceKind {
    if i == 0 {
        SourceKind::Debian
    } else if i == 1 {
        SourceKind::DebianSecurity
    } else if i == 2 {
        SourceKind::Ubuntu
    } else if i == 3 {
        SourceKind::UbuntuPorts
    } else {
        SourceKind::Radxa
    }
}

fn kind_at_exec(i: usize) -> (r: SourceKind)
    ensures
        r == kind_at(i as int),
{
    if i == 0 {
        SourceKind::Debian
    } else if i == 1 {
        SourceKind::DebianSecurity
    } else if i == 2 {
        SourceKind::Ubuntu
    } else if i == 3 {
        SourceKind::UbuntuPorts
    } else {
        SourceKind::Radxa
    }
}

/// Some entry is of kind `k`.
pub open spec fn has_kind(entries: Seq<(SourceKind, Seq<char>)>, k: SourceKind) -> bool {
    exists|j: int| 0 <= j < entries.len() && entries[j].0 == k
}

/// The kinds among the first `m` that some entry has, in order.
pub open spec fn kinds_upto(entries: Seq<(SourceKind, Seq<char>)>, m: int) -> Seq<SourceKind>
    decreases m,
{
    if m <= 0 {
        seq![]
    } else {
        kinds_upto(entries, m - 1) + if has_kind(entries, kind_at(m - 1)) {
            seq![kind_at(m - 1)]
        } else {
            seq![]
        }
    }
}

/// The kinds the entries have, each once, in order.
pub open spec fn kinds_of(entries: Seq<(SourceKind, Seq<char>)>) -> Seq<SourceKind> {
    kinds_upto(entries, 5)
}

fn kinds_present(entries: &Vec<(SourceKind, String)>) -> (r: Vec<SourceKind>)
    ensures
        r@ == kinds_of(entries_view(entries@)),
{
    let ghost ev = entries_view(entries@);
    let mut r: Vec<SourceKind> = Vec::new();
    let mut m: usize = 0;
    while m < 5
        invariant
            m <= 5,
            ev == entries_view(entries@),
            r@ == kinds_upto(ev, m as int),
        decreases 5 - m,
    {
        let k = kind_at_exec(m);
        let mut found = false;
        let mut j: usize = 0;
        while j < entries.len()
            invariant
                j <= entries.len(),
                ev == entries_view(entries@),
                found == exists|x: int| 0 <= x < j && ev[x].0 == k,
            decreases entries.len() - j,
        {
            assert(ev[j as int].0 == entries@[j as int].0);
            if entries[j].0 == k {
                found = true;
            }
            j = j + 1;
        }
        if found {
            r.push(k);
        }
        m = m + 1;
    }
    r
}

/// The ids of the providers of the entries that are Radxa's (`radxa`
/// true) or the distribution's (`radxa` false).
pub open spec fn ids_of(entries: Seq<(SourceKind, Seq<char>)>, radxa: bool) -> Seq<Seq<char>>
    decreases entries.len(),
{
    if entries.len() == 0 {
        seq![]
    } else {
        ids_of(entries.drop_last(), radxa) + if (entries.last().0 == SourceKind::Radxa) == radxa {
            seq![entries.last().1]
        } else {
            seq![]
        }
    }
}

fn push_ids(entries: &Vec<(SourceKind, String)>, radxa: bool, out: &mut Vec<String>)
    ensures
        strings_view(final(out)@) == strings_view(old(out)@) + ids_of(entries_view(entries@), radxa),
{
    let ghost start = strings_view(out@);
    let ghost ev = entries_view(entries@);
    let mut j: usize = 0;
    while j < entries.len()
        invariant
            j <= entries.len(),
            ev == entries_view(entries@),
            strings_view(out@) == start + ids_of(ev.take(j as int), radxa),
        decreases entries.len() - j,
    {
        assert(ev.take(j + 1).drop_last() =~= ev.take(j as int));
        assert(ev[j as int] == (entries@[j as int].0, entries@[j as int].1@));
        let is_radxa = entries[j].0 == SourceKind::Radxa;
        if is_radxa == radxa {
            let ghost before = strings_view(out@);
            out.push(entries[j].1.clone());
            assert(strings_view(out@) =~= before.push(entries@[j as int].1@));
            assert(start + ids_of(ev.take(j + 1), radxa) =~= (start + ids_of(ev.take(j as int), radxa)).push(
                ev[j as int].1,
            ));
        } else {
            assert(start + ids_of(ev.take(j + 1), radxa) =~= start + ids_of(ev.take(j as int), radxa));
        }
        j = j + 1;
    }
    assert(ev.take(entries@.len() as int) =~= ev);
}

/// The strings a list of source files is fingerprinted from: for each
/// file its path, its format and its text.
pub open spec fn document_fields(docs: Seq<SourceDocument>) -> Seq<Seq<u8>>
    decreases docs.len(),
{
    if docs.len() == 0 {
        seq![]
    } else {
        let d = docs.last();
        document_fields(docs.drop_last()) + seq![
            encode_utf8(d.display_path@),
            encode_utf8(d.format@),
            encode_utf8(d.content@),
        ]
    }
}

/// The revision of a set of source files: any change to any of them
/// changes it.
pub open spec fn revision_spec(docs: Seq<SourceDocument>) -> Seq<char> {
    fingerprint_text("sources-v1"@, absorb_fields(document_fields(docs)))
}

pub proof fn lemma_absorb_three(f: Seq<Seq<u8>>, a: Seq<u8>, b: Seq<u8>, c: Seq<u8>)
    ensures
        absorb_fields(f + seq![a, b, c]) == crate::fingerprint::absorb_field(
            crate::fingerprint::absorb_field(crate::fingerprint::absorb_field(absorb_fields(f), a), b),
            c,
        ),
{
    let f3 = f + seq![a, b, c];
    let f2 = f + seq![a, b];
    let f1 = f.push(a);
    assert(f3.drop_last() =~= f2);
    assert(f3.last() == c);
    assert(f2.drop_last() =~= f1);
    assert(f2.last() == b);
    assert(f1.drop_last() =~= f);
    assert(f1.last() == a);
    assert(absorb_fields(f1) == crate::fingerprint::absorb_field(absorb_fields(f), a));
    assert(absorb_fields(f2) == crate::fingerprint::absorb_field(absorb_fields(f1), b));
    assert(absorb_fields(f3) == crate::fingerprint::absorb_field(absorb_fields(f2), c));
}

/// The revision of a set of source files (see [`revision_spec`]).
pub fn source_revision(documents: &Vec<SourceDocument>) -> (r: String)
    ensures
        r@ == revision_spec(documents@),
{
    let mut fp = Fingerprint::new();
    let mut i: usize = 0;
    while i < documents.len()
        invariant
            i <= documents.len(),
            fp@ == absorb_fields(document_fields(documents@.take(i as int))),
        decreases documents.len() - i,
    {
        let d = &documents[i];
        proof {
            assert(documents@.take(i + 1).drop_last() =~= documents@.take(i as int));
            assert(documents@.take(i + 1).last() == *d);
            lemma_absorb_three(
                document_fields(documents@.take(i as int)),
                encode_utf8(d.display_path@),
                encode_utf8(d.format@),
                encode_utf8(d.content@),
            );
        }
        fp.update(d.display_path.as_str().as_bytes());
        fp.update(d.format.as_bytes());
        fp.update(d.content.as_str().as_bytes());
        i = i + 1;
    }
    assert(documents@.take(documents@.len() as int) =~= documents@);
    let text = fp.finish("sources-v1");
    string_of(&text)
}

/// A summary of one source file that names recognised repositories.
#[derive(Debug, Clone, PartialEq, Eq)]
pub struct SourceFileSummary {
    pub path: String,
    pub format: String,
    pub managed_entries: usize,
    pub kinds: Vec<SourceKind>,
}

/// `s` summarises `doc`: its path and format, how many recognised URIs it
/// has and their kinds.
pub open spec fn summarises(s: SourceFileSummary, doc: SourceDocument, dist: Seq<char>) -> bool {
    let e = document_entries(doc, dist);
    &&& s.path@ == doc.display_path@
    &&& s.format@ == doc.format@
    &&& s.managed_entries == e.len()
    &&& s.kinds@ == kinds_of(e)
}

/// The indices, among the first `n` files, of those with recognised URIs.
pub open spec fn managed_upto(docs: Seq<SourceDocument>, n: int, dist: Seq<char>) -> Seq<int>
    decreases n,
{
    if n <= 0 {
        seq![]
    } else {
        managed_upto(docs, n - 1, dist) + if document_entries(docs[n - 1], dist).len() > 0 {
            seq![n - 1]
        } else {
            seq![]
        }
    }
}

/// The provider ids of the Radxa (`radxa` true) or distribution sources
/// of the first `n` files.
pub open spec fn provider_ids_upto(
    docs: Seq<SourceDocument>,
    n: int,
    dist: Seq<char>,
    radxa: bool,
) -> Seq<Seq<char>>
    decreases n,
{
    if n <= 0 {
        seq![]
    } else {
        provider_ids_upto(docs, n - 1, dist, radxa) + ids_of(
            document_entries(docs[n - 1], dist),
            radxa,
        )
    }
}

/// Debian and Ubuntu are the distributions whose sources can be managed.
pub open spec fn supported_distribution(id: Seq<char>) -> bool {
    id == "debian"@ || id == "ubuntu"@
}

pub fn is_supported_distribution(id: &str) -> (r: bool)
    ensures
        r == supported_distribution(id@),
{
    let v = chars_of(id);
    eq_str(&v, "debian") || eq_str(&v, "ubuntu")
}

/// What the source files of a host use.
#[derive(Debug, Clone)]
pub struct SourceStatus {
    pub synthetic: bool,
    pub supported: bool,
    pub distribution_id: String,
    pub distribution_name: String,
    pub architecture: String,
    pub source_revision: String,
    pub files: Vec<SourceFileSummary>,
    pub current_system_provider: Option<String>,
    pub current_radxa_provider: Option<String>,
    pub providers: Vec<MirrorProvider>,
}

/// The views of an optional string.
pub open spec fn opt_view(o: Option<String>) -> Option<Seq<char>> {
    match o {
        Some(s) => Some(s@),
        None => None,
    }
}

/// What a set of source files uses: a summary of each file with
/// recognised URIs, the provider serving the distribution's sources and
/// the one serving Radxa's (`mixed` when several do), and the revision.
/// Sources can be managed when some file has recognised URIs and the
/// distribution is Debian or Ubuntu.
pub fn source_status(
    documents: &Vec<SourceDocument>,
    distribution_id: &str,
    distribution_name: &str,
    architecture: &str,
    synthetic: bool,
) -> (r: SourceStatus)
    ensures
        ({
            let docs = documents@;
            let n = docs.len() as int;
            let managed = managed_upto(docs, n, distribution_id@);
            &&& r.synthetic == synthetic
            &&& r.distribution_id@ == distribution_id@
            &&& r.distribution_name@ == distribution_name@
            &&& r.architecture@ == architecture@
            &&& r.source_revision@ == revision_spec(docs)
            &&& r.files@.len() == managed.len()
            &&& forall|k: int|
                0 <= k < managed.len() ==> summarises(
                    #[trigger] r.files@[k],
                    docs[managed[k]],
                    distribution_id@,
                )
            &&& r.supported == (managed.len() > 0 && supported_distribution(distribution_id@))
            &&& opt_view(r.current_system_provider) == collapsed_spec(
                provider_ids_upto(docs, n, distribution_id@, false),
            )
            &&& opt_view(r.current_radxa_provider) == collapsed_spec(
                provider_ids_upto(docs, n, distribution_id@, true),
            )
            &&& crate::sources::is_catalog(r.providers@)
        }),
{
    let ghost docs = documents@;
    let mut files: Vec<SourceFileSummary> = Vec::new();
    let mut system_ids: Vec<String> = Vec::new();
    let mut radxa_ids: Vec<String> = Vec::new();
    let mut i: usize = 0;
    while i < documents.len()
        invariant
            i <= documents.len(),
            docs == documents@,
            files@.len() == managed_upto(docs, i as int, distribution_id@).len(),
            forall|k: int|
                0 <= k < files@.len() ==> summarises(
                    #[trigger] files@[k],
                    docs[managed_upto(docs, i as int, distribution_id@)[k]],
                    distribution_id@,
                ),
            strings_view(system_ids@) == provider_ids_upto(docs, i as int, distribution_id@, false),
            strings_view(radxa_ids@) == provider_ids_upto(docs, i as int, distribution_id@, true),
        decreases documents.len() - i,
    {
        let d = &documents[i];
        let entries = inspect_document(d, distribution_id);
        push_ids(&entries, false, &mut system_ids);
        push_ids(&entries, true, &mut radxa_ids);
        let ghost before = managed_upto(docs, i as int, distribution_id@);
        assert(docs[i as int] == *d);
        if entries.len() > 0 {
            let kinds = kinds_present(&entries);
            let summary = SourceFileSummary {
                path: d.display_path.clone(),
                format: owned(d.format),
                managed_entries: entries.len(),
                kinds,
            };
            files.push(summary);
            assert(managed_upto(docs, i + 1, distribution_id@) == before.push(i as int));
        } else {
            assert(managed_upto(docs, i + 1, distribution_id@) =~= before);
        }
        i = i + 1;
    }
    let supported = files.len() > 0 && is_supported_distribution(distribution_id);
    SourceStatus {
        synthetic,
        supported,
        distribution_id: owned(distribution_id),
        distribution_name: owned(distribution_name),
        architecture: owned(architecture),
        source_revision: source_revision(documents),
        files,
        current_system_provider: collapsed_provider(&system_ids),
        current_radxa_provider: collapsed_provider(&radxa_ids),
        providers: provider_catalog(),
    }
}

} // verus!
