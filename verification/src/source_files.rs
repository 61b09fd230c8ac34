//! The APT source files themselves: which of their lines name
//! repositories, and the rewrite of those lines to another mirror.
use vstd::prelude::*;
use crate::lex::{flatten, lemma_flatten_append, lemma_flatten_push, lemma_pieces_flatten, lemma_word_len, pieces, pieces_exec, word_len};
use crate::model::strings_view;
use crate::sources::{
    classify_spec, classify_uri_chars, target_spec, target_uri, trim_end_char,
    trim_end_char_exec, ProviderDefinition,
};
use crate::text::{
    chars_of, contains, contains_str, eq_str, extend, is_ws, lower_all, lower_seq, seq_eq, slice,
    starts_with, starts_with_str, string_of, trim, trim_end, trim_end_exec, trim_exec, trim_start,
    trim_start_exec, ws,
};

verus! {

/// Whether a line of a source file names repositories: in a deb822 file a
/// `URIs:` field (in any letter case), in a one-line-style file a `deb` or
/// `deb-src` entry. Comment lines never do.
pub open spec fn eligible_spec(line: Seq<char>, deb822: bool) -> bool {
    let t = trim_start(line);
    if t.len() > 0 && t[0] == '#' {
        false
    } else if deb822 {
        t.len() >= 5 && lower_seq(t.take(5)) == "uris:"@
    } else {
        t == "deb"@ || t == "deb-src"@ || starts_with(t, "deb "@) || starts_with(t, "deb-src "@)
    }
}

/// Whether `line` names repositories (see [`eligible_spec`]).
pub fn eligible_line(line: &Vec<char>, deb822: bool) -> (r: bool)
    ensures
        r == eligible_spec(line@, deb822),
{
    let t = trim_start_exec(line);
    if t.len() > 0 && t[0] == '#' {
        return false;
    }
    if deb822 {
        if t.len() < 5 {
            return false;
        }
        let head = slice(&t, 0, 5);
        let low = lower_all(&head);
        eq_str(&low, "uris:")
    } else {
        eq_str(&t, "deb") || eq_str(&t, "deb-src") || starts_with_str(&t, "deb ")
            || starts_with_str(&t, "deb-src ")
    }
}

/// Whether a line of a file in the given format (`deb822` or `list`)
/// names repositories.
pub fn is_eligible_line(line: &str, format: &str) -> (r: bool)
    ensures
        r == eligible_spec(line@, format@ == "deb822"@),
{
    let l = crate::text::chars_of(line);
    let f = crate::text::chars_of(format);
    eligible_line(&l, eq_str(&f, "deb822"))
}

/// A token that is an HTTP or HTTPS URI.
pub open spec fn is_http(tok: Seq<char>) -> bool {
    starts_with(tok, "http://"@) || starts_with(tok, "https://"@)
}

/// The URI that a token of a source line is rewritten to under provider
/// `p`: only recognised HTTP(S) URIs that the provider serves move, and
/// only when the new URI differs from the old one (trailing slashes aside).
pub open spec fn token_target(
    tok: Seq<char>,
    p: ProviderDefinition,
    dist: Seq<char>,
    arch: Seq<char>,
    security: bool,
) -> Option<Seq<char>> {
    if !is_http(tok) {
        None
    } else {
        match classify_spec(tok, dist) {
            None => None,
            Some((kind, _, suffix)) => match target_spec(p, kind, dist, arch, security, suffix) {
                Some(t) => if t != trim_end_char(tok, '/') {
                    Some(t)
                } else {
                    None
                },
                None => None,
            },
        }
    }
}

/// A source line with each white-space separated token replaced by its
/// target, white space kept as it is; with the number of tokens replaced.
pub open spec fn rewrite_line(
    s: Seq<char>,
    p: ProviderDefinition,
    dist: Seq<char>,
    arch: Seq<char>,
    security: bool,
) -> (Seq<char>, nat)
    decreases s.len(),
{
    if s.len() == 0 {
        (seq![], 0)
    } else if is_ws(s[0]) {
        let r = rewrite_line(s.drop_first(), p, dist, arch, security);
        (seq![s[0]] + r.0, r.1)
    } else {
        let n = word_len(s);
        if 0 < n <= s.len() {
            let r = rewrite_line(s.skip(n as int), p, dist, arch, security);
            match token_target(s.take(n as int), p, dist, arch, security) {
                Some(t) => (t + r.0, r.1 + 1),
                None => (s.take(n as int) + r.0, r.1),
            }
        } else {
            (seq![], 0)
        }
    }
}

proof fn lemma_word_len_bounds(s: Seq<char>)
    ensures
        word_len(s) <= s.len(),
        s.len() > 0 && !is_ws(s[0]) ==> word_len(s) > 0,
    decreases s.len(),
{
    if s.len() > 0 && !is_ws(s[0]) {
        lemma_word_len_bounds(s.drop_first());
    }
}

/// A line has at most as many replaced tokens as characters, and a line
/// without replacements comes back unchanged.
pub proof fn lemma_rewrite_line_count(
    s: Seq<char>,
    p: ProviderDefinition,
    dist: Seq<char>,
    arch: Seq<char>,
    security: bool,
)
    ensures
        rewrite_line(s, p, dist, arch, security).1 <= s.len(),
        rewrite_line(s, p, dist, arch, security).1 == 0 ==> rewrite_line(
            s,
            p,
            dist,
            arch,
            security,
        ).0 == s,
    decreases s.len(),
{
    if s.len() == 0 {
        assert(s =~= Seq::<char>::empty());
    } else if is_ws(s[0]) {
        lemma_rewrite_line_count(s.drop_first(), p, dist, arch, security);
        assert(seq![s[0]] + s.drop_first() =~= s);
    } else {
        lemma_word_len_bounds(s);
        let n = word_len(s);
        lemma_rewrite_line_count(s.skip(n as int), p, dist, arch, security);
        assert(s.take(n as int) + s.skip(n as int) =~= s);
    }
}

/// The target of one token (see [`token_target`]).
fn token_target_exec(
    tok: &Vec<char>,
    p: ProviderDefinition,
    dist: &Vec<char>,
    arch: &Vec<char>,
    security: bool,
) -> (r: Option<Vec<char>>)
    ensures
        r matches Some(t) ==> token_target(tok@, p, dist@, arch@, security) == Some(t@),
        r is None ==> token_target(tok@, p, dist@, arch@, security) is None,
{
    if !(starts_with_str(tok, "http://") || starts_with_str(tok, "https://")) {
        return None;
    }
    match classify_uri_chars(tok, dist) {
        None => None,
        Some((kind, _, suffix)) => match target_uri(p, kind, dist, arch, security, &suffix) {
            Some(t) => {
                let norm = trim_end_char_exec(tok, '/');
                if seq_eq(&t, &norm) {
                    None
                } else {
                    Some(t)
                }
            },
            None => None,
        },
    }
}

/// Rewrites one source line (see [`rewrite_line`]).
pub fn rewrite_line_exec(
    line: &Vec<char>,
    p: ProviderDefinition,
    dist: &Vec<char>,
    arch: &Vec<char>,
    security: bool,
) -> (r: (Vec<char>, usize))
    ensures
        (r.0@, r.1 as nat) == rewrite_line(line@, p, dist@, arch@, security),
{
    let ghost whole = rewrite_line(line@, p, dist@, arch@, security);
    let mut out: Vec<char> = Vec::new();
    let mut count: usize = 0;
    let mut at: usize = 0;
    proof {
        assert(line@.skip(0) == line@);
        lemma_rewrite_line_count(line@, p, dist@, arch@, security);
    }
    while at < line.len()
        invariant
            at <= line.len(),
            whole == rewrite_line(line@, p, dist@, arch@, security),
            whole.1 <= line@.len(),
            out@ + rewrite_line(line@.skip(at as int), p, dist@, arch@, security).0 == whole.0,
            count + rewrite_line(line@.skip(at as int), p, dist@, arch@, security).1 == whole.1,
        decreases line.len() - at,
    {
        let ghost t = line@.skip(at as int);
        let ghost rest_before = rewrite_line(t, p, dist@, arch@, security);
        if ws(line[at]) {
            assert(t[0] == line@[at as int]);
            assert(t.drop_first() == line@.skip(at + 1));
            let ghost o = out@;
            out.push(line[at]);
            assert(out@ + rewrite_line(line@.skip(at + 1), p, dist@, arch@, security).0 =~= o
                + rest_before.0);
            at = at + 1;
        } else {
            let mut end = at + 1;
            while end < line.len() && !ws(line[end])
                invariant
                    at < end <= line.len(),
                    forall|j: int| at <= j < end ==> !is_ws(line@[j]),
                decreases line.len() - end,
            {
                end = end + 1;
            }
            proof {
                assert forall|j: int| 0 <= j < end - at implies !is_ws(t[j]) by {
                    assert(t[j] == line@[at + j]);
                }
                if end < line.len() {
                    assert(t[end - at] == line@[end as int]);
                }
                lemma_word_len(t, end - at);
                assert(t[0] == line@[at as int]);
                assert(t.skip(end - at) == line@.skip(end as int));
                assert(t.take(end - at) == line@.subrange(at as int, end as int));
            }
            let tok = slice(line, at, end);
            let ghost o = out@;
            let ghost rest = rewrite_line(line@.skip(end as int), p, dist@, arch@, security);
            match token_target_exec(&tok, p, dist, arch, security) {
                Some(target) => {
                    extend(&mut out, &target);
                    assert(out@ + rest.0 =~= o + (target@ + rest.0));
                    count = count + 1;
                },
                None => {
                    extend(&mut out, &tok);
                    assert(out@ + rest.0 =~= o + (tok@ + rest.0));
                },
            }
            at = end;
        }
    }
    proof {
        assert(line@.skip(at as int) =~= Seq::<char>::empty());
        assert(out@ + Seq::<char>::empty() =~= out@);
    }
    (out, count)
}

// ----------------------------------------------------------------------
// Whole files
// ----------------------------------------------------------------------

/// A source file as read: the path it is shown under, its format
/// (`deb822` or `list`) and its text.
#[derive(Debug, Clone)]
pub struct SourceDocument {
    pub display_path: String,
    pub format: &'static str,
    pub content: String,
}

/// What a rewrite changes in one file: the number of URIs replaced and the
/// changed lines before and after, without trailing white space.
#[derive(Debug, Clone, PartialEq, Eq)]
pub struct SourceFileChange {
    pub path: String,
    pub replacements: usize,
    pub before: Vec<String>,
    pub after: Vec<String>,
}

/// A line that holds nothing but white space.
pub open spec fn blank(l: Seq<char>) -> bool {
    trim(l).len() == 0
}

/// A `Suites:` field (in any letter case) that names a security suite.
pub open spec fn security_suites(l: Seq<char>) -> bool {
    starts_with(lower_seq(trim_start(l)), "suites:"@) && contains(l, "-security"@)
}

/// Some line from `i` back to the start of its block (the run of
/// non-blank lines it lies in) is a security `Suites:` field.
pub open spec fn block_before(ls: Seq<Seq<char>>, i: int) -> bool
    decreases i + 1,
{
    if i < 0 || i >= ls.len() {
        false
    } else if blank(ls[i]) {
        false
    } else {
        security_suites(ls[i]) || block_before(ls, i - 1)
    }
}

/// Some line from `i` on to the end of its block is a security `Suites:`
/// field.
pub open spec fn block_after(ls: Seq<Seq<char>>, i: int) -> bool
    decreases ls.len() - i,
{
    if i < 0 || i >= ls.len() {
        false
    } else if blank(ls[i]) {
        false
    } else {
        security_suites(ls[i]) || block_after(ls, i + 1)
    }
}

/// Whether line `i` belongs to a security source: in a deb822 file, when
/// its stanza has a security `Suites:` field; in a one-line-style file,
/// when the line itself mentions `-security`.
pub open spec fn security_hint(ls: Seq<Seq<char>>, i: int, deb822: bool) -> bool {
    if deb822 {
        !blank(ls[i]) && (block_before(ls, i) || block_after(ls, i))
    } else {
        contains(ls[i], "-security"@)
    }
}

/// The character views of a list of character vectors.
pub open spec fn vecs_view(v: Seq<Vec<char>>) -> Seq<Seq<char>> {
    v.map_values(|x: Vec<char>| x@)
}

fn is_blank(l: &Vec<char>) -> (r: bool)
    ensures
        r == blank(l@),
{
    trim_exec(l).len() == 0
}

fn is_security_suites(l: &Vec<char>) -> (r: bool)
    ensures
        r == security_suites(l@),
{
    let t = trim_start_exec(l);
    let low = lower_all(&t);
    starts_with_str(&low, "suites:") && contains_str(l, "-security")
}

/// The security hint of every line (see [`security_hint`]).
pub fn security_hints(lines: &Vec<Vec<char>>, deb822: bool) -> (r: Vec<bool>)
    ensures
        r@.len() == lines@.len(),
        forall|i: int|
            0 <= i < lines@.len() ==> r@[i] == security_hint(vecs_view(lines@), i, deb822),
{
    let ghost ls = vecs_view(lines@);
    let n = lines.len();
    let mut r: Vec<bool> = Vec::new();
    if !deb822 {
        let mut i: usize = 0;
        while i < n
            invariant
                n == lines@.len(),
                ls == vecs_view(lines@),
                !deb822,
                i <= n,
                r@.len() == i,
                forall|j: int| 0 <= j < i ==> r@[j] == security_hint(ls, j, deb822),
            decreases n - i,
        {
            r.push(contains_str(&lines[i], "-security"));
            i = i + 1;
        }
        return r;
    }
    let mut fwd: Vec<bool> = Vec::new();
    let mut i: usize = 0;
    while i < n
        invariant
            n == lines@.len(),
            ls == vecs_view(lines@),
            i <= n,
            fwd@.len() == i,
            forall|j: int| 0 <= j < i ==> fwd@[j] == block_before(ls, j),
        decreases n - i,
    {
        let b = if is_blank(&lines[i]) {
            false
        } else {
            is_security_suites(&lines[i]) || (i > 0 && fwd[i - 1])
        };
        assert(ls[i as int] == lines@[i as int]@);
        assert(b == block_before(ls, i as int)) by {
            if i > 0 {
                assert(fwd@[i - 1] == block_before(ls, i - 1));
            } else {
                assert(!block_before(ls, -1));
            }
        }
        fwd.push(b);
        i = i + 1;
    }
    let mut bwd: Vec<bool> = Vec::new();
    let mut k: usize = 0;
    while k < n
        invariant
            n == lines@.len(),
            ls == vecs_view(lines@),
            k <= n,
            bwd@.len() == k,
            forall|j: int| 0 <= j < k ==> bwd@[j] == block_after(ls, n - 1 - j),
        decreases n - k,
    {
        let at = n - 1 - k;
        let b = if is_blank(&lines[at]) {
            false
        } else {
            is_security_suites(&lines[at]) || (k > 0 && bwd[k - 1])
        };
        assert(ls[at as int] == lines@[at as int]@);
        assert(b == block_after(ls, at as int)) by {
            if k > 0 {
                assert(bwd@[k - 1] == block_after(ls, n - 1 - (k - 1)));
                assert(n - 1 - (k - 1) == at + 1);
            } else {
                assert(!block_after(ls, n as int));
            }
        }
        bwd.push(b);
        k = k + 1;
    }
    let mut j: usize = 0;
    while j < n
        invariant
            n == lines@.len(),
            ls == vecs_view(lines@),
            deb822,
            j <= n,
            fwd@.len() == n,
            bwd@.len() == n,
            forall|x: int| 0 <= x < n ==> fwd@[x] == block_before(ls, x),
            forall|x: int| 0 <= x < n ==> bwd@[x] == block_after(ls, n - 1 - x),
            r@.len() == j,
            forall|x: int| 0 <= x < j ==> r@[x] == security_hint(ls, x, deb822),
        decreases n - j,
    {
        let blank_line = is_blank(&lines[j]);
        assert(ls[j as int] == lines@[j as int]@);
        assert(bwd@[(n - 1 - j) as int] == block_after(ls, j as int));
        r.push(!blank_line && (fwd[j] || bwd[n - 1 - j]));
        j = j + 1;
    }
    r
}

/// What the rewrite makes of line `i`, with the number of URIs replaced
/// in it: lines that name no repositories stay as they are.
pub open spec fn line_edit(
    ls: Seq<Seq<char>>,
    i: int,
    deb822: bool,
    p: ProviderDefinition,
    dist: Seq<char>,
    arch: Seq<char>,
) -> (Seq<char>, nat) {
    if eligible_spec(ls[i], deb822) {
        rewrite_line(ls[i], p, dist, arch, security_hint(ls, i, deb822))
    } else {
        (ls[i], 0)
    }
}

/// Every line of the file as the rewrite leaves it.
pub open spec fn edited_lines(
    ls: Seq<Seq<char>>,
    deb822: bool,
    p: ProviderDefinition,
    dist: Seq<char>,
    arch: Seq<char>,
) -> Seq<Seq<char>> {
    Seq::new(ls.len(), |i: int| line_edit(ls, i, deb822, p, dist, arch).0)
}

/// The number of URIs replaced in the first `n` lines.
pub open spec fn replacements_upto(
    ls: Seq<Seq<char>>,
    n: int,
    deb822: bool,
    p: ProviderDefinition,
    dist: Seq<char>,
    arch: Seq<char>,
) -> nat
    decreases n,
{
    if n <= 0 {
        0
    } else {
        replacements_upto(ls, n - 1, deb822, p, dist, arch) + line_edit(
            ls,
            n - 1,
            deb822,
            p,
            dist,
            arch,
        ).1
    }
}

/// The changed lines among the first `n`, as they were (`after` false) or
/// as they become (`after` true), without trailing white space.
pub open spec fn changed_upto(
    ls: Seq<Seq<char>>,
    n: int,
    deb822: bool,
    p: ProviderDefinition,
    dist: Seq<char>,
    arch: Seq<char>,
    after: bool,
) -> Seq<Seq<char>>
    decreases n,
{
    if n <= 0 {
        seq![]
    } else {
        let e = line_edit(ls, n - 1, deb822, p, dist, arch);
        changed_upto(ls, n - 1, deb822, p, dist, arch, after) + if e.1 > 0 {
            seq![trim_end(if after { e.0 } else { ls[n - 1] })]
        } else {
            seq![]
        }
    }
}

/// The text of a source file after the rewrite: the lines as the rewrite
/// leaves them, where a file without a final newline gets none either.
pub open spec fn transformed_text(
    content: Seq<char>,
    deb822: bool,
    p: ProviderDefinition,
    dist: Seq<char>,
    arch: Seq<char>,
) -> Seq<char> {
    let joined = flatten(edited_lines(pieces(content), deb822, p, dist, arch));
    if !(content.len() > 0 && content.last() == '\n') && joined.len() > 0 && joined.last()
        == '\n' {
        joined.drop_last()
    } else {
        joined
    }
}

/// The number of URIs a rewrite replaces in a file.
pub open spec fn document_replacements(
    d: SourceDocument,
    dist: Seq<char>,
    arch: Seq<char>,
    p: ProviderDefinition,
) -> nat {
    let ls = pieces(d.content@);
    replacements_upto(ls, ls.len() as int, d.format@ == "deb822"@, p, dist, arch)
}

/// The text of a file after a rewrite.
pub open spec fn document_text(
    d: SourceDocument,
    dist: Seq<char>,
    arch: Seq<char>,
    p: ProviderDefinition,
) -> Seq<char> {
    transformed_text(d.content@, d.format@ == "deb822"@, p, dist, arch)
}

/// `c` describes what a rewrite changes in file `d`.
pub open spec fn change_describes(
    c: SourceFileChange,
    d: SourceDocument,
    dist: Seq<char>,
    arch: Seq<char>,
    p: ProviderDefinition,
) -> bool {
    let ls = pieces(d.content@);
    let n = ls.len() as int;
    let deb822 = d.format@ == "deb822"@;
    &&& c.path@ == d.display_path@
    &&& c.replacements == document_replacements(d, dist, arch, p)
    &&& strings_view(c.before@) == changed_upto(ls, n, deb822, p, dist, arch, false)
    &&& strings_view(c.after@) == changed_upto(ls, n, deb822, p, dist, arch, true)
}

/// Rewrites a source file for `provider`: the text it gets, and what
/// changed in it when anything did.
pub fn transform_document(
    document: &SourceDocument,
    distribution_id: &str,
    architecture: &str,
    provider: ProviderDefinition,
) -> (r: (String, Option<SourceFileChange>))
    ensures
        r.0@ == document_text(*document, distribution_id@, architecture@, provider),
        r.1 is Some <==> document_replacements(*document, distribution_id@, architecture@, provider)
            > 0,
        r.1 matches Some(c) ==> change_describes(
            c,
            *document,
            distribution_id@,
            architecture@,
            provider,
        ),
{
    let fv = chars_of(document.format);
    let deb822 = eq_str(&fv, "deb822");
    let dist = chars_of(distribution_id);
    let arch = chars_of(architecture);
    let content = chars_of(document.content.as_str());
    let ps = pieces_exec(&content);
    let ghost ls = vecs_view(ps@);
    assert(ls == ps@.map_values(|v: Vec<char>| v@));
    let hints = security_hints(&ps, deb822);
    proof {
        lemma_pieces_flatten(content@);
    }
    let mut out: Vec<char> = Vec::new();
    let mut replacements: usize = 0;
    let mut before: Vec<String> = Vec::new();
    let mut after: Vec<String> = Vec::new();
    let mut i: usize = 0;
    while i < ps.len()
        invariant
            i <= ps.len(),
            ls == vecs_view(ps@),
            ls == pieces(content@),
            flatten(ls) == content@,
            hints@.len() == ps@.len(),
            forall|j: int| 0 <= j < ps@.len() ==> hints@[j] == security_hint(ls, j, deb822),
            out@ == flatten(edited_lines(ls, deb822, provider, dist@, arch@).take(i as int)),
            replacements == replacements_upto(ls, i as int, deb822, provider, dist@, arch@),
            replacements <= flatten(ls.take(i as int)).len(),
            strings_view(before@) == changed_upto(
                ls,
                i as int,
                deb822,
                provider,
                dist@,
                arch@,
                false,
            ),
            strings_view(after@) == changed_upto(
                ls,
                i as int,
                deb822,
                provider,
                dist@,
                arch@,
                true,
            ),
        decreases ps.len() - i,
    {
        let line = &ps[i];
        let ghost e = line_edit(ls, i as int, deb822, provider, dist@, arch@);
        let ghost edits = edited_lines(ls, deb822, provider, dist@, arch@);
        assert(ls[i as int] == line@);
        proof {
            assert(edits.take(i + 1) =~= edits.take(i as int).push(edits[i as int]));
            lemma_flatten_push(edits.take(i as int), edits[i as int]);
            assert(ls.take(i + 1) =~= ls.take(i as int).push(ls[i as int]));
            lemma_flatten_push(ls.take(i as int), ls[i as int]);
            assert(ls.take(i + 1) + ls.skip(i + 1) =~= ls);
            lemma_flatten_append(ls.take(i + 1), ls.skip(i + 1));
        }
        if eligible_line(line, deb822) {
            let (updated, n) = rewrite_line_exec(line, provider, &dist, &arch, hints[i]);
            proof {
                lemma_rewrite_line_count(line@, provider, dist@, arch@, hints@[i as int]);
            }
            if n > 0 {
                assert(flatten(ls.take(i + 1)).len() <= content@.len());
                assert(content@.len() == content.len());
                replacements = replacements + n;
                let b = trim_end_exec(line);
                let a = trim_end_exec(&updated);
                let ghost bv = before@;
                let ghost av = after@;
                before.push(string_of(&b));
                after.push(string_of(&a));
                assert(strings_view(before@) =~= strings_view(bv).push(b@));
                assert(strings_view(after@) =~= strings_view(av).push(a@));
            }
            extend(&mut out, &updated);
        } else {
            extend(&mut out, line);
        }
        i = i + 1;
    }
    proof {
        assert(edited_lines(ls, deb822, provider, dist@, arch@).take(ps@.len() as int)
            =~= edited_lines(ls, deb822, provider, dist@, arch@));
    }
    let ends_nl = content.len() > 0 && content[content.len() - 1] == '\n';
    if !ends_nl && out.len() > 0 && out[out.len() - 1] == '\n' {
        out.pop();
    }
    let text = string_of(&out);
    if replacements > 0 {
        let change = SourceFileChange {
            path: document.display_path.clone(),
            replacements,
            before,
            after,
        };
        (text, Some(change))
    } else {
        (text, None)
    }
}

proof fn lemma_no_replacements_upto(
    ls: Seq<Seq<char>>,
    n: int,
    deb822: bool,
    p: ProviderDefinition,
    dist: Seq<char>,
    arch: Seq<char>,
)
    requires
        0 <= n <= ls.len(),
        replacements_upto(ls, n, deb822, p, dist, arch) == 0,
    ensures
        forall|j: int| 0 <= j < n ==> line_edit(ls, j, deb822, p, dist, arch).0 == ls[j],
    decreases n,
{
    if n > 0 {
        lemma_no_replacements_upto(ls, n - 1, deb822, p, dist, arch);
        let i = n - 1;
        if eligible_spec(ls[i], deb822) {
            lemma_rewrite_line_count(ls[i], p, dist, arch, security_hint(ls, i, deb822));
        }
    }
}

/// A rewrite that replaces no URI leaves the file exactly as it was.
pub proof fn law_rewrite_without_replacements_is_identity(
    content: Seq<char>,
    deb822: bool,
    p: ProviderDefinition,
    dist: Seq<char>,
    arch: Seq<char>,
)
    requires
        replacements_upto(
            pieces(content),
            pieces(content).len() as int,
            deb822,
            p,
            dist,
            arch,
        ) == 0,
    ensures
        transformed_text(content, deb822, p, dist, arch) == content,
{
    let ls = pieces(content);
    lemma_no_replacements_upto(ls, ls.len() as int, deb822, p, dist, arch);
    assert(edited_lines(ls, deb822, p, dist, arch) =~= ls);
    lemma_pieces_flatten(content);
}


/// A rewrite touches only repository lines: it keeps the number of lines;
/// a comment, or any other line that names no repository, comes back
/// exactly as it was, and so does a repository line none of whose URIs is
/// replaced (a third-party repository, say).
pub proof fn law_rewrite_touches_only_repository_lines(
    ls: Seq<Seq<char>>,
    deb822: bool,
    p: ProviderDefinition,
    dist: Seq<char>,
    arch: Seq<char>,
    i: int,
)
    requires
        0 <= i < ls.len(),
    ensures
        edited_lines(ls, deb822, p, dist, arch).len() == ls.len(),
        !eligible_spec(ls[i], deb822) ==> edited_lines(ls, deb822, p, dist, arch)[i] == ls[i],
        line_edit(ls, i, deb822, p, dist, arch).1 == 0 ==> edited_lines(ls, deb822, p, dist, arch)[i]
            == ls[i],
{
    lemma_rewrite_line_count(ls[i], p, dist, arch, security_hint(ls, i, deb822));
}

/// The name of the backup of source file `name` taken at `stamp` (a UTC
/// time as `%Y%m%dT%H%M%SZ`) under the unique id `id`:
/// `<name>.rsetup-backup-<stamp>-<id>`.
pub fn backup_file_name(name: &str, stamp: &str, id: &str) -> (r: String)
    ensures
        r@ == name@ + ".rsetup-backup-"@ + stamp@ + "-"@ + id@,
{
    let mut v = crate::text::chars_of(name);
    crate::text::extend_str(&mut v, ".rsetup-backup-");
    crate::text::extend_str(&mut v, stamp);
    crate::text::extend_str(&mut v, "-");
    crate::text::extend_str(&mut v, id);
    crate::text::string_of(&v)
}

/// The name of the temporary file that the new text of source file `name`
/// is written to before it replaces it: `.<name>.rsetup-<id>.tmp`.
pub fn temporary_file_name(name: &str, id: &str) -> (r: String)
    ensures
        r@ == "."@ + name@ + ".rsetup-"@ + id@ + ".tmp"@,
{
    let mut v = crate::text::chars_of(".");
    crate::text::extend_str(&mut v, name);
    crate::text::extend_str(&mut v, ".rsetup-");
    crate::text::extend_str(&mut v, id);
    crate::text::extend_str(&mut v, ".tmp");
    crate::text::string_of(&v)
}

} // verus!
