//! Which index files a mirror benchmark samples: one of the
//! distribution's archive and one of Radxa's, taken from the enabled
//! binary sources of the host, with the suites and Radxa paths they use.
use vstd::prelude::*;
use crate::lex::{lemma_word_len, word_len, words, words_exec};
use crate::source_files::is_http;
use crate::sources::{classify_spec, classify_uri_chars, target_spec, target_uri, ProviderDefinition, SourceKind};
use crate::lex::{index_of, index_of_exec, lemma_index_of_props, lines, lines_exec};
use crate::source_files::{blank, vecs_view, SourceDocument};
use crate::text::{
    alnum, chars_of, ends_with, ends_with_str, eq_str, extend, extend_str, is_alnum, is_ws,
    lower_all, lower_seq, slice, starts_with_str, trim, trim_exec, trim_start, trim_start_exec, ws,
};

verus! {

/// A character allowed in a suite name or a Radxa path segment.
pub open spec fn segment_char(c: char) -> bool {
    is_alnum(c) || c == '-' || c == '_' || c == '.'
}

/// A suite name or path segment that is safe to put in a URL: it begins
/// with an ASCII letter or digit and holds nothing but those, `-`, `_`
/// and `.`.
pub open spec fn safe_segment(v: Seq<char>) -> bool {
    v.len() > 0 && is_alnum(v[0]) && forall|i: int| 0 <= i < v.len() ==> segment_char(#[trigger] v[i])
}

/// Every `/`-separated segment of `s` is safe.
pub open spec fn safe_path(s: Seq<char>) -> bool {
    &&& s.len() > 0
    &&& is_alnum(s[0])
    &&& forall|i: int| 0 <= i < s.len() ==> (segment_char(#[trigger] s[i]) || s[i] == '/')
    &&& forall|i: int|
        0 <= i < s.len() && #[trigger] s[i] == '/' ==> i + 1 < s.len() && is_alnum(s[i + 1])
}

fn is_segment_char(c: char) -> (r: bool)
    ensures
        r == segment_char(c),
{
    alnum(c) || c == '-' || c == '_' || c == '.'
}

pub fn is_safe_segment(v: &Vec<char>) -> (r: bool)
    ensures
        r == safe_segment(v@),
{
    if v.len() == 0 || !alnum(v[0]) {
        return false;
    }
    let mut i: usize = 0;
    while i < v.len()
        invariant
            i <= v.len(),
            forall|j: int| 0 <= j < i ==> segment_char(#[trigger] v@[j]),
        decreases v.len() - i,
    {
        if !is_segment_char(v[i]) {
            return false;
        }
        i = i + 1;
    }
    true
}

fn is_safe_path(s: &Vec<char>) -> (r: bool)
    ensures
        r == safe_path(s@),
{
    if s.len() == 0 || !alnum(s[0]) {
        return false;
    }
    let mut i: usize = 0;
    while i < s.len()
        invariant
            i <= s.len(),
            forall|j: int| 0 <= j < i ==> (segment_char(#[trigger] s@[j]) || s@[j] == '/'),
            forall|j: int|
                0 <= j < i && #[trigger] s@[j] == '/' ==> j + 1 < s@.len() && is_alnum(s@[j + 1]),
        decreases s.len() - i,
    {
        let c = s[i];
        if c == '/' {
            if i + 1 >= s.len() || !alnum(s[i + 1]) {
                return false;
            }
        } else if !is_segment_char(c) {
            return false;
        }
        i = i + 1;
    }
    true
}

/// The index a benchmark samples for one source URI and suite under
/// provider `p`: the `InRelease` file of the suite under the URI the
/// provider serves that source from. Unsafe suites or Radxa paths,
/// unrecognised URIs and sources the provider does not serve give none.
pub open spec fn candidate(
    uri: Seq<char>,
    suite: Seq<char>,
    dist: Seq<char>,
    arch: Seq<char>,
    p: ProviderDefinition,
) -> Option<(SourceKind, Seq<char>)> {
    if !safe_segment(suite) {
        None
    } else {
        match classify_spec(uri, dist) {
            None => None,
            Some((kind, _, suffix)) => if suffix.len() > 0 && !safe_path(suffix) {
                None
            } else {
                match target_spec(p, kind, dist, arch, ends_with(suite, "-security"@), suffix) {
                    Some(base) => Some((kind, base + "/dists/"@ + suite + "/InRelease"@)),
                    None => None,
                }
            },
        }
    }
}

/// The candidate of one URI and suite as a list of at most one.
pub open spec fn candidate_seq(
    uri: Seq<char>,
    suite: Seq<char>,
    dist: Seq<char>,
    arch: Seq<char>,
    p: ProviderDefinition,
) -> Seq<(SourceKind, Seq<char>)> {
    match candidate(uri, suite, dist, arch, p) {
        Some(c) => seq![c],
        None => seq![],
    }
}

/// The views of a list of candidates.
pub open spec fn cands_view(v: Seq<(SourceKind, Vec<char>)>) -> Seq<(SourceKind, Seq<char>)> {
    v.map_values(|c: (SourceKind, Vec<char>)| (c.0, c.1@))
}

fn push_candidate(
    uri: &Vec<char>,
    suite: &Vec<char>,
    dist: &Vec<char>,
    arch: &Vec<char>,
    p: ProviderDefinition,
    out: &mut Vec<(SourceKind, Vec<char>)>,
)
    ensures
        cands_view(final(out)@) == cands_view(old(out)@) + candidate_seq(
            uri@,
            suite@,
            dist@,
            arch@,
            p,
        ),
{
    let ghost start = cands_view(out@);
    assert(start + Seq::<(SourceKind, Seq<char>)>::empty() =~= start);
    if !is_safe_segment(suite) {
        return;
    }
    let (kind, suffix) = match classify_uri_chars(uri, dist) {
        Some((k, _, s)) => (k, s),
        None => return,
    };
    if suffix.len() > 0 && !is_safe_path(&suffix) {
        return;
    }
    let security = ends_with_str(suite, "-security");
    match target_uri(p, kind, dist, arch, security, &suffix) {
        Some(base) => {
            let mut url = base;
            extend_str(&mut url, "/dists/");
            extend(&mut url, suite);
            extend_str(&mut url, "/InRelease");
            let ghost u = url@;
            out.push((kind, url));
            assert(cands_view(out@) =~= start + seq![(kind, u)]);
        },
        None => {},
    }
}

/// The first HTTP(S) token of `s` at or after `at`: where it begins and
/// ends.
pub open spec fn first_http(s: Seq<char>, at: int) -> Option<(int, int)>
    decreases s.len() - at,
{
    if at < 0 || at >= s.len() {
        None
    } else if is_ws(s[at]) {
        first_http(s, at + 1)
    } else {
        let n = word_len(s.skip(at));
        if n == 0 || at + n > s.len() {
            None
        } else if is_http(s.subrange(at, at + n)) {
            Some((at, at + n))
        } else {
            first_http(s, at + n)
        }
    }
}

/// The candidates of one line of a list file: a `deb` entry gives the
/// candidate of its first URI with the word after it as the suite.
pub open spec fn list_line_candidates(
    line: Seq<char>,
    dist: Seq<char>,
    arch: Seq<char>,
    p: ProviderDefinition,
) -> Seq<(SourceKind, Seq<char>)> {
    if words(line).len() > 0 && words(line)[0] == "deb"@ {
        match first_http(line, 0) {
            Some((st, en)) => {
                let rest = words(line.skip(en));
                if rest.len() > 0 {
                    candidate_seq(line.subrange(st, en), rest[0], dist, arch, p)
                } else {
                    seq![]
                }
            },
            None => seq![],
        }
    } else {
        seq![]
    }
}

fn word_end(line: &Vec<char>, at: usize) -> (end: usize)
    requires
        at < line.len(),
        !is_ws(line@[at as int]),
    ensures
        at < end <= line.len(),
        word_len(line@.skip(at as int)) == end - at,
{
    let ghost t = line@.skip(at as int);
    let mut end = at + 1;
    while end < line.len() && !ws(line[end])
        invariant
            at < end <= line.len(),
            forall|j: int| at <= j < end ==> !is_ws(line@[j]),
        decreases line.len() - end,
    {
        end = end + 1;
    }
    proof {
        assert forall|j: int| 0 <= j < end - at implies !is_ws(t[j]) by {
            assert(t[j] == line@[at + j]);
        }
        if end < line.len() {
            assert(t[end - at] == line@[end as int]);
        }
        lemma_word_len(t, end - at);
    }
    end
}

fn first_http_exec(line: &Vec<char>) -> (r: Option<(usize, usize)>)
    ensures
        r matches Some((a, b)) ==> first_http(line@, 0) == Some((a as int, b as int)) && a <= b
            <= line.len(),
        r is None ==> first_http(line@, 0) is None,
{
    let mut at: usize = 0;
    while at < line.len()
        invariant
            at <= line.len(),
            first_http(line@, 0) == first_http(line@, at as int),
        decreases line.len() - at,
    {
        if ws(line[at]) {
            at = at + 1;
        } else {
            let end = word_end(line, at);
            let tok = slice(line, at, end);
            if starts_with_str(&tok, "http://") || starts_with_str(&tok, "https://") {
                return Some((at, end));
            }
            at = end;
        }
    }
    None
}

fn list_line_exec(
    line: &Vec<char>,
    dist: &Vec<char>,
    arch: &Vec<char>,
    p: ProviderDefinition,
    out: &mut Vec<(SourceKind, Vec<char>)>,
)
    ensures
        cands_view(final(out)@) == cands_view(old(out)@) + list_line_candidates(
            line@,
            dist@,
            arch@,
            p,
        ),
{
    let ghost start = cands_view(out@);
    assert(start + Seq::<(SourceKind, Seq<char>)>::empty() =~= start);
    let ws_all = words_exec(line);
    assert(ws_all@.map_values(|v: Vec<char>| v@) == words(line@));
    if ws_all.len() == 0 {
        return;
    }
    assert(ws_all@[0]@ == words(line@)[0]);
    if !eq_str(&ws_all[0], "deb") {
        return;
    }
    match first_http_exec(line) {
        Some((st, en)) => {
            let rest = slice(line, en, line.len());
            assert(rest@ == line@.skip(en as int));
            let rest_words = words_exec(&rest);
            assert(rest_words@.map_values(|v: Vec<char>| v@) == words(rest@));
            if rest_words.len() > 0 {
                assert(rest_words@[0]@ == words(rest@)[0]);
                let uri = slice(line, st, en);
                push_candidate(&uri, &rest_words[0], dist, arch, p, out);
            }
        },
        None => {},
    }
}

/// The fields of a deb822 stanza that a benchmark reads, as far as the
/// stanza has been read, and the field read last.
pub struct Stanza {
    pub enabled: Option<Seq<char>>,
    pub types: Option<Seq<char>>,
    pub uris: Option<Seq<char>>,
    pub suites: Option<Seq<char>>,
    pub previous: Seq<char>,
}

/// A stanza of which nothing has been read.
pub open spec fn empty_stanza() -> Stanza {
    Stanza { enabled: None, types: None, uris: None, suites: None, previous: seq![] }
}

/// `v` with a continuation line appended after a space.
pub open spec fn continued(v: Option<Seq<char>>, line: Seq<char>) -> Option<Seq<char>> {
    match v {
        Some(x) => Some(x + seq![' '] + trim(line)),
        None => None,
    }
}

/// The stanza after one more line: comments are skipped; a line that
/// begins with a space or a tab continues the field read last; a
/// `Key: value` line sets the field `key` (any letter case) and becomes
/// the field read last; other lines are skipped.
pub open spec fn stanza_step(st: Stanza, line: Seq<char>) -> Stanza {
    let t = trim_start(line);
    if t.len() > 0 && t[0] == '#' {
        st
    } else if line.len() > 0 && (line[0] == ' ' || line[0] == '\t') {
        Stanza {
            enabled: if st.previous == "enabled"@ {
                continued(st.enabled, line)
            } else {
                st.enabled
            },
            types: if st.previous == "types"@ {
                continued(st.types, line)
            } else {
                st.types
            },
            uris: if st.previous == "uris"@ {
                continued(st.uris, line)
            } else {
                st.uris
            },
            suites: if st.previous == "suites"@ {
                continued(st.suites, line)
            } else {
                st.suites
            },
            previous: st.previous,
        }
    } else {
        match index_of(line, ':') {
            Some(i) => {
                let key = lower_seq(trim(line.take(i)));
                let value = trim(line.skip(i + 1));
                Stanza {
                    enabled: if key == "enabled"@ {
                        Some(value)
                    } else {
                        st.enabled
                    },
                    types: if key == "types"@ {
                        Some(value)
                    } else {
                        st.types
                    },
                    uris: if key == "uris"@ {
                        Some(value)
                    } else {
                        st.uris
                    },
                    suites: if key == "suites"@ {
                        Some(value)
                    } else {
                        st.suites
                    },
                    previous: key,
                }
            },
            None => st,
        }
    }
}

/// The candidates of one URI and each suite of `ss`, in order.
pub open spec fn suite_candidates(
    u: Seq<char>,
    ss: Seq<Seq<char>>,
    dist: Seq<char>,
    arch: Seq<char>,
    p: ProviderDefinition,
) -> Seq<(SourceKind, Seq<char>)>
    decreases ss.len(),
{
    if ss.len() == 0 {
        seq![]
    } else {
        suite_candidates(u, ss.drop_last(), dist, arch, p) + candidate_seq(
            u,
            ss.last(),
            dist,
            arch,
            p,
        )
    }
}

/// The candidates of each URI of `us` with each suite of `ss`, URI by URI.
pub open spec fn pair_candidates(
    us: Seq<Seq<char>>,
    ss: Seq<Seq<char>>,
    dist: Seq<char>,
    arch: Seq<char>,
    p: ProviderDefinition,
) -> Seq<(SourceKind, Seq<char>)>
    decreases us.len(),
{
    if us.len() == 0 {
        seq![]
    } else {
        pair_candidates(us.drop_last(), ss, dist, arch, p) + suite_candidates(
            us.last(),
            ss,
            dist,
            arch,
            p,
        )
    }
}

/// A stanza that is enabled and lists binary packages (`deb` among its
/// types).
pub open spec fn stanza_active(st: Stanza) -> bool {
    &&& !(st.enabled matches Some(v) && lower_seq(v) == "no"@)
    &&& st.types matches Some(t) && words(t).contains("deb"@)
}

/// The candidates of a whole stanza: none for a disabled stanza or one
/// without binary packages, else every URI with every suite.
pub open spec fn stanza_candidates(
    st: Stanza,
    dist: Seq<char>,
    arch: Seq<char>,
    p: ProviderDefinition,
) -> Seq<(SourceKind, Seq<char>)> {
    if !stanza_active(st) {
        seq![]
    } else {
        match (st.uris, st.suites) {
            (Some(u), Some(s)) => pair_candidates(words(u), words(s), dist, arch, p),
            _ => seq![],
        }
    }
}

/// The stanza being read after the first `n` lines of a deb822 file, and
/// the candidates of the stanzas finished before it. Blank lines end
/// stanzas.
pub open spec fn scan_deb822(
    ls: Seq<Seq<char>>,
    n: int,
    dist: Seq<char>,
    arch: Seq<char>,
    p: ProviderDefinition,
) -> (Stanza, Seq<(SourceKind, Seq<char>)>)
    decreases n,
{
    if n <= 0 {
        (empty_stanza(), seq![])
    } else {
        let prev = scan_deb822(ls, n - 1, dist, arch, p);
        if blank(ls[n - 1]) {
            (empty_stanza(), prev.1 + stanza_candidates(prev.0, dist, arch, p))
        } else {
            (stanza_step(prev.0, ls[n - 1]), prev.1)
        }
    }
}

/// The candidates of a deb822 file, stanza by stanza.
pub open spec fn deb822_candidates(
    content: Seq<char>,
    dist: Seq<char>,
    arch: Seq<char>,
    p: ProviderDefinition,
) -> Seq<(SourceKind, Seq<char>)> {
    let ls = lines(content);
    let r = scan_deb822(ls, ls.len() as int, dist, arch, p);
    r.1 + stanza_candidates(r.0, dist, arch, p)
}

/// The candidates of the first `n` lines of a list file.
pub open spec fn list_candidates(
    ls: Seq<Seq<char>>,
    n: int,
    dist: Seq<char>,
    arch: Seq<char>,
    p: ProviderDefinition,
) -> Seq<(SourceKind, Seq<char>)>
    decreases n,
{
    if n <= 0 {
        seq![]
    } else {
        list_candidates(ls, n - 1, dist, arch, p) + list_line_candidates(ls[n - 1], dist, arch, p)
    }
}

/// The candidates of one source file.
pub open spec fn document_candidates(
    d: SourceDocument,
    dist: Seq<char>,
    arch: Seq<char>,
    p: ProviderDefinition,
) -> Seq<(SourceKind, Seq<char>)> {
    if d.format@ == "list"@ {
        let ls = lines(d.content@);
        list_candidates(ls, ls.len() as int, dist, arch, p)
    } else {
        deb822_candidates(d.content@, dist, arch, p)
    }
}

/// The candidates of the first `m` source files, file by file.
pub open spec fn all_candidates(
    docs: Seq<SourceDocument>,
    m: int,
    dist: Seq<char>,
    arch: Seq<char>,
    p: ProviderDefinition,
) -> Seq<(SourceKind, Seq<char>)>
    decreases m,
{
    if m <= 0 {
        seq![]
    } else {
        all_candidates(docs, m - 1, dist, arch, p) + document_candidates(docs[m - 1], dist, arch, p)
    }
}

/// The index of the first candidate of kind `k`.
pub open spec fn first_of_kind(c: Seq<(SourceKind, Seq<char>)>, k: SourceKind, from: int) -> Option<
    int,
>
    decreases c.len() - from,
{
    if from < 0 || from >= c.len() {
        None
    } else if c[from].0 == k {
        Some(from)
    } else {
        first_of_kind(c, k, from + 1)
    }
}

/// The distribution candidate a benchmark samples: the first of the
/// earliest kind (Debian, Debian security, Ubuntu, Ubuntu ports) that has
/// one.
pub open spec fn system_choice(c: Seq<(SourceKind, Seq<char>)>) -> Option<int> {
    match first_of_kind(c, SourceKind::Debian, 0) {
        Some(i) => Some(i),
        None => match first_of_kind(c, SourceKind::DebianSecurity, 0) {
            Some(i) => Some(i),
            None => match first_of_kind(c, SourceKind::Ubuntu, 0) {
                Some(i) => Some(i),
                None => first_of_kind(c, SourceKind::UbuntuPorts, 0),
            },
        },
    }
}

/// The indexes a benchmark samples: the distribution candidate, then the
/// first Radxa candidate, each where there is one.
pub open spec fn selected(c: Seq<(SourceKind, Seq<char>)>) -> Seq<(SourceKind, Seq<char>)> {
    (match system_choice(c) {
        Some(i) => seq![c[i]],
        None => seq![],
    }) + (match first_of_kind(c, SourceKind::Radxa, 0) {
        Some(i) => seq![c[i]],
        None => seq![],
    })
}

/// The indexes a benchmark of provider `p` samples on a host with the
/// given source files (see [`selected`]).
pub open spec fn targets_spec(
    docs: Seq<SourceDocument>,
    dist: Seq<char>,
    arch: Seq<char>,
    p: ProviderDefinition,
) -> Seq<(SourceKind, Seq<char>)> {
    selected(all_candidates(docs, docs.len() as int, dist, arch, p))
}

/// A stanza being read.
struct StanzaState {
    enabled: Option<Vec<char>>,
    types: Option<Vec<char>>,
    uris: Option<Vec<char>>,
    suites: Option<Vec<char>>,
    previous: Vec<char>,
}

spec fn opt_vec(o: Option<Vec<char>>) -> Option<Seq<char>> {
    match o {
        Some(v) => Some(v@),
        None => None,
    }
}

impl StanzaState {
    spec fn view_stanza(&self) -> Stanza {
        Stanza {
            enabled: opt_vec(self.enabled),
            types: opt_vec(self.types),
            uris: opt_vec(self.uris),
            suites: opt_vec(self.suites),
            previous: self.previous@,
        }
    }

    fn fresh() -> (r: Self)
        ensures
            r.view_stanza() == empty_stanza(),
    {
        StanzaState { enabled: None, types: None, uris: None, suites: None, previous: Vec::new() }
    }
}

fn continue_field(v: Option<Vec<char>>, line: &Vec<char>) -> (r: Option<Vec<char>>)
    ensures
        opt_vec(r) == continued(opt_vec(v), line@),
{
    match v {
        Some(mut x) => {
            x.push(' ');
            let t = trim_exec(line);
            extend(&mut x, &t);
            Some(x)
        },
        None => None,
    }
}

fn set_if(key: &Vec<char>, name: &str, field: &mut Option<Vec<char>>, value: &Vec<char>)
    ensures
        opt_vec(*final(field)) == if key@ == name@ {
            Some(value@)
        } else {
            opt_vec(*old(field))
        },
{
    if eq_str(key, name) {
        *field = Some(slice(value, 0, value.len()));
    }
}

fn continue_if(previous: &Vec<char>, name: &str, field: &mut Option<Vec<char>>, line: &Vec<char>)
    ensures
        opt_vec(*final(field)) == if previous@ == name@ {
            continued(opt_vec(*old(field)), line@)
        } else {
            opt_vec(*old(field))
        },
{
    if eq_str(previous, name) {
        let v = field.take();
        *field = continue_field(v, line);
    }
}

fn stanza_step_exec(st: &mut StanzaState, line: &Vec<char>)
    ensures
        final(st).view_stanza() == stanza_step(old(st).view_stanza(), line@),
{
    let t = trim_start_exec(line);
    if t.len() > 0 && t[0] == '#' {
        return;
    }
    if line.len() > 0 && (line[0] == ' ' || line[0] == '\t') {
        continue_if(&st.previous, "enabled", &mut st.enabled, line);
        continue_if(&st.previous, "types", &mut st.types, line);
        continue_if(&st.previous, "uris", &mut st.uris, line);
        continue_if(&st.previous, "suites", &mut st.suites, line);
        return;
    }
    proof {
        lemma_index_of_props(line@, ':');
    }
    match index_of_exec(line, ':') {
        Some(i) => {
            let head = slice(line, 0, i);
            let key_raw = trim_exec(&head);
            let key = lower_all(&key_raw);
            let tail = slice(line, i + 1, line.len());
            assert(tail@ == line@.skip(i + 1));
            let value = trim_exec(&tail);
            set_if(&key, "enabled", &mut st.enabled, &value);
            set_if(&key, "types", &mut st.types, &value);
            set_if(&key, "uris", &mut st.uris, &value);
            set_if(&key, "suites", &mut st.suites, &value);
            st.previous = key;
        },
        None => {},
    }
}

fn words_contain_deb(t: &Vec<char>) -> (r: bool)
    ensures
        r == words(t@).contains("deb"@),
{
    let ws_all = words_exec(t);
    let ghost wv = ws_all@.map_values(|v: Vec<char>| v@);
    assert(wv == words(t@));
    let mut i: usize = 0;
    while i < ws_all.len()
        invariant
            i <= ws_all.len(),
            wv == ws_all@.map_values(|v: Vec<char>| v@),
            wv == words(t@),
            forall|j: int| 0 <= j < i ==> wv[j] != "deb"@,
        decreases ws_all.len() - i,
    {
        assert(wv[i as int] == ws_all@[i as int]@);
        if eq_str(&ws_all[i], "deb") {
            assert(words(t@)[i as int] == "deb"@);
            return true;
        }
        i = i + 1;
    }
    false
}

fn stanza_active_exec(st: &StanzaState) -> (r: bool)
    ensures
        r == stanza_active(st.view_stanza()),
{
    let disabled = match &st.enabled {
        Some(v) => {
            let low = lower_all(v);
            eq_str(&low, "no")
        },
        None => false,
    };
    if disabled {
        return false;
    }
    match &st.types {
        Some(t) => words_contain_deb(t),
        None => false,
    }
}

fn suite_candidates_exec(
    u: &Vec<char>,
    ss: &Vec<Vec<char>>,
    dist: &Vec<char>,
    arch: &Vec<char>,
    p: ProviderDefinition,
    out: &mut Vec<(SourceKind, Vec<char>)>,
)
    ensures
        cands_view(final(out)@) == cands_view(old(out)@) + suite_candidates(
            u@,
            vecs_view(ss@),
            dist@,
            arch@,
            p,
        ),
{
    let ghost start = cands_view(out@);
    let ghost sv = vecs_view(ss@);
    let mut j: usize = 0;
    assert(sv.take(0) =~= Seq::<Seq<char>>::empty());
    assert(start + Seq::<(SourceKind, Seq<char>)>::empty() =~= start);
    while j < ss.len()
        invariant
            j <= ss.len(),
            sv == vecs_view(ss@),
            cands_view(out@) == start + suite_candidates(u@, sv.take(j as int), dist@, arch@, p),
        decreases ss.len() - j,
    {
        let ghost before = cands_view(out@);
        push_candidate(u, &ss[j], dist, arch, p, out);
        assert(sv.take(j + 1).drop_last() =~= sv.take(j as int));
        assert(sv.take(j + 1).last() == ss@[j as int]@);
        assert(start + suite_candidates(u@, sv.take(j + 1), dist@, arch@, p) =~= before
            + candidate_seq(u@, ss@[j as int]@, dist@, arch@, p));
        j = j + 1;
    }
    assert(sv.take(ss@.len() as int) =~= sv);
}

fn stanza_candidates_exec(
    st: &StanzaState,
    dist: &Vec<char>,
    arch: &Vec<char>,
    p: ProviderDefinition,
    out: &mut Vec<(SourceKind, Vec<char>)>,
)
    ensures
        cands_view(final(out)@) == cands_view(old(out)@) + stanza_candidates(
            st.view_stanza(),
            dist@,
            arch@,
            p,
        ),
{
    let ghost start = cands_view(out@);
    assert(start + Seq::<(SourceKind, Seq<char>)>::empty() =~= start);
    if !stanza_active_exec(st) {
        return;
    }
    let (u, sl) = match (&st.uris, &st.suites) {
        (Some(u), Some(sl)) => (u, sl),
        _ => return,
    };
    let us = words_exec(u);
    let ss = words_exec(sl);
    let ghost uv = vecs_view(us@);
    let ghost sv = vecs_view(ss@);
    assert(uv == words(u@));
    assert(sv == words(sl@));
    let mut i: usize = 0;
    assert(uv.take(0) =~= Seq::<Seq<char>>::empty());
    while i < us.len()
        invariant
            i <= us.len(),
            uv == vecs_view(us@),
            sv == vecs_view(ss@),
            cands_view(out@) == start + pair_candidates(uv.take(i as int), sv, dist@, arch@, p),
        decreases us.len() - i,
    {
        let ghost before = cands_view(out@);
        suite_candidates_exec(&us[i], &ss, dist, arch, p, out);
        assert(uv.take(i + 1).drop_last() =~= uv.take(i as int));
        assert(uv.take(i + 1).last() == us@[i as int]@);
        assert(start + pair_candidates(uv.take(i + 1), sv, dist@, arch@, p) =~= before
            + suite_candidates(us@[i as int]@, sv, dist@, arch@, p));
        i = i + 1;
    }
    assert(uv.take(us@.len() as int) =~= uv);
}

fn is_blank_line(l: &Vec<char>) -> (r: bool)
    ensures
        r == blank(l@),
{
    trim_exec(l).len() == 0
}

fn deb822_exec(
    content: &Vec<char>,
    dist: &Vec<char>,
    arch: &Vec<char>,
    p: ProviderDefinition,
    out: &mut Vec<(SourceKind, Vec<char>)>,
)
    ensures
        cands_view(final(out)@) == cands_view(old(out)@) + deb822_candidates(
            content@,
            dist@,
            arch@,
            p,
        ),
{
    let ghost start = cands_view(out@);
    let ls = lines_exec(content);
    let ghost lv = vecs_view(ls@);
    assert(lv == lines(content@));
    let mut st = StanzaState::fresh();
    let mut i: usize = 0;
    assert(start + Seq::<(SourceKind, Seq<char>)>::empty() =~= start);
    while i < ls.len()
        invariant
            i <= ls.len(),
            lv == vecs_view(ls@),
            st.view_stanza() == scan_deb822(lv, i as int, dist@, arch@, p).0,
            cands_view(out@) == start + scan_deb822(lv, i as int, dist@, arch@, p).1,
        decreases ls.len() - i,
    {
        let ghost prev = scan_deb822(lv, i as int, dist@, arch@, p);
        assert(lv[i as int] == ls@[i as int]@);
        if is_blank_line(&ls[i]) {
            let ghost before = cands_view(out@);
            stanza_candidates_exec(&st, dist, arch, p, out);
            st = StanzaState::fresh();
            assert(start + (prev.1 + stanza_candidates(prev.0, dist@, arch@, p)) =~= before
                + stanza_candidates(prev.0, dist@, arch@, p));
        } else {
            stanza_step_exec(&mut st, &ls[i]);
        }
        i = i + 1;
    }
    let ghost fin = scan_deb822(lv, lv.len() as int, dist@, arch@, p);
    let ghost before = cands_view(out@);
    stanza_candidates_exec(&st, dist, arch, p, out);
    assert(start + (fin.1 + stanza_candidates(fin.0, dist@, arch@, p)) =~= before
        + stanza_candidates(fin.0, dist@, arch@, p));
}

fn list_exec(
    content: &Vec<char>,
    dist: &Vec<char>,
    arch: &Vec<char>,
    p: ProviderDefinition,
    out: &mut Vec<(SourceKind, Vec<char>)>,
)
    ensures
        cands_view(final(out)@) == cands_view(old(out)@) + list_candidates(
            lines(content@),
            lines(content@).len() as int,
            dist@,
            arch@,
            p,
        ),
{
    let ghost start = cands_view(out@);
    let ls = lines_exec(content);
    let ghost lv = vecs_view(ls@);
    assert(lv == lines(content@));
    let mut i: usize = 0;
    assert(start + Seq::<(SourceKind, Seq<char>)>::empty() =~= start);
    while i < ls.len()
        invariant
            i <= ls.len(),
            lv == vecs_view(ls@),
            cands_view(out@) == start + list_candidates(lv, i as int, dist@, arch@, p),
        decreases ls.len() - i,
    {
        assert(lv[i as int] == ls@[i as int]@);
        let ghost before = cands_view(out@);
        list_line_exec(&ls[i], dist, arch, p, out);
        assert(start + list_candidates(lv, i + 1, dist@, arch@, p) =~= before
            + list_line_candidates(lv[i as int], dist@, arch@, p));
        i = i + 1;
    }
}

fn first_of_kind_exec(c: &Vec<(SourceKind, Vec<char>)>, k: SourceKind) -> (r: Option<usize>)
    ensures
        r matches Some(i) ==> first_of_kind(cands_view(c@), k, 0) == Some(i as int) && i
            < c@.len(),
        r is None ==> first_of_kind(cands_view(c@), k, 0) is None,
{
    let ghost cv = cands_view(c@);
    let mut i: usize = 0;
    while i < c.len()
        invariant
            i <= c.len(),
            cv == cands_view(c@),
            first_of_kind(cv, k, 0) == first_of_kind(cv, k, i as int),
        decreases c.len() - i,
    {
        assert(cv[i as int].0 == c@[i as int].0);
        if c[i].0 == k {
            return Some(i);
        }
        i = i + 1;
    }
    None
}

/// The index files a benchmark of `provider` samples on a host with the
/// given source files (see [`targets_spec`]).
pub fn benchmark_targets(
    documents: &Vec<SourceDocument>,
    distribution: &str,
    architecture: &str,
    provider: ProviderDefinition,
) -> (r: Vec<(SourceKind, String)>)
    ensures
        crate::source_status::entries_view(r@) == targets_spec(
            documents@,
            distribution@,
            architecture@,
            provider,
        ),
{
    let dist = chars_of(distribution);
    let arch = chars_of(architecture);
    let mut cands: Vec<(SourceKind, Vec<char>)> = Vec::new();
    let mut m: usize = 0;
    while m < documents.len()
        invariant
            m <= documents.len(),
            cands_view(cands@) == all_candidates(documents@, m as int, dist@, arch@, provider),
        decreases documents.len() - m,
    {
        let d = &documents[m];
        assert(documents@[m as int] == *d);
        let content = chars_of(d.content.as_str());
        let fv = chars_of(d.format);
        if eq_str(&fv, "list") {
            list_exec(&content, &dist, &arch, provider, &mut cands);
        } else {
            deb822_exec(&content, &dist, &arch, provider, &mut cands);
        }
        m = m + 1;
    }
    let ghost cv = cands_view(cands@);
    let mut r: Vec<(SourceKind, String)> = Vec::new();
    let system = match first_of_kind_exec(&cands, SourceKind::Debian) {
        Some(i) => Some(i),
        None => match first_of_kind_exec(&cands, SourceKind::DebianSecurity) {
            Some(i) => Some(i),
            None => match first_of_kind_exec(&cands, SourceKind::Ubuntu) {
                Some(i) => Some(i),
                None => first_of_kind_exec(&cands, SourceKind::UbuntuPorts),
            },
        },
    };
    assert(system matches Some(i) ==> system_choice(cv) == Some(i as int));
    assert(system is None ==> system_choice(cv) is None);
    match system {
        Some(i) => {
            assert(cv[i as int] == (cands@[i as int].0, cands@[i as int].1@));
            r.push((cands[i].0, crate::text::string_of(&cands[i].1)));
        },
        None => {},
    }
    let ghost part = crate::source_status::entries_view(r@);
    match first_of_kind_exec(&cands, SourceKind::Radxa) {
        Some(i) => {
            assert(cv[i as int] == (cands@[i as int].0, cands@[i as int].1@));
            r.push((cands[i].0, crate::text::string_of(&cands[i].1)));
            assert(crate::source_status::entries_view(r@) =~= part.push(cv[i as int]));
        },
        None => {},
    }
    assert(crate::source_status::entries_view(r@) =~= selected(cv));
    r
}

// ----------------------------------------------------------------------
// Probing one mirror
// ----------------------------------------------------------------------

/// How a probe of a mirror's index ended.
#[derive(Debug, Clone, Copy, PartialEq, Eq, Structural)]
pub enum MirrorProbeStatus {
    /// The index answered, signed, in time (`ok`).
    Succeeded,
    Timeout,
    HttpError,
    NetworkError,
    InvalidIndex,
    SampleTooLarge,
    CurlMissing,
}

/// The most a probe downloads of an index: 512 KiB.
pub const SAMPLE_LIMIT: usize = 524288;

/// The arguments of the `curl` command that probes `url`: no curlrc, TLS
/// verification on, HTTPS only, no redirects followed, short timeouts, the
/// first 512 KiB only, and the HTTP code, time to first byte and speed
/// written to standard error.
pub fn curl_arguments(url: &str) -> (r: Vec<String>)
    ensures
        crate::model::strings_view(r@) == seq![
            "--disable"@, "--silent"@, "--fail"@, "--globoff"@, "--proto"@, "=https"@, "--connect-timeout"@, "2"@,
            "--max-time"@, "6"@, "--range"@, "0-524287"@, "--write-out"@,
            "%{stderr}%{http_code} %{time_starttransfer} %{speed_download}"@, "--url"@, url@,
        ],
{
    let mut v: Vec<String> = Vec::new();
    crate::model::push_str(&mut v, "--disable");
    crate::model::push_str(&mut v, "--silent");
    crate::model::push_str(&mut v, "--fail");
    crate::model::push_str(&mut v, "--globoff");
    crate::model::push_str(&mut v, "--proto");
    crate::model::push_str(&mut v, "=https");
    crate::model::push_str(&mut v, "--connect-timeout");
    crate::model::push_str(&mut v, "2");
    crate::model::push_str(&mut v, "--max-time");
    crate::model::push_str(&mut v, "6");
    crate::model::push_str(&mut v, "--range");
    crate::model::push_str(&mut v, "0-524287");
    crate::model::push_str(&mut v, "--write-out");
    crate::model::push_str(&mut v, "%{stderr}%{http_code} %{time_starttransfer} %{speed_download}");
    crate::model::push_str(&mut v, "--url");
    crate::model::push_str(&mut v, url);
    v
}

/// The HTTP status `curl` wrote: the first word of its error output, as a
/// number above zero.
pub open spec fn http_status_spec(metrics: Seq<char>) -> Option<u16> {
    let w = words(metrics);
    if w.len() == 0 {
        None
    } else {
        match crate::lex::parse_unsigned(w[0], 10, u16::MAX as nat) {
            Some(v) => if v > 0 {
                Some(v as u16)
            } else {
                None
            },
            None => None,
        }
    }
}

/// A signed APT index begins with this line.
pub open spec fn signed_index(body: Seq<u8>) -> bool {
    let p: Seq<u8> = "-----BEGIN PGP SIGNED MESSAGE-----"@.map_values(|c: char| c as u8);
    p.len() <= body.len() && body.take(p.len() as int) == p
}

/// How a probe ended, given what running `curl` came to: whether it could
/// not be started (and then whether it was missing), the body read (cut
/// after the limit), whether reading and waiting worked, whether it exited
/// successfully and with which code, its error output, and whether the
/// timing figures it wrote were valid. Returns the status, the HTTP status
/// and the number of bytes downloaded.
pub open spec fn probe_spec(
    spawn_error: Option<bool>,
    body: Seq<u8>,
    read_ok: bool,
    waited_ok: bool,
    success: bool,
    code: Option<i32>,
    metrics: Seq<char>,
    metrics_valid: bool,
) -> (MirrorProbeStatus, Option<u16>, nat) {
    let downloaded = if body.len() > SAMPLE_LIMIT { SAMPLE_LIMIT as nat } else { body.len() };
    let http = http_status_spec(metrics);
    match spawn_error {
        Some(missing) => (if missing { MirrorProbeStatus::CurlMissing } else { MirrorProbeStatus::NetworkError }, None, 0),
        None => if body.len() > SAMPLE_LIMIT {
            (MirrorProbeStatus::SampleTooLarge, None, downloaded)
        } else if !waited_ok || !read_ok {
            (MirrorProbeStatus::NetworkError, None, downloaded)
        } else if !success {
            (if code == Some(28i32) {
                MirrorProbeStatus::Timeout
            } else if code == Some(22i32) {
                MirrorProbeStatus::HttpError
            } else {
                MirrorProbeStatus::NetworkError
            }, http, downloaded)
        } else if !(http == Some(200u16) || http == Some(206u16)) {
            (MirrorProbeStatus::HttpError, http, downloaded)
        } else if !metrics_valid {
            (MirrorProbeStatus::NetworkError, http, downloaded)
        } else if !signed_index(body) {
            (MirrorProbeStatus::InvalidIndex, http, downloaded)
        } else {
            (MirrorProbeStatus::Succeeded, http, downloaded)
        },
    }
}

fn signed_index_exec(body: &[u8]) -> (r: bool)
    ensures
        r == signed_index(body@),
{
    let p = chars_of("-----BEGIN PGP SIGNED MESSAGE-----");
    let ghost pb: Seq<u8> = "-----BEGIN PGP SIGNED MESSAGE-----"@.map_values(|c: char| c as u8);
    if p.len() > body.len() {
        return false;
    }
    let mut i: usize = 0;
    while i < p.len()
        invariant
            i <= p@.len(),
            p@.len() <= body@.len(),
            p@ == "-----BEGIN PGP SIGNED MESSAGE-----"@,
            pb == p@.map_values(|c: char| c as u8),
            forall|j: int| 0 <= j < i ==> body@[j] == pb[j],
        decreases p.len() - i,
    {
        if body[i] != p[i] as u8 {
            assert(body@.take(pb.len() as int)[i as int] != pb[i as int]);
            return false;
        }
        i = i + 1;
    }
    assert(body@.take(pb.len() as int) =~= pb);
    true
}

/// How a probe ended (see [`probe_spec`]).
pub fn classify_probe(
    spawn_error: Option<bool>,
    body: &[u8],
    read_ok: bool,
    waited_ok: bool,
    success: bool,
    code: Option<i32>,
    stderr: &[u8],
    metrics_valid: bool,
) -> (r: (MirrorProbeStatus, Option<u16>, usize))
    ensures
        vstd::utf8::valid_utf8(stderr@) ==> (r.0, r.1, r.2 as nat) == probe_spec(
            spawn_error,
            body@,
            read_ok,
            waited_ok,
            success,
            code,
            vstd::utf8::decode_utf8(stderr@),
            metrics_valid,
        ),
{
    match spawn_error {
        Some(missing) => {
            return (if missing { MirrorProbeStatus::CurlMissing } else { MirrorProbeStatus::NetworkError }, None, 0);
        },
        None => {},
    }
    let downloaded = if body.len() > SAMPLE_LIMIT { SAMPLE_LIMIT } else { body.len() };
    if body.len() > SAMPLE_LIMIT {
        return (MirrorProbeStatus::SampleTooLarge, None, downloaded);
    }
    if !waited_ok || !read_ok {
        return (MirrorProbeStatus::NetworkError, None, downloaded);
    }
    let text = crate::text::utf8_lossy(stderr);
    let w = words_exec(&chars_of(text.as_str()));
    let http: Option<u16> = if w.len() == 0 {
        None
    } else {
        assert(w@.map_values(|v: Vec<char>| v@)[0] == w@[0]@);
        match crate::lex::parse_decimal(&w[0], u16::MAX as u64) {
            Some(v) => if v > 0 {
                Some(v as u16)
            } else {
                None
            },
            None => None,
        }
    };
    if !success {
        let status = match code {
            Some(28) => MirrorProbeStatus::Timeout,
            Some(22) => MirrorProbeStatus::HttpError,
            _ => MirrorProbeStatus::NetworkError,
        };
        return (status, http, downloaded);
    }
    let good = match http {
        Some(200) => true,
        Some(206) => true,
        _ => false,
    };
    if !good {
        return (MirrorProbeStatus::HttpError, http, downloaded);
    }
    if !metrics_valid {
        return (MirrorProbeStatus::NetworkError, http, downloaded);
    }
    if !signed_index_exec(body) {
        return (MirrorProbeStatus::InvalidIndex, http, downloaded);
    }
    (MirrorProbeStatus::Succeeded, http, downloaded)
}

/// A probe that ran is classified by how `curl` ended: run with `--fail`,
/// it exits with code 22 on an HTTP error status, and such a probe is an
/// HTTP error; code 28 is a timeout; a run that succeeded but answered an
/// HTTP error status (400 or more) is an HTTP error too; and a network
/// error is only ever a failed run with another exit code, or a run whose
/// timing figures were invalid.
pub proof fn law_http_errors_are_not_network_errors(
    body: Seq<u8>,
    success: bool,
    code: Option<i32>,
    metrics: Seq<char>,
    metrics_valid: bool,
)
    requires
        body.len() <= SAMPLE_LIMIT,
    ensures
        ({
            let st = probe_spec(None, body, true, true, success, code, metrics, metrics_valid).0;
            &&& !success && code == Some(22i32) ==> st == MirrorProbeStatus::HttpError
            &&& !success && code == Some(28i32) ==> st == MirrorProbeStatus::Timeout
            &&& success && (http_status_spec(metrics) matches Some(h) && h >= 400) ==> st
                == MirrorProbeStatus::HttpError
            &&& st == MirrorProbeStatus::NetworkError ==> (!success && code != Some(22i32) && code != Some(
                28i32,
            )) || (success && !metrics_valid)
        }),
{
}

} // verus!
