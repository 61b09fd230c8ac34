//! APT package sources: the mirror providers, how the URIs of source files
//! are recognised, and the rewrite of a source file to another mirror.
use vstd::prelude::*;

use crate::text::{chars_of, eq_str, extend, extend_str, owned, seq_eq, slice, starts_with, starts_with_exec, starts_with_str, string_of};

verus! {

/// A mirror provider as the user sees it.
#[derive(Debug, Clone, PartialEq, Eq)]
pub struct MirrorProvider {
    pub id: String,
    pub name: String,
    pub location: String,
    pub system_endpoint: Option<String>,
    pub radxa_endpoint: Option<String>,
    pub official: bool,
}

/// The repository an APT URI points into.
#[derive(Debug, Clone, Copy, PartialEq, Eq, Structural)]
pub enum SourceKind {
    Debian,
    DebianSecurity,
    Ubuntu,
    UbuntuPorts,
    Radxa,
}

/// A mirror provider: its bases for the distribution's repositories and
/// for Radxa's, each optional.
#[derive(Debug, Clone, Copy)]
pub struct ProviderDefinition {
    pub id: &'static str,
    pub name: &'static str,
    pub location: &'static str,
    pub system_base: Option<&'static str>,
    pub radxa_base: Option<&'static str>,
    pub official: bool,
}

/// How many providers there are.
pub open spec fn provider_count() -> int {
    10
}

/// The providers, in the order they are offered and matched.
pub open spec fn provider_at(i: int) -> ProviderDefinition {
    if i == 0 {
        ProviderDefinition {
            id: "official",
            name: "Distribution official",
            location: "Global",
            system_base: Some("distribution-default"),
            radxa_base: Some("https://radxa-repo.github.io"),
            official: true,
        }
    } else if i == 1 {
        ProviderDefinition {
            id: "ustc",
            name: "USTC Mirrors",
            location: "Hefei, CN",
            system_base: Some("https://mirrors.ustc.edu.cn"),
            radxa_base: None,
            official: false,
        }
    } else if i == 2 {
        ProviderDefinition {
            id: "tuna",
            name: "TUNA Mirrors",
            location: "Beijing, CN",
            system_base: Some("https://mirrors.tuna.tsinghua.edu.cn"),
            radxa_base: None,
            official: false,
        }
    } else if i == 3 {
        ProviderDefinition {
            id: "cqu",
            name: "CQU Mirrors",
            location: "Chongqing, CN",
            system_base: Some("https://mirrors.cqu.edu.cn"),
            radxa_base: Some("https://mirrors.cqu.edu.cn/radxa-deb"),
            official: false,
        }
    } else if i == 4 {
        ProviderDefinition {
            id: "lzu",
            name: "LZU Mirrors",
            location: "Lanzhou, CN",
            system_base: Some("https://mirrors.lzu.edu.cn"),
            radxa_base: Some("https://mirrors.lzu.edu.cn/radxa-deb"),
            official: false,
        }
    } else if i == 5 {
        ProviderDefinition {
            id: "hust",
            name: "HUST Mirrors",
            location: "Wuhan, CN",
            system_base: Some("https://mirrors.hust.edu.cn"),
            radxa_base: Some("https://mirrors.hust.edu.cn/radxa-deb"),
            official: false,
        }
    } else if i == 6 {
        ProviderDefinition {
            id: "sdu",
            name: "SDU Mirrors",
            location: "Jinan, CN",
            system_base: Some("https://mirrors.sdu.edu.cn"),
            radxa_base: Some("https://mirrors.sdu.edu.cn/radxa-deb"),
            official: false,
        }
    } else if i == 7 {
        ProviderDefinition {
            id: "nju",
            name: "NJU Mirrors",
            location: "Nanjing, CN",
            system_base: Some("https://mirror.nju.edu.cn"),
            radxa_base: Some("https://mirror.nju.edu.cn/radxa-deb"),
            official: false,
        }
    } else if i == 8 {
        ProviderDefinition {
            id: "nyist",
            name: "NYIST Mirrors",
            location: "Nanyang, CN",
            system_base: Some("https://mirror.nyist.edu.cn"),
            radxa_base: Some("https://mirror.nyist.edu.cn/radxa-deb"),
            official: false,
        }
    } else {
        ProviderDefinition {
            id: "aghost",
            name: "Aghost Mirrors",
            location: "China",
            system_base: None,
            radxa_base: Some("https://mirrors.aghost.cn/radxa-deb"),
            official: false,
        }
    }
}

/// The provider at index `i` of the catalogue.
pub fn provider(i: usize) -> (r: ProviderDefinition)
    requires
        i < 10,
    ensures
        r == provider_at(i as int),
{
    if i == 0 {
        ProviderDefinition {
            id: "official",
            name: "Distribution official",
            location: "Global",
            system_base: Some("distribution-default"),
            radxa_base: Some("https://radxa-repo.github.io"),
            official: true,
        }
    } else if i == 1 {
        ProviderDefinition {
            id: "ustc",
            name: "USTC Mirrors",
            location: "Hefei, CN",
            system_base: Some("https://mirrors.ustc.edu.cn"),
            radxa_base: None,
            official: false,
        }
    } else if i == 2 {
        ProviderDefinition {
            id: "tuna",
            name: "TUNA Mirrors",
            location: "Beijing, CN",
            system_base: Some("https://mirrors.tuna.tsinghua.edu.cn"),
            radxa_base: None,
            official: false,
        }
    } else if i == 3 {
        ProviderDefinition {
            id: "cqu",
            name: "CQU Mirrors",
            location: "Chongqing, CN",
            system_base: Some("https://mirrors.cqu.edu.cn"),
            radxa_base: Some("https://mirrors.cqu.edu.cn/radxa-deb"),
            official: false,
        }
    } else if i == 4 {
        ProviderDefinition {
            id: "lzu",
            name: "LZU Mirrors",
            location: "Lanzhou, CN",
            system_base: Some("https://mirrors.lzu.edu.cn"),
            radxa_base: Some("https://mirrors.lzu.edu.cn/radxa-deb"),
            official: false,
        }
    } else if i == 5 {
        ProviderDefinition {
            id: "hust",
            name: "HUST Mirrors",
            location: "Wuhan, CN",
            system_base: Some("https://mirrors.hust.edu.cn"),
            radxa_base: Some("https://mirrors.hust.edu.cn/radxa-deb"),
            official: false,
        }
    } else if i == 6 {
        ProviderDefinition {
            id: "sdu",
            name: "SDU Mirrors",
            location: "Jinan, CN",
            system_base: Some("https://mirrors.sdu.edu.cn"),
            radxa_base: Some("https://mirrors.sdu.edu.cn/radxa-deb"),
            official: false,
        }
    } else if i == 7 {
        ProviderDefinition {
            id: "nju",
            name: "NJU Mirrors",
            location: "Nanjing, CN",
            system_base: Some("https://mirror.nju.edu.cn"),
            radxa_base: Some("https://mirror.nju.edu.cn/radxa-deb"),
            official: false,
        }
    } else if i == 8 {
        ProviderDefinition {
            id: "nyist",
            name: "NYIST Mirrors",
            location: "Nanyang, CN",
            system_base: Some("https://mirror.nyist.edu.cn"),
            radxa_base: Some("https://mirror.nyist.edu.cn/radxa-deb"),
            official: false,
        }
    } else {
        ProviderDefinition {
            id: "aghost",
            name: "Aghost Mirrors",
            location: "China",
            system_base: None,
            radxa_base: Some("https://mirrors.aghost.cn/radxa-deb"),
            official: false,
        }
    }
}

/// The first provider, at or after `from`, with the given id.
pub open spec fn provider_index_from(id: Seq<char>, from: int) -> Option<int>
    decreases provider_count() - from,
{
    if from < 0 || from >= provider_count() {
        None
    } else if provider_at(from).id@ == id {
        Some(from)
    } else {
        provider_index_from(id, from + 1)
    }
}

/// The provider with the given id, if there is one.
pub fn find_provider(id: &str) -> (r: Option<ProviderDefinition>)
    ensures
        r matches Some(p) ==> provider_index_from(id@, 0) matches Some(i) && p == provider_at(i),
        r is None ==> provider_index_from(id@, 0) is None,
{
    let v = chars_of(id);
    let mut i: usize = 0;
    while i < 10
        invariant
            i <= 10,
            v@ == id@,
            provider_index_from(id@, 0) == provider_index_from(id@, i as int),
        decreases 10 - i,
    {
        let p = provider(i);
        if eq_str(&v, p.id) {
            return Some(p);
        }
        i = i + 1;
    }
    None
}

impl ProviderDefinition {
    /// The provider as the user sees it.
    pub fn public(self) -> (r: MirrorProvider)
        ensures
            shows(r, self),
    {
        MirrorProvider {
            id: owned(self.id),
            name: owned(self.name),
            location: owned(self.location),
            system_endpoint: match self.system_base {
                Some(b) => Some(owned(b)),
                None => None,
            },
            radxa_endpoint: match self.radxa_base {
                Some(b) => Some(owned(b)),
                None => None,
            },
            official: self.official,
        }
    }
}

/// `m` is provider `d` as the user sees it.
pub open spec fn shows(m: MirrorProvider, d: ProviderDefinition) -> bool {
    &&& m.id@ == d.id@
    &&& m.name@ == d.name@
    &&& m.location@ == d.location@
    &&& (m.system_endpoint matches Some(e) ==> d.system_base matches Some(b) && e@ == b@)
    &&& (m.system_endpoint is None ==> d.system_base is None)
    &&& (m.radxa_endpoint matches Some(e) ==> d.radxa_base matches Some(b) && e@ == b@)
    &&& (m.radxa_endpoint is None ==> d.radxa_base is None)
    &&& m.official == d.official
}

/// `v` is the whole catalogue as the user sees it, in order.
pub open spec fn is_catalog(v: Seq<MirrorProvider>) -> bool {
    v.len() == provider_count() && forall|i: int|
        0 <= i < provider_count() ==> shows(#[trigger] v[i], provider_at(i))
}

/// Every provider as the user sees it, in catalogue order.
pub fn provider_catalog() -> (r: Vec<MirrorProvider>)
    ensures
        is_catalog(r@),
{
    let mut r: Vec<MirrorProvider> = Vec::new();
    let mut i: usize = 0;
    while i < 10
        invariant
            i <= 10,
            r@.len() == i,
            forall|j: int| 0 <= j < i ==> shows(#[trigger] r@[j], provider_at(j)),
        decreases 10 - i,
    {
        r.push(provider(i).public());
        i = i + 1;
    }
    r
}

// ----------------------------------------------------------------------
// URIs
// ----------------------------------------------------------------------

/// `s` without the given trailing character repeated (`trim_end_matches`).
pub open spec fn trim_end_char(s: Seq<char>, c: char) -> Seq<char>
    decreases s.len(),
{
    if s.len() > 0 && s.last() == c {
        trim_end_char(s.drop_last(), c)
    } else {
        s
    }
}

/// `s` without the given leading character repeated (`trim_start_matches`).
pub open spec fn trim_start_char(s: Seq<char>, c: char) -> Seq<char>
    decreases s.len(),
{
    if s.len() > 0 && s[0] == c {
        trim_start_char(s.drop_first(), c)
    } else {
        s
    }
}

/// `s` without the given character at either end (`trim_matches`).
pub open spec fn trim_char(s: Seq<char>, c: char) -> Seq<char> {
    trim_end_char(trim_start_char(s, c), c)
}

proof fn lemma_trim_end_char(s: Seq<char>, c: char, i: int)
    requires
        0 <= i <= s.len(),
        forall|j: int| i <= j < s.len() ==> s[j] == c,
    ensures
        trim_end_char(s, c) == trim_end_char(s.take(i), c),
    decreases s.len() - i,
{
    if i < s.len() {
        assert(s.drop_last().take(i) == s.take(i));
        lemma_trim_end_char(s.drop_last(), c, i);
    } else {
        assert(s.take(i) == s);
    }
}

proof fn lemma_trim_start_char(s: Seq<char>, c: char, i: int)
    requires
        0 <= i <= s.len(),
        forall|j: int| 0 <= j < i ==> s[j] == c,
    ensures
        trim_start_char(s, c) == trim_start_char(s.skip(i), c),
    decreases i,
{
    if i > 0 {
        assert(s.drop_first().skip(i - 1) == s.skip(i));
        assert forall|j: int| 0 <= j < i - 1 implies s.drop_first()[j] == c by {
            assert(s.drop_first()[j] == s[j + 1]);
        }
        lemma_trim_start_char(s.drop_first(), c, i - 1);
    } else {
        assert(s.skip(0) == s);
    }
}

pub fn trim_end_char_exec(s: &Vec<char>, c: char) -> (r: Vec<char>)
    ensures
        r@ == trim_end_char(s@, c),
{
    let mut i = s.len();
    while i > 0 && s[i - 1] == c
        invariant
            i <= s.len(),
            forall|j: int| i <= j < s.len() ==> s@[j] == c,
        decreases i,
    {
        i = i - 1;
    }
    proof {
        lemma_trim_end_char(s@, c, i as int);
        assert(s@.take(i as int).len() == 0 || s@.take(i as int).last() != c);
    }
    slice(s, 0, i)
}

pub fn trim_start_char_exec(s: &Vec<char>, c: char) -> (r: Vec<char>)
    ensures
        r@ == trim_start_char(s@, c),
{
    let mut i: usize = 0;
    while i < s.len() && s[i] == c
        invariant
            i <= s.len(),
            forall|j: int| 0 <= j < i ==> s@[j] == c,
        decreases s.len() - i,
    {
        i = i + 1;
    }
    proof {
        lemma_trim_start_char(s@, c, i as int);
        assert(s@.skip(i as int).len() == 0 || s@.skip(i as int)[0] != c);
    }
    let r = slice(s, i, s.len());
    assert(r@ == s@.skip(i as int));
    r
}

pub fn trim_char_exec(s: &Vec<char>, c: char) -> (r: Vec<char>)
    ensures
        r@ == trim_char(s@, c),
{
    let a = trim_start_char_exec(s, c);
    trim_end_char_exec(&a, c)
}

/// The part of `uri` under `base` (both without trailing slashes), the
/// slashes around it removed; `None` when `uri` is not under `base`.
pub open spec fn strip_uri_base_spec(uri: Seq<char>, base: Seq<char>) -> Option<Seq<char>> {
    let b = trim_end_char(base, '/');
    if !starts_with(uri, b) {
        None
    } else {
        let suffix = uri.skip(b.len() as int);
        if suffix.len() > 0 && suffix[0] != '/' {
            None
        } else {
            Some(trim_char(suffix, '/'))
        }
    }
}

pub fn strip_uri_base(uri: &Vec<char>, base: &str) -> (r: Option<Vec<char>>)
    ensures
        r matches Some(v) ==> strip_uri_base_spec(uri@, base@) == Some(v@),
        r is None ==> strip_uri_base_spec(uri@, base@) is None,
{
    let bv = chars_of(base);
    let b = trim_end_char_exec(&bv, '/');
    if !starts_with_exec(uri, &b) {
        return None;
    }
    let suffix = slice(uri, b.len(), uri.len());
    assert(suffix@ == uri@.skip(b@.len() as int));
    if suffix.len() > 0 && suffix[0] != '/' {
        return None;
    }
    Some(trim_char_exec(&suffix, '/'))
}

/// The host and path of an `http(s)://` URI; `None` for any other URI.
pub open spec fn host_and_path_spec(uri: Seq<char>) -> Option<(Seq<char>, Seq<char>)> {
    let rest = if starts_with(uri, "https://"@) {
        Some(uri.skip(8))
    } else if starts_with(uri, "http://"@) {
        Some(uri.skip(7))
    } else {
        None
    };
    match rest {
        Some(r) => match crate::lex::index_of(r, '/') {
            Some(i) => Some((r.take(i), r.skip(i + 1))),
            None => Some((r, Seq::empty())),
        },
        None => None,
    }
}

pub fn host_and_path(uri: &Vec<char>) -> (r: Option<(Vec<char>, Vec<char>)>)
    ensures
        r matches Some((h, p)) ==> host_and_path_spec(uri@) == Some((h@, p@)),
        r is None ==> host_and_path_spec(uri@) is None,
{
    proof {
        reveal_strlit("https://");
        reveal_strlit("http://");
    }
    let rest = if starts_with_str(uri, "https://") {
        slice(uri, 8, uri.len())
    } else if starts_with_str(uri, "http://") {
        slice(uri, 7, uri.len())
    } else {
        return None;
    };
    assert(rest@ == if starts_with(uri@, "https://"@) {
        uri@.skip(8)
    } else {
        uri@.skip(7)
    });
    proof {
        crate::lex::lemma_index_of_props(rest@, '/');
    }
    match crate::lex::index_of_exec(&rest, '/') {
        Some(i) => {
            let h = slice(&rest, 0, i);
            let p = slice(&rest, i + 1, rest.len());
            assert(h@ == rest@.take(i as int));
            assert(p@ == rest@.skip(i + 1));
            Some((h, p))
        },
        None => Some((rest, Vec::new())),
    }
}

/// Whether `seg` is one of the `/`-separated segments of `path`.
pub open spec fn has_segment(path: Seq<char>, seg: Seq<char>) -> bool {
    exists|i: int| segment_at(path, seg, i)
}

/// `seg` occurs in `path` at `i`, bounded by slashes or the ends.
pub open spec fn segment_at(path: Seq<char>, seg: Seq<char>, i: int) -> bool {
    crate::text::occurs_at(path, seg, i) && (i == 0 || path[i - 1] == '/') && (i + seg.len()
        == path.len() || path[i + seg.len()] == '/')
}

fn segment_at_exec(path: &Vec<char>, sv: &Vec<char>, i: usize) -> (r: bool)
    ensures
        r == segment_at(path@, sv@, i as int),
{
    if crate::text::occurs_at_exec(path, sv, i) {
        let n = sv.len();
        assert(i + n <= path.len());
        let end = i + n;
        let left = i == 0 || path[i - 1] == '/';
        let right = end == path.len() || path[end] == '/';
        left && right
    } else {
        false
    }
}

pub fn path_has_segment(path: &Vec<char>, seg: &str) -> (r: bool)
    ensures
        r == has_segment(path@, seg@),
{
    let sv = chars_of(seg);
    let mut i: usize = 0;
    while i < path.len()
        invariant
            i <= path.len(),
            sv@ == seg@,
            forall|j: int| 0 <= j < i ==> !segment_at(path@, seg@, j),
        decreases path.len() - i,
    {
        if segment_at_exec(path, &sv, i) {
            return true;
        }
        i = i + 1;
    }
    if segment_at_exec(path, &sv, i) {
        return true;
    }
    assert(!has_segment(path@, seg@)) by {
        if has_segment(path@, seg@) {
            let j = choose|j: int| segment_at(path@, seg@, j);
            assert(segment_at(path@, seg@, j));
        }
    }
    false
}

/// A host of the distributions' own archives.
pub open spec fn official_host(h: Seq<char>) -> bool {
    ||| h == "deb.debian.org"@
    ||| h == "security.debian.org"@
    ||| h == "ftp.debian.org"@
    ||| h == "archive.ubuntu.com"@
    ||| h == "security.ubuntu.com"@
    ||| h == "ports.ubuntu.com"@
    ||| h == "deb.ubuntu.com"@
}

/// Whether provider `i` serves the distribution from `host`.
pub open spec fn serves_system_host(i: int, host: Seq<char>) -> bool {
    provider_at(i).system_base matches Some(b) && (host_and_path_spec(b@) matches Some(
        (c, _),
    ) && c == host)
}

/// The first provider, at or after `from`, serving the distribution from
/// `host`.
pub open spec fn system_host_provider_from(host: Seq<char>, from: int) -> Option<int>
    decreases provider_count() - from,
{
    if from < 0 || from >= provider_count() {
        None
    } else if serves_system_host(from, host) {
        Some(from)
    } else {
        system_host_provider_from(host, from + 1)
    }
}

/// The provider a distribution host belongs to.
pub open spec fn provider_for_system_host_spec(host: Seq<char>) -> Option<Seq<char>> {
    if official_host(host) {
        Some("official"@)
    } else {
        match system_host_provider_from(host, 0) {
            Some(i) => Some(provider_at(i).id@),
            None => None,
        }
    }
}

fn equals_any(v: &Vec<char>) -> (r: bool)
    ensures
        r == official_host(v@),
{
    eq_str(v, "deb.debian.org") || eq_str(v, "security.debian.org") || eq_str(v, "ftp.debian.org")
        || eq_str(v, "archive.ubuntu.com") || eq_str(v, "security.ubuntu.com") || eq_str(
        v,
        "ports.ubuntu.com",
    ) || eq_str(v, "deb.ubuntu.com")
}

pub fn provider_for_system_host(host: &Vec<char>) -> (r: Option<&'static str>)
    ensures
        r matches Some(id) ==> provider_for_system_host_spec(host@) == Some(id@),
        r is None ==> provider_for_system_host_spec(host@) is None,
{
    if equals_any(host) {
        return Some("official");
    }
    let mut i: usize = 0;
    while i < 10
        invariant
            i <= 10,
            !official_host(host@),
            system_host_provider_from(host@, 0) == system_host_provider_from(host@, i as int),
        decreases 10 - i,
    {
        let p = provider(i);
        match p.system_base {
            Some(b) => {
                let bv = chars_of(b);
                match host_and_path(&bv) {
                    Some((c, _)) => {
                        if seq_eq(&c, host) {
                            return Some(p.id);
                        }
                    },
                    None => {},
                }
            },
            None => {},
        }
        i = i + 1;
    }
    None
}

/// Whether provider `i` serves Radxa's archive from a base that `uri`
/// lies under.
pub open spec fn radxa_match(i: int, uri: Seq<char>) -> bool {
    provider_at(i).radxa_base matches Some(b) && b@ != "distribution-default"@
        && strip_uri_base_spec(uri, b@) is Some
}

/// The first provider, at or after `from`, whose Radxa base `uri` lies
/// under, with the part of `uri` under it.
pub open spec fn radxa_match_from(uri: Seq<char>, from: int) -> Option<(int, Seq<char>)>
    decreases provider_count() - from,
{
    if from < 0 || from >= provider_count() {
        None
    } else if radxa_match(from, uri) {
        Some((from, strip_uri_base_spec(uri, provider_at(from).radxa_base->0@)->0))
    } else {
        radxa_match_from(uri, from + 1)
    }
}

/// What a source URI is: the repository it points into, the provider that
/// serves it, and (for Radxa) the path under the provider's base. URIs of
/// third-party repositories are not recognised.
pub open spec fn classify_spec(uri: Seq<char>, dist: Seq<char>) -> Option<
    (SourceKind, Seq<char>, Seq<char>),
> {
    let norm = trim_end_char(uri, '/');
    match radxa_match_from(norm, 0) {
        Some((i, suffix)) => Some((SourceKind::Radxa, provider_at(i).id@, suffix)),
        None => match host_and_path_spec(norm) {
            None => None,
            Some((host, path)) => if host == "radxa-repo.github.io"@ {
                Some((SourceKind::Radxa, "official"@, trim_char(path, '/')))
            } else {
                match provider_for_system_host_spec(host) {
                    None => None,
                    Some(pid) => if dist == "debian"@ && has_segment(path, "debian-security"@) {
                        Some((SourceKind::DebianSecurity, pid, Seq::empty()))
                    } else if dist == "debian"@ && has_segment(path, "debian"@) {
                        Some((SourceKind::Debian, pid, Seq::empty()))
                    } else if dist == "ubuntu"@ && has_segment(path, "ubuntu-ports"@) {
                        Some((SourceKind::UbuntuPorts, pid, Seq::empty()))
                    } else if dist == "ubuntu"@ && has_segment(path, "ubuntu"@) {
                        Some((SourceKind::Ubuntu, pid, Seq::empty()))
                    } else {
                        None
                    },
                }
            },
        },
    }
}

fn radxa_match_exec(norm: &Vec<char>) -> (r: Option<(usize, Vec<char>)>)
    ensures
        r matches Some((i, suffix)) ==> i < 10 && radxa_match_from(norm@, 0) == Some(
            (i as int, suffix@),
        ),
        r is None ==> radxa_match_from(norm@, 0) is None,
{
    let mut i: usize = 0;
    while i < 10
        invariant
            i <= 10,
            radxa_match_from(norm@, 0) == radxa_match_from(norm@, i as int),
        decreases 10 - i,
    {
        let p = provider(i);
        match p.radxa_base {
            Some(b) => {
                let bv = chars_of(b);
                if !eq_str(&bv, "distribution-default") {
                    match strip_uri_base(norm, b) {
                        Some(suffix) => {
                            return Some((i, suffix));
                        },
                        None => {},
                    }
                }
            },
            None => {},
        }
        i = i + 1;
    }
    None
}

/// Classifies a source URI (see [`classify_spec`]).
pub fn classify_uri_chars(uri: &Vec<char>, dist: &Vec<char>) -> (r: Option<
    (SourceKind, &'static str, Vec<char>),
>)
    ensures
        r matches Some((k, id, suffix)) ==> classify_spec(uri@, dist@) == Some((k, id@, suffix@)),
        r is None ==> classify_spec(uri@, dist@) is None,
{
    let norm = trim_end_char_exec(uri, '/');
    match radxa_match_exec(&norm) {
        Some((i, suffix)) => {
            return Some((SourceKind::Radxa, provider(i).id, suffix));
        },
        None => {},
    }
    let (host, path) = match host_and_path(&norm) {
        Some(hp) => hp,
        None => return None,
    };
    if eq_str(&host, "radxa-repo.github.io") {
        return Some((SourceKind::Radxa, "official", trim_char_exec(&path, '/')));
    }
    let pid = match provider_for_system_host(&host) {
        Some(p) => p,
        None => return None,
    };
    let debian = eq_str(dist, "debian");
    let ubuntu = eq_str(dist, "ubuntu");
    if debian && path_has_segment(&path, "debian-security") {
        Some((SourceKind::DebianSecurity, pid, Vec::new()))
    } else if debian && path_has_segment(&path, "debian") {
        Some((SourceKind::Debian, pid, Vec::new()))
    } else if ubuntu && path_has_segment(&path, "ubuntu-ports") {
        Some((SourceKind::UbuntuPorts, pid, Vec::new()))
    } else if ubuntu && path_has_segment(&path, "ubuntu") {
        Some((SourceKind::Ubuntu, pid, Vec::new()))
    } else {
        None
    }
}

/// Classifies a source URI (see [`classify_spec`]).
pub fn classify_uri(uri: &str, distribution_id: &str) -> (r: Option<(SourceKind, &'static str, String)>)
    ensures
        r matches Some((k, id, suffix)) ==> classify_spec(uri@, distribution_id@) == Some(
            (k, id@, suffix@),
        ),
        r is None ==> classify_spec(uri@, distribution_id@) is None,
{
    let u = chars_of(uri);
    let d = chars_of(distribution_id);
    match classify_uri_chars(&u, &d) {
        Some((k, id, suffix)) => Some((k, id, string_of(&suffix))),
        None => None,
    }
}

/// `base` and `suffix` joined by one slash.
pub open spec fn join_uri_spec(base: Seq<char>, suffix: Seq<char>) -> Seq<char> {
    if suffix.len() == 0 {
        trim_end_char(base, '/')
    } else {
        trim_end_char(base, '/') + "/"@ + trim_char(suffix, '/')
    }
}

pub fn join_uri(base: &str, suffix: &Vec<char>) -> (r: Vec<char>)
    ensures
        r@ == join_uri_spec(base@, suffix@),
{
    let bv = chars_of(base);
    let b = trim_end_char_exec(&bv, '/');
    if suffix.len() == 0 {
        b
    } else {
        let mut r = b;
        extend_str(&mut r, "/");
        let t = trim_char_exec(suffix, '/');
        extend(&mut r, &t);
        r
    }
}

/// Architectures Ubuntu serves from its ports archive.
pub open spec fn ports_architecture(a: Seq<char>) -> bool {
    ||| a == "aarch64"@
    ||| a == "arm"@
    ||| a == "armv6"@
    ||| a == "armv7"@
    ||| a == "riscv64"@
    ||| a == "ppc64"@
    ||| a == "s390x"@
}

pub fn is_ports_architecture(a: &Vec<char>) -> (r: bool)
    ensures
        r == ports_architecture(a@),
{
    eq_str(a, "aarch64") || eq_str(a, "arm") || eq_str(a, "armv6") || eq_str(a, "armv7")
        || eq_str(a, "riscv64") || eq_str(a, "ppc64") || eq_str(a, "s390x")
}

/// The URI a recognised source moves to under provider `p`: Radxa sources
/// keep their path under the new Radxa base; the official provider restores
/// each distribution's own archive (Ubuntu's ports archive on ports
/// architectures, its security archive for security entries); a mirror
/// serves each repository under its base. `None` when the provider does
/// not serve that repository.
pub open spec fn target_spec(
    p: ProviderDefinition,
    kind: SourceKind,
    dist: Seq<char>,
    arch: Seq<char>,
    security: bool,
    suffix: Seq<char>,
) -> Option<Seq<char>> {
    if kind == SourceKind::Radxa {
        match p.radxa_base {
            Some(b) => Some(join_uri_spec(b@, suffix)),
            None => None,
        }
    } else {
        match p.system_base {
            None => None,
            Some(b) => if p.official {
                if dist == "debian"@ && kind == SourceKind::DebianSecurity {
                    Some("https://security.debian.org/debian-security"@)
                } else if dist == "debian"@ {
                    Some("https://deb.debian.org/debian"@)
                } else if dist == "ubuntu"@ && ports_architecture(arch) {
                    Some("https://ports.ubuntu.com/ubuntu-ports"@)
                } else if dist == "ubuntu"@ && security {
                    Some("https://security.ubuntu.com/ubuntu"@)
                } else if dist == "ubuntu"@ {
                    Some("https://archive.ubuntu.com/ubuntu"@)
                } else {
                    None
                }
            } else {
                Some(
                    join_uri_spec(
                        b@,
                        match kind {
                            SourceKind::Debian => "debian"@,
                            SourceKind::DebianSecurity => "debian-security"@,
                            SourceKind::Ubuntu => "ubuntu"@,
                            _ => "ubuntu-ports"@,
                        },
                    ),
                )
            },
        }
    }
}

pub fn target_uri(
    p: ProviderDefinition,
    kind: SourceKind,
    dist: &Vec<char>,
    arch: &Vec<char>,
    security: bool,
    suffix: &Vec<char>,
) -> (r: Option<Vec<char>>)
    ensures
        r matches Some(v) ==> target_spec(p, kind, dist@, arch@, security, suffix@) == Some(v@),
        r is None ==> target_spec(p, kind, dist@, arch@, security, suffix@) is None,
{
    if kind == SourceKind::Radxa {
        return match p.radxa_base {
            Some(b) => Some(join_uri(b, suffix)),
            None => None,
        };
    }
    let base = match p.system_base {
        Some(b) => b,
        None => return None,
    };
    if p.official {
        let debian = eq_str(dist, "debian");
        let ubuntu = eq_str(dist, "ubuntu");
        return if debian && kind == SourceKind::DebianSecurity {
            Some(chars_of("https://security.debian.org/debian-security"))
        } else if debian {
            Some(chars_of("https://deb.debian.org/debian"))
        } else if ubuntu && is_ports_architecture(arch) {
            Some(chars_of("https://ports.ubuntu.com/ubuntu-ports"))
        } else if ubuntu && security {
            Some(chars_of("https://security.ubuntu.com/ubuntu"))
        } else if ubuntu {
            Some(chars_of("https://archive.ubuntu.com/ubuntu"))
        } else {
            None
        };
    }
    let repository = match kind {
        SourceKind::Debian => chars_of("debian"),
        SourceKind::DebianSecurity => chars_of("debian-security"),
        SourceKind::Ubuntu => chars_of("ubuntu"),
        _ => chars_of("ubuntu-ports"),
    };
    Some(join_uri(base, &repository))
}

/// A mirror keeps each system source in the repository it was in: for a
/// provider that is not the official one, the URI a recognised Debian or
/// Ubuntu source moves to is the mirror's system base joined with a
/// repository name (`debian`, `debian-security`, `ubuntu` or
/// `ubuntu-ports`) that is a segment of the source's own path.
pub proof fn law_mirror_keeps_the_repository(
    p: ProviderDefinition,
    uri: Seq<char>,
    dist: Seq<char>,
    arch: Seq<char>,
    security: bool,
)
    requires
        !p.official,
        p.system_base is Some,
        classify_spec(uri, dist) is Some,
        (classify_spec(uri, dist)->0).0 != SourceKind::Radxa,
    ensures
        ({
            let (kind, pid, suffix) = classify_spec(uri, dist)->0;
            let path = (host_and_path_spec(trim_end_char(uri, '/'))->0).1;
            exists|seg: Seq<char>|
                (seg == "debian"@ || seg == "debian-security"@ || seg == "ubuntu"@ || seg == "ubuntu-ports"@)
                    && has_segment(path, seg) && target_spec(p, kind, dist, arch, security, suffix) == Some(
                    join_uri_spec(p.system_base->0@, seg),
                )
        }),
{
    let (kind, pid, suffix) = classify_spec(uri, dist)->0;
    let norm = trim_end_char(uri, '/');
    assert(radxa_match_from(norm, 0) is None);
    let path = (host_and_path_spec(norm)->0).1;
    let b = p.system_base->0@;
    let t = target_spec(p, kind, dist, arch, security, suffix);
    if kind == SourceKind::Debian {
        assert(has_segment(path, "debian"@) && t == Some(join_uri_spec(b, "debian"@)));
    } else if kind == SourceKind::DebianSecurity {
        assert(has_segment(path, "debian-security"@) && t == Some(join_uri_spec(b, "debian-security"@)));
    } else if kind == SourceKind::Ubuntu {
        assert(has_segment(path, "ubuntu"@) && t == Some(join_uri_spec(b, "ubuntu"@)));
    } else {
        assert(has_segment(path, "ubuntu-ports"@) && t == Some(join_uri_spec(b, "ubuntu-ports"@)));
    }
}

} // verus!
