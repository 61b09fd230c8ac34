//! Plans to switch the package mirror: which files change and how, the
//! token that ties an apply to the plan it was shown, and the host view
//! that plans are made from.
use vstd::prelude::*;
use crate::fingerprint::{absorb_field, absorb_fields, fingerprint_text, Fingerprint};
use crate::lex::{index_of, lines, lines_exec};
use crate::model::{push_str, strings_view};
use crate::source_files::{change_describes, document_replacements, document_text, transform_document, SourceDocument, SourceFileChange};
use crate::source_status::{is_supported_distribution, managed_upto, source_revision, source_status, supported_distribution, SourceStatus, revision_spec};
use crate::sources::{find_provider, provider_at, provider_index_from, shows, trim_char, trim_char_exec, MirrorProvider, ProviderDefinition};
use crate::text::{chars_of, extend, extend_str, lemma_trim_keeps_first, lower_all, lower_seq, owned, seq_eq, slice, string_of, trim, trim_exec};
use vstd::utf8::encode_utf8;

verus! {

/// Why a change of package sources cannot go ahead.
#[derive(Debug, Clone, PartialEq, Eq)]
pub enum SourceError {
    UnknownProvider(String),
    Unsupported(String),
    ConfirmationRequired,
    PlanRequired,
    StalePlan,
    RootRequired,
    Io(String),
}

/// The message shown for an error.
pub open spec fn source_error_message(e: SourceError) -> Seq<char> {
    match e {
        SourceError::UnknownProvider(id) => "unknown mirror provider: "@ + id@,
        SourceError::Unsupported(why) => "APT source management is unavailable: "@ + why@,
        SourceError::ConfirmationRequired => "confirmation is required before changing APT sources"@,
        SourceError::PlanRequired => "preview the APT source change before applying it"@,
        SourceError::StalePlan => "the APT source files changed after preview; create a fresh plan"@,
        SourceError::RootRequired => "changing APT sources requires root privileges"@,
        SourceError::Io(why) => "unable to manage APT sources: "@ + why@,
    }
}

fn prefixed(prefix: &str, rest: &String) -> (r: String)
    ensures
        r@ == prefix@ + rest@,
{
    let mut v = chars_of(prefix);
    let w = chars_of(rest.as_str());
    extend(&mut v, &w);
    string_of(&v)
}

impl SourceError {
    /// The message shown for this error (see [`source_error_message`]).
    pub fn message(&self) -> (r: String)
        ensures
            r@ == source_error_message(*self),
    {
        match self {
            SourceError::UnknownProvider(id) => prefixed("unknown mirror provider: ", id),
            SourceError::Unsupported(why) => prefixed("APT source management is unavailable: ", why),
            SourceError::ConfirmationRequired => owned(
                "confirmation is required before changing APT sources",
            ),
            SourceError::PlanRequired => owned("preview the APT source change before applying it"),
            SourceError::StalePlan => owned(
                "the APT source files changed after preview; create a fresh plan",
            ),
            SourceError::RootRequired => owned("changing APT sources requires root privileges"),
            SourceError::Io(why) => prefixed("unable to manage APT sources: ", why),
        }
    }
}

/// A file that a plan changes: the file as read, its new text and what
/// changes in it.
#[derive(Debug)]
pub struct PendingChange {
    pub document: SourceDocument,
    pub updated: String,
    pub public: SourceFileChange,
}

/// A plan to switch the package mirror.
#[derive(Debug)]
pub struct SourcePlan {
    pub provider: MirrorProvider,
    pub source_revision: String,
    pub plan_token: String,
    pub synthetic: bool,
    pub requires_root: bool,
    pub changes: Vec<SourceFileChange>,
    pub warnings: Vec<String>,
    pub will_refresh_package_index: bool,
}

/// The strings a plan token is fingerprinted from: the provider id, the
/// source revision, then for each changed file its path and new text.
pub open spec fn token_fields(
    id: Seq<char>,
    revision: Seq<char>,
    pending: Seq<PendingChange>,
) -> Seq<Seq<u8>>
    decreases pending.len(),
{
    if pending.len() == 0 {
        seq![encode_utf8(id), encode_utf8(revision)]
    } else {
        let c = pending.last();
        token_fields(id, revision, pending.drop_last()) + seq![
            encode_utf8(c.document.display_path@),
            encode_utf8(c.updated@),
        ]
    }
}

/// The token of a plan.
pub open spec fn token_spec(id: Seq<char>, revision: Seq<char>, pending: Seq<PendingChange>) -> Seq<
    char,
> {
    fingerprint_text("plan-v1"@, absorb_fields(token_fields(id, revision, pending)))
}

proof fn lemma_absorb_two(f: Seq<Seq<u8>>, a: Seq<u8>, b: Seq<u8>)
    ensures
        absorb_fields(f + seq![a, b]) == absorb_field(absorb_field(absorb_fields(f), a), b),
{
    let f2 = f + seq![a, b];
    let f1 = f.push(a);
    assert(f2.drop_last() =~= f1);
    assert(f2.last() == b);
    assert(f1.drop_last() =~= f);
    assert(f1.last() == a);
    assert(absorb_fields(f1) == absorb_field(absorb_fields(f), a));
    assert(absorb_fields(f2) == absorb_field(absorb_fields(f1), b));
}

/// The token of a plan (see [`token_spec`]).
pub fn plan_token(provider_id: &str, source_revision: &str, pending: &Vec<PendingChange>) -> (r:
    String)
    ensures
        r@ == token_spec(provider_id@, source_revision@, pending@),
{
    let mut fp = Fingerprint::new();
    proof {
        lemma_absorb_two(seq![], encode_utf8(provider_id@), encode_utf8(source_revision@));
        assert(Seq::<Seq<u8>>::empty() + seq![encode_utf8(provider_id@), encode_utf8(source_revision@)]
            =~= seq![encode_utf8(provider_id@), encode_utf8(source_revision@)]);
    }
    fp.update(provider_id.as_bytes());
    fp.update(source_revision.as_bytes());
    let mut i: usize = 0;
    assert(pending@.take(0) =~= Seq::<PendingChange>::empty());
    while i < pending.len()
        invariant
            i <= pending.len(),
            fp@ == absorb_fields(token_fields(provider_id@, source_revision@, pending@.take(i as int))),
        decreases pending.len() - i,
    {
        let c = &pending[i];
        proof {
            assert(pending@.take(i + 1).drop_last() =~= pending@.take(i as int));
            assert(pending@.take(i + 1).last() == *c);
            lemma_absorb_two(
                token_fields(provider_id@, source_revision@, pending@.take(i as int)),
                encode_utf8(c.document.display_path@),
                encode_utf8(c.updated@),
            );
        }
        fp.update(c.document.display_path.as_str().as_bytes());
        fp.update(c.updated.as_str().as_bytes());
        i = i + 1;
    }
    assert(pending@.take(pending@.len() as int) =~= pending@);
    let text = fp.finish("plan-v1");
    string_of(&text)
}

/// Whether a token supplied with an apply may go ahead: a blank token
/// means no plan was previewed; a token other than the plan's means the
/// files changed since the preview.
pub open spec fn token_check(plan_token: Seq<char>, supplied: Seq<char>) -> Result<(), SourceError> {
    if trim(supplied).len() == 0 {
        Err(SourceError::PlanRequired)
    } else if supplied != plan_token {
        Err(SourceError::StalePlan)
    } else {
        Ok(())
    }
}

/// Checks the token supplied with an apply against the plan (see
/// [`token_check`]).
pub fn verify_plan_token(plan: &SourcePlan, supplied: &str) -> (r: Result<(), SourceError>)
    ensures
        r == token_check(plan.plan_token@, supplied@),
{
    let s = chars_of(supplied);
    let t = trim_exec(&s);
    if t.len() == 0 {
        return Err(SourceError::PlanRequired);
    }
    let own = chars_of(plan.plan_token.as_str());
    if !seq_eq(&s, &own) {
        return Err(SourceError::StalePlan);
    }
    Ok(())
}

/// A file may be written only while it still holds the text the plan was
/// made from.
pub fn confirm_unchanged(current: &str, planned: &str) -> (r: Result<(), SourceError>)
    ensures
        r == (if current@ == planned@ {
            Ok(())
        } else {
            Err(SourceError::StalePlan)
        }),
{
    let a = chars_of(current);
    let b = chars_of(planned);
    if seq_eq(&a, &b) {
        Ok(())
    } else {
        Err(SourceError::StalePlan)
    }
}

/// The token a plan is shown with is accepted for that plan.
pub proof fn law_plan_token_accepted(id: Seq<char>, revision: Seq<char>, pending: Seq<PendingChange>)
    ensures
        token_check(token_spec(id, revision, pending), token_spec(id, revision, pending)) == Ok::<
            (),
            SourceError,
        >(()),
{
    let t = token_spec(id, revision, pending);
    reveal_strlit("plan-v1");
    assert(t[0] == 'p');
    lemma_trim_keeps_first(t);
}

/// The value that line `l` of an os-release file gives `key`, if it sets
/// it: the text after the first `=`, trimmed and unquoted.
pub open spec fn release_entry(l: Seq<char>, key: Seq<char>) -> Option<Seq<char>> {
    match index_of(l, '=') {
        Some(i) => if l.take(i) == key {
            Some(trim_char(trim(l.skip(i + 1)), '"'))
        } else {
            None
        },
        None => None,
    }
}

/// The value the first line at or after `from` that sets `key` gives it.
pub open spec fn release_value_from(ls: Seq<Seq<char>>, key: Seq<char>, from: int) -> Option<
    Seq<char>,
>
    decreases ls.len() - from,
{
    if from < 0 || from >= ls.len() {
        None
    } else {
        match release_entry(ls[from], key) {
            Some(v) => Some(v),
            None => release_value_from(ls, key, from + 1),
        }
    }
}

/// The value an os-release file gives `key`.
pub open spec fn os_release_spec(content: Seq<char>, key: Seq<char>) -> Option<Seq<char>> {
    release_value_from(lines(content), key, 0)
}

/// The value an os-release file gives `key` (see [`os_release_spec`]).
pub fn os_release_value(content: &str, key: &str) -> (r: Option<String>)
    ensures
        opt_chars(r) == os_release_spec(content@, key@),
{
    let c = chars_of(content);
    let k = chars_of(key);
    let ls = lines_exec(&c);
    let ghost lv = crate::source_files::vecs_view(ls@);
    assert(lv == lines(content@));
    let mut i: usize = 0;
    while i < ls.len()
        invariant
            i <= ls.len(),
            lv == crate::source_files::vecs_view(ls@),
            k@ == key@,
            os_release_spec(content@, key@) == release_value_from(lv, key@, i as int),
        decreases ls.len() - i,
    {
        let l = &ls[i];
        assert(lv[i as int] == l@);
        proof {
            crate::lex::lemma_index_of_props(l@, '=');
        }
        match crate::lex::index_of_exec(l, '=') {
            Some(e) => {
                let candidate = slice(l, 0, e);
                assert(candidate@ == l@.take(e as int));
                if seq_eq(&candidate, &k) {
                    let value = slice(l, e + 1, l.len());
                    assert(value@ == l@.skip(e + 1));
                    let t = trim_exec(&value);
                    let u = trim_char_exec(&t, '"');
                    return Some(string_of(&u));
                }
            },
            None => {},
        }
        i = i + 1;
    }
    None
}

/// The characters of an optional string.
pub open spec fn opt_chars(o: Option<String>) -> Option<Seq<char>> {
    match o {
        Some(s) => Some(s@),
        None => None,
    }
}

/// The distribution an os-release file names: its `ID` in lower case and
/// its `PRETTY_NAME`, `unknown` and the raw id standing in for what is
/// missing.
pub open spec fn distribution_spec(content: Seq<char>) -> (Seq<char>, Seq<char>) {
    let id = match os_release_spec(content, "ID"@) {
        Some(v) => v,
        None => "unknown"@,
    };
    let name = match os_release_spec(content, "PRETTY_NAME"@) {
        Some(v) => v,
        None => id,
    };
    (lower_seq(id), name)
}

/// The distribution an os-release file names (see [`distribution_spec`]).
pub fn distribution_of(os_release: &str) -> (r: (String, String))
    ensures
        (r.0@, r.1@) == distribution_spec(os_release@),
{
    let id = match os_release_value(os_release, "ID") {
        Some(v) => chars_of(v.as_str()),
        None => chars_of("unknown"),
    };
    let name = match os_release_value(os_release, "PRETTY_NAME") {
        Some(v) => v,
        None => string_of(&id),
    };
    let low = lower_all(&id);
    (string_of(&low), name)
}

/// The indices, among the first `n` files, of those a rewrite changes.
pub open spec fn changed_docs(
    docs: Seq<SourceDocument>,
    n: int,
    dist: Seq<char>,
    arch: Seq<char>,
    p: ProviderDefinition,
) -> Seq<int>
    decreases n,
{
    if n <= 0 {
        seq![]
    } else {
        changed_docs(docs, n - 1, dist, arch, p) + if document_replacements(
            docs[n - 1],
            dist,
            arch,
            p,
        ) > 0 {
            seq![n - 1]
        } else {
            seq![]
        }
    }
}

/// The warnings of a plan: the provider serves only Radxa's archive, or
/// only the distribution's; nothing changes because the sources already
/// use the provider, or because no recognised sources exist; the plan is
/// a demonstration.
pub open spec fn plan_warnings(
    p: ProviderDefinition,
    nothing_changes: bool,
    has_managed: bool,
    synthetic: bool,
) -> Seq<Seq<char>> {
    (if p.system_base is None {
        seq!["radxa_only"@]
    } else {
        seq![]
    }) + (if p.radxa_base is None {
        seq!["system_only"@]
    } else {
        seq![]
    }) + (if nothing_changes {
        seq![
            if has_managed {
                "already_selected"@
            } else {
                "no_managed_sources"@
            },
        ]
    } else {
        seq![]
    }) + (if synthetic {
        seq!["dry_run"@]
    } else {
        seq![]
    })
}

fn clone_document(d: &SourceDocument) -> (r: SourceDocument)
    ensures
        r == *d,
{
    SourceDocument {
        display_path: d.display_path.clone(),
        format: d.format,
        content: d.content.clone(),
    }
}

fn clone_change(c: &SourceFileChange) -> (r: SourceFileChange)
    ensures
        r.path == c.path,
        r.replacements == c.replacements,
        r.before@ == c.before@,
        r.after@ == c.after@,
{
    SourceFileChange {
        path: c.path.clone(),
        replacements: c.replacements,
        before: crate::model::clone_strings(&c.before),
        after: crate::model::clone_strings(&c.after),
    }
}

/// The source files of a host as read, with what a plan needs to know
/// about the host.
pub struct SourceManager {
    pub synthetic: bool,
    pub distribution_id: String,
    pub distribution_name: String,
    pub architecture: String,
    pub documents: Vec<SourceDocument>,
}

/// The source files of the demonstration host: Debian's archive and
/// security archive in a deb822 file, and Radxa's archive in a list file.
pub open spec fn is_demo_documents(r: Seq<SourceDocument>) -> bool {
    &&& r.len() == 2
    &&& r[0].display_path@ == "/etc/apt/sources.list.d/debian.sources"@
    &&& r[0].format@ == "deb822"@
    &&& r[0].content@ == "Types: deb\nURIs: https://deb.debian.org/debian\nSuites: bookworm bookworm-updates\nComponents: main contrib non-free-firmware\n\nTypes: deb\nURIs: https://security.debian.org/debian-security\nSuites: bookworm-security\nComponents: main contrib non-free-firmware\n"@
    &&& r[1].display_path@ == "/etc/apt/sources.list.d/radxa.list"@
    &&& r[1].format@ == "list"@
    &&& r[1].content@ == "deb [signed-by=/usr/share/keyrings/radxa-archive-keyring.gpg] https://radxa-repo.github.io/bookworm bookworm main\n"@
}

/// The source files of the demonstration host (see [`is_demo_documents`]).
pub fn demo_documents() -> (r: Vec<SourceDocument>)
    ensures
        is_demo_documents(r@),
{
    let mut r: Vec<SourceDocument> = Vec::new();
    r.push(
        SourceDocument {
            display_path: owned("/etc/apt/sources.list.d/debian.sources"),
            format: "deb822",
            content: owned("Types: deb\nURIs: https://deb.debian.org/debian\nSuites: bookworm bookworm-updates\nComponents: main contrib non-free-firmware\n\nTypes: deb\nURIs: https://security.debian.org/debian-security\nSuites: bookworm-security\nComponents: main contrib non-free-firmware\n"),
        },
    );
    r.push(
        SourceDocument {
            display_path: owned("/etc/apt/sources.list.d/radxa.list"),
            format: "list",
            content: owned("deb [signed-by=/usr/share/keyrings/radxa-archive-keyring.gpg] https://radxa-repo.github.io/bookworm bookworm main\n"),
        },
    );
    r
}

impl SourceManager {
    /// The demonstration host (`synthetic`), or a live host of which
    /// nothing has been read: no os-release file and no source files.
    pub fn new(synthetic: bool) -> (r: Self)
        ensures
            r.synthetic == synthetic,
            synthetic ==> r.distribution_id@ == "debian"@ && r.distribution_name@
                == "Debian GNU/Linux 12 (demo)"@ && r.architecture@ == "aarch64"@
                && is_demo_documents(r.documents@),
            !synthetic ==> (r.distribution_id@, r.distribution_name@) == distribution_spec(
                Seq::empty(),
            ) && r.architecture@ == Seq::<char>::empty() && r.documents@.len() == 0,
    {
        if synthetic {
            SourceManager {
                synthetic: true,
                distribution_id: owned("debian"),
                distribution_name: owned("Debian GNU/Linux 12 (demo)"),
                architecture: owned("aarch64"),
                documents: demo_documents(),
            }
        } else {
            let r = Self::live("", "", Vec::new());
            proof {
                reveal_strlit("");
            }
            r
        }
    }

    /// A live host: its os-release file, its architecture and its source
    /// files as read.
    pub fn live(os_release: &str, architecture: &str, documents: Vec<SourceDocument>) -> (r: Self)
        ensures
            !r.synthetic,
            (r.distribution_id@, r.distribution_name@) == distribution_spec(os_release@),
            r.architecture@ == architecture@,
            r.documents@ == documents@,
    {
        let (distribution_id, distribution_name) = distribution_of(os_release);
        SourceManager {
            synthetic: false,
            distribution_id,
            distribution_name,
            architecture: owned(architecture),
            documents,
        }
    }

    /// What the host's source files use (see [`source_status`]).
    pub fn status(&self) -> (r: SourceStatus)
        ensures
            r.synthetic == self.synthetic,
            r.distribution_id@ == self.distribution_id@,
            r.source_revision@ == revision_spec(self.documents@),
            r.files@.len() == managed_upto(
                self.documents@,
                self.documents@.len() as int,
                self.distribution_id@,
            ).len(),
            r.supported == (r.files@.len() > 0 && supported_distribution(self.distribution_id@)),
    {
        source_status(
            &self.documents,
            self.distribution_id.as_str(),
            self.distribution_name.as_str(),
            self.architecture.as_str(),
            self.synthetic,
        )
    }

    /// The plan to switch the host to provider `provider_id`, with the
    /// files it changes.
    pub fn build_plan(&self, provider_id: &str) -> (r: Result<(SourcePlan, Vec<PendingChange>), SourceError>)
        ensures
            provider_index_from(provider_id@, 0) is None ==> (r matches Err(
                SourceError::UnknownProvider(id),
            ) && id@ == provider_id@),
            provider_index_from(provider_id@, 0) is Some && !supported_distribution(
                self.distribution_id@,
            ) ==> (r matches Err(SourceError::Unsupported(why)) && why@ == "distribution "@
                + self.distribution_id@ + " is not Debian or Ubuntu"@),
            provider_index_from(provider_id@, 0) matches Some(i) ==> (supported_distribution(
                self.distribution_id@,
            ) ==> (r matches Ok((plan, pending)) && plan_is(
                plan,
                pending@,
                provider_at(i),
                self.documents@,
                self.distribution_id@,
                self.architecture@,
                self.synthetic,
            ))),
    {
        let definition = match find_provider(provider_id) {
            Some(d) => d,
            None => return Err(SourceError::UnknownProvider(owned(provider_id))),
        };
        if !is_supported_distribution(self.distribution_id.as_str()) {
            let mut why = chars_of("distribution ");
            let id = chars_of(self.distribution_id.as_str());
            extend(&mut why, &id);
            extend_str(&mut why, " is not Debian or Ubuntu");
            return Err(SourceError::Unsupported(string_of(&why)));
        }
        let ghost i = provider_index_from(provider_id@, 0)->0;
        let ghost docs = self.documents@;
        let ghost dist = self.distribution_id@;
        let ghost arch = self.architecture@;
        let revision = source_revision(&self.documents);
        let mut pending: Vec<PendingChange> = Vec::new();
        let mut changes: Vec<SourceFileChange> = Vec::new();
        let mut k: usize = 0;
        while k < self.documents.len()
            invariant
                k <= self.documents.len(),
                docs == self.documents@,
                dist == self.distribution_id@,
                arch == self.architecture@,
                pending@.len() == changed_docs(docs, k as int, dist, arch, definition).len(),
                changes@.len() == pending@.len(),
                forall|j: int|
                    0 <= j < pending@.len() ==> pending_is(
                        #[trigger] pending@[j],
                        docs[changed_docs(docs, k as int, dist, arch, definition)[j]],
                        dist,
                        arch,
                        definition,
                    ),
                forall|j: int|
                    0 <= j < changes@.len() ==> change_describes(
                        #[trigger] changes@[j],
                        docs[changed_docs(docs, k as int, dist, arch, definition)[j]],
                        dist,
                        arch,
                        definition,
                    ),
                forall|x: int|
                    0 <= x < changed_docs(docs, k as int, dist, arch, definition).len() ==> 0
                        <= #[trigger] changed_docs(docs, k as int, dist, arch, definition)[x] < k,
            decreases self.documents.len() - k,
        {
            let d = &self.documents[k];
            let ghost before = changed_docs(docs, k as int, dist, arch, definition);
            let (updated, public) = transform_document(
                d,
                self.distribution_id.as_str(),
                self.architecture.as_str(),
                definition,
            );
            assert(docs[k as int] == *d);
            match public {
                Some(c) => {
                    assert(changed_docs(docs, k + 1, dist, arch, definition) == before.push(
                        k as int,
                    ));
                    changes.push(clone_change(&c));
                    pending.push(PendingChange { document: clone_document(d), updated, public: c });
                },
                None => {
                    assert(changed_docs(docs, k + 1, dist, arch, definition) =~= before);
                },
            }
            k = k + 1;
        }
        let mut warnings: Vec<String> = Vec::new();
        let ghost nothing = pending@.len() == 0;
        let ghost w0 = strings_view(warnings@);
        assert(w0 =~= Seq::<Seq<char>>::empty());
        if definition.system_base.is_none() {
            push_str(&mut warnings, "radxa_only");
        }
        if definition.radxa_base.is_none() {
            push_str(&mut warnings, "system_only");
        }
        let ghost mut has_managed = false;
        if pending.len() == 0 {
            let st = self.status();
            proof {
                has_managed = st.files@.len() > 0;
            }
            if st.files.len() > 0 {
                push_str(&mut warnings, "already_selected");
            } else {
                push_str(&mut warnings, "no_managed_sources");
            }
        }
        if self.synthetic {
            push_str(&mut warnings, "dry_run");
        }
        let token = plan_token(definition.id, revision.as_str(), &pending);
        let refresh = pending.len() > 0;
        let plan = SourcePlan {
            provider: definition.public(),
            source_revision: revision,
            plan_token: token,
            synthetic: self.synthetic,
            requires_root: true,
            changes,
            warnings,
            will_refresh_package_index: refresh,
        };
        proof {
            assert(strings_view(plan.warnings@) =~= plan_warnings(
                definition,
                nothing,
                managed_upto(docs, docs.len() as int, dist).len() > 0,
                self.synthetic,
            ));
        }
        Ok((plan, pending))
    }

    /// The plan to switch the host to provider `provider_id`.
    pub fn plan(&self, provider_id: &str) -> (r: Result<SourcePlan, SourceError>)
        ensures
            provider_index_from(provider_id@, 0) is None ==> (r matches Err(
                SourceError::UnknownProvider(id),
            ) && id@ == provider_id@),
            provider_index_from(provider_id@, 0) is Some && !supported_distribution(
                self.distribution_id@,
            ) ==> r is Err,
            provider_index_from(provider_id@, 0) matches Some(i) ==> (supported_distribution(
                self.distribution_id@,
            ) ==> (r matches Ok(plan) && exists|pending: Seq<PendingChange>|
                plan_is(
                    plan,
                    pending,
                    provider_at(i),
                    self.documents@,
                    self.distribution_id@,
                    self.architecture@,
                    self.synthetic,
                ))),
    {
        match self.build_plan(provider_id) {
            Ok((plan, pending)) => {
                let ghost p = pending@;
                Ok(plan)
            },
            Err(e) => Err(e),
        }
    }
}

/// `c` is the pending change of file `d`: the file itself, its new text,
/// and what changes in it.
pub open spec fn pending_is(
    c: PendingChange,
    d: SourceDocument,
    dist: Seq<char>,
    arch: Seq<char>,
    p: ProviderDefinition,
) -> bool {
    &&& c.document == d
    &&& c.updated@ == document_text(d, dist, arch, p)
    &&& change_describes(c.public, d, dist, arch, p)
}

/// `plan` (with the pending changes `pending`) is the plan to switch the
/// files `docs` to provider `p`: every file the rewrite changes, in order,
/// and only those; the provider as shown; the revision of the files; a
/// token over the provider, the revision and the new texts; the warnings.
pub open spec fn plan_is(
    plan: SourcePlan,
    pending: Seq<PendingChange>,
    p: ProviderDefinition,
    docs: Seq<SourceDocument>,
    dist: Seq<char>,
    arch: Seq<char>,
    synthetic: bool,
) -> bool {
    let changed = changed_docs(docs, docs.len() as int, dist, arch, p);
    &&& pending.len() == changed.len()
    &&& forall|j: int|
        0 <= j < changed.len() ==> pending_is(#[trigger] pending[j], docs[changed[j]], dist, arch, p)
    &&& plan.changes@.len() == changed.len()
    &&& forall|j: int|
        0 <= j < changed.len() ==> change_describes(
            #[trigger] plan.changes@[j],
            docs[changed[j]],
            dist,
            arch,
            p,
        )
    &&& shows(plan.provider, p)
    &&& plan.source_revision@ == revision_spec(docs)
    &&& plan.plan_token@ == token_spec(p.id@, revision_spec(docs), pending)
    &&& plan.synthetic == synthetic
    &&& plan.requires_root
    &&& plan.will_refresh_package_index == (changed.len() > 0)
    &&& strings_view(plan.warnings@) == plan_warnings(
        p,
        changed.len() == 0,
        managed_upto(docs, docs.len() as int, dist).len() > 0,
        synthetic,
    )
}

} // verus!
