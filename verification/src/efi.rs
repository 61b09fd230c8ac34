//! EFI boot-loader-spec (BLS) overlays: reading a boot entry, checking the
//! names and files it refers to, and the entry and file moves that a new
//! overlay selection comes to.
use vstd::prelude::*;
use crate::hardware::HardwareError;
use crate::lex::{lines, lines_exec, pieces, pieces_exec, words, words_exec};
use crate::model::strings_view;
use crate::source_files::vecs_view;
use crate::text::{chars_of, eq_str, is_ws, owned, slice, string_of, trim, trim_exec};

verus! {

/// The boot configuration an EFI boot entry holds: the kernel it boots,
/// the entry file, the device tree it names (if any), the device tree it
/// would name, and the overlays it loads, in order.
#[derive(Debug, Clone, PartialEq, Eq)]
pub struct OverlayBootConfig {
    pub kernel: String,
    pub path: String,
    pub devicetree: Option<String>,
    pub available_devicetree: String,
    pub overlays: Vec<String>,
}

/// How a plan changes a boot entry: its device tree and overlay list,
/// before and after.
#[derive(Debug, Clone, PartialEq, Eq)]
pub struct OverlayBootChange {
    pub kernel: String,
    pub path: String,
    pub devicetree_before: Option<String>,
    pub devicetree_after: String,
    pub overlays_before: Vec<String>,
    pub overlays_after: Vec<String>,
}

fn invalid(message: &str) -> (r: HardwareError)
    ensures
        r matches HardwareError::InvalidInput(m) && m@ == message@,
{
    HardwareError::InvalidInput(owned(message))
}

// ----------------------------------------------------------------------
// Keys of a boot entry
// ----------------------------------------------------------------------

/// The index of the first white-space character of `s`.
pub open spec fn first_ws(s: Seq<char>) -> Option<int> {
    if exists|i: int| 0 <= i < s.len() && is_ws(#[trigger] s[i]) {
        Some(choose|i: int| 0 <= i < s.len() && is_ws(s[i]) && forall|j: int| 0 <= j < i ==> !is_ws(#[trigger] s[j]))
    } else {
        None
    }
}

fn first_ws_exec(s: &Vec<char>) -> (r: usize)
    ensures
        r <= s.len(),
        first_ws(s@) matches Some(i) ==> r == i,
        first_ws(s@) is None ==> r == s.len(),
{
    let mut i: usize = 0;
    while i < s.len()
        invariant
            i <= s.len(),
            forall|j: int| 0 <= j < i ==> !is_ws(#[trigger] s@[j]),
        decreases s.len() - i,
    {
        if crate::text::ws(s[i]) {
            proof {
                let k = choose|k: int| 0 <= k < s@.len() && is_ws(s@[k]) && forall|j: int| 0 <= j < k ==> !is_ws(#[trigger] s@[j]);
                if k < i {
                    assert(!is_ws(s@[k]));
                }
                if k > i {
                    assert(!is_ws(s@[i as int]));
                }
            }
            return i;
        }
        i = i + 1;
    }
    i
}

/// The value line `l` of a boot entry gives `key`: the line, trimmed, is
/// the key, then white space, then the value (trimmed); or just the key,
/// with an empty value.
pub open spec fn bls_value(l: Seq<char>, key: Seq<char>) -> Option<Seq<char>> {
    let t = trim(l);
    let end = match first_ws(t) {
        Some(i) => i,
        None => t.len() as int,
    };
    if t.take(end) == key {
        Some(trim(t.skip(end)))
    } else {
        None
    }
}

/// The values the first `n` lines give `key`, in order.
pub open spec fn bls_values_upto(ls: Seq<Seq<char>>, key: Seq<char>, n: int) -> Seq<Seq<char>>
    decreases n,
{
    if n <= 0 {
        seq![]
    } else {
        bls_values_upto(ls, key, n - 1) + match bls_value(ls[n - 1], key) {
            Some(v) => seq![v],
            None => seq![],
        }
    }
}

/// The values a boot entry gives `key`, in order.
pub open spec fn bls_values_spec(text: Seq<char>, key: Seq<char>) -> Seq<Seq<char>> {
    bls_values_upto(lines(text), key, lines(text).len() as int)
}

/// The values a boot entry gives `key` (see [`bls_values_spec`]).
pub fn values(text: &str, key: &str) -> (r: Vec<String>)
    ensures
        strings_view(r@) == bls_values_spec(text@, key@),
{
    let t = chars_of(text);
    let k = chars_of(key);
    let ls = lines_exec(&t);
    let ghost lv = vecs_view(ls@);
    assert(lv == lines(text@));
    let mut r: Vec<String> = Vec::new();
    let mut i: usize = 0;
    while i < ls.len()
        invariant
            i <= ls.len(),
            lv == vecs_view(ls@),
            k@ == key@,
            strings_view(r@) == bls_values_upto(lv, key@, i as int),
        decreases ls.len() - i,
    {
        let line = trim_exec(&ls[i]);
        assert(line@ == trim(lv[i as int]));
        let end = first_ws_exec(&line);
        let head = slice(&line, 0, end);
        if crate::text::seq_eq(&head, &k) {
            let rest = slice(&line, end, line.len());
            let v = trim_exec(&rest);
            assert(rest@ == line@.skip(end as int));
            crate::model::push_str(&mut r, string_of(&v).as_str());
        }
        i = i + 1;
    }
    r
}

/// The one value a boot entry gives `key`: none when it gives none, an
/// error when it gives more than one.
pub fn single_value(text: &str, key: &str) -> (r: Result<Option<String>, HardwareError>)
    ensures
        bls_values_spec(text@, key@).len() > 1 <==> r is Err,
        r matches Err(e) ==> (e matches HardwareError::InvalidInput(m) && m@ == "duplicate BLS key: "@ + key@),
        r matches Ok(Some(v)) ==> bls_values_spec(text@, key@) == seq![v@],
        r matches Ok(None) ==> bls_values_spec(text@, key@).len() == 0,
{
    let mut vs = values(text, key);
    if vs.len() > 1 {
        let mut m = chars_of("duplicate BLS key: ");
        crate::text::extend_str(&mut m, key);
        return Err(HardwareError::InvalidInput(string_of(&m)));
    }
    if vs.len() == 0 {
        Ok(None)
    } else {
        let v = vs.pop().unwrap();
        Ok(Some(v))
    }
}

// ----------------------------------------------------------------------
// Names and path components
// ----------------------------------------------------------------------

/// `s` is a non-empty run of ASCII digits.
pub open spec fn all_digits(s: Seq<char>) -> bool {
    s.len() > 0 && forall|i: int| 0 <= i < s.len() ==> crate::text::is_digit(#[trigger] s[i])
}

/// A boot-entry file name is the entry of the kernel `prefix`
/// (`<entry-token>-<kernel>`): `<prefix>.conf`, or with a boot counter,
/// `<prefix>+<tries>.conf` or `<prefix>+<tries>-<done>.conf`.
pub open spec fn entry_name_spec(name: Seq<char>, prefix: Seq<char>) -> bool {
    let plus = prefix + "+"@;
    ||| name == prefix + ".conf"@
    ||| {
        &&& crate::text::starts_with(name, plus)
        &&& crate::text::ends_with(name, ".conf"@)
        &&& name.len() >= plus.len() + 5
        &&& {
            let counter = name.subrange(plus.len() as int, name.len() - 5);
            ||| all_digits(counter)
            ||| exists|i: int|
                0 <= i < counter.len() && counter[i] == '-' && all_digits(counter.take(i)) && all_digits(
                    counter.skip(i + 1),
                )
        }
    }
}

fn digits_exec(s: &Vec<char>, from: usize, to: usize) -> (r: bool)
    requires
        from <= to <= s.len(),
    ensures
        r == all_digits(s@.subrange(from as int, to as int)),
{
    if from == to {
        return false;
    }
    let mut i = from;
    while i < to
        invariant
            from <= i <= to,
            to <= s.len(),
            forall|j: int| from <= j < i ==> crate::text::is_digit(#[trigger] s@[j]),
        decreases to - i,
    {
        if !crate::text::digit(s[i]) {
            assert(!crate::text::is_digit(s@.subrange(from as int, to as int)[i - from]));
            return false;
        }
        i = i + 1;
    }
    assert forall|j: int| 0 <= j < to - from implies crate::text::is_digit(
        #[trigger] s@.subrange(from as int, to as int)[j],
    ) by {
        assert(s@.subrange(from as int, to as int)[j] == s@[from + j]);
    }
    true
}

/// Whether a boot-entry file name is the entry of the kernel `prefix` (see
/// [`entry_name_spec`]).
pub fn matches_entry_name(name: &str, prefix: &str) -> (r: bool)
    ensures
        r == entry_name_spec(name@, prefix@),
{
    let n = chars_of(name);
    let mut whole = chars_of(prefix);
    crate::text::extend_str(&mut whole, ".conf");
    if crate::text::seq_eq(&n, &whole) {
        return true;
    }
    let mut plus = chars_of(prefix);
    crate::text::extend_str(&mut plus, "+");
    let ghost pv = prefix@ + "+"@;
    assert(plus@ == pv);
    if !crate::text::starts_with_exec(&n, &plus) || !crate::text::ends_with_str(&n, ".conf") || n.len() < 5 || n.len() - 5 < plus.len() {
        return false;
    }
    let from = plus.len();
    let to = n.len() - 5;
    let ghost counter = n@.subrange(from as int, to as int);
    if digits_exec(&n, from, to) {
        return true;
    }
    let mut i = from;
    while i < to
        invariant
            from <= i <= to,
            to <= n@.len(),
            n@ == name@,
            plus@ == prefix@ + "+"@,
            from == plus@.len(),
            to == n@.len() - 5,
            n@ != prefix@ + ".conf"@,
            crate::text::starts_with(n@, plus@),
            crate::text::ends_with(n@, ".conf"@),
            counter == n@.subrange(from as int, to as int),
            forall|j: int|
                0 <= j < i - from ==> !(counter[j] == '-' && all_digits(counter.take(j)) && all_digits(
                    counter.skip(j + 1),
                )),
        decreases to - i,
    {
        if n[i] == '-' {
            let a = digits_exec(&n, from, i);
            let b = digits_exec(&n, i + 1, to);
            assert(counter.take(i - from) =~= n@.subrange(from as int, i as int));
            assert(counter.skip(i - from + 1) =~= n@.subrange(i + 1, to as int));
            if a && b {
                assert(0 <= i - from < counter.len() && counter[i - from] == '-' && all_digits(counter.take(i - from))
                    && all_digits(counter.skip(i - from + 1)));
                return true;
            }
        }
        i = i + 1;
    }
    false
}

/// A character allowed in an EFI path component: an ASCII letter or
/// digit, `.`, `_`, `+` or `-`.
pub open spec fn component_char(c: char) -> bool {
    crate::text::is_alnum(c) || c == '.' || c == '_' || c == '+' || c == '-'
}

/// A safe EFI path component: one to 255 allowed characters, neither `.`
/// nor `..`.
pub open spec fn safe_component(v: Seq<char>) -> bool {
    &&& 0 < v.len() <= 255
    &&& v != "."@
    &&& v != ".."@
    &&& forall|i: int| 0 <= i < v.len() ==> component_char(#[trigger] v[i])
}

/// Accepts a safe EFI path component (see [`safe_component`]).
pub fn component(value: &str) -> (r: Result<(), HardwareError>)
    ensures
        r is Ok <==> safe_component(value@),
        r matches Err(e) ==> (e matches HardwareError::InvalidInput(m) && m@ == "unsafe EFI path component"@),
{
    let v = chars_of(value);
    if v.len() == 0 || v.len() > 255 || eq_str(&v, ".") || eq_str(&v, "..") {
        return Err(invalid("unsafe EFI path component"));
    }
    let mut i: usize = 0;
    while i < v.len()
        invariant
            i <= v.len(),
            v@ == value@,
            forall|j: int| 0 <= j < i ==> component_char(#[trigger] v@[j]),
        decreases v.len() - i,
    {
        let c = v[i];
        if !(crate::text::alnum(c) || c == '.' || c == '_' || c == '+' || c == '-') {
            assert(!component_char(v@[i as int]));
            return Err(invalid("unsafe EFI path component"));
        }
        i = i + 1;
    }
    Ok(())
}

// ----------------------------------------------------------------------
// Device-tree blobs
// ----------------------------------------------------------------------

/// The big-endian 32-bit number at bytes 4 to 7.
pub open spec fn be32_at4(b: Seq<u8>) -> int {
    b[4] * 0x1000000 + b[5] * 0x10000 + b[6] * 0x100 + b[7]
}

/// A flattened device tree: at least 40 bytes, the magic `d00dfeed`, and a
/// total size of at least 40 that the bytes cover.
pub open spec fn fdt_ok(b: Seq<u8>) -> bool {
    &&& b.len() >= 40
    &&& b[0] == 0xd0 && b[1] == 0x0d && b[2] == 0xfe && b[3] == 0xed
    &&& 40 <= be32_at4(b) <= b.len()
}

/// Accepts a flattened device tree (see [`fdt_ok`]).
pub fn validate_fdt(bytes: &[u8]) -> (r: Result<(), HardwareError>)
    ensures
        r is Ok <==> fdt_ok(bytes@),
        r matches Err(e) ==> (e matches HardwareError::InvalidInput(m) && (m@ == "invalid DTB/DTBO header"@
            || m@ == "truncated DTB/DTBO"@)),
        bytes@.len() < 40 ==> (r matches Err(HardwareError::InvalidInput(m)) && m@ == "invalid DTB/DTBO header"@),
{
    if bytes.len() < 40 || bytes[0] != 0xd0 || bytes[1] != 0x0d || bytes[2] != 0xfe || bytes[3] != 0xed {
        return Err(invalid("invalid DTB/DTBO header"));
    }
    let size: u64 = bytes[4] as u64 * 0x1000000 + bytes[5] as u64 * 0x10000 + bytes[6] as u64 * 0x100
        + bytes[7] as u64;
    if size < 40 || size > bytes.len() as u64 {
        return Err(invalid("truncated DTB/DTBO"));
    }
    Ok(())
}

// ----------------------------------------------------------------------
// Rewriting a boot entry
// ----------------------------------------------------------------------

/// The key of a line of a boot entry: its first word, or nothing.
pub open spec fn entry_key(l: Seq<char>) -> Seq<char> {
    let w = words(l);
    if w.len() > 0 {
        w[0]
    } else {
        seq![]
    }
}

/// A line of a boot entry that a rewrite keeps: one that sets neither the
/// device tree nor the overlays.
pub open spec fn kept_line(l: Seq<char>) -> bool {
    entry_key(l) != "devicetree"@ && entry_key(l) != "devicetree-overlay"@
}

/// The first `n` lines (with their line ends) that a rewrite keeps.
pub open spec fn kept_upto(ps: Seq<Seq<char>>, n: int) -> Seq<char>
    decreases n,
{
    if n <= 0 {
        seq![]
    } else {
        kept_upto(ps, n - 1) + if kept_line(ps[n - 1]) {
            ps[n - 1]
        } else {
            seq![]
        }
    }
}

/// A boot entry rewritten for a change: its other lines kept, ending with
/// a line end, then the device tree line and, when there are overlays, the
/// overlay line.
pub open spec fn render_spec(text: Seq<char>, devicetree: Seq<char>, overlays: Seq<Seq<char>>) -> Seq<char> {
    let kept = kept_upto(pieces(text), pieces(text).len() as int);
    let ended = if kept.len() > 0 && kept.last() != '\n' {
        kept.push('\n')
    } else {
        kept
    };
    let with_tree = ended + "devicetree "@ + devicetree + "\n"@;
    if overlays.len() == 0 {
        with_tree
    } else {
        with_tree + "devicetree-overlay "@ + crate::text::join_spec(overlays, " "@) + "\n"@
    }
}

/// The boot entry `before` rewritten for `change` (see [`render_spec`]);
/// an entry that is not UTF-8 is refused.
pub fn render_entry(before: &[u8], change: &OverlayBootChange) -> (r: Result<String, HardwareError>)
    ensures
        r is Ok <==> vstd::utf8::valid_utf8(before@),
        r matches Ok(t) ==> t@ == render_spec(
            vstd::utf8::decode_utf8(before@),
            change.devicetree_after@,
            strings_view(change.overlays_after@),
        ),
        r matches Err(e) ==> (e matches HardwareError::InvalidInput(m) && m@ == "non-UTF8 BLS entry"@),
{
    let text = match crate::text::utf8_text(before) {
        Some(t) => t,
        None => {
            return Err(invalid("non-UTF8 BLS entry"));
        },
    };
    let tv = chars_of(text.as_str());
    let ps = pieces_exec(&tv);
    let ghost pv = vecs_view(ps@);
    let mut out: Vec<char> = Vec::new();
    let mut i: usize = 0;
    while i < ps.len()
        invariant
            i <= ps.len(),
            pv == vecs_view(ps@),
            out@ == kept_upto(pv, i as int),
        decreases ps.len() - i,
    {
        let w = words_exec(&ps[i]);
        assert(w@.map_values(|v: Vec<char>| v@) == words(pv[i as int]));
        let keep = if w.len() > 0 {
            assert(w@[0]@ == words(pv[i as int])[0]);
            !eq_str(&w[0], "devicetree") && !eq_str(&w[0], "devicetree-overlay")
        } else {
            proof {
                reveal_strlit("devicetree");
                reveal_strlit("devicetree-overlay");
            }
            true
        };
        if keep {
            crate::text::extend(&mut out, &ps[i]);
        }
        i = i + 1;
    }
    if out.len() > 0 && out[out.len() - 1] != '\n' {
        out.push('\n');
    }
    crate::text::extend_str(&mut out, "devicetree ");
    crate::text::extend_str(&mut out, change.devicetree_after.as_str());
    crate::text::extend_str(&mut out, "\n");
    if change.overlays_after.len() > 0 {
        crate::text::extend_str(&mut out, "devicetree-overlay ");
        let joined = crate::text::join_exec(&change.overlays_after, " ");
        crate::text::extend_str(&mut out, joined.as_str());
        crate::text::extend_str(&mut out, "\n");
    }
    Ok(string_of(&out))
}

// ----------------------------------------------------------------------
// The change a selection comes to
// ----------------------------------------------------------------------

/// The paths, relative to the EFI system partition, of the overlays
/// `ids` in the directory `relative`.
pub open spec fn requested_paths(relative: Seq<char>, ids: Seq<Seq<char>>) -> Seq<Seq<char>> {
    ids.map_values(|id: Seq<char>| relative + "/"@ + id)
}

/// The sorted list of the distinct strings of `v`.
pub open spec fn sorted_of(v: Seq<Seq<char>>) -> Seq<Seq<char>> {
    choose|s: Seq<Seq<char>>| crate::order::sorted_set_of(s, v)
}

/// The overlay list after a selection: the overlays the entry already
/// loads that stay selected, in their order, then the newly selected ones
/// in sorted order.
pub open spec fn overlays_after_spec(before: Seq<Seq<char>>, requested: Seq<Seq<char>>) -> Seq<Seq<char>> {
    let kept = before.filter(|p: Seq<char>| requested.contains(p));
    kept + sorted_of(requested).filter(|p: Seq<char>| !kept.contains(p))
}

/// The change selecting the overlays `selected` makes to the boot entry
/// `entry`, whose overlays live in `directory` (a path under
/// `/boot/efi`): none without an entry; the directory must be known and lie
/// under `/boot/efi`.
pub fn boot_change(entry: &Option<OverlayBootConfig>, directory: &Option<String>, selected: &Vec<String>) -> (r:
    Result<Option<OverlayBootChange>, HardwareError>)
    ensures
        entry is None ==> r matches Ok(None),
        entry is Some && directory is None ==> (r matches Err(HardwareError::InvalidInput(m)) && m@
            == "missing EFI overlay directory"@),
        entry is Some && (directory matches Some(d) && !crate::text::starts_with(d@, "/boot/efi"@)) ==> (r matches Err(
            HardwareError::InvalidInput(m),
        ) && m@ == "unexpected EFI mount"@),
        entry matches Some(e) ==> (directory matches Some(d) ==> (crate::text::starts_with(d@, "/boot/efi"@) ==> (r matches Ok(
            Some(c),
        ) && c.kernel@ == e.kernel@ && c.path@ == e.path@ && opt_string_view(c.devicetree_before)
            == opt_string_view(e.devicetree) && c.devicetree_after@ == e.available_devicetree@ && strings_view(
            c.overlays_before@,
        ) == strings_view(e.overlays@) && strings_view(c.overlays_after@) == overlays_after_spec(
            strings_view(e.overlays@),
            requested_paths(d@.skip(9), strings_view(selected@)),
        )))),
{
    let e = match entry {
        None => {
            return Ok(None);
        },
        Some(e) => e,
    };
    let d = match directory {
        None => {
            return Err(invalid("missing EFI overlay directory"));
        },
        Some(d) => d,
    };
    let dv = chars_of(d.as_str());
    if !crate::text::starts_with_str(&dv, "/boot/efi") {
        return Err(invalid("unexpected EFI mount"));
    }
    proof {
        reveal_strlit("/boot/efi");
    }
    let relative = slice(&dv, 9, dv.len());
    let ghost sel = strings_view(selected@);
    let mut paths: Vec<String> = Vec::new();
    let mut i: usize = 0;
    while i < selected.len()
        invariant
            i <= selected.len(),
            sel == strings_view(selected@),
            strings_view(paths@) == requested_paths(relative@, sel.take(i as int)),
        decreases selected.len() - i,
    {
        let mut p = relative.clone();
        crate::text::extend_str(&mut p, "/");
        crate::text::extend_str(&mut p, selected[i].as_str());
        crate::model::push_str(&mut paths, string_of(&p).as_str());
        assert(sel.take(i + 1) =~= sel.take(i as int).push(sel[i as int]));
        i = i + 1;
    }
    assert(sel.take(selected@.len() as int) =~= sel);
    let ghost req = strings_view(paths@);
    let sorted = crate::order::sorted_unique(&paths);
    proof {
        let sv = strings_view(sorted@);
        assert(crate::order::sorted_set_of(sv, req));
        let other = sorted_of(req);
        assert(crate::order::sorted_set_of(other, req));
        crate::order::lemma_sorted_set_unique(sv, other);
    }
    let ghost before = strings_view(e.overlays@);
    let mut after: Vec<String> = Vec::new();
    let mut j: usize = 0;
    while j < e.overlays.len()
        invariant
            j <= e.overlays@.len(),
            before == strings_view(e.overlays@),
            req == strings_view(paths@),
            strings_view(after@) == before.take(j as int).filter(|p: Seq<char>| req.contains(p)),
        decreases e.overlays@.len() - j,
    {
        let found = crate::catalog::is_listed(&paths, e.overlays[j].as_str());
        proof {
            let t = before.take(j as int);
            let item = before[j as int];
            assert(before.take(j + 1) =~= t.push(item));
            assert(t.push(item).filter(|p: Seq<char>| req.contains(p)) == if req.contains(item) {
                t.filter(|p: Seq<char>| req.contains(p)).push(item)
            } else {
                t.filter(|p: Seq<char>| req.contains(p))
            }) by {
                reveal(Seq::filter);
                assert(t.push(item).drop_last() =~= t);
            }
        }
        if found {
            crate::model::push_str(&mut after, e.overlays[j].as_str());
        }
        j = j + 1;
    }
    assert(before.take(e.overlays@.len() as int) =~= before);
    let ghost kept = strings_view(after@);
    let kept_len = after.len();
    let ghost sv = strings_view(sorted@);
    let mut k: usize = 0;
    while k < sorted.len()
        invariant
            k <= sorted@.len(),
            sv == strings_view(sorted@),
            kept == before.filter(|p: Seq<char>| req.contains(p)),
            kept_len == kept.len(),
            kept_len <= after@.len(),
            strings_view(after@) == kept + sv.take(k as int).filter(|p: Seq<char>| !kept.contains(p)),
        decreases sorted@.len() - k,
    {
        let ghost cur = strings_view(after@);
        let present = present_in_prefix(&after, kept_len, sorted[k].as_str());
        proof {
            let t = sv.take(k as int);
            let item = sv[k as int];
            assert(sv.take(k + 1) =~= t.push(item));
            assert(t.push(item).filter(|p: Seq<char>| !kept.contains(p)) == if !kept.contains(item) {
                t.filter(|p: Seq<char>| !kept.contains(p)).push(item)
            } else {
                t.filter(|p: Seq<char>| !kept.contains(p))
            }) by {
                reveal(Seq::filter);
                assert(t.push(item).drop_last() =~= t);
            }
            assert(cur.take(kept.len() as int) =~= kept);
        }
        if !present {
            crate::model::push_str(&mut after, sorted[k].as_str());
        }
        k = k + 1;
    }
    assert(sv.take(sorted@.len() as int) =~= sv);
    let mut before_list: Vec<String> = Vec::new();
    let mut m: usize = 0;
    while m < e.overlays.len()
        invariant
            m <= e.overlays@.len(),
            before == strings_view(e.overlays@),
            strings_view(before_list@) == before.take(m as int),
        decreases e.overlays@.len() - m,
    {
        crate::model::push_str(&mut before_list, e.overlays[m].as_str());
        assert(before.take(m + 1) =~= before.take(m as int).push(before[m as int]));
        m = m + 1;
    }
    assert(before.take(e.overlays@.len() as int) =~= before);
    Ok(
        Some(
            OverlayBootChange {
                kernel: owned(e.kernel.as_str()),
                path: owned(e.path.as_str()),
                devicetree_before: match &e.devicetree {
                    Some(t) => Some(owned(t.as_str())),
                    None => None,
                },
                devicetree_after: owned(e.available_devicetree.as_str()),
                overlays_before: before_list,
                overlays_after: after,
            },
        ),
    )
}

/// The characters of an optional string.
pub open spec fn opt_string_view(o: Option<String>) -> Option<Seq<char>> {
    match o {
        Some(s) => Some(s@),
        None => None,
    }
}

/// Whether `s` is among the first `n` strings of `v`.
fn present_in_prefix(v: &Vec<String>, n: usize, s: &str) -> (r: bool)
    requires
        n <= v@.len(),
    ensures
        r == strings_view(v@).take(n as int).contains(s@),
{
    let k = chars_of(s);
    let ghost pre = strings_view(v@).take(n as int);
    let mut i: usize = 0;
    while i < n
        invariant
            i <= n,
            n <= v@.len(),
            k@ == s@,
            pre == strings_view(v@).take(n as int),
            forall|j: int| 0 <= j < i ==> pre[j] != s@,
        decreases n - i,
    {
        let c = chars_of(v[i].as_str());
        if crate::text::seq_eq(&c, &k) {
            assert(pre[i as int] == s@);
            return true;
        }
        i = i + 1;
    }
    proof {
        if pre.contains(s@) {
            let j = choose|j: int| 0 <= j < pre.len() && pre[j] == s@;
            assert(pre[j] != s@);
        }
    }
    false
}

// ----------------------------------------------------------------------
// Errors and the status of an unreadable configuration
// ----------------------------------------------------------------------

#[verifier::external_type_specification]
#[verifier::external_body]
pub struct ExIoError(std::io::Error);

/// Whether an I/O error is of the kind `ErrorKind::PermissionDenied`: a
/// function of the error value alone.
pub uninterp spec fn io_error_denied(error: std::io::Error) -> bool;

/// `std::io::Error::kind` compared with `ErrorKind::PermissionDenied`: the
/// contract names the answer ([`io_error_denied`]); which errors have that
/// kind is std's and the operating system's business and is not stated.
#[verifier::external_body]
fn is_permission_denied(error: &std::io::Error) -> (r: bool)
    ensures
        r == io_error_denied(*error),
{
    error.kind() == std::io::ErrorKind::PermissionDenied
}

/// `std::io::Error`'s text (`to_string`). Nothing is stated of it.
#[verifier::external_body]
fn io_error_text(error: &std::io::Error) -> String {
    error.to_string()
}

/// The error an EFI file operation that failed comes to: a permission
/// error means root is required; any other is an I/O error with its text.
pub fn hardware_io_error(permission_denied: bool, text: String) -> (r: HardwareError)
    ensures
        permission_denied ==> r is RootRequired,
        !permission_denied ==> (r matches HardwareError::Io(m) && m@ == text@),
{
    if permission_denied {
        HardwareError::RootRequired
    } else {
        HardwareError::Io(text)
    }
}

/// The error an EFI file operation that failed with `error` comes to (see
/// [`hardware_io_error`]).
pub fn io_error(error: std::io::Error) -> (r: HardwareError)
    ensures
        io_error_denied(error) ==> r is RootRequired,
        !io_error_denied(error) ==> r is Io,
{
    let denied = is_permission_denied(&error);
    let text = io_error_text(&error);
    hardware_io_error(denied, text)
}

/// Why the overlays of an EFI board cannot be shown when a root is needed
/// to read its boot files.
pub open spec fn auth_reason() -> Seq<char> {
    "EFI boot files require administrator authorization to read."@
}

/// The overlay status of an EFI board whose boot configuration could not
/// be read: a board that needs root to read it stays supported, so that
/// the user can authorize a read; otherwise the error is the reason.
pub fn load_error_status(error: &HardwareError, bootloader: &str) -> (r: crate::hardware::OverlayStatus)
    ensures
        !r.synthetic,
        r.supported == (*error is RootRequired),
        !r.mutable,
        r.bootloader@ == bootloader@,
        r.directory is None,
        r.revision@.len() == 0,
        r.overlays@.len() == 0,
        *error is RootRequired ==> (r.unavailable_reason matches Some(m) && m@ == auth_reason()),
        !(*error is RootRequired) ==> (r.unavailable_reason matches Some(m) && m@
            == crate::hardware::hardware_error_message(*error)),
{
    let authorization = match error {
        HardwareError::RootRequired => true,
        _ => false,
    };
    crate::hardware::OverlayStatus {
        synthetic: false,
        supported: authorization,
        mutable: false,
        bootloader: owned(bootloader),
        directory: None,
        revision: String::new(),
        overlays: Vec::new(),
        unavailable_reason: Some(
            if authorization {
                owned("EFI boot files require administrator authorization to read.")
            } else {
                error.message()
            },
        ),
    }
}

// ----------------------------------------------------------------------
// Overlay references and file moves
// ----------------------------------------------------------------------

/// `s` without the `/` characters it begins with.
pub open spec fn strip_slashes(s: Seq<char>) -> Seq<char>
    decreases s.len(),
{
    if s.len() > 0 && s[0] == '/' {
        strip_slashes(s.drop_first())
    } else {
        s
    }
}

/// A reference of a boot entry with exactly one leading `/`.
pub open spec fn normalized_reference(raw: Seq<char>) -> Seq<char> {
    "/"@ + strip_slashes(raw)
}

/// A reference of a boot entry with exactly one leading `/`.
pub fn normalize_reference(raw: &str) -> (r: String)
    ensures
        r@ == normalized_reference(raw@),
{
    let v = chars_of(raw);
    let mut i: usize = 0;
    assert(v@.skip(0) =~= v@);
    while i < v.len() && v[i] == '/'
        invariant
            i <= v.len(),
            strip_slashes(v@) == strip_slashes(v@.skip(i as int)),
        decreases v.len() - i,
    {
        assert(v@.skip(i as int).drop_first() =~= v@.skip(i + 1));
        i = i + 1;
    }
    let rest = slice(&v, i, v.len());
    assert(rest@ == v@.skip(i as int));
    let mut out = chars_of("/");
    crate::text::extend(&mut out, &rest);
    string_of(&out)
}

/// Some overlay reference of another boot entry points into the managed
/// directory `/<token>/<kernel>/dtbo/` (compared without regard to ASCII
/// case).
pub open spec fn shared_spec(others: Seq<Seq<char>>, directory: Seq<char>) -> bool {
    exists|i: int|
        0 <= i < others.len() && crate::text::starts_with(
            crate::text::lower_seq(normalized_reference(#[trigger] others[i])),
            crate::text::lower_seq(directory),
        )
}

/// Refuses overlay files that another boot entry also refers to (see
/// [`shared_spec`]): renaming them would break that entry.
pub fn check_not_shared(others: &Vec<String>, token: &str, kernel: &str) -> (r: Result<(), HardwareError>)
    ensures
        r is Err <==> shared_spec(strings_view(others@), "/"@ + token@ + "/"@ + kernel@ + "/dtbo/"@),
        r matches Err(e) ==> (e matches HardwareError::Unsupported(m) && m@
            == "Overlay files are shared with another BLS entry; refusing to rename them."@),
{
    let mut d = chars_of("/");
    crate::text::extend_str(&mut d, token);
    crate::text::extend_str(&mut d, "/");
    crate::text::extend_str(&mut d, kernel);
    crate::text::extend_str(&mut d, "/dtbo/");
    let dl = crate::text::lower_all(&d);
    let ghost ov = strings_view(others@);
    let mut i: usize = 0;
    while i < others.len()
        invariant
            i <= others.len(),
            ov == strings_view(others@),
            d@ == "/"@ + token@ + "/"@ + kernel@ + "/dtbo/"@,
            dl@ == crate::text::lower_seq(d@),
            forall|j: int|
                0 <= j < i ==> !crate::text::starts_with(
                    crate::text::lower_seq(normalized_reference(#[trigger] ov[j])),
                    dl@,
                ),
        decreases others.len() - i,
    {
        let n = normalize_reference(others[i].as_str());
        let nv = chars_of(n.as_str());
        let nl = crate::text::lower_all(&nv);
        if crate::text::starts_with_exec(&nl, &dl) {
            assert(crate::text::starts_with(crate::text::lower_seq(normalized_reference(ov[i as int])), dl@));
            return Err(
                HardwareError::Unsupported(
                    owned("Overlay files are shared with another BLS entry; refusing to rename them."),
                ),
            );
        }
        i = i + 1;
    }
    Ok(())
}

/// The file, among `(id, path)` pairs, of overlay `id`.
pub open spec fn file_of(files: Seq<(Seq<char>, Seq<char>)>, id: Seq<char>) -> Option<Seq<char>>
    decreases files.len(),
{
    if files.len() == 0 {
        None
    } else if files[0].0 == id {
        Some(files[0].1)
    } else {
        file_of(files.drop_first(), id)
    }
}

/// The moves that enable the first `n` selected overlays: each file not
/// already at `<directory>/<id>` moves there.
pub open spec fn enable_moves(files: Seq<(Seq<char>, Seq<char>)>, directory: Seq<char>, sel: Seq<Seq<char>>, n: int) -> Seq<
    (Seq<char>, Seq<char>),
>
    decreases n,
{
    if n <= 0 {
        seq![]
    } else {
        let id = sel[n - 1];
        let from = file_of(files, id)->Some_0;
        let to = directory + "/"@ + id;
        enable_moves(files, directory, sel, n - 1) + if from != to {
            seq![(from, to)]
        } else {
            seq![]
        }
    }
}

/// The overlay `id` is enabled in `ovs`.
pub open spec fn enabled_in(ovs: Seq<crate::hardware::OverlayEntry>, id: Seq<char>) -> bool {
    exists|i: int| 0 <= i < ovs.len() && (#[trigger] ovs[i]).id@ == id && ovs[i].enabled
}

/// The moves that disable the first `n` files: an enabled overlay that is
/// not selected moves to `<directory>/<id>.disabled`.
pub open spec fn disable_moves(
    files: Seq<(Seq<char>, Seq<char>)>,
    directory: Seq<char>,
    sel: Seq<Seq<char>>,
    ovs: Seq<crate::hardware::OverlayEntry>,
    n: int,
) -> Seq<(Seq<char>, Seq<char>)>
    decreases n,
{
    if n <= 0 {
        seq![]
    } else {
        let (id, from) = files[n - 1];
        disable_moves(files, directory, sel, ovs, n - 1) + if !sel.contains(id) && enabled_in(ovs, id) {
            seq![(from, directory + "/"@ + id + ".disabled"@)]
        } else {
            seq![]
        }
    }
}

/// The pairs as plain values.
pub open spec fn pairs_view(v: Seq<(String, String)>) -> Seq<(Seq<char>, Seq<char>)> {
    v.map_values(|p: (String, String)| (p.0@, p.1@))
}

fn lookup_file(files: &Vec<(String, String)>, id: &str) -> (r: Option<String>)
    ensures
        opt_string_view(r) == file_of(pairs_view(files@), id@),
{
    let ghost fv = pairs_view(files@);
    let k = chars_of(id);
    let mut i: usize = 0;
    assert(fv.skip(0) =~= fv);
    while i < files.len()
        invariant
            i <= files.len(),
            fv == pairs_view(files@),
            k@ == id@,
            file_of(fv, id@) == file_of(fv.skip(i as int), id@),
        decreases files.len() - i,
    {
        let c = chars_of(files[i].0.as_str());
        assert(fv.skip(i as int)[0] == fv[i as int]);
        assert(fv.skip(i as int).drop_first() =~= fv.skip(i + 1));
        if crate::text::seq_eq(&c, &k) {
            return Some(owned(files[i].1.as_str()));
        }
        i = i + 1;
    }
    None
}

/// The file moves that switch the overlays of `directory`, whose files are
/// the `(id, path)` pairs `files` (sorted by id), to the selection
/// `selected`: first those that enable a selected overlay, in the order
/// selected, then those that disable an overlay enabled in `overlays` that
/// is no longer selected, in file order.
pub fn overlay_moves(
    files: &Vec<(String, String)>,
    directory: &str,
    selected: &Vec<String>,
    overlays: &Vec<crate::hardware::OverlayEntry>,
) -> (r: Vec<(String, String)>)
    requires
        forall|i: int|
            0 <= i < selected@.len() ==> file_of(pairs_view(files@), (#[trigger] selected@[i])@) is Some,
    ensures
        pairs_view(r@) == enable_moves(pairs_view(files@), directory@, strings_view(selected@), selected@.len() as int)
            + disable_moves(
            pairs_view(files@),
            directory@,
            strings_view(selected@),
            overlays@,
            files@.len() as int,
        ),
{
    let ghost fv = pairs_view(files@);
    let ghost sel = strings_view(selected@);
    let mut r: Vec<(String, String)> = Vec::new();
    let mut i: usize = 0;
    while i < selected.len()
        invariant
            i <= selected.len(),
            fv == pairs_view(files@),
            sel == strings_view(selected@),
            forall|j: int| 0 <= j < selected@.len() ==> file_of(fv, (#[trigger] selected@[j])@) is Some,
            pairs_view(r@) == enable_moves(fv, directory@, sel, i as int),
        decreases selected.len() - i,
    {
        assert(sel[i as int] == selected@[i as int]@);
        let from = lookup_file(files, selected[i].as_str()).unwrap();
        let mut to = chars_of(directory);
        crate::text::extend_str(&mut to, "/");
        crate::text::extend_str(&mut to, selected[i].as_str());
        let fc = chars_of(from.as_str());
        if !crate::text::seq_eq(&fc, &to) {
            let ghost before = pairs_view(r@);
            r.push((from, string_of(&to)));
            assert(pairs_view(r@) =~= before.push((fc@, to@)));
        } else {
            assert(enable_moves(fv, directory@, sel, i + 1) =~= enable_moves(fv, directory@, sel, i as int));
        }
        i = i + 1;
    }
    let ghost first = pairs_view(r@);
    let mut k: usize = 0;
    while k < files.len()
        invariant
            k <= files.len(),
            fv == pairs_view(files@),
            sel == strings_view(selected@),
            first == enable_moves(fv, directory@, sel, selected@.len() as int),
            pairs_view(r@) == first + disable_moves(fv, directory@, sel, overlays@, k as int),
        decreases files.len() - k,
    {
        let id = &files[k].0;
        let chosen = crate::catalog::is_listed(selected, id.as_str());
        let enabled = is_enabled(overlays, id.as_str());
        if !chosen && enabled {
            let mut to = chars_of(directory);
            crate::text::extend_str(&mut to, "/");
            crate::text::extend_str(&mut to, id.as_str());
            crate::text::extend_str(&mut to, ".disabled");
            let ghost before = pairs_view(r@);
            r.push((owned(files[k].1.as_str()), string_of(&to)));
            assert(pairs_view(r@) =~= before.push((fv[k as int].1, to@)));
        }
        k = k + 1;
    }
    r
}

fn is_enabled(ovs: &Vec<crate::hardware::OverlayEntry>, id: &str) -> (r: bool)
    ensures
        r == enabled_in(ovs@, id@),
{
    let k = chars_of(id);
    let mut i: usize = 0;
    while i < ovs.len()
        invariant
            i <= ovs.len(),
            k@ == id@,
            forall|j: int| 0 <= j < i ==> !((#[trigger] ovs@[j]).id@ == id@ && ovs@[j].enabled),
        decreases ovs.len() - i,
    {
        let c = chars_of(ovs[i].id.as_str());
        if ovs[i].enabled && crate::text::seq_eq(&c, &k) {
            return true;
        }
        i = i + 1;
    }
    false
}

// ----------------------------------------------------------------------
// The overlays a boot entry loads
// ----------------------------------------------------------------------

/// The pieces of `s` between `c` characters, empty ones included, as
/// `str::split(c)` gives them.
pub open spec fn split_by(s: Seq<char>, c: char) -> Seq<Seq<char>>
    decreases s.len(),
{
    match crate::lex::index_of(s, c) {
        Some(i) => if 0 <= i < s.len() {
            seq![s.take(i)] + split_by(s.skip(i + 1), c)
        } else {
            seq![s]
        },
        None => seq![s],
    }
}

/// The pieces of `s` between `/` characters (see [`split_by`]).
pub open spec fn split_slash(s: Seq<char>) -> Seq<Seq<char>> {
    split_by(s, '/')
}

/// The pieces of `s` between `c` characters (see [`split_by`]).
pub(crate) fn split_by_exec(s: &Vec<char>, c: char) -> (r: Vec<Vec<char>>)
    ensures
        vecs_view(r@) == split_by(s@, c),
{
    let mut r: Vec<Vec<char>> = Vec::new();
    let mut at: usize = 0;
    let mut i: usize = 0;
    assert(s@.skip(0) =~= s@);
    while i < s.len()
        invariant
            at <= i <= s.len(),
            forall|j: int| at <= j < i ==> s@[j] != c,
            vecs_view(r@) + split_by(s@.skip(at as int), c) == split_by(s@, c),
        decreases s.len() - i,
    {
        if s[i] == c {
            let piece = slice(s, at, i);
            proof {
                let rest = s@.skip(at as int);
                crate::lex::lemma_index_of_props(rest, c);
                assert forall|j: int| 0 <= j < i - at implies rest[j] != c by {
                    assert(rest[j] == s@[at + j]);
                }
                assert(rest[i - at] == c);
                assert(crate::lex::index_of(rest, c) == Some((i - at) as int));
                assert(rest.take(i - at) =~= piece@);
                assert(rest.skip(i - at + 1) =~= s@.skip(i + 1));
                assert(vecs_view(r@.push(piece)) =~= vecs_view(r@).push(piece@));
            }
            r.push(piece);
            at = i + 1;
        }
        i = i + 1;
    }
    let last = slice(s, at, s.len());
    proof {
        let rest = s@.skip(at as int);
        crate::lex::lemma_index_of_props(rest, c);
        assert forall|j: int| 0 <= j < rest.len() implies rest[j] != c by {
            assert(rest[j] == s@[at + j]);
        }
        assert(crate::lex::index_of(rest, c) is None);
        assert(rest =~= last@);
        assert(vecs_view(r@.push(last)) =~= vecs_view(r@).push(last@));
    }
    r.push(last);
    r
}

pub(crate) fn split_slash_exec(s: &Vec<char>) -> (r: Vec<Vec<char>>)
    ensures
        vecs_view(r@) == split_slash(s@),
{
    split_by_exec(s, '/')
}

/// A raw overlay reference without the one `/` it may begin with.
pub open spec fn relative_reference(raw: Seq<char>) -> Seq<char> {
    if raw.len() > 0 && raw[0] == '/' {
        raw.drop_first()
    } else {
        raw
    }
}

/// What is wrong with an overlay reference of the entry of kernel `kernel`
/// under entry token `token`, whose enabled overlay files are `enabled`:
/// an unsafe path component (0), a file outside
/// `/<token>/<kernel>/dtbo` (1), or no such enabled file (2); nothing
/// when it names an enabled overlay of that directory.
pub open spec fn reference_issue(raw: Seq<char>, token: Seq<char>, kernel: Seq<char>, enabled: Seq<Seq<char>>) -> Option<
    int,
> {
    let cs = split_slash(relative_reference(raw));
    if exists|i: int| 0 <= i < cs.len() && !safe_component(#[trigger] cs[i]) {
        Some(0)
    } else if !(cs.len() == 4 && cs[0] == token && cs[1] == kernel && cs[2] == "dtbo"@) {
        Some(1)
    } else if !enabled.contains(cs[3]) {
        Some(2)
    } else {
        None
    }
}

/// The overlays the first `n` references load (each with one leading
/// `/`), or the issue (3: a duplicate) of the first bad one.
pub open spec fn saved_upto(
    refs: Seq<Seq<char>>,
    token: Seq<char>,
    kernel: Seq<char>,
    enabled: Seq<Seq<char>>,
    n: int,
) -> Result<Seq<Seq<char>>, int>
    decreases n,
{
    if n <= 0 {
        Ok(seq![])
    } else {
        match saved_upto(refs, token, kernel, enabled, n - 1) {
            Err(code) => Err(code),
            Ok(prev) => match reference_issue(refs[n - 1], token, kernel, enabled) {
                Some(code) => Err(code),
                None => {
                    let norm = "/"@ + relative_reference(refs[n - 1]);
                    if prev.contains(norm) {
                        Err(3)
                    } else {
                        Ok(prev.push(norm))
                    }
                },
            },
        }
    }
}

/// The error an overlay reference issue comes to.
pub open spec fn reference_error(code: int, e: HardwareError) -> bool {
    if code == 0 {
        e matches HardwareError::InvalidInput(m) && m@ == "unsafe EFI path component"@
    } else if code == 1 {
        e matches HardwareError::Unsupported(m) && m@ == "BLS references overlays outside the managed kernel directory."@
    } else if code == 2 {
        e matches HardwareError::InvalidInput(m) && m@ == "BLS references a missing or disabled Overlay file"@
    } else {
        e matches HardwareError::InvalidInput(m) && m@ == "duplicate BLS Overlay reference"@
    }
}

/// Once a reference is bad, the result stays that error.
proof fn lemma_saved_err(
    refs: Seq<Seq<char>>,
    token: Seq<char>,
    kernel: Seq<char>,
    enabled: Seq<Seq<char>>,
    k: int,
    n: int,
)
    requires
        0 <= k <= n,
        saved_upto(refs, token, kernel, enabled, k) is Err,
    ensures
        saved_upto(refs, token, kernel, enabled, n) == saved_upto(refs, token, kernel, enabled, k),
    decreases n - k,
{
    if k < n {
        lemma_saved_err(refs, token, kernel, enabled, k, n - 1);
    }
}

/// The overlays a boot entry loads, from its `devicetree-overlay` value
/// `overlays_text` (see [`saved_upto`]).
pub fn saved_overlays(overlays_text: &str, token: &str, kernel: &str, enabled: &Vec<String>) -> (r: Result<
    Vec<String>,
    HardwareError,
>)
    ensures
        ({
            let refs = words(overlays_text@);
            match saved_upto(refs, token@, kernel@, strings_view(enabled@), refs.len() as int) {
                Ok(s) => r matches Ok(v) && strings_view(v@) == s,
                Err(code) => r matches Err(e) && reference_error(code, e),
            }
        }),
{
    let text = chars_of(overlays_text);
    let refs = words_exec(&text);
    let ghost rv = vecs_view(refs@);
    assert(rv == words(overlays_text@));
    let ghost ev = strings_view(enabled@);
    let mut saved: Vec<String> = Vec::new();
    assert(strings_view(saved@) =~= Seq::<Seq<char>>::empty());
    let mut i: usize = 0;
    while i < refs.len()
        invariant
            i <= refs.len(),
            rv == vecs_view(refs@),
            rv == words(overlays_text@),
            ev == strings_view(enabled@),
            saved_upto(rv, token@, kernel@, ev, i as int) == Ok::<Seq<Seq<char>>, int>(strings_view(saved@)),
        decreases refs.len() - i,
    {
        let raw = &refs[i];
        assert(raw@ == rv[i as int]);
        let relative = if raw.len() > 0 && raw[0] == '/' {
            slice(raw, 1, raw.len())
        } else {
            raw.clone()
        };
        assert(relative@ == relative_reference(raw@)) by {
            if raw@.len() > 0 && raw@[0] == '/' {
                assert(relative@ =~= raw@.drop_first());
            }
        }
        let cs = split_slash_exec(&relative);
        let ghost csv = vecs_view(cs@);
        let ghost prev = strings_view(saved@);
        let mut j: usize = 0;
        while j < cs.len()
            invariant
                j <= cs.len(),
                i < rv.len(),
                rv == words(overlays_text@),
                csv == vecs_view(cs@),
                csv == split_slash(relative_reference(rv[i as int])),
                ev == strings_view(enabled@),
                saved_upto(rv, token@, kernel@, ev, i as int) == Ok::<Seq<Seq<char>>, int>(prev),
                forall|t: int| 0 <= t < j ==> safe_component(#[trigger] csv[t]),
            decreases cs.len() - j,
        {
            let part = string_of(&cs[j]);
            match component(part.as_str()) {
                Err(e) => {
                    proof {
                        assert(!safe_component(csv[j as int]));
                        assert(reference_issue(rv[i as int], token@, kernel@, ev) == Some(0int));
                        assert(saved_upto(rv, token@, kernel@, ev, i + 1) == Err::<Seq<Seq<char>>, int>(0int));
                        lemma_saved_err(rv, token@, kernel@, ev, i + 1, rv.len() as int);
                    }
                    return Err(e);
                },
                Ok(()) => {},
            }
            j = j + 1;
        }
        proof {
            assert(!(exists|t: int| 0 <= t < csv.len() && !safe_component(#[trigger] csv[t])));
        }
        if !(cs.len() == 4 && eq_str(&cs[0], token) && eq_str(&cs[1], kernel) && eq_str(&cs[2], "dtbo")) {
            proof {
                assert(reference_issue(rv[i as int], token@, kernel@, ev) == Some(1int));
                assert(saved_upto(rv, token@, kernel@, ev, i + 1) == Err::<Seq<Seq<char>>, int>(1int));
                lemma_saved_err(rv, token@, kernel@, ev, i + 1, rv.len() as int);
            }
            return Err(
                HardwareError::Unsupported(owned("BLS references overlays outside the managed kernel directory.")),
            );
        }
        let id = string_of(&cs[3]);
        if !crate::catalog::is_listed(enabled, id.as_str()) {
            proof {
                assert(reference_issue(rv[i as int], token@, kernel@, ev) == Some(2int));
                assert(saved_upto(rv, token@, kernel@, ev, i + 1) == Err::<Seq<Seq<char>>, int>(2int));
                lemma_saved_err(rv, token@, kernel@, ev, i + 1, rv.len() as int);
            }
            return Err(invalid("BLS references a missing or disabled Overlay file"));
        }
        assert(reference_issue(rv[i as int], token@, kernel@, ev) is None);
        let mut norm = chars_of("/");
        crate::text::extend(&mut norm, &relative);
        let ns = string_of(&norm);
        if crate::catalog::is_listed(&saved, ns.as_str()) {
            proof {
                assert(saved_upto(rv, token@, kernel@, ev, i + 1) == Err::<Seq<Seq<char>>, int>(3int));
                lemma_saved_err(rv, token@, kernel@, ev, i + 1, rv.len() as int);
            }
            return Err(invalid("duplicate BLS Overlay reference"));
        }
        crate::model::push_str(&mut saved, ns.as_str());
        i = i + 1;
    }
    Ok(saved)
}

/// The base device tree a boot entry names, with one leading `/`; none
/// when it names none or an empty one. Overlays need one: an entry that
/// loads overlays (`saved`) without one is refused.
pub fn base_devicetree(text: &str, saved: &Vec<String>) -> (r: Result<Option<String>, HardwareError>)
    ensures
        bls_values_spec(text@, "devicetree"@).len() > 1 ==> (r matches Err(HardwareError::InvalidInput(m)) && m@
            == "duplicate BLS key: "@ + "devicetree"@),
        bls_values_spec(text@, "devicetree"@).len() <= 1 ==> ({
            let vs = bls_values_spec(text@, "devicetree"@);
            let named = vs.len() == 1 && vs[0].len() > 0;
            &&& named ==> (r matches Ok(Some(p)) && p@ == normalized_reference(vs[0]))
            &&& !named && saved@.len() > 0 ==> (r matches Err(HardwareError::InvalidInput(m)) && m@
                == "BLS Overlays require a base device tree"@)
            &&& !named && saved@.len() == 0 ==> r matches Ok(None)
        }),
{
    let v = single_value(text, "devicetree")?;
    let named = match &v {
        Some(p) => chars_of(p.as_str()).len() > 0,
        None => false,
    };
    if named {
        let p = v.unwrap();
        Ok(Some(normalize_reference(p.as_str())))
    } else if saved.len() > 0 {
        Err(invalid("BLS Overlays require a base device tree"))
    } else {
        Ok(None)
    }
}

// ----------------------------------------------------------------------
// The entry of the running kernel and its overlay files
// ----------------------------------------------------------------------

/// The indices of the boot-entry files among `names` that are entries of
/// the kernel `prefix` (see [`entry_name_spec`]).
pub open spec fn entry_candidates(names: Seq<Seq<char>>, prefix: Seq<char>, n: int) -> Seq<int>
    decreases n,
{
    if n <= 0 {
        seq![]
    } else {
        entry_candidates(names, prefix, n - 1) + if crate::text::ends_with(names[n - 1], ".conf"@)
            && entry_name_spec(names[n - 1], prefix) {
            seq![n - 1]
        } else {
            seq![]
        }
    }
}

/// Each candidate is the index of one of the first `n` names, and that
/// name ends with `.conf`.
pub(crate) proof fn lemma_entry_candidates_conf(names: Seq<Seq<char>>, prefix: Seq<char>, n: int)
    requires
        0 <= n <= names.len(),
    ensures
        forall|k: int|
            0 <= k < entry_candidates(names, prefix, n).len() ==> 0 <= #[trigger] entry_candidates(names, prefix, n)[k]
                < n && crate::text::ends_with(names[entry_candidates(names, prefix, n)[k]], ".conf"@),
    decreases n,
{
    if n > 0 {
        lemma_entry_candidates_conf(names, prefix, n - 1);
        let prev = entry_candidates(names, prefix, n - 1);
        assert forall|k: int| 0 <= k < entry_candidates(names, prefix, n).len() implies 0
            <= #[trigger] entry_candidates(names, prefix, n)[k] < n && crate::text::ends_with(
            names[entry_candidates(names, prefix, n)[k]],
            ".conf"@,
        ) by {
            if k < prev.len() {
                assert(entry_candidates(names, prefix, n)[k] == prev[k]);
            }
        }
    }
}

/// The one boot-entry file of the kernel `prefix` among the names of
/// `loader/entries`; an error unless there is exactly one.
pub fn select_entry(names: &Vec<String>, prefix: &str) -> (r: Result<usize, HardwareError>)
    ensures
        ({
            let c = entry_candidates(strings_view(names@), prefix@, names@.len() as int);
            &&& c.len() == 1 ==> r == Ok::<usize, HardwareError>(c[0] as usize)
            &&& c.len() != 1 ==> (r matches Err(HardwareError::Unsupported(m)) && m@
                == "A unique BLS entry for the running kernel was not found."@)
        }),
{
    let ghost nv = strings_view(names@);
    let mut found: Vec<usize> = Vec::new();
    let mut i: usize = 0;
    while i < names.len()
        invariant
            i <= names.len(),
            nv == strings_view(names@),
            found@.map_values(|x: usize| x as int) == entry_candidates(nv, prefix@, i as int),
        decreases names.len() - i,
    {
        let n = chars_of(names[i].as_str());
        assert(n@ == nv[i as int]);
        if crate::text::ends_with_str(&n, ".conf") && matches_entry_name(names[i].as_str(), prefix) {
            let ghost before = found@;
            found.push(i);
            assert(found@.map_values(|x: usize| x as int) =~= before.map_values(|x: usize| x as int).push(i as int));
        }
        i = i + 1;
    }
    if found.len() != 1 {
        return Err(HardwareError::Unsupported(owned("A unique BLS entry for the running kernel was not found.")));
    }
    assert(found@.map_values(|x: usize| x as int)[0] == found@[0] as int);
    Ok(found[0])
}

/// The kernel image an entry of kernel `kernel` boots: its `linux` value.
/// An entry for another version, one without a `linux` key, and one that
/// repeats either key are refused.
pub fn entry_kernel_path(text: &str, kernel: &str) -> (r: Result<String, HardwareError>)
    ensures
        ({
            let versions = bls_values_spec(text@, "version"@);
            let linux = bls_values_spec(text@, "linux"@);
            &&& versions.len() > 1 ==> (r matches Err(HardwareError::InvalidInput(m)) && m@ == "duplicate BLS key: "@
                + "version"@)
            &&& versions.len() == 1 && versions[0] != kernel@ ==> (r matches Err(HardwareError::InvalidInput(m)) && m@
                == "BLS version does not match the running kernel"@)
            &&& versions.len() == 0 || (versions.len() == 1 && versions[0] == kernel@) ==> {
                &&& linux.len() > 1 ==> (r matches Err(HardwareError::InvalidInput(m)) && m@ == "duplicate BLS key: "@
                    + "linux"@)
                &&& linux.len() == 0 ==> (r matches Err(HardwareError::Unsupported(m)) && m@
                    == "Only Linux BLS Type #1 entries are supported."@)
                &&& linux.len() == 1 ==> (r matches Ok(p) && p@ == linux[0])
            }
        }),
{
    match single_value(text, "version")? {
        Some(v) => {
            let vv = chars_of(v.as_str());
            if !eq_str(&vv, kernel) {
                return Err(invalid("BLS version does not match the running kernel"));
            }
        },
        None => {},
    }
    match single_value(text, "linux")? {
        Some(p) => Ok(p),
        None => Err(HardwareError::Unsupported(owned("Only Linux BLS Type #1 entries are supported."))),
    }
}

/// The kernel image of an entry lies in the entry's version directory
/// `/<token>/<kernel>/`: its path, relative to the EFI system partition,
/// is made of safe components, the first two being the token and the
/// kernel.
pub open spec fn kernel_in_directory(linux: Seq<char>, token: Seq<char>, kernel: Seq<char>) -> bool {
    let cs = split_slash(relative_reference(linux));
    &&& forall|i: int| 0 <= i < cs.len() ==> safe_component(#[trigger] cs[i])
    &&& cs.len() == 3
    &&& cs[0] == token
    &&& cs[1] == kernel
}

/// Accepts a kernel image path in the entry's version directory (see
/// [`kernel_in_directory`]).
pub fn check_kernel_path(linux: &str, token: &str, kernel: &str) -> (r: Result<(), HardwareError>)
    ensures
        r is Ok <==> kernel_in_directory(linux@, token@, kernel@),
        r matches Err(e) ==> (e matches HardwareError::InvalidInput(m) && (m@ == "unsafe EFI path component"@ || m@
            == "BLS kernel path does not match its version directory"@)),
{
    let raw = chars_of(linux);
    let relative = if raw.len() > 0 && raw[0] == '/' {
        slice(&raw, 1, raw.len())
    } else {
        raw.clone()
    };
    assert(relative@ == relative_reference(linux@)) by {
        if raw@.len() > 0 && raw@[0] == '/' {
            assert(relative@ =~= raw@.drop_first());
        }
    }
    let cs = split_slash_exec(&relative);
    let ghost csv = vecs_view(cs@);
    let mut j: usize = 0;
    while j < cs.len()
        invariant
            j <= cs.len(),
            csv == vecs_view(cs@),
            csv == split_slash(relative_reference(linux@)),
            forall|t: int| 0 <= t < j ==> safe_component(#[trigger] csv[t]),
        decreases cs.len() - j,
    {
        let part = string_of(&cs[j]);
        match component(part.as_str()) {
            Err(e) => {
                assert(!safe_component(csv[j as int]));
                return Err(e);
            },
            Ok(()) => {},
        }
        j = j + 1;
    }
    if !(cs.len() == 3 && eq_str(&cs[0], token) && eq_str(&cs[1], kernel)) {
        return Err(invalid("BLS kernel path does not match its version directory"));
    }
    Ok(())
}

/// Refuses an entry that boots an EFI executable or a unified kernel image:
/// the device-tree backend cannot edit those.
pub fn check_not_executable(text: &str) -> (r: Result<(), HardwareError>)
    ensures
        r is Ok <==> bls_values_spec(text@, "efi"@).len() == 0 && bls_values_spec(text@, "uki"@).len() == 0,
        r matches Err(e) ==> (e matches HardwareError::Unsupported(m) && m@
            == "EFI/UKI executable entries are not editable by the DT backend."@),
{
    if values(text, "efi").len() > 0 || values(text, "uki").len() > 0 {
        return Err(
            HardwareError::Unsupported(owned("EFI/UKI executable entries are not editable by the DT backend.")),
        );
    }
    Ok(())
}

/// The overlay id of a file of the overlay directory: its name without a
/// `.disabled` suffix, when that ends with `.dtbo`.
pub open spec fn overlay_id_of(name: Seq<char>) -> Option<Seq<char>> {
    let id = if crate::text::ends_with(name, ".disabled"@) {
        name.take(name.len() - 9)
    } else {
        name
    };
    if crate::text::ends_with(id, ".dtbo"@) {
        Some(id)
    } else {
        None
    }
}

/// Some id among `files` equals `id` but for ASCII case.
pub open spec fn collides(files: Seq<(Seq<char>, Seq<char>)>, id: Seq<char>) -> bool {
    exists|i: int| 0 <= i < files.len() && crate::text::lower_seq(#[trigger] files[i].0) == crate::text::lower_seq(id)
}

/// The contents of files, as byte sequences.
pub open spec fn blobs_view(v: Seq<Vec<u8>>) -> Seq<Seq<u8>> {
    v.map_values(|b: Vec<u8>| b@)
}

/// The overlay files among the first `n` names (whose contents are
/// `blobs`), as `(id, name)` pairs, or the issue of the first bad one: an
/// unsafe id (0), an id equal, but for ASCII case, to an earlier one (1),
/// or contents that are not a device tree (2).
pub open spec fn overlay_files_upto(names: Seq<Seq<char>>, blobs: Seq<Seq<u8>>, n: int) -> Result<
    Seq<(Seq<char>, Seq<char>)>,
    int,
>
    decreases n,
{
    if n <= 0 {
        Ok(seq![])
    } else {
        match overlay_files_upto(names, blobs, n - 1) {
            Err(code) => Err(code),
            Ok(prev) => match overlay_id_of(names[n - 1]) {
                None => Ok(prev),
                Some(id) => if !safe_component(id) {
                    Err(0)
                } else if collides(prev, id) {
                    Err(1)
                } else if !fdt_ok(blobs[n - 1]) {
                    Err(2)
                } else {
                    Ok(prev.push((id, names[n - 1])))
                },
            },
        }
    }
}

proof fn lemma_files_err(names: Seq<Seq<char>>, blobs: Seq<Seq<u8>>, k: int, n: int)
    requires
        0 <= k <= n,
        overlay_files_upto(names, blobs, k) is Err,
    ensures
        overlay_files_upto(names, blobs, n) == overlay_files_upto(names, blobs, k),
    decreases n - k,
{
    if k < n {
        lemma_files_err(names, blobs, k, n - 1);
    }
}

/// The overlay files of the overlay directory, whose file names are
/// `names` (sorted) and whose contents are `blobs`, as `(id, name)` pairs
/// (see [`overlay_files_upto`]).
pub fn overlay_files(names: &Vec<String>, blobs: &Vec<Vec<u8>>) -> (r: Result<Vec<(String, String)>, HardwareError>)
    requires
        names@.len() == blobs@.len(),
    ensures
        match overlay_files_upto(strings_view(names@), blobs_view(blobs@), names@.len() as int) {
            Ok(s) => r matches Ok(v) && pairs_view(v@) == s,
            Err(code) => r matches Err(HardwareError::InvalidInput(m)) && (code == 0 ==> m@ == "unsafe EFI path component"@)
                && (code == 1 ==> m@ == "duplicate or case-colliding EFI Overlay ID"@) && (code == 2 ==> (m@
                == "invalid DTB/DTBO header"@ || m@ == "truncated DTB/DTBO"@)),
        },
{
    let ghost nv = strings_view(names@);
    let ghost bv = blobs_view(blobs@);
    let mut out: Vec<(String, String)> = Vec::new();
    let mut folded: Vec<Vec<char>> = Vec::new();
    let mut i: usize = 0;
    assert(pairs_view(out@) =~= Seq::<(Seq<char>, Seq<char>)>::empty());
    while i < names.len()
        invariant
            i <= names.len(),
            nv == strings_view(names@),
            names@.len() == blobs@.len(),
            bv == blobs_view(blobs@),
            overlay_files_upto(nv, bv, i as int) == Ok::<Seq<(Seq<char>, Seq<char>)>, int>(pairs_view(out@)),
            folded@.len() == out@.len(),
            forall|j: int| 0 <= j < out@.len() ==> (#[trigger] folded@[j])@ == crate::text::lower_seq(out@[j].0@),
        decreases names.len() - i,
    {
        let n = chars_of(names[i].as_str());
        assert(n@ == nv[i as int]);
        proof {
            reveal_strlit(".disabled");
        }
        let id = if crate::text::ends_with_str(&n, ".disabled") {
            slice(&n, 0, n.len() - 9)
        } else {
            n.clone()
        };
        if crate::text::ends_with_str(&id, ".dtbo") {
            let ids = string_of(&id);
            match component(ids.as_str()) {
                Err(e) => {
                    proof {
                        assert(overlay_files_upto(nv, bv, i + 1) == Err::<Seq<(Seq<char>, Seq<char>)>, int>(0int));
                        lemma_files_err(nv, bv, i + 1, nv.len() as int);
                    }
                    return Err(e);
                },
                Ok(()) => {},
            }
            let low = crate::text::lower_all(&id);
            let ghost prev = pairs_view(out@);
            assert(overlay_id_of(nv[i as int]) == Some(id@));
            let mut j: usize = 0;
            while j < folded.len()
                invariant
                    j <= folded@.len(),
                    i < nv.len(),
                    nv == strings_view(names@),
                    names@.len() == blobs@.len(),
                    bv == blobs_view(blobs@),
                    overlay_files_upto(nv, bv, i as int) == Ok::<Seq<(Seq<char>, Seq<char>)>, int>(prev),
                    overlay_id_of(nv[i as int]) == Some(id@),
                    safe_component(id@),
                    folded@.len() == out@.len(),
                    prev == pairs_view(out@),
                    low@ == crate::text::lower_seq(id@),
                    forall|t: int| 0 <= t < out@.len() ==> (#[trigger] folded@[t])@ == crate::text::lower_seq(out@[t].0@),
                    forall|t: int| 0 <= t < j ==> crate::text::lower_seq(#[trigger] prev[t].0) != low@,
                decreases folded@.len() - j,
            {
                if crate::text::seq_eq(&folded[j], &low) {
                    proof {
                        assert(crate::text::lower_seq(prev[j as int].0) == crate::text::lower_seq(id@));
                        assert(collides(prev, id@));
                        assert(overlay_files_upto(nv, bv, i + 1) == Err::<Seq<(Seq<char>, Seq<char>)>, int>(1int));
                        lemma_files_err(nv, bv, i + 1, nv.len() as int);
                    }
                    return Err(invalid("duplicate or case-colliding EFI Overlay ID"));
                }
                j = j + 1;
            }
            match validate_fdt(blobs[i].as_slice()) {
                Err(e) => {
                    proof {
                        assert(bv[i as int] == blobs@[i as int]@);
                        assert(!fdt_ok(bv[i as int]));
                        assert(overlay_files_upto(nv, bv, i + 1) == Err::<Seq<(Seq<char>, Seq<char>)>, int>(2int));
                        lemma_files_err(nv, bv, i + 1, nv.len() as int);
                    }
                    return Err(e);
                },
                Ok(()) => {},
            }
            assert(fdt_ok(bv[i as int]));
            let ghost before = pairs_view(out@);
            out.push((ids, owned(names[i].as_str())));
            folded.push(low);
            assert(pairs_view(out@) =~= before.push((id@, nv[i as int])));
        }
        i = i + 1;
    }
    Ok(out)
}

// ----------------------------------------------------------------------
// Laws
// ----------------------------------------------------------------------

proof fn lemma_filter_all(s: Seq<Seq<char>>, f: spec_fn(Seq<char>) -> bool)
    requires
        forall|i: int| 0 <= i < s.len() ==> f(#[trigger] s[i]),
    ensures
        s.filter(f) == s,
    decreases s.len(),
{
    reveal(Seq::filter);
    if s.len() > 0 {
        lemma_filter_all(s.drop_last(), f);
        assert(s.drop_last().push(s.last()) =~= s);
    } else {
        assert(s.filter(f) =~= s);
    }
}

/// Selecting again exactly the overlays a boot entry loads (`requested`
/// names the same paths as `before`, in any order) leaves the entry's
/// overlay list as it is, order included.
pub proof fn law_reselection_keeps_overlay_order(before: Seq<Seq<char>>, requested: Seq<Seq<char>>)
    requires
        requested.to_set() == before.to_set(),
    ensures
        overlays_after_spec(before, requested) == before,
{
    assert forall|i: int| 0 <= i < before.len() implies requested.contains(#[trigger] before[i]) by {
        assert(before.to_set().contains(before[i]));
        assert(requested.to_set().contains(before[i]));
    }
    lemma_filter_all(before, |p: Seq<char>| requested.contains(p));
    let kept = before.filter(|p: Seq<char>| requested.contains(p));
    assert(kept == before);
    crate::order::lemma_sorted_exists(requested);
    let sr = sorted_of(requested);
    assert(crate::order::sorted_set_of(sr, requested));
    let pred = |p: Seq<char>| !kept.contains(p);
    assert(sr.all(|x: Seq<char>| !pred(x))) by {
        assert forall|k: int| 0 <= k < sr.len() implies !pred(#[trigger] sr[k]) by {
            assert(sr.to_set().contains(sr[k]));
            assert(before.to_set().contains(sr[k]));
        }
    }
    sr.lemma_all_neg_filter_empty(pred);
    assert(sr.filter(pred) =~= Seq::<Seq<char>>::empty());
    assert(overlays_after_spec(before, requested) =~= before);
}

proof fn lemma_kept_all(ps: Seq<Seq<char>>, n: int)
    requires
        0 <= n <= ps.len(),
        forall|i: int| 0 <= i < ps.len() ==> kept_line(#[trigger] ps[i]),
    ensures
        kept_upto(ps, n) == crate::lex::flatten(ps.take(n)),
    decreases n,
{
    if n > 0 {
        lemma_kept_all(ps, n - 1);
        assert(ps.take(n) =~= ps.take(n - 1).push(ps[n - 1]));
        crate::lex::lemma_flatten_push(ps.take(n - 1), ps[n - 1]);
    } else {
        assert(ps.take(0) =~= Seq::<Seq<char>>::empty());
    }
}

/// Rewriting a boot entry that names no device tree and no overlays, and
/// ends with a line end, keeps every line of it as it was and only
/// appends the device tree line and, for overlays, the overlay line.
pub proof fn law_rewrite_keeps_other_lines(text: Seq<char>, devicetree: Seq<char>, overlays: Seq<Seq<char>>)
    requires
        forall|i: int| 0 <= i < pieces(text).len() ==> kept_line(#[trigger] pieces(text)[i]),
        text.len() == 0 || text.last() == '\n',
    ensures
        render_spec(text, devicetree, overlays) == text + "devicetree "@ + devicetree + "\n"@ + if overlays.len() == 0 {
            seq![]
        } else {
            "devicetree-overlay "@ + crate::text::join_spec(overlays, " "@) + "\n"@
        },
{
    let ps = pieces(text);
    lemma_kept_all(ps, ps.len() as int);
    assert(ps.take(ps.len() as int) =~= ps);
    crate::lex::lemma_pieces_flatten(text);
    assert(kept_upto(ps, ps.len() as int) == text);
    if overlays.len() == 0 {
        assert(render_spec(text, devicetree, overlays) =~= text + "devicetree "@ + devicetree + "\n"@ + Seq::<char>::empty());
    } else {
        assert(render_spec(text, devicetree, overlays) =~= text + "devicetree "@ + devicetree + "\n"@ + ("devicetree-overlay "@
            + crate::text::join_spec(overlays, " "@) + "\n"@));
    }
}

} // verus!
