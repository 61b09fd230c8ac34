//! The boot entry of the running kernel on an EFI board that boots with a
//! device tree: which entry file of `loader/entries` it is, and the checks
//! its text must pass before its overlays can be managed.
use vstd::prelude::*;
use crate::efi::{
    base_devicetree, blobs_view, bls_values_spec, check_kernel_path, check_not_executable, check_not_shared,
    component, entry_candidates, entry_kernel_path, kernel_in_directory, normalized_reference, overlay_files,
    overlay_files_upto, pairs_view, reference_error, relative_reference, safe_component, saved_overlays, saved_upto,
    select_entry, shared_spec, single_value, split_slash, split_slash_exec, values,
};
use crate::lex::{words, words_exec};
use crate::hardware::HardwareError;
use crate::model::strings_view;
use crate::text::{chars_of, concat, ends_with, ends_with_str, owned, slice, string_of, utf8_text};

verus! {

/// The entry file chosen for the running kernel: its index among the
/// names of `loader/entries`, its text and the kernel image it boots.
#[derive(Debug, Clone)]
pub struct BootEntryChoice {
    pub index: usize,
    pub text: String,
    pub linux: String,
}

/// The name prefix of the entry files of kernel `kernel` under entry token
/// `token`: `<token>-<kernel>`.
pub open spec fn entry_prefix(token: Seq<char>, kernel: Seq<char>) -> Seq<char> {
    token + "-"@ + kernel
}

/// Some entry file (a name ending in `.conf`) holds bytes that are not
/// UTF-8.
pub open spec fn has_bad_entry(names: Seq<Seq<char>>, bytes: Seq<Vec<u8>>) -> bool {
    exists|i: int| 0 <= i < names.len() && ends_with(names[i], ".conf"@) && !vstd::utf8::valid_utf8(#[trigger] bytes[i]@)
}

/// The file name of a kernel image path of the form
/// `/<token>/<kernel>/<file>`.
pub open spec fn image_file(linux: Seq<char>) -> Seq<char> {
    split_slash(relative_reference(linux))[2]
}

fn image_file_exec(linux: &str) -> (r: Vec<char>)
    requires
        split_slash(relative_reference(linux@)).len() == 3,
    ensures
        r@ == image_file(linux@),
{
    let raw = chars_of(linux);
    let relative = if raw.len() > 0 && raw[0] == '/' {
        slice(&raw, 1, raw.len())
    } else {
        raw.clone()
    };
    assert(relative@ == relative_reference(linux@)) by {
        if raw@.len() > 0 && raw@[0] == '/' {
            assert(relative@ =~= raw@.drop_first());
        }
    }
    let cs = split_slash_exec(&relative);
    assert(cs@[2]@ == crate::source_files::vecs_view(cs@)[2]);
    cs[2].clone()
}

/// Chooses the boot entry of the running kernel and checks it, in this
/// order: the board must boot with a device tree; the entry token and the
/// kernel release must be safe path components; every entry file
/// (`names`, with their contents `bytes`) must be UTF-8; exactly one of
/// them must be an entry of the kernel; its `version`, if any, must be the
/// kernel's; it must have one `linux` key, naming a file of the kernel's
/// version directory (whose regular files are `kernel_files`); and it must
/// not boot an EFI executable or a unified kernel image.
pub fn efi_entry(
    device_tree_boot: bool,
    token: &str,
    kernel: &str,
    names: &Vec<String>,
    bytes: &Vec<Vec<u8>>,
    kernel_files: &Vec<String>,
) -> (r: Result<BootEntryChoice, HardwareError>)
    requires
        names@.len() == bytes@.len(),
    ensures
        if !device_tree_boot {
            r matches Err(HardwareError::Unsupported(m)) && m@ == "EFI Overlay management requires a Device Tree boot."@
        } else if !safe_component(token@) || !safe_component(kernel@) {
            r matches Err(HardwareError::InvalidInput(m)) && m@ == "unsafe EFI path component"@
        } else if has_bad_entry(strings_view(names@), bytes@) {
            r matches Err(HardwareError::InvalidInput(m)) && m@ == "non-UTF8 BLS entry"@
        } else {
            let c = entry_candidates(strings_view(names@), entry_prefix(token@, kernel@), names@.len() as int);
            if c.len() != 1 {
                r matches Err(HardwareError::Unsupported(m)) && m@
                    == "A unique BLS entry for the running kernel was not found."@
            } else {
                let text = vstd::utf8::decode_utf8(bytes@[c[0]]@);
                let versions = bls_values_spec(text, "version"@);
                let linux = bls_values_spec(text, "linux"@);
                if versions.len() > 1 {
                    r matches Err(HardwareError::InvalidInput(m)) && m@ == "duplicate BLS key: "@ + "version"@
                } else if versions.len() == 1 && versions[0] != kernel@ {
                    r matches Err(HardwareError::InvalidInput(m)) && m@
                        == "BLS version does not match the running kernel"@
                } else if linux.len() > 1 {
                    r matches Err(HardwareError::InvalidInput(m)) && m@ == "duplicate BLS key: "@ + "linux"@
                } else if linux.len() == 0 {
                    r matches Err(HardwareError::Unsupported(m)) && m@
                        == "Only Linux BLS Type #1 entries are supported."@
                } else if !kernel_in_directory(linux[0], token@, kernel@) {
                    r matches Err(HardwareError::InvalidInput(m)) && (m@ == "unsafe EFI path component"@ || m@
                        == "BLS kernel path does not match its version directory"@)
                } else if !strings_view(kernel_files@).contains(image_file(linux[0])) {
                    r matches Err(HardwareError::InvalidInput(m)) && m@
                        == "BLS kernel path does not match its version directory"@
                } else if bls_values_spec(text, "efi"@).len() > 0 || bls_values_spec(text, "uki"@).len() > 0 {
                    r matches Err(HardwareError::Unsupported(m)) && m@
                        == "EFI/UKI executable entries are not editable by the DT backend."@
                } else {
                    r matches Ok(e) && e.index == c[0] && e.text@ == text && e.linux@ == linux[0]
                }
            }
        },
{
    if !device_tree_boot {
        return Err(HardwareError::Unsupported(owned("EFI Overlay management requires a Device Tree boot.")));
    }
    match component(token) {
        Err(e) => return Err(e),
        Ok(()) => {},
    }
    match component(kernel) {
        Err(e) => return Err(e),
        Ok(()) => {},
    }
    let ghost nv = strings_view(names@);
    let mut texts: Vec<String> = Vec::new();
    let mut i: usize = 0;
    while i < names.len()
        invariant
            i <= names.len(),
            names@.len() == bytes@.len(),
            device_tree_boot,
            safe_component(token@),
            safe_component(kernel@),
            nv == strings_view(names@),
            texts@.len() == i,
            forall|j: int|
                0 <= j < i && ends_with(nv[j], ".conf"@) ==> vstd::utf8::valid_utf8(#[trigger] bytes@[j]@)
                    && texts@[j]@ == vstd::utf8::decode_utf8(bytes@[j]@),
        decreases names.len() - i,
    {
        let n = chars_of(names[i].as_str());
        assert(n@ == nv[i as int]);
        if ends_with_str(&n, ".conf") {
            match utf8_text(bytes[i].as_slice()) {
                Some(t) => texts.push(t),
                None => {
                    assert(!vstd::utf8::valid_utf8(bytes@[i as int]@));
                    assert(ends_with(nv[i as int], ".conf"@));
                    assert(has_bad_entry(nv, bytes@));
                    return Err(HardwareError::InvalidInput(owned("non-UTF8 BLS entry")));
                },
            }
        } else {
            texts.push(String::new());
        }
        i = i + 1;
    }
    assert(!has_bad_entry(nv, bytes@));
    let prefix = string_of(&concat(&concat(&chars_of(token), &chars_of("-")), &chars_of(kernel)));
    assert(prefix@ == entry_prefix(token@, kernel@));
    let idx = match select_entry(names, prefix.as_str()) {
        Err(e) => return Err(e),
        Ok(k) => k,
    };
    let ghost c = entry_candidates(nv, prefix@, names@.len() as int);
    proof {
        crate::efi::lemma_entry_candidates_conf(nv, prefix@, names@.len() as int);
    }
    let text = &texts[idx];
    let linux = match entry_kernel_path(text.as_str(), kernel) {
        Err(e) => return Err(e),
        Ok(p) => p,
    };
    match check_kernel_path(linux.as_str(), token, kernel) {
        Err(e) => return Err(e),
        Ok(()) => {},
    }
    let file = image_file_exec(linux.as_str());
    if !crate::hardware::contains_string(kernel_files, &file) {
        return Err(HardwareError::InvalidInput(owned("BLS kernel path does not match its version directory")));
    }
    match check_not_executable(text.as_str()) {
        Err(e) => return Err(e),
        Ok(()) => {},
    }
    Ok(BootEntryChoice { index: idx, text: string_of(&chars_of(text.as_str())), linux })
}

/// What the overlay directory and the chosen entry hold: the overlay files
/// as `(id, file name)` pairs, the overlays the entry loads and the base
/// device tree it names.
#[derive(Debug, Clone)]
pub struct EfiOverlays {
    pub files: Vec<(String, String)>,
    pub saved: Vec<String>,
    pub devicetree: Option<String>,
}

/// The ids of the enabled files among the first `n` `(id, file name)`
/// pairs: those whose file name is the id itself.
pub open spec fn enabled_ids(files: Seq<(Seq<char>, Seq<char>)>, n: int) -> Seq<Seq<char>>
    decreases n,
{
    if n <= 0 {
        seq![]
    } else {
        enabled_ids(files, n - 1) + if files[n - 1].0 == files[n - 1].1 {
            seq![files[n - 1].0]
        } else {
            seq![]
        }
    }
}

/// The words of the first `n` values.
pub open spec fn value_words(vs: Seq<Seq<char>>, n: int) -> Seq<Seq<char>>
    decreases n,
{
    if n <= 0 {
        seq![]
    } else {
        value_words(vs, n - 1) + words(vs[n - 1])
    }
}

/// The overlay references of the first `n` other entries: the words of
/// their `devicetree-overlay` values.
pub open spec fn other_references(texts: Seq<Seq<char>>, n: int) -> Seq<Seq<char>>
    decreases n,
{
    if n <= 0 {
        seq![]
    } else {
        let vs = bls_values_spec(texts[n - 1], "devicetree-overlay"@);
        other_references(texts, n - 1) + value_words(vs, vs.len() as int)
    }
}

fn enabled_of(files: &Vec<(String, String)>) -> (r: Vec<String>)
    ensures
        strings_view(r@) == enabled_ids(pairs_view(files@), files@.len() as int),
{
    let ghost fv = pairs_view(files@);
    let mut r: Vec<String> = Vec::new();
    let mut i: usize = 0;
    while i < files.len()
        invariant
            i <= files.len(),
            fv == pairs_view(files@),
            strings_view(r@) == enabled_ids(fv, i as int),
        decreases files.len() - i,
    {
        let id = chars_of(files[i].0.as_str());
        let name = chars_of(files[i].1.as_str());
        assert(fv[i as int] == (files@[i as int].0@, files@[i as int].1@));
        let ghost before = strings_view(r@);
        if crate::text::seq_eq(&id, &name) {
            crate::model::push_str(&mut r, files[i].0.as_str());
        }
        assert(strings_view(r@) =~= enabled_ids(fv, i + 1));
        i = i + 1;
    }
    r
}

fn push_words(out: &mut Vec<String>, v: &str)
    ensures
        strings_view(final(out)@) == strings_view(old(out)@) + words(v@),
{
    let c = chars_of(v);
    let ws = words_exec(&c);
    let ghost wv = ws@.map_values(|x: Vec<char>| x@);
    let ghost start = strings_view(out@);
    let mut k: usize = 0;
    while k < ws.len()
        invariant
            k <= ws.len(),
            wv == ws@.map_values(|x: Vec<char>| x@),
            wv == words(v@),
            strings_view(out@) == start + wv.take(k as int),
        decreases ws.len() - k,
    {
        let w = string_of(&ws[k]);
        crate::model::push_str(out, w.as_str());
        assert(wv.take(k + 1) =~= wv.take(k as int).push(wv[k as int]));
        k = k + 1;
    }
    assert(wv.take(ws@.len() as int) =~= wv);
}

fn references_of(texts: &Vec<String>) -> (r: Vec<String>)
    ensures
        strings_view(r@) == other_references(strings_view(texts@), texts@.len() as int),
{
    let ghost tv = strings_view(texts@);
    let mut r: Vec<String> = Vec::new();
    let mut i: usize = 0;
    assert(strings_view(r@) =~= Seq::<Seq<char>>::empty());
    while i < texts.len()
        invariant
            i <= texts.len(),
            tv == strings_view(texts@),
            strings_view(r@) == other_references(tv, i as int),
        decreases texts.len() - i,
    {
        let vs = values(texts[i].as_str(), "devicetree-overlay");
        let ghost vv = strings_view(vs@);
        assert(vv == bls_values_spec(tv[i as int], "devicetree-overlay"@));
        let ghost start = strings_view(r@);
        let mut j: usize = 0;
        while j < vs.len()
            invariant
                j <= vs.len(),
                vv == strings_view(vs@),
                strings_view(r@) == start + value_words(vv, j as int),
            decreases vs.len() - j,
        {
            push_words(&mut r, vs[j].as_str());
            assert(start + value_words(vv, j + 1) =~= start + value_words(vv, j as int) + words(vv[j as int]));
            j = j + 1;
        }
        assert(strings_view(r@) =~= other_references(tv, i + 1));
        i = i + 1;
    }
    r
}

/// The overlay state of the chosen entry (its text `text`), checked in
/// this order: the files of the overlay directory (`names`, sorted, with
/// their contents `blobs`; see [`overlay_files_upto`]); the entry's one
/// `devicetree-overlay` value, whose references must be enabled files of
/// the directory, each once (see [`saved_upto`]); no other entry (their
/// texts are `other_texts`) may refer into the directory; and the base
/// device tree the entry names, which it must name when it loads overlays.
pub fn efi_overlays(
    token: &str,
    kernel: &str,
    text: &str,
    names: &Vec<String>,
    blobs: &Vec<Vec<u8>>,
    other_texts: &Vec<String>,
) -> (r: Result<EfiOverlays, HardwareError>)
    requires
        names@.len() == blobs@.len(),
    ensures
        match overlay_files_upto(strings_view(names@), blobs_view(blobs@), names@.len() as int) {
            Err(code) => r matches Err(HardwareError::InvalidInput(m)) && (code == 0 ==> m@
                == "unsafe EFI path component"@) && (code == 1 ==> m@ == "duplicate or case-colliding EFI Overlay ID"@)
                && (code == 2 ==> (m@ == "invalid DTB/DTBO header"@ || m@ == "truncated DTB/DTBO"@)),
            Ok(fs) => {
                let ov = bls_values_spec(text@, "devicetree-overlay"@);
                if ov.len() > 1 {
                    r matches Err(HardwareError::InvalidInput(m)) && m@ == "duplicate BLS key: "@
                        + "devicetree-overlay"@
                } else {
                    let refs = words(if ov.len() == 1 { ov[0] } else { Seq::<char>::empty() });
                    match saved_upto(refs, token@, kernel@, enabled_ids(fs, fs.len() as int), refs.len() as int) {
                        Err(code) => r matches Err(e) && reference_error(code, e),
                        Ok(sv) => {
                            let others = other_references(strings_view(other_texts@), other_texts@.len() as int);
                            let dts = bls_values_spec(text@, "devicetree"@);
                            let named = dts.len() == 1 && dts[0].len() > 0;
                            if shared_spec(others, "/"@ + token@ + "/"@ + kernel@ + "/dtbo/"@) {
                                r matches Err(HardwareError::Unsupported(m)) && m@
                                    == "Overlay files are shared with another BLS entry; refusing to rename them."@
                            } else if dts.len() > 1 {
                                r matches Err(HardwareError::InvalidInput(m)) && m@ == "duplicate BLS key: "@
                                    + "devicetree"@
                            } else if !named && sv.len() > 0 {
                                r matches Err(HardwareError::InvalidInput(m)) && m@
                                    == "BLS Overlays require a base device tree"@
                            } else {
                                r matches Ok(o) && pairs_view(o.files@) == fs && strings_view(o.saved@) == sv && (
                                if named {
                                    o.devicetree matches Some(p) && p@ == normalized_reference(dts[0])
                                } else {
                                    o.devicetree is None
                                })
                            }
                        },
                    }
                }
            },
        },
{
    let files = match overlay_files(names, blobs) {
        Err(e) => return Err(e),
        Ok(f) => f,
    };
    let overlays_text = match single_value(text, "devicetree-overlay") {
        Err(e) => return Err(e),
        Ok(Some(v)) => v,
        Ok(None) => String::new(),
    };
    let enabled = enabled_of(&files);
    let saved = match saved_overlays(overlays_text.as_str(), token, kernel, &enabled) {
        Err(e) => return Err(e),
        Ok(s) => s,
    };
    let others = references_of(other_texts);
    match check_not_shared(&others, token, kernel) {
        Err(e) => return Err(e),
        Ok(()) => {},
    }
    let devicetree = match base_devicetree(text, &saved) {
        Err(e) => return Err(e),
        Ok(d) => d,
    };
    Ok(EfiOverlays { files, saved, devicetree })
}

} // verus!
