//! Locating an update's parts inside its cabinet archives: the inner update
//! container in the outer package, then the manifest document and the
//! aggregate patch blob inside that container.
use vstd::prelude::*;
use std::io::Read;
use crate::cabcheck::{cab_reads_safely, cab_safe};
use crate::engine::bytes_model;
use crate::package::{
    pattern_match_of, blob_name_of, find_manifest, find_package_cab, has_manifest, has_package, is_manifest_choice,
    is_package_choice, patch_blob_name,
};
use crate::text::{contains_text, texts};

verus! {

/// The names of the files that the cabinet archive `archive` holds, or
/// `None` when it is not a readable cabinet.
pub uninterp spec fn cab_names_of(archive: Seq<u8>) -> Option<Seq<Seq<char>>>;

/// The content of the file `name` in the cabinet archive `archive`, or
/// `None` when the archive cannot be read or holds no such file.
pub uninterp spec fn cab_file_of(archive: Seq<u8>, name: Seq<char>) -> Option<Seq<u8>>;

/// Relies on cab::Cabinet::new, which reads a cabinet's header and file
/// table, and on its folder and file entries, which list the file names.
#[verifier::external_body]
fn cab_entry_names(archive: &[u8]) -> (r: Option<Vec<String>>)
    ensures
        match r {
            Some(v) => cab_names_of(archive@) == Some(texts(v@)),
            None => cab_names_of(archive@) is None,
        },
{
    let cabinet = match cab::Cabinet::new(std::io::Cursor::new(archive)) {
        Ok(c) => c,
        Err(_) => return None,
    };
    let mut names = Vec::new();
    for folder in cabinet.folder_entries() {
        for file in folder.file_entries() {
            names.push(file.name().to_string());
        }
    }
    Some(names)
}

/// Relies on cab::Cabinet::read_file, which decompresses the named file and
/// fails when the archive holds none of that name. Its reader faults on a
/// stored data block shorter than its header declares, and on some LZX
/// input, so only archives that `cab_reads_safely` admits are read.
#[verifier::external_body]
fn cab_read(archive: &[u8], name: &str) -> (r: Option<Vec<u8>>)
    requires
        cab_reads_safely(archive@),
    ensures
        bytes_model(r) == cab_file_of(archive@, name@),
{
    let mut cabinet = cab::Cabinet::new(std::io::Cursor::new(archive)).ok()?;
    let mut out = Vec::new();
    cabinet.read_file(name).ok()?.read_to_end(&mut out).ok()?;
    Some(out)
}

/// Why an update's parts could not be found.
#[derive(Clone, Copy, Debug, PartialEq, Eq, Structural)]
pub enum ContainerError {
    /// An archive or a file in it could not be read.
    Malformed,
    /// The package holds no inner update container.
    PackageNotFound,
    /// The inner container lacks the manifest document or the patch blob.
    EntryNotFound,
}

/// The parts of an update that reconstruction needs.
#[derive(Clone, Debug)]
pub struct UpdateParts {
    /// Name of the inner update container.
    pub cab_name: String,
    /// The manifest document, undecoded.
    pub manifest_document: Vec<u8>,
    /// The aggregate patch blob.
    pub patch_blob: Vec<u8>,
}

/// `doc` is the manifest document and `blob` the patch blob of the inner
/// container `inner` named `cab_name`.
pub open spec fn inner_parts(inner: Seq<u8>, cab_name: Seq<char>, doc: Seq<u8>, blob: Seq<u8>) -> bool {
    &&& cab_names_of(inner) is Some
    &&& exists|m: int|
        is_manifest_choice(cab_names_of(inner)->0, m) && #[trigger] cab_file_of(
            inner,
            cab_names_of(inner)->0[m],
        ) == Some(doc)
    &&& cab_file_of(inner, blob_name_of(cab_name)) == Some(blob)
}

/// The inner container lists no manifest document or no patch blob.
pub open spec fn inner_lacks_entry(inner: Seq<u8>, cab_name: Seq<char>) -> bool {
    &&& cab_names_of(inner) is Some
    &&& !has_manifest(cab_names_of(inner)->0) || !cab_names_of(inner)->0.contains(
        blob_name_of(cab_name),
    )
}

/// The inner container, or a part of it that it lists, cannot be read.
pub open spec fn inner_unreadable(inner: Seq<u8>, cab_name: Seq<char>) -> bool {
    ||| cab_names_of(inner) is None
    ||| !cab_reads_safely(inner)
    ||| exists|m: int|
        is_manifest_choice(cab_names_of(inner)->0, m) && #[trigger] cab_file_of(
            inner,
            cab_names_of(inner)->0[m],
        ) is None
    ||| cab_file_of(inner, blob_name_of(cab_name)) is None
}

/// The inner container lists both parts and every read of them succeeds.
pub open spec fn inner_complete(inner: Seq<u8>, cab_name: Seq<char>) -> bool {
    &&& cab_names_of(inner) is Some
    &&& !inner_lacks_entry(inner, cab_name)
    &&& !inner_unreadable(inner, cab_name)
}

/// Takes the manifest document and the patch blob out of the inner
/// container `inner` named `cab_name`.
pub fn open_inner(cab_name: &str, inner: &[u8]) -> (r: Result<(Vec<u8>, Vec<u8>), ContainerError>)
    ensures
        r matches Ok((doc, blob)) ==> inner_parts(inner@, cab_name@, doc@, blob@),
        inner_complete(inner@, cab_name@) ==> r is Ok,
        cab_names_of(inner@) is None ==> r == Err::<(Vec<u8>, Vec<u8>), ContainerError>(
            ContainerError::Malformed,
        ),
        r == Err::<(Vec<u8>, Vec<u8>), ContainerError>(ContainerError::EntryNotFound)
            <==> inner_lacks_entry(inner@, cab_name@),
        r == Err::<(Vec<u8>, Vec<u8>), ContainerError>(ContainerError::Malformed) ==> inner_unreadable(
            inner@,
            cab_name@,
        ),
        r != Err::<(Vec<u8>, Vec<u8>), ContainerError>(ContainerError::PackageNotFound),
{
    let names = match cab_entry_names(inner) {
        Some(v) => v,
        None => return Err(ContainerError::Malformed),
    };
    let ghost ns = texts(names@);
    let m = match find_manifest(names.as_slice()) {
        Some(m) => m,
        None => return Err(ContainerError::EntryNotFound),
    };
    let blob_name = patch_blob_name(cab_name);
    if !contains_text(names.as_slice(), &blob_name) {
        return Err(ContainerError::EntryNotFound);
    }
    assert(!inner_lacks_entry(inner@, cab_name@));
    if !cab_safe(inner) {
        return Err(ContainerError::Malformed);
    }
    assert(ns[m as int] == names@[m as int]@);
    let doc = match cab_read(inner, names[m].as_str()) {
        Some(d) => d,
        None => {
            assert(is_manifest_choice(cab_names_of(inner@)->0, m as int) && cab_file_of(
                inner@,
                cab_names_of(inner@)->0[m as int],
            ) is None);
            return Err(ContainerError::Malformed);
        },
    };
    assert(is_manifest_choice(ns, m as int) && cab_file_of(inner@, ns[m as int]) == Some(doc@));
    let blob = match cab_read(inner, blob_name.as_str()) {
        Some(b) => b,
        None => return Err(ContainerError::Malformed),
    };
    Ok((doc, blob))
}

/// At most one position is the first name of an inner update container.
pub proof fn lemma_package_choice_unique(ns: Seq<Seq<char>>, i: int, j: int)
    requires
        is_package_choice(ns, i),
        is_package_choice(ns, j),
    ensures
        i == j,
{
    if i < j {
        assert(pattern_match_of(crate::package::PACKAGE_CAB_PATTERN@, ns[i]) != Some(true));
    } else if j < i {
        assert(pattern_match_of(crate::package::PACKAGE_CAB_PATTERN@, ns[j]) != Some(true));
    }
}

/// `name` and `inner` are the name and the content of the inner update
/// container of the package archive `package`.
pub open spec fn inner_of(package: Seq<u8>, name: Seq<char>, inner: Seq<u8>) -> bool {
    &&& cab_names_of(package) is Some
    &&& cab_reads_safely(package)
    &&& exists|i: int|
        is_package_choice(cab_names_of(package)->0, i) && name == cab_names_of(package)->0[i]
            && #[trigger] cab_file_of(package, cab_names_of(package)->0[i]) == Some(inner)
}

/// The package's inner update container can be read, and `p` holds of its
/// name and content.
pub open spec fn inner_holds(package: Seq<u8>, p: spec_fn(Seq<char>, Seq<u8>) -> bool) -> bool {
    &&& cab_names_of(package) is Some
    &&& cab_reads_safely(package)
    &&& exists|i: int|
        is_package_choice(cab_names_of(package)->0, i) && #[trigger] cab_file_of(
            package,
            cab_names_of(package)->0[i],
        ) is Some && p(
            cab_names_of(package)->0[i],
            cab_file_of(package, cab_names_of(package)->0[i])->0,
        )
}

/// The package lists an inner update container whose content cannot be read.
pub open spec fn inner_missing(package: Seq<u8>) -> bool {
    &&& cab_names_of(package) is Some
    &&& has_package(cab_names_of(package)->0)
    &&& !cab_reads_safely(package) || exists|i: int|
        is_package_choice(cab_names_of(package)->0, i) && #[trigger] cab_file_of(
            package,
            cab_names_of(package)->0[i],
        ) is None
}

proof fn lemma_inner_holds(package: Seq<u8>, name: Seq<char>, inner: Seq<u8>, p: spec_fn(Seq<char>, Seq<u8>) -> bool)
    requires
        inner_of(package, name, inner),
    ensures
        inner_holds(package, p) <==> p(name, inner),
        !inner_missing(package),
{
    let ns = cab_names_of(package)->0;
    let i = choose|i: int|
        is_package_choice(ns, i) && name == ns[i] && #[trigger] cab_file_of(package, ns[i]) == Some(inner);
    if inner_holds(package, p) {
        let k = choose|k: int|
            is_package_choice(ns, k) && #[trigger] cab_file_of(package, ns[k]) is Some && p(
                ns[k],
                cab_file_of(package, ns[k])->0,
            );
        lemma_package_choice_unique(ns, i, k);
    }
    if p(name, inner) {
        assert(is_package_choice(ns, i) && cab_file_of(package, ns[i]) is Some && p(
            ns[i],
            cab_file_of(package, ns[i])->0,
        ));
    }
    if inner_missing(package) {
        let k = choose|k: int| is_package_choice(ns, k) && #[trigger] cab_file_of(package, ns[k]) is None;
        lemma_package_choice_unique(ns, i, k);
    }
}

/// The name and content of the inner update container of `package`: its
/// first entry named like one.
pub fn find_inner(package: &[u8]) -> (r: Result<(String, Vec<u8>), ContainerError>)
    ensures
        r matches Ok((name, inner)) ==> inner_of(package@, name@, inner@),
        cab_names_of(package@) is None ==> r == Err::<(String, Vec<u8>), ContainerError>(
            ContainerError::Malformed,
        ),
        r == Err::<(String, Vec<u8>), ContainerError>(ContainerError::PackageNotFound) <==> (
        cab_names_of(package@) matches Some(ns) && !has_package(ns)),
        r == Err::<(String, Vec<u8>), ContainerError>(ContainerError::Malformed) ==> (cab_names_of(
            package@,
        ) is None || inner_missing(package@)),
        r != Err::<(String, Vec<u8>), ContainerError>(ContainerError::EntryNotFound),
        (cab_names_of(package@) matches Some(ns) && has_package(ns) && !inner_missing(package@))
            ==> r is Ok,
{
    let names = match cab_entry_names(package) {
        Some(v) => v,
        None => return Err(ContainerError::Malformed),
    };
    let i = match find_package_cab(names.as_slice()) {
        Some(i) => i,
        None => return Err(ContainerError::PackageNotFound),
    };
    let ghost ns = cab_names_of(package@)->0;
    assert(ns == texts(names@));
    assert(ns[i as int] == names@[i as int]@);
    assert(has_package(ns));
    if !cab_safe(package) {
        return Err(ContainerError::Malformed);
    }
    let inner = match cab_read(package, names[i].as_str()) {
        Some(b) => b,
        None => {
            assert(is_package_choice(ns, i as int) && cab_file_of(package@, ns[i as int]) is None);
            return Err(ContainerError::Malformed);
        },
    };
    let name = names[i].clone();
    assert(is_package_choice(ns, i as int) && name@ == ns[i as int] && cab_file_of(
        package@,
        ns[i as int],
    ) == Some(inner@));
    proof {
        lemma_inner_holds(package@, name@, inner@, |n: Seq<char>, b: Seq<u8>| true);
    }
    Ok((name, inner))
}

/// `cab_name`, `doc` and `blob` are the inner container's name, the
/// manifest document and the patch blob of the package archive `package`.
pub open spec fn update_parts(package: Seq<u8>, cab_name: Seq<char>, doc: Seq<u8>, blob: Seq<u8>) -> bool {
    exists|inner: Seq<u8>|
        inner_of(package, cab_name, inner) && #[trigger] inner_parts(inner, cab_name, doc, blob)
}

/// Finds an update's parts in the package archive `package`: the inner
/// update container (see `find_inner`), and in it the manifest document and
/// the patch blob (see `open_inner`).
pub fn open_update(package: &[u8]) -> (r: Result<UpdateParts, ContainerError>)
    ensures
        r matches Ok(p) ==> update_parts(package@, p.cab_name@, p.manifest_document@, p.patch_blob@),
        (cab_names_of(package@) matches Some(ns) && has_package(ns) && inner_holds(
            package@,
            |n: Seq<char>, b: Seq<u8>| inner_complete(b, n),
        )) ==> r is Ok,
        cab_names_of(package@) is None ==> r == Err::<UpdateParts, ContainerError>(
            ContainerError::Malformed,
        ),
        r == Err::<UpdateParts, ContainerError>(ContainerError::PackageNotFound) <==> (
        cab_names_of(package@) matches Some(ns) && !has_package(ns)),
        r == Err::<UpdateParts, ContainerError>(ContainerError::EntryNotFound) <==> inner_holds(
            package@,
            |n: Seq<char>, b: Seq<u8>| inner_lacks_entry(b, n),
        ),
        r == Err::<UpdateParts, ContainerError>(ContainerError::Malformed) ==> (cab_names_of(
            package@,
        ) is None || inner_missing(package@) || inner_holds(
            package@,
            |n: Seq<char>, b: Seq<u8>| inner_unreadable(b, n),
        )),
{
    let (cab_name, inner) = match find_inner(package) {
        Ok(found) => found,
        Err(e) => {
            proof {
                if cab_names_of(package@) is Some {
                    let ns = cab_names_of(package@)->0;
                    if has_package(ns) {
                        assert(inner_missing(package@));
                        let i = choose|i: int|
                            is_package_choice(ns, i) && #[trigger] cab_file_of(package@, ns[i]) is None;
                        if inner_holds(package@, |n: Seq<char>, b: Seq<u8>| inner_lacks_entry(b, n)) {
                            let k = choose|k: int|
                                is_package_choice(ns, k) && #[trigger] cab_file_of(package@, ns[k]) is Some
                                    && inner_lacks_entry(cab_file_of(package@, ns[k])->0, ns[k]);
                            lemma_package_choice_unique(ns, i, k);
                        }
                        if inner_holds(package@, |n: Seq<char>, b: Seq<u8>| inner_complete(b, n)) {
                            let k = choose|k: int|
                                is_package_choice(ns, k) && #[trigger] cab_file_of(package@, ns[k]) is Some
                                    && inner_complete(cab_file_of(package@, ns[k])->0, ns[k]);
                            lemma_package_choice_unique(ns, i, k);
                        }
                    }
                }
            }
            return Err(e);
        },
    };
    proof {
        lemma_inner_holds(package@, cab_name@, inner@, |n: Seq<char>, b: Seq<u8>| inner_complete(b, n));
        lemma_inner_holds(package@, cab_name@, inner@, |n: Seq<char>, b: Seq<u8>| inner_lacks_entry(b, n));
        lemma_inner_holds(package@, cab_name@, inner@, |n: Seq<char>, b: Seq<u8>| inner_unreadable(b, n));
    }
    match open_inner(cab_name.as_str(), inner.as_slice()) {
        Ok((doc, blob)) => {
            let p = UpdateParts { cab_name, manifest_document: doc, patch_blob: blob };
            assert(inner_of(package@, p.cab_name@, inner@) && inner_parts(
                inner@,
                p.cab_name@,
                p.manifest_document@,
                p.patch_blob@,
            ));
            assert(update_parts(package@, p.cab_name@, p.manifest_document@, p.patch_blob@));
            Ok(p)
        },
        Err(e) => Err(e),
    }
}

/// `name` is the inner container's name in the package archive `package`,
/// and `entries` the names of the files of the container it holds under
/// that same name.
pub open spec fn nested_entries(package: Seq<u8>, name: Seq<char>, entries: Seq<Seq<char>>) -> bool {
    exists|inner: Seq<u8>|
        inner_of(package, name, inner) && #[trigger] cab_file_of(inner, name) is Some && cab_names_of(
            cab_file_of(inner, name)->0,
        ) == Some(entries)
}

/// The inner container `inner` named `name` is readable and does not list
/// an entry of its own name.
pub open spec fn nested_lacking(inner: Seq<u8>, name: Seq<char>) -> bool {
    cab_names_of(inner) is Some && !cab_names_of(inner)->0.contains(name)
}

/// The inner container, the entry of its own name that it lists, or that
/// entry's file list cannot be read.
pub open spec fn nested_unreadable(inner: Seq<u8>, name: Seq<char>) -> bool {
    ||| cab_names_of(inner) is None
    ||| !cab_reads_safely(inner)
    ||| cab_file_of(inner, name) is None
    ||| cab_names_of(cab_file_of(inner, name)->0) is None
}

/// The nested container can be read and listed.
pub open spec fn nested_complete(inner: Seq<u8>, name: Seq<char>) -> bool {
    !nested_lacking(inner, name) && !nested_unreadable(inner, name)
}

/// The entries of the container that the inner update container of
/// `package` holds under its own name, with that name.
pub fn list_nested(package: &[u8]) -> (r: Result<(String, Vec<String>), ContainerError>)
    ensures
        r matches Ok((name, entries)) ==> nested_entries(package@, name@, texts(entries@)),
        (cab_names_of(package@) matches Some(ns) && has_package(ns) && inner_holds(
            package@,
            |n: Seq<char>, b: Seq<u8>| nested_complete(b, n),
        )) ==> r is Ok,
        cab_names_of(package@) is None ==> r == Err::<(String, Vec<String>), ContainerError>(
            ContainerError::Malformed,
        ),
        r == Err::<(String, Vec<String>), ContainerError>(ContainerError::PackageNotFound) <==> (
        cab_names_of(package@) matches Some(ns) && !has_package(ns)),
        r == Err::<(String, Vec<String>), ContainerError>(ContainerError::EntryNotFound)
            <==> inner_holds(package@, |n: Seq<char>, b: Seq<u8>| nested_lacking(b, n)),
        r == Err::<(String, Vec<String>), ContainerError>(ContainerError::Malformed) ==> (
        cab_names_of(package@) is None || inner_missing(package@) || inner_holds(
            package@,
            |n: Seq<char>, b: Seq<u8>| nested_unreadable(b, n),
        )),
{
    let (cab_name, inner) = match find_inner(package) {
        Ok(found) => found,
        Err(e) => {
            proof {
                if cab_names_of(package@) is Some {
                    let ns = cab_names_of(package@)->0;
                    if has_package(ns) {
                        let i = choose|i: int|
                            is_package_choice(ns, i) && #[trigger] cab_file_of(package@, ns[i]) is None;
                        if inner_holds(package@, |n: Seq<char>, b: Seq<u8>| nested_lacking(b, n)) {
                            let k = choose|k: int|
                                is_package_choice(ns, k) && #[trigger] cab_file_of(package@, ns[k]) is Some
                                    && nested_lacking(cab_file_of(package@, ns[k])->0, ns[k]);
                            lemma_package_choice_unique(ns, i, k);
                        }
                        if inner_holds(package@, |n: Seq<char>, b: Seq<u8>| nested_complete(b, n)) {
                            let k = choose|k: int|
                                is_package_choice(ns, k) && #[trigger] cab_file_of(package@, ns[k]) is Some
                                    && nested_complete(cab_file_of(package@, ns[k])->0, ns[k]);
                            lemma_package_choice_unique(ns, i, k);
                        }
                    }
                }
            }
            return Err(e);
        },
    };
    proof {
        lemma_inner_holds(package@, cab_name@, inner@, |n: Seq<char>, b: Seq<u8>| nested_complete(b, n));
        lemma_inner_holds(package@, cab_name@, inner@, |n: Seq<char>, b: Seq<u8>| nested_lacking(b, n));
        lemma_inner_holds(package@, cab_name@, inner@, |n: Seq<char>, b: Seq<u8>| nested_unreadable(b, n));
    }
    let inner_names = match cab_entry_names(inner.as_slice()) {
        Some(v) => v,
        None => return Err(ContainerError::Malformed),
    };
    if !contains_text(inner_names.as_slice(), &cab_name) {
        return Err(ContainerError::EntryNotFound);
    }
    if !cab_safe(inner.as_slice()) {
        return Err(ContainerError::Malformed);
    }
    let nested = match cab_read(inner.as_slice(), cab_name.as_str()) {
        Some(b) => b,
        None => return Err(ContainerError::Malformed),
    };
    let entries = match cab_entry_names(nested.as_slice()) {
        Some(v) => v,
        None => return Err(ContainerError::Malformed),
    };
    assert(inner_of(package@, cab_name@, inner@) && cab_file_of(inner@, cab_name@) == Some(nested@));
    assert(nested_entries(package@, cab_name@, texts(entries@)));
    Ok((cab_name, entries))
}

} // verus!
