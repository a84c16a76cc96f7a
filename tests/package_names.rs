use psf_expand::package::{find_manifest, find_matching, find_package_cab, patch_blob_name};

fn names(v: &[&str]) -> Vec<String> {
    v.iter().map(|s| s.to_string()).collect()
}

#[test]
fn inner_container_found() {
    let n = names(&["WSUSSCAN.cab", "Windows10.0-KB5022842-x64.cab", "Windows10.0-KB1-x86.cab"]);
    assert_eq!(find_package_cab(&n), Some(1));
    assert_eq!(find_package_cab(&names(&["SSU-19041.cab", "readme.txt"])), None);
    assert_eq!(find_package_cab(&[]), None);
}

#[test]
fn invalid_pattern_matches_nothing() {
    assert_eq!(find_matching("(", &names(&["(", "a"])), None);
    assert_eq!(find_matching("^a", &names(&["ba", "ab"])), Some(1));
}

#[test]
fn blob_names() {
    assert_eq!(patch_blob_name("Windows10.0-KB5022842-x64.cab"), "Windows10.0-KB5022842-x64.psf");
    assert_eq!(patch_blob_name("a.b.cab"), "a.b.psf");
    assert_eq!(patch_blob_name("noext"), "noext.psf");
    assert_eq!(patch_blob_name(".cab"), ".cab.psf");
    assert_eq!(patch_blob_name(""), ".psf");
    assert_eq!(patch_blob_name("dir\\X.cab"), "X.psf");
    assert_eq!(patch_blob_name("a/b.c/d.cab"), "d.psf");
    assert_eq!(patch_blob_name("a.b/c"), "c.psf");
}

#[test]
fn manifest_document_found() {
    let n = names(&["a.psf.cix.xml", "express.psf.cix.xml", "b.psf"]);
    assert_eq!(find_manifest(&n), Some(1));
    let n = names(&["b.psf", "x.cix.xml", "Windows10.0-KB1-x64.psf.cix.xml", "c.psf.cix.xml"]);
    assert_eq!(find_manifest(&n), Some(2));
    assert_eq!(find_manifest(&names(&["b.psf", ".psf.cix.xm"])), None);
}
