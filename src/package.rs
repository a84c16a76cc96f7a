//! Names inside an update package: the inner container, its patch blob and
//! its manifest document.
use vstd::prelude::*;
use crate::paths::is_separator;
use crate::text::{chars_of, same_chars, string_from_chars, texts};

verus! {

/// Whether `pattern` is a valid regular expression, and if so whether it
/// matches somewhere in `text`.
pub uninterp spec fn pattern_match_of(pattern: Seq<char>, text: Seq<char>) -> Option<bool>;

/// Relies on regex::Regex::new, which fails on an invalid pattern, and
/// regex::Regex::is_match, which reports a match anywhere in the text.
#[verifier::external_body]
fn pattern_matches(pattern: &str, text: &str) -> (r: Option<bool>)
    ensures
        r == pattern_match_of(pattern@, text@),
{
    match regex::Regex::new(pattern) {
        Ok(re) => Some(re.is_match(text)),
        Err(_) => None,
    }
}

/// The names of inner containers that hold an update.
pub const PACKAGE_CAB_PATTERN: &'static str = r"Windows(\d+\.\d+)-(KB\d+)-(.*)\.cab";

/// The position of the first name that `pattern` matches.
pub fn find_matching(pattern: &str, names: &[String]) -> (r: Option<usize>)
    ensures
        r matches Some(i) ==> i < names@.len() && pattern_match_of(pattern@, names@[i as int]@)
            == Some(true),
        forall|j: int|
            0 <= j < names@.len() && (r matches Some(i) ==> j < i) ==> pattern_match_of(
                pattern@,
                #[trigger] names@[j]@,
            ) != Some(true),
{
    let mut i: usize = 0;
    while i < names.len()
        invariant
            i <= names@.len(),
            forall|j: int|
                0 <= j < i ==> pattern_match_of(pattern@, #[trigger] names@[j]@) != Some(true),
        decreases names@.len() - i,
    {
        if let Some(true) = pattern_matches(pattern, names[i].as_str()) {
            return Some(i);
        }
        i = i + 1;
    }
    None
}

/// `names[i]` is the first name of an inner update container.
pub open spec fn is_package_choice(names: Seq<Seq<char>>, i: int) -> bool {
    &&& 0 <= i < names.len()
    &&& pattern_match_of(PACKAGE_CAB_PATTERN@, names[i]) == Some(true)
    &&& forall|j: int| 0 <= j < i ==> pattern_match_of(PACKAGE_CAB_PATTERN@, #[trigger] names[j]) != Some(true)
}

/// Some name of `names` is that of an inner update container.
pub open spec fn has_package(names: Seq<Seq<char>>) -> bool {
    exists|j: int| 0 <= j < names.len() && pattern_match_of(PACKAGE_CAB_PATTERN@, #[trigger] names[j]) == Some(true)
}

/// The position of the first name of an inner update container.
pub fn find_package_cab(names: &[String]) -> (r: Option<usize>)
    ensures
        r matches Some(i) ==> is_package_choice(texts(names@), i as int),
        r is None ==> !has_package(texts(names@)),
{
    let r = find_matching(PACKAGE_CAB_PATTERN, names);
    assert forall|j: int| 0 <= j < names@.len() implies texts(names@)[j] == names@[j]@ by {}
    r
}

/// Where the stem of a file name ends: at its last `.`, unless that is the
/// first character or there is none. `k` is the last position still to look at.
pub open spec fn stem_end(s: Seq<char>, k: int) -> int
    decreases k,
{
    if k <= 0 {
        s.len() as int
    } else if s[k] == '.' {
        k
    } else {
        stem_end(s, k - 1)
    }
}

/// A file name without its extension.
pub open spec fn file_stem(s: Seq<char>) -> Seq<char> {
    s.take(stem_end(s, s.len() - 1))
}

proof fn lemma_stem_end_bounds(s: Seq<char>, k: int)
    requires
        k < s.len(),
    ensures
        0 <= stem_end(s, k) <= s.len(),
    decreases k,
{
    if k > 0 && s[k] != '.' {
        lemma_stem_end_bounds(s, k - 1);
    }
}

/// The name of the patch blob inside the inner container `cab_name`: the
/// container's stem followed by `.psf`.
pub open spec fn blob_name_of(cab_name: Seq<char>) -> Seq<char> {
    file_stem(last_component(cab_name)) + seq!['.', 'p', 's', 'f']
}

/// Where the last path component of `s[..k]` starts: after its last
/// separator, or at 0.
pub open spec fn component_start(s: Seq<char>, k: int) -> int
    decreases k,
{
    if k <= 0 {
        0
    } else if is_separator(s[k - 1]) {
        k
    } else {
        component_start(s, k - 1)
    }
}

/// The last path component of `s`.
pub open spec fn last_component(s: Seq<char>) -> Seq<char> {
    s.subrange(component_start(s, s.len() as int), s.len() as int)
}

/// The last path component of `name`.
fn last_component_of(name: &str) -> (r: Vec<char>)
    ensures
        r@ == last_component(name@),
{
    let all = chars_of(name);
    let mut k: usize = all.len();
    while k > 0
        invariant
            k <= all@.len(),
            all@ == name@,
            component_start(name@, name@.len() as int) == component_start(name@, k as int),
        ensures
            component_start(name@, name@.len() as int) == k,
        decreases k,
    {
        if all[k - 1] == '/' || all[k - 1] == '\\' {
            break;
        }
        k = k - 1;
    }
    let mut out: Vec<char> = Vec::new();
    let mut i: usize = k;
    while i < all.len()
        invariant
            k <= i <= all@.len(),
            all@ == name@,
            out@ == all@.subrange(k as int, i as int),
        decreases all@.len() - i,
    {
        out.push(all[i]);
        i = i + 1;
        assert(out@ =~= all@.subrange(k as int, i as int));
    }
    out
}

/// The name of the patch blob inside an inner container (see `blob_name_of`).
pub fn patch_blob_name(cab_name: &str) -> (r: String)
    ensures
        r@ == blob_name_of(cab_name@),
{
    let cs = last_component_of(cab_name);
    let ghost s = cs@;
    let mut end: usize = cs.len();
    if cs.len() > 0 {
        let mut k: usize = cs.len() - 1;
        while k > 0
            invariant
                k < s.len(),
                cs@ == s,
                stem_end(s, s.len() - 1) == stem_end(s, k as int),
            ensures
                stem_end(s, s.len() - 1) == (if k > 0 {
                    k as int
                } else {
                    s.len() as int
                }),
            decreases k,
        {
            if cs[k] == '.' {
                break;
            }
            k = k - 1;
        }
        if k > 0 {
            end = k;
        }
    }
    proof {
        if s.len() > 0 {
            lemma_stem_end_bounds(s, s.len() - 1);
        }
    }
    let mut out: Vec<char> = Vec::new();
    let mut i: usize = 0;
    while i < end
        invariant
            end == stem_end(s, s.len() - 1),
            end <= s.len(),
            cs@ == s,
            i <= end,
            out@ == s.take(i as int),
        decreases end - i,
    {
        out.push(cs[i]);
        i = i + 1;
        assert(out@ =~= s.take(i as int));
    }
    out.push('.');
    out.push('p');
    out.push('s');
    out.push('f');
    assert(out@ =~= file_stem(s) + seq!['.', 'p', 's', 'f']);
    string_from_chars(out.as_slice())
}

/// The conventional name of a manifest document.
pub open spec fn default_manifest_name() -> Seq<char> {
    seq!['e', 'x', 'p', 'r', 'e', 's', 's', '.', 'p', 's', 'f', '.', 'c', 'i', 'x', '.', 'x', 'm', 'l']
}

/// The ending that every manifest document's name has.
pub open spec fn manifest_suffix() -> Seq<char> {
    seq!['.', 'p', 's', 'f', '.', 'c', 'i', 'x', '.', 'x', 'm', 'l']
}

pub open spec fn is_manifest_name(s: Seq<char>) -> bool {
    s.len() >= manifest_suffix().len() && s.subrange(
        s.len() - manifest_suffix().len(),
        s.len() as int,
    ) == manifest_suffix()
}

fn ends_with_manifest_suffix(s: &Vec<char>) -> (r: bool)
    ensures
        r == is_manifest_name(s@),
{
    let suffix = ['.', 'p', 's', 'f', '.', 'c', 'i', 'x', '.', 'x', 'm', 'l'];
    assert(suffix@ =~= manifest_suffix());
    if s.len() < suffix.len() {
        return false;
    }
    let n = s.len();
    let start = n - suffix.len();
    let mut i: usize = 0;
    while i < suffix.len()
        invariant
            n == s@.len(),
            suffix@ == manifest_suffix(),
            start + suffix@.len() == s@.len(),
            i <= suffix@.len(),
            forall|j: int| 0 <= j < i ==> s@[start + j] == suffix@[j],
        decreases suffix@.len() - i,
    {
        if s[start + i] != suffix[i] {
            assert(s@.subrange(start as int, s@.len() as int)[i as int] != manifest_suffix()[i as int]);
            return false;
        }
        i = i + 1;
    }
    assert(s@.subrange(start as int, s@.len() as int) =~= manifest_suffix());
    true
}

/// `names[i]` is the manifest document: the first with the conventional
/// name if there is one, else the first with the manifest ending.
pub open spec fn is_manifest_choice(names: Seq<Seq<char>>, i: int) -> bool {
    &&& 0 <= i < names.len()
    &&& if exists|j: int| 0 <= j < names.len() && #[trigger] names[j] == default_manifest_name() {
        &&& names[i] == default_manifest_name()
        &&& forall|j: int| 0 <= j < i ==> #[trigger] names[j] != default_manifest_name()
    } else {
        &&& is_manifest_name(names[i])
        &&& forall|j: int| 0 <= j < i ==> !is_manifest_name(#[trigger] names[j])
    }
}

/// Some name of `names` is that of a manifest document.
pub open spec fn has_manifest(names: Seq<Seq<char>>) -> bool {
    exists|j: int|
        0 <= j < names.len() && (#[trigger] names[j] == default_manifest_name() || is_manifest_name(
            names[j],
        ))
}

/// The manifest document among `names` (see `is_manifest_choice`).
pub fn find_manifest(names: &[String]) -> (r: Option<usize>)
    ensures
        r matches Some(i) ==> is_manifest_choice(texts(names@), i as int),
        r is None ==> !has_manifest(texts(names@)),
{
    let default = ['e', 'x', 'p', 'r', 'e', 's', 's', '.', 'p', 's', 'f', '.', 'c', 'i', 'x', '.', 'x', 'm', 'l'];
    assert(default@ =~= default_manifest_name());
    let mut i: usize = 0;
    while i < names.len()
        invariant
            default@ == default_manifest_name(),
            i <= names@.len(),
            forall|j: int| 0 <= j < i ==> #[trigger] names@[j]@ != default_manifest_name(),
        decreases names@.len() - i,
    {
        let cs = chars_of(names[i].as_str());
        if same_chars(cs.as_slice(), default.as_slice()) {
            return Some(i);
        }
        i = i + 1;
    }
    let mut k: usize = 0;
    while k < names.len()
        invariant
            k <= names@.len(),
            forall|j: int| 0 <= j < names@.len() ==> #[trigger] names@[j]@ != default_manifest_name(),
            forall|j: int| 0 <= j < k ==> !is_manifest_name(#[trigger] names@[j]@),
        decreases names@.len() - k,
    {
        let cs = chars_of(names[k].as_str());
        if ends_with_manifest_suffix(&cs) {
            return Some(k);
        }
        k = k + 1;
    }
    None
}

} // verus!
