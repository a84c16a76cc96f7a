//! Confining a file's relative path to the output root.
use vstd::prelude::*;
use crate::text::{chars_of, string_from_chars, texts};

verus! {

pub open spec fn is_separator(c: char) -> bool {
    c == '/' || c == '\\'
}

/// A segment that names a directory entry: not empty and not `.`.
pub open spec fn names_entry(seg: Seq<char>) -> bool {
    seg.len() > 0 && seg != seq!['.']
}

/// Adds a finished segment to the components when it names an entry.
pub open spec fn close_segment(done: Seq<Seq<char>>, seg: Seq<char>) -> Seq<Seq<char>> {
    if names_entry(seg) {
        done.push(seg)
    } else {
        done
    }
}

/// Splitting `s` at separators, left to right: the components finished so
/// far, the segment being read, and whether a finished segment was `..`.
pub open spec fn scan_path(s: Seq<char>) -> (Seq<Seq<char>>, Seq<char>, bool)
    decreases s.len(),
{
    if s.len() == 0 {
        (Seq::empty(), Seq::empty(), false)
    } else {
        let (done, seg, up) = scan_path(s.drop_last());
        if is_separator(s.last()) {
            (close_segment(done, seg), Seq::empty(), up || seg == seq!['.', '.'])
        } else {
            (done, seg.push(s.last()), up)
        }
    }
}

/// The directory entries that `s` names, in order, without empty and `.` segments.
pub open spec fn path_components(s: Seq<char>) -> Seq<Seq<char>> {
    close_segment(scan_path(s).0, scan_path(s).1)
}

/// Some segment of `s` is `..`.
pub open spec fn has_parent_step(s: Seq<char>) -> bool {
    scan_path(s).2 || scan_path(s).1 == seq!['.', '.']
}

/// `s` names a file strictly inside the directory it is resolved against:
/// not absolute, no drive or stream marker `:`, no `..` segment, and at
/// least one component.
pub open spec fn path_confined(s: Seq<char>) -> bool {
    &&& s.len() > 0
    &&& !is_separator(s[0])
    &&& forall|i: int| 0 <= i < s.len() ==> s[i] != ':'
    &&& !has_parent_step(s)
    &&& path_components(s).len() > 0
}

fn is_parent(seg: &Vec<char>) -> (r: bool)
    ensures
        r == (seg@ == seq!['.', '.']),
{
    let r = seg.len() == 2 && seg[0] == '.' && seg[1] == '.';
    assert(r ==> seg@ =~= seq!['.', '.']);
    r
}

fn names_entry_exec(seg: &Vec<char>) -> (r: bool)
    ensures
        r == names_entry(seg@),
{
    let r = seg.len() > 0 && !(seg.len() == 1 && seg[0] == '.');
    assert(seg.len() == 1 && seg[0] == '.' ==> seg@ =~= seq!['.']);
    r
}

/// The components of a relative path, when it stays inside the output root.
pub fn output_components(name: &str) -> (r: Option<Vec<String>>)
    ensures
        r is Some <==> path_confined(name@),
        r matches Some(v) ==> v@.map_values(|c: String| c@) == path_components(name@),
{
    let cs = chars_of(name);
    if cs.len() == 0 || cs[0] == '/' || cs[0] == '\\' {
        return None;
    }
    let mut done: Vec<String> = Vec::new();
    let mut seg: Vec<char> = Vec::new();
    let mut up = false;
    let mut i: usize = 0;
    while i < cs.len()
        invariant
            cs@ == name@,
            i <= cs@.len(),
            forall|j: int| 0 <= j < i ==> cs@[j] != ':',
            scan_path(cs@.take(i as int)) == (done@.map_values(|c: String| c@), seg@, up),
        decreases cs@.len() - i,
    {
        let c = cs[i];
        proof {
            assert(cs@.take(i + 1).drop_last() =~= cs@.take(i as int));
        }
        if c == ':' {
            return None;
        }
        if c == '/' || c == '\\' {
            if is_parent(&seg) {
                up = true;
            }
            if names_entry_exec(&seg) {
                let ghost before = done@.map_values(|c: String| c@);
                done.push(string_from_chars(seg.as_slice()));
                assert(done@.map_values(|c: String| c@) =~= before.push(seg@));
            }
            seg = Vec::new();
            assert(seg@ =~= Seq::<char>::empty());
        } else {
            seg.push(c);
        }
        i = i + 1;
    }
    assert(cs@.take(cs@.len() as int) =~= cs@);
    if up || is_parent(&seg) {
        return None;
    }
    if names_entry_exec(&seg) {
        let ghost before = done@.map_values(|c: String| c@);
        done.push(string_from_chars(seg.as_slice()));
        assert(done@.map_values(|c: String| c@) =~= before.push(seg@));
    }
    if done.len() == 0 {
        return None;
    }
    Some(done)
}

fn same_components(a: &Vec<String>, b: &Vec<String>) -> (r: bool)
    ensures
        r == (texts(a@) == texts(b@)),
{
    if a.len() != b.len() {
        assert(texts(a@).len() != texts(b@).len());
        return false;
    }
    let mut i: usize = 0;
    while i < a.len()
        invariant
            i <= a@.len(),
            a@.len() == b@.len(),
            forall|j: int| 0 <= j < i ==> a@[j]@ == b@[j]@,
        decreases a@.len() - i,
    {
        if a[i] != b[i] {
            assert(texts(a@)[i as int] != texts(b@)[i as int]);
            return false;
        }
        i = i + 1;
    }
    assert(texts(a@) =~= texts(b@));
    true
}

/// Two confined names that resolve to the same output file.
pub open spec fn same_output(a: Seq<char>, b: Seq<char>) -> bool {
    path_confined(a) && path_confined(b) && path_components(a) == path_components(b)
}

/// The first pair of positions `(i, j)`, `i < j`, in order of `j` and then
/// `i`, whose names resolve to the same output file, if any.
pub fn first_shared_output(names: &[String]) -> (r: Option<(usize, usize)>)
    ensures
        r matches Some((i, j)) ==> i < j < names@.len() && same_output(
            names@[i as int]@,
            names@[j as int]@,
        ),
        r is None ==> forall|i: int, j: int|
            0 <= i < j < names@.len() ==> !same_output(
                #[trigger] names@[i]@,
                #[trigger] names@[j]@,
            ),
{
    let mut seen: Vec<Option<Vec<String>>> = Vec::new();
    let mut j: usize = 0;
    while j < names.len()
        invariant
            j <= names@.len(),
            seen@.len() == j,
            forall|k: int|
                0 <= k < j ==> match #[trigger] seen@[k] {
                    Some(c) => path_confined(names@[k]@) && texts(c@) == path_components(
                        names@[k]@,
                    ),
                    None => !path_confined(names@[k]@),
                },
            forall|a: int, b: int|
                0 <= a < b < j ==> !same_output(#[trigger] names@[a]@, #[trigger] names@[b]@),
        decreases names@.len() - j,
    {
        let cj = output_components(names[j].as_str());
        if let Some(cur) = &cj {
            let mut i: usize = 0;
            while i < j
                invariant
                    i <= j,
                    j < names@.len(),
                    seen@.len() == j,
                    cj == Some(*cur),
                    path_confined(names@[j as int]@),
                    texts(cur@) == path_components(names@[j as int]@),
                    forall|k: int|
                        0 <= k < j ==> match #[trigger] seen@[k] {
                            Some(c) => path_confined(names@[k]@) && texts(c@)
                                == path_components(names@[k]@),
                            None => !path_confined(names@[k]@),
                        },
                    forall|a: int| 0 <= a < i ==> !same_output(#[trigger] names@[a]@, names@[j as int]@),
                decreases j - i,
            {
                if let Some(prev) = &seen[i] {
                    assert(seen@[i as int] == Some(*prev));
                    if same_components(prev, cur) {
                        return Some((i, j));
                    }
                } else {
                    assert(seen@[i as int] is None);
                }
                i = i + 1;
            }
        }
        seen.push(cj);
        assert(seen@[j as int] == cj);
        j = j + 1;
    }
    None
}

} // verus!
