//! File extensions, read the way the standard library reads them: the part
//! of the last path component after its last dot, when that dot is not the
//! component's first character.
use vstd::prelude::*;
use vstd::string::*;

verus! {

/// The index of the last `c` in `s`, or -1.
pub open spec fn last_index(s: Seq<char>, c: char) -> int
    decreases s.len(),
{
    if s.len() == 0 {
        -1
    } else if s.last() == c {
        s.len() - 1
    } else {
        last_index(s.drop_last(), c)
    }
}

/// The last component of a `/`-separated path.
pub open spec fn file_name(s: Seq<char>) -> Seq<char> {
    s.subrange(last_index(s, '/') + 1, s.len() as int)
}

/// The extension of a path, if it has one.
pub open spec fn extension(s: Seq<char>) -> Option<Seq<char>> {
    let n = file_name(s);
    let d = last_index(n, '.');
    if d > 0 {
        Some(n.subrange(d + 1, n.len() as int))
    } else {
        None
    }
}

proof fn lemma_last_index(s: Seq<char>, c: char, k: int)
    requires
        -1 <= k < s.len(),
        k >= 0 ==> s[k] == c,
        forall|j: int| k < j < s.len() ==> s[j] != c,
    ensures
        last_index(s, c) == k,
    decreases s.len(),
{
    if s.len() > 0 && k < s.len() - 1 {
        assert(s[s.len() - 1] != c);
        lemma_last_index(s.drop_last(), c, k);
    }
}

/// The last index at or after `lo` that holds `c`.
fn last_in(s: &str, len: usize, lo: usize, c: char) -> (r: Option<usize>)
    requires
        len == s@.len(),
        lo <= len,
    ensures
        r matches Some(k) ==> lo <= k < len && s@[k as int] == c && forall|j: int|
            k < j < len ==> s@[j] != c,
        r is None ==> forall|j: int| lo <= j < len ==> s@[j] != c,
{
    let mut i = len;
    while i > lo
        invariant
            lo <= i <= len,
            len == s@.len(),
            forall|j: int| i <= j < len ==> s@[j] != c,
        decreases i,
    {
        if s.get_char(i - 1) == c {
            return Some(i - 1);
        }
        i = i - 1;
    }
    None
}

/// Whether the path's extension is exactly `ext`.
pub fn has_extension(path: &str, ext: &Vec<char>) -> (r: bool)
    ensures
        r == (extension(path@) == Some(ext@)),
{
    let ghost s = path@;
    let len = path.unicode_len();
    let start = match last_in(path, len, 0, '/') {
        Some(k) => k + 1,
        None => 0,
    };
    proof {
        lemma_last_index(s, '/', start - 1);
    }
    let ghost name = file_name(s);
    assert(name == s.subrange(start as int, len as int));
    let dot = last_in(path, len, start, '.');
    match dot {
        Some(d) => {
            proof {
                assert forall|j: int| d - start < j < name.len() implies name[j] != '.' by {
                    assert(name[j] == s[j + start]);
                }
                lemma_last_index(name, '.', d - start);
            }
            if d == start {
                return false;
            }
            let ghost tail = s.subrange(d + 1, len as int);
            assert(tail == name.subrange(d - start + 1, name.len() as int));
            assert(extension(s) == Some(tail));
            if len - (d + 1) != ext.len() {
                proof {
                    assert(tail.len() != ext@.len());
                }
                return false;
            }
            let mut k: usize = 0;
            while k < ext.len()
                invariant
                    k <= ext@.len(),
                    ext@.len() == len - (d + 1),
                    len == s.len(),
                    s == path@,
                    d + 1 <= len,
                    tail == s.subrange(d + 1, len as int),
                    extension(s) == Some(tail),
                    forall|j: int| 0 <= j < k ==> tail[j] == ext@[j],
                decreases ext@.len() - k,
            {
                if path.get_char(d + 1 + k) != ext[k] {
                    proof {
                        assert(tail[k as int] != ext@[k as int]);
                    }
                    return false;
                }
                k = k + 1;
            }
            proof {
                assert(tail =~= ext@);
            }
            true
        },
        None => {
            proof {
                assert forall|j: int| -1 < j < name.len() implies name[j] != '.' by {
                    assert(name[j] == s[j + start]);
                }
                lemma_last_index(name, '.', -1);
            }
            false
        },
    }
}

/// What a changed file means for the running script.
#[derive(Clone, Copy, Debug, PartialEq, Eq, Structural)]
pub enum PathKind {
    Script,
    Image,
    Other,
}

pub open spec fn script_extensions() -> Seq<Seq<char>> {
    seq![seq!['j', 's']]
}

pub open spec fn image_extensions() -> Seq<Seq<char>> {
    seq![
        seq!['p', 'n', 'g'],
        seq!['j', 'p', 'g'],
        seq!['j', 'p', 'e', 'g'],
        seq!['g', 'i', 'f'],
        seq!['b', 'm', 'p'],
    ]
}

pub open spec fn spec_classify(path: Seq<char>) -> PathKind {
    match extension(path) {
        Some(e) => if script_extensions().contains(e) {
            PathKind::Script
        } else if image_extensions().contains(e) {
            PathKind::Image
        } else {
            PathKind::Other
        },
        None => PathKind::Other,
    }
}

/// Script sources end in `.js`; images in `.png`, `.jpg`, `.jpeg`, `.gif` or `.bmp`.
pub fn classify(path: &str) -> (r: PathKind)
    ensures
        r == spec_classify(path@),
{
    let exts = vec![vec!['j', 's']];
    proof {
        assert(exts@.map_values(|v: Vec<char>| v@) =~= script_extensions());
    }
    if any_extension(path, &exts) {
        return PathKind::Script;
    }
    let exts = vec![
        vec!['p', 'n', 'g'],
        vec!['j', 'p', 'g'],
        vec!['j', 'p', 'e', 'g'],
        vec!['g', 'i', 'f'],
        vec!['b', 'm', 'p'],
    ];
    proof {
        assert(exts@.map_values(|v: Vec<char>| v@) =~= image_extensions());
    }
    if any_extension(path, &exts) {
        PathKind::Image
    } else {
        PathKind::Other
    }
}

fn any_extension(path: &str, exts: &Vec<Vec<char>>) -> (r: bool)
    ensures
        r == (extension(path@) is Some && exts@.map_values(|v: Vec<char>| v@).contains(
            extension(path@)->0,
        )),
{
    let ghost views = exts@.map_values(|v: Vec<char>| v@);
    let mut i: usize = 0;
    while i < exts.len()
        invariant
            i <= exts@.len(),
            views == exts@.map_values(|v: Vec<char>| v@),
            forall|j: int| 0 <= j < i ==> extension(path@) != Some(views[j]),
        decreases exts@.len() - i,
    {
        if has_extension(path, &exts[i]) {
            proof {
                assert(views[i as int] == exts@[i as int]@);
            }
            return true;
        }
        proof {
            assert(views[i as int] == exts@[i as int]@);
        }
        i = i + 1;
    }
    proof {
        if extension(path@) is Some && views.contains(extension(path@)->0) {
            let j = choose|j: int| 0 <= j < views.len() && views[j] == extension(path@)->0;
            assert(extension(path@) == Some(views[j]));
        }
    }
    false
}

} // verus!
