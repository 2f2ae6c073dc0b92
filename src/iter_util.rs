//! Removing repeats from a list of paths.
use vstd::prelude::*;

verus! {

/// The characters of each string.
pub open spec fn views(v: Seq<String>) -> Seq<Seq<char>> {
    v.map_values(|s: String| s@)
}

/// Each value once, at the place of its first occurrence.
pub open spec fn unique_of(s: Seq<Seq<char>>) -> Seq<Seq<char>>
    decreases s.len(),
{
    if s.len() == 0 {
        Seq::empty()
    } else {
        let p = unique_of(s.drop_last());
        if p.contains(s.last()) {
            p
        } else {
            p.push(s.last())
        }
    }
}

/// The distinct values of `x`, each once, in the order they first appear.
pub fn iter_unique(x: Vec<String>) -> (r: Vec<String>)
    ensures
        views(r@) == unique_of(views(x@)),
{
    let mut r: Vec<String> = Vec::new();
    let n = x.len();
    for i in 0..n
        invariant
            n == x@.len(),
            views(r@) == unique_of(views(x@).take(i as int)),
    {
        let mut found = false;
        let mut j: usize = 0;
        while j < r.len()
            invariant
                n == x@.len(),
                i < n,
                j <= r@.len(),
                found <==> exists|k: int| 0 <= k < j && r@[k]@ == x@[i as int]@,
            decreases r@.len() - j,
        {
            if r[j] == x[i] {
                found = true;
            }
            j = j + 1;
        }
        proof {
            let s = views(x@).take(i + 1);
            assert(s.drop_last() == views(x@).take(i as int));
            assert(s.last() == x@[i as int]@);
            if found {
                let k = choose|k: int| 0 <= k < r@.len() && r@[k]@ == x@[i as int]@;
                assert(views(r@)[k] == x@[i as int]@);
            } else {
                assert forall|k: int| 0 <= k < views(r@).len() implies views(r@)[k] != s.last() by {
                    assert(views(r@)[k] == r@[k]@);
                }
            }
        }
        if !found {
            r.push(x[i].clone());
            proof {
                assert(views(r@) =~= unique_of(views(x@).take(i + 1)));
            }
        }
    }
    proof {
        assert(views(x@).take(n as int) == views(x@));
    }
    r
}

/// What `iter_unique` returns holds every value of its input, and each only once.
pub proof fn lemma_unique_of(s: Seq<Seq<char>>)
    ensures
        forall|i: int, j: int|
            0 <= i < j < unique_of(s).len() ==> unique_of(s)[i] != unique_of(s)[j],
        forall|v: Seq<char>| #[trigger] unique_of(s).contains(v) <==> s.contains(v),
    decreases s.len(),
{
    if s.len() > 0 {
        let d = s.drop_last();
        lemma_unique_of(d);
        assert forall|v: Seq<char>| s.contains(v) <==> d.contains(v) || v == s.last() by {
            if s.contains(v) {
                let k = choose|k: int| 0 <= k < s.len() && s[k] == v;
                if k < s.len() - 1 {
                    assert(d[k] == v);
                }
            }
            if d.contains(v) {
                let k = choose|k: int| 0 <= k < d.len() && d[k] == v;
                assert(s[k] == v);
            }
            if v == s.last() {
                assert(s[s.len() - 1] == v);
            }
        }
        let p = unique_of(d);
        if !p.contains(s.last()) {
            assert forall|v: Seq<char>| p.push(s.last()).contains(v) <==> p.contains(v) || v == s.last() by {
                if p.push(s.last()).contains(v) {
                    let k = choose|k: int| 0 <= k < p.len() + 1 && p.push(s.last())[k] == v;
                    if k < p.len() {
                        assert(p[k] == v);
                    }
                }
                if p.contains(v) {
                    let k = choose|k: int| 0 <= k < p.len() && p[k] == v;
                    assert(p.push(s.last())[k] == v);
                }
                if v == s.last() {
                    assert(p.push(s.last())[p.len() as int] == v);
                }
            }
            assert forall|i: int, j: int|
                0 <= i < j < p.len() + 1 implies p.push(s.last())[i] != p.push(s.last())[j] by {
                if j == p.len() {
                    assert(p[i] != s.last());
                }
            }
        }
        assert forall|v: Seq<char>| #[trigger] unique_of(s).contains(v) <==> s.contains(v) by {
            assert(p.contains(v) <==> d.contains(v));
        }
    }
}

} // verus!
