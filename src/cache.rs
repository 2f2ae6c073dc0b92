//! Memoised renderer resources: shaped text blocks keyed by text and
//! quantised scale, and image handles keyed by path.
use std::rc::Rc;
use vstd::hash_map::{HashMapWithView, StringHashMap};
use vstd::prelude::*;

use crate::commands::share;

verus! {

/// The cache key for a text scale given in units: the scale in hundredths,
/// with the rest dropped toward zero, so that nearly equal scales share an entry.
pub open spec fn spec_scale_key(scale: i32) -> i32 {
    if scale >= 0 {
        (scale / 10) as i32
    } else {
        -((-scale) / 10) as i32
    }
}

#[verifier::when_used_as_spec(spec_scale_key)]
pub fn scale_key(scale: i32) -> (r: i32)
    ensures
        r == spec_scale_key(scale),
{
    if scale >= 0 {
        scale / 10
    } else {
        let magnitude: i64 = -(scale as i64);
        -((magnitude / 10) as i32)
    }
}

/// A lookup that memoises: a key already present gives its value and changes
/// nothing; a missing key is added with the value given out.
pub open spec fn memo_lookup<K, V>(before: Map<K, V>, after: Map<K, V>, k: K, r: V) -> bool {
    &&& before.contains_key(k) ==> r == before[k] && after == before
    &&& !before.contains_key(k) ==> after == before.insert(k, r)
}

/// Asking the cache twice for the same key, with nothing in between, gives the
/// identical value, and the second request adds no entry. For the text cache
/// the key is the text with its scale key, so two scales with the same key
/// share one block.
pub proof fn lemma_second_lookup_is_identical<K, V>(
    m0: Map<K, V>,
    m1: Map<K, V>,
    m2: Map<K, V>,
    k: K,
    r1: V,
    r2: V,
)
    requires
        memo_lookup(m0, m1, k, r1),
        memo_lookup(m1, m2, k, r2),
    ensures
        r2 == r1,
        m2 == m1,
        m1.contains_key(k),
{
}

/// Shaped text blocks by (text, scale key). Entries are never evicted.
#[verifier::reject_recursive_types(H)]
pub struct TextLayoutCache<H> {
    by_scale: HashMapWithView<i32, StringHashMap<Rc<H>>>,
    count: usize,
}

impl<H> View for TextLayoutCache<H> {
    type V = Map<(Seq<char>, i32), Rc<H>>;

    closed spec fn view(&self) -> Map<(Seq<char>, i32), Rc<H>> {
        Map::new(
            |k: (Seq<char>, i32)| self.by_scale@.contains_key(k.1) && self.by_scale@[k.1]@.contains_key(k.0),
            |k: (Seq<char>, i32)| self.by_scale@[k.1]@[k.0],
        )
    }
}

/// The number of entries of a map, counted up to `usize::MAX`.
pub open spec fn capped_len<K, V>(m: Map<K, V>) -> usize {
    if m.dom().len() < usize::MAX {
        m.dom().len() as usize
    } else {
        usize::MAX
    }
}

impl<H> TextLayoutCache<H> {
    pub closed spec fn wf(&self) -> bool {
        &&& self@.dom().finite()
        &&& self.count == capped_len(self@)
    }

    pub fn new() -> (r: Self)
        ensures
            r.wf(),
            r@ == Map::<(Seq<char>, i32), Rc<H>>::empty(),
    {
        broadcast use vstd::std_specs::hash::group_hash_axioms;

        let r = TextLayoutCache { by_scale: HashMapWithView::new(), count: 0 };
        proof {
            assert(r@ =~= Map::<(Seq<char>, i32), Rc<H>>::empty());
        }
        r
    }

    /// The block for `text` at `scale`: the one made earlier for the same text
    /// and scale key if there is one, else a new one from `create`, kept for
    /// later calls.
    pub fn get_or_create<F: FnOnce() -> H>(&mut self, text: &str, scale: i32, create: F) -> (r: Rc<H>)
        requires
            old(self).wf(),
            create.requires(()),
        ensures
            final(self).wf(),
            memo_lookup(old(self)@, final(self)@, (text@, spec_scale_key(scale)), r),
            !old(self)@.contains_key((text@, spec_scale_key(scale))) ==> create.ensures((), *r),
    {
        let key = scale_key(scale);
        let found = match self.by_scale.get(&key) {
            Some(texts) => match texts.get(text) {
                Some(block) => Some(share(block)),
                None => None,
            },
            None => None,
        };
        match found {
            Some(block) => block,
            None => {
                let ghost before = self@;
                let block = Rc::new(create());
                let mut texts = match self.by_scale.remove(&key) {
                    Some(texts) => texts,
                    None => StringHashMap::new(),
                };
                texts.insert(text.to_owned(), share(&block));
                self.by_scale.insert(key, texts);
                proof {
                    assert(self@ =~= before.insert((text@, key), block));
                    assert(self@.dom() =~= before.dom().insert((text@, key)));
                }
                if self.count < usize::MAX {
                    self.count = self.count + 1;
                }
                block
            },
        }
    }

    /// How many distinct (text, scale key) entries are held, counted up to `usize::MAX`.
    pub fn len(&self) -> (r: usize)
        requires
            self.wf(),
        ensures
            r == capped_len(self@),
    {
        self.count
    }
}

/// Image handles by path relative to the application root. Entries are
/// replaced when the file changes and never evicted otherwise.
#[verifier::reject_recursive_types(H)]
pub struct ImageCache<H> {
    by_path: StringHashMap<Rc<H>>,
}

impl<H> View for ImageCache<H> {
    type V = Map<Seq<char>, Rc<H>>;

    closed spec fn view(&self) -> Map<Seq<char>, Rc<H>> {
        self.by_path@
    }
}

impl<H> ImageCache<H> {
    pub fn new() -> (r: Self)
        ensures
            r@ == Map::<Seq<char>, Rc<H>>::empty(),
    {
        ImageCache { by_path: StringHashMap::new() }
    }

    /// The handle for `path`: the cached one if there is one, else the one
    /// `create` makes, which is then kept. When `create` fails nothing changes.
    pub fn get_or_create<E, F: FnOnce() -> Result<H, E>>(&mut self, path: &str, create: F) -> (r:
        Result<Rc<H>, E>)
        requires
            create.requires(()),
        ensures
            old(self)@.contains_key(path@) ==> r == Ok::<Rc<H>, E>(old(self)@[path@])
                && final(self)@ == old(self)@,
            !old(self)@.contains_key(path@) ==> match r {
                Ok(h) => create.ensures((), Ok::<H, E>(*h))
                    && final(self)@ == old(self)@.insert(path@, h),
                Err(e) => create.ensures((), Err::<H, E>(e)) && final(self)@ == old(self)@,
            },
    {
        if let Some(handle) = self.by_path.get(path) {
            return Ok(share(handle));
        }
        match create() {
            Ok(h) => {
                let handle = Rc::new(h);
                self.by_path.insert(path.to_owned(), share(&handle));
                Ok(handle)
            },
            Err(e) => Err(e),
        }
    }

    /// Replaces the handle for `path` with `handle`, for frames replayed from now on.
    pub fn invalidate(&mut self, path: String, handle: H)
        ensures
            final(self)@.contains_key(path@),
            *final(self)@[path@] == handle,
            final(self)@.remove(path@) == old(self)@.remove(path@),
    {
        let ghost p = path@;
        self.by_path.insert(path, Rc::new(handle));
        proof {
            assert(self@.remove(p) =~= old(self)@.remove(p));
        }
    }
}

} // verus!
