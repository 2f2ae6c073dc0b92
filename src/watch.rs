//! The watch table: data files a script asked to follow, each with the
//! callback to run when the file changes.
use std::rc::Rc;
use vstd::hash_map::StringHashMap;
use vstd::prelude::*;

use crate::commands::share;

verus! {

/// Callbacks by watched path. Registering a path again replaces its callback.
#[verifier::reject_recursive_types(C)]
pub struct WatchTable<C> {
    by_path: StringHashMap<Rc<C>>,
}

impl<C> View for WatchTable<C> {
    type V = Map<Seq<char>, Rc<C>>;

    closed spec fn view(&self) -> Map<Seq<char>, Rc<C>> {
        self.by_path@
    }
}

impl<C> WatchTable<C> {
    pub fn new() -> (r: Self)
        ensures
            r@ == Map::<Seq<char>, Rc<C>>::empty(),
    {
        WatchTable { by_path: StringHashMap::new() }
    }

    /// Registers `callback` for `path`, replacing any earlier one.
    pub fn watch(&mut self, path: String, callback: C)
        ensures
            final(self)@.contains_key(path@),
            *final(self)@[path@] == callback,
            final(self)@.remove(path@) == old(self)@.remove(path@),
    {
        let ghost p = path@;
        self.by_path.insert(path, Rc::new(callback));
        proof {
            assert(self@.remove(p) =~= old(self)@.remove(p));
        }
    }

    /// The callback registered for `path`, if any.
    pub fn callback_for(&self, path: &str) -> (r: Option<Rc<C>>)
        ensures
            r matches Some(c) ==> self@.contains_key(path@) && self@[path@] == c,
            r is None ==> !self@.contains_key(path@),
    {
        match self.by_path.get(path) {
            Some(c) => Some(share(c)),
            None => None,
        }
    }

    pub fn is_watched(&self, path: &str) -> (r: bool)
        ensures
            r == self@.contains_key(path@),
    {
        self.by_path.contains_key(path)
    }
}

} // verus!
