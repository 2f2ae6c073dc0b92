//! Folding file-change events into a tick: which watched files' callbacks to
//! run, which images to reload, and whether the script must be rebuilt.
use vstd::prelude::*;

use crate::iter_util::{iter_unique, lemma_unique_of, unique_of, views};
use crate::paths::{classify, spec_classify, PathKind};
use crate::watch::WatchTable;

verus! {

/// What one tick does about the files that changed since the last one.
pub struct TickPlan {
    /// Watched data files whose callbacks run, each once.
    pub callbacks: Vec<String>,
    /// Image files whose cached handles are replaced.
    pub images: Vec<String>,
    /// Whether the script context is rebuilt; at most once per tick.
    pub reload: bool,
}

/// The changed paths that are watched, in order.
pub open spec fn callbacks_of(s: Seq<Seq<char>>, watched: Set<Seq<char>>) -> Seq<Seq<char>>
    decreases s.len(),
{
    if s.len() == 0 {
        Seq::empty()
    } else if watched.contains(s.last()) {
        callbacks_of(s.drop_last(), watched).push(s.last())
    } else {
        callbacks_of(s.drop_last(), watched)
    }
}

/// The changed paths that are not watched and name images, in order.
pub open spec fn images_of(s: Seq<Seq<char>>, watched: Set<Seq<char>>) -> Seq<Seq<char>>
    decreases s.len(),
{
    if s.len() == 0 {
        Seq::empty()
    } else if !watched.contains(s.last()) && spec_classify(s.last()) == PathKind::Image {
        images_of(s.drop_last(), watched).push(s.last())
    } else {
        images_of(s.drop_last(), watched)
    }
}

/// Whether some changed path is an unwatched script source.
pub open spec fn reload_of(s: Seq<Seq<char>>, watched: Set<Seq<char>>) -> bool
    decreases s.len(),
{
    if s.len() == 0 {
        false
    } else {
        reload_of(s.drop_last(), watched) || (!watched.contains(s.last()) && spec_classify(s.last())
            == PathKind::Script)
    }
}

/// Plans one tick from the paths that changed since the last one. Repeated
/// events for a path count once; a watched path runs its callback and is not
/// classified further.
pub fn plan_file_changes<C>(events: Vec<String>, watches: &WatchTable<C>) -> (r: TickPlan)
    ensures
        views(r.callbacks@) == callbacks_of(unique_of(views(events@)), watches@.dom()),
        views(r.images@) == images_of(unique_of(views(events@)), watches@.dom()),
        r.reload == reload_of(unique_of(views(events@)), watches@.dom()),
{
    let changed = iter_unique(events);
    let ghost u = views(changed@);
    let ghost w = watches@.dom();
    let mut callbacks: Vec<String> = Vec::new();
    let mut images: Vec<String> = Vec::new();
    let mut reload = false;
    let n = changed.len();
    for i in 0..n
        invariant
            n == changed@.len(),
            u == views(changed@),
            w == watches@.dom(),
            views(callbacks@) == callbacks_of(u.take(i as int), w),
            views(images@) == images_of(u.take(i as int), w),
            reload == reload_of(u.take(i as int), w),
    {
        let path = &changed[i];
        proof {
            assert(u.take(i + 1).drop_last() == u.take(i as int));
            assert(u.take(i + 1).last() == path@);
        }
        if watches.is_watched(path.as_str()) {
            callbacks.push(path.clone());
            proof {
                assert(views(callbacks@) =~= callbacks_of(u.take(i + 1), w));
            }
        } else {
            match classify(path.as_str()) {
                PathKind::Script => {
                    reload = true;
                },
                PathKind::Image => {
                    images.push(path.clone());
                    proof {
                        assert(views(images@) =~= images_of(u.take(i + 1), w));
                    }
                },
                PathKind::Other => {},
            }
        }
    }
    proof {
        assert(u.take(n as int) == u);
    }
    TickPlan { callbacks, images, reload }
}

/// In a tick, the callback of a watched file runs once if the file changed,
/// however many events reported it, and not at all otherwise.
pub proof fn lemma_one_callback_per_change(events: Seq<Seq<char>>, watched: Set<Seq<char>>)
    ensures
        forall|i: int, j: int|
            0 <= i < j < callbacks_of(unique_of(events), watched).len() ==> callbacks_of(
                unique_of(events),
                watched,
            )[i] != callbacks_of(unique_of(events), watched)[j],
        forall|p: Seq<char>| #[trigger]
            callbacks_of(unique_of(events), watched).contains(p) <==> events.contains(p)
                && watched.contains(p),
{
    lemma_unique_of(events);
    lemma_callbacks(unique_of(events), watched);
}

proof fn lemma_callbacks(s: Seq<Seq<char>>, watched: Set<Seq<char>>)
    requires
        forall|i: int, j: int| 0 <= i < j < s.len() ==> s[i] != s[j],
    ensures
        forall|i: int, j: int|
            0 <= i < j < callbacks_of(s, watched).len() ==> callbacks_of(s, watched)[i]
                != callbacks_of(s, watched)[j],
        forall|p: Seq<char>| #[trigger]
            callbacks_of(s, watched).contains(p) <==> s.contains(p) && watched.contains(p),
    decreases s.len(),
{
    if s.len() > 0 {
        let d = s.drop_last();
        assert forall|i: int, j: int| 0 <= i < j < d.len() implies d[i] != d[j] by {
            assert(d[i] == s[i] && d[j] == s[j]);
        }
        lemma_callbacks(d, watched);
        let c = callbacks_of(d, watched);
        assert forall|p: Seq<char>| s.contains(p) <==> d.contains(p) || p == s.last() by {
            if s.contains(p) {
                let k = choose|k: int| 0 <= k < s.len() && s[k] == p;
                if k < s.len() - 1 {
                    assert(d[k] == p);
                }
            }
            if d.contains(p) {
                let k = choose|k: int| 0 <= k < d.len() && d[k] == p;
                assert(s[k] == p);
            }
            if p == s.last() {
                assert(s[s.len() - 1] == p);
            }
        }
        assert(!d.contains(s.last())) by {
            if d.contains(s.last()) {
                let k = choose|k: int| 0 <= k < d.len() && d[k] == s.last();
                assert(s[k] == s[s.len() - 1]);
            }
        }
        if watched.contains(s.last()) {
            let c2 = c.push(s.last());
            assert forall|p: Seq<char>| c2.contains(p) <==> c.contains(p) || p == s.last() by {
                if c2.contains(p) {
                    let k = choose|k: int| 0 <= k < c2.len() && c2[k] == p;
                    if k < c.len() {
                        assert(c[k] == p);
                    }
                }
                if c.contains(p) {
                    let k = choose|k: int| 0 <= k < c.len() && c[k] == p;
                    assert(c2[k] == p);
                }
                if p == s.last() {
                    assert(c2[c.len() as int] == p);
                }
            }
            assert forall|i: int, j: int| 0 <= i < j < c2.len() implies c2[i] != c2[j] by {
                if j == c.len() {
                    assert(c.contains(c[i]));
                }
            }
            assert forall|p: Seq<char>| #[trigger]
                callbacks_of(s, watched).contains(p) <==> s.contains(p) && watched.contains(p) by {
                assert(c.contains(p) <==> d.contains(p) && watched.contains(p));
            }
        } else {
            assert forall|p: Seq<char>| #[trigger]
                callbacks_of(s, watched).contains(p) <==> s.contains(p) && watched.contains(p) by {
                assert(c.contains(p) <==> d.contains(p) && watched.contains(p));
            }
        }
    }
}

/// In a tick, the script is rebuilt exactly when some changed path that is not
/// watched is a script source, and the plan holds a single flag for it: one
/// rebuild however many script files changed.
pub proof fn lemma_reload_once(events: Seq<Seq<char>>, watched: Set<Seq<char>>)
    ensures
        reload_of(unique_of(events), watched) <==> exists|p: Seq<char>|
            #![trigger events.contains(p)]
            events.contains(p) && !watched.contains(p) && spec_classify(p) == PathKind::Script,
{
    lemma_unique_of(events);
    let u = unique_of(events);
    lemma_reload(u, watched);
    if reload_of(u, watched) {
        let k = choose|k: int|
            0 <= k < u.len() && !watched.contains(u[k]) && spec_classify(u[k]) == PathKind::Script;
        assert(u.contains(u[k]));
        assert(events.contains(u[k]));
    }
    if exists|p: Seq<char>|
        #![trigger events.contains(p)]
        events.contains(p) && !watched.contains(p) && spec_classify(p) == PathKind::Script {
        let p = choose|p: Seq<char>|
            #![trigger events.contains(p)]
            events.contains(p) && !watched.contains(p) && spec_classify(p) == PathKind::Script;
        assert(u.contains(p));
        let k = choose|k: int| 0 <= k < u.len() && u[k] == p;
        assert(!watched.contains(u[k]) && spec_classify(u[k]) == PathKind::Script);
    }
}

proof fn lemma_reload(s: Seq<Seq<char>>, watched: Set<Seq<char>>)
    ensures
        reload_of(s, watched) <==> exists|k: int|
            0 <= k < s.len() && !watched.contains(s[k]) && spec_classify(s[k]) == PathKind::Script,
    decreases s.len(),
{
    if s.len() > 0 {
        let d = s.drop_last();
        lemma_reload(d, watched);
        if reload_of(d, watched) {
            let k = choose|k: int|
                0 <= k < d.len() && !watched.contains(d[k]) && spec_classify(d[k]) == PathKind::Script;
            assert(s[k] == d[k]);
        }
        if exists|k: int|
            0 <= k < s.len() && !watched.contains(s[k]) && spec_classify(s[k]) == PathKind::Script {
            let k = choose|k: int|
                0 <= k < s.len() && !watched.contains(s[k]) && spec_classify(s[k]) == PathKind::Script;
            if k < s.len() - 1 {
                assert(d[k] == s[k]);
            }
        }
    }
}

/// The outcome of rebuilding the script context: the new context when the
/// rebuild succeeded, else the one that was running, with the error.
pub fn apply_rebuild<S, E>(current: S, attempt: Result<S, E>) -> (r: (S, Option<E>))
    ensures
        match attempt {
            Ok(s) => r.0 == s && r.1 is None,
            Err(e) => r.0 == current && r.1 == Some(e),
        },
{
    match attempt {
        Ok(s) => (s, None),
        Err(e) => (current, Some(e)),
    }
}

} // verus!
