use std::rc::Rc;

use signrs::iter_util::iter_unique;
use signrs::paths::{classify, has_extension, PathKind};
use signrs::reload::{apply_rebuild, plan_file_changes};
use signrs::watch::WatchTable;

fn s(v: &str) -> String {
    v.to_string()
}

#[test]
fn many_script_changes_plan_one_rebuild() {
    let watches: WatchTable<u8> = WatchTable::new();
    let plan = plan_file_changes(vec![s("main.js"), s("lib/util.js"), s("main.js"), s("scenes/a.js")], &watches);
    assert!(plan.reload);
    assert!(plan.callbacks.is_empty());
    assert!(plan.images.is_empty());
}

#[test]
fn no_script_change_plans_no_rebuild() {
    let watches: WatchTable<u8> = WatchTable::new();
    let plan = plan_file_changes(vec![s("notes.txt"), s("logo.png"), s("logo.png")], &watches);
    assert!(!plan.reload);
    assert_eq!(plan.images, vec![s("logo.png")]);
    let empty = plan_file_changes(vec![], &watches);
    assert!(!empty.reload && empty.callbacks.is_empty() && empty.images.is_empty());
}

#[test]
fn failed_rebuild_keeps_the_running_context() {
    let (ctx, err) = apply_rebuild(s("old context"), Err::<String, String>(s("syntax error")));
    assert_eq!(ctx, "old context");
    assert_eq!(err, Some(s("syntax error")));
    // The retained context keeps serving ticks.
    let (ctx, err) = apply_rebuild(ctx, Ok::<String, String>(s("new context")));
    assert_eq!(ctx, "new context");
    assert_eq!(err, None);
}

#[test]
fn watched_file_runs_its_callback_once_per_tick() {
    let mut watches: WatchTable<&'static str> = WatchTable::new();
    watches.watch(s("config.json"), "cb");
    let plan = plan_file_changes(vec![s("config.json"), s("config.json"), s("config.json")], &watches);
    assert_eq!(plan.callbacks, vec![s("config.json")]);
    assert!(!plan.reload);
    let next = plan_file_changes(vec![s("config.json")], &watches);
    assert_eq!(next.callbacks, vec![s("config.json")]);
    let quiet = plan_file_changes(vec![s("other.json")], &watches);
    assert!(quiet.callbacks.is_empty());
}

#[test]
fn watched_script_file_is_not_a_rebuild() {
    let mut watches: WatchTable<u8> = WatchTable::new();
    watches.watch(s("data.js"), 1);
    let plan = plan_file_changes(vec![s("data.js"), s("main.js")], &watches);
    assert_eq!(plan.callbacks, vec![s("data.js")]);
    assert!(plan.reload);
}

#[test]
fn watching_again_replaces_the_callback() {
    let mut watches: WatchTable<u8> = WatchTable::new();
    watches.watch(s("a.json"), 1);
    watches.watch(s("a.json"), 2);
    watches.watch(s("b.json"), 3);
    assert_eq!(watches.callback_for(&s("a.json")).map(|c| *c), Some(2));
    assert_eq!(watches.callback_for(&s("b.json")).map(|c| *c), Some(3));
    assert!(watches.callback_for(&s("c.json")).is_none());
    assert!(watches.is_watched(&s("b.json")));
    assert!(!watches.is_watched(&s("c.json")));
    let cb: Rc<u8> = watches.callback_for(&s("a.json")).unwrap();
    assert_eq!(*cb, 2);
}

#[test]
fn iter_unique_keeps_first_occurrences() {
    let out = iter_unique(vec![s("b"), s("a"), s("b"), s("c"), s("a")]);
    assert_eq!(out, vec![s("b"), s("a"), s("c")]);
    assert!(iter_unique(vec![]).is_empty());
}

#[test]
fn extensions_follow_the_last_component() {
    let js = vec!['j', 's'];
    assert!(has_extension("main.js", &js));
    assert!(has_extension("dir.v2/main.js", &js));
    assert!(!has_extension("main.json", &js));
    assert!(!has_extension(".js", &js));
    assert!(!has_extension("dir.js/readme", &js));
    assert!(!has_extension("", &js));
    assert!(has_extension("a/.hidden.js", &js));
}

#[test]
fn classify_scripts_images_and_others() {
    assert_eq!(classify("main.js"), PathKind::Script);
    assert_eq!(classify("img/logo.png"), PathKind::Image);
    assert_eq!(classify("photo.jpeg"), PathKind::Image);
    assert_eq!(classify("photo.jpg"), PathKind::Image);
    assert_eq!(classify("anim.gif"), PathKind::Image);
    assert_eq!(classify("old.bmp"), PathKind::Image);
    assert_eq!(classify("config.json"), PathKind::Other);
    assert_eq!(classify("Makefile"), PathKind::Other);
}
