use chaseln::chain::{EntriesChain, HopEvent, Query};
use chaseln::entry::{EntryKind, EntryPrefix};

fn readlink_query_path(c: &EntriesChain) -> String {
    match c.query() {
        Query::NeedsReadlink(p) => p,
        _ => panic!("expected a readlink query"),
    }
}

fn stat_query_path(c: &EntriesChain) -> String {
    match c.query() {
        Query::NeedsStat(p) => p,
        _ => panic!("expected a stat query"),
    }
}

#[test]
fn scenario_symlink_to_file() {
    // /tmp/a is a symlink whose literal text is "b"; /tmp/b is a regular file.
    let mut c = chaseln::chaseln("/tmp", "a", EntryKind::Symlink);
    assert_eq!(readlink_query_path(&c), "/tmp/a");
    let resolved = chaseln::util::resolve_symlink_target("/tmp/a", "b").unwrap();
    assert_eq!(resolved, "/tmp/b");
    let e1 = c
        .pull(HopEvent::LinkRead { target: String::from("b"), kind: EntryKind::File })
        .unwrap();
    assert_eq!(e1.render(), "🔗 /tmp/a");
    assert_eq!(e1.prefix, EntryPrefix::First);
    assert!(matches!(c.query(), Query::NoInput));
    let e2 = c.pull(HopEvent::NoInput).unwrap();
    assert_eq!(e2.render(), "→ 📄 b");
    assert_eq!(e2.abs_location, "/tmp/b");
    assert!(matches!(c.query(), Query::Exhausted));
    assert!(c.pull(HopEvent::NoInput).is_none());
}

#[test]
fn scenario_symlink_to_itself() {
    // /tmp/x is a symlink to itself: the resolved location equals the
    // initial one, so the second entry is marked Seen and ends the chain.
    let mut c = chaseln::chaseln("/tmp", "x", EntryKind::Symlink);
    assert_eq!(readlink_query_path(&c), "/tmp/x");
    let e1 = c
        .pull(HopEvent::LinkRead { target: String::from("x"), kind: EntryKind::Symlink })
        .unwrap();
    assert_eq!(e1.render(), "🔗 /tmp/x");
    let e2 = c.pull(HopEvent::NoInput).unwrap();
    assert_eq!(e2.render(), "🔁 🔗 x");
    assert_eq!(e2.prefix, EntryPrefix::Seen);
    assert_eq!(e2.abs_location, "/tmp/x");
    assert!(c.pull(HopEvent::NoInput).is_none());
}

#[test]
fn scenario_missing_path() {
    // /tmp/missing does not exist: exactly one line.
    let mut c = chaseln::chaseln("/tmp", "missing", EntryKind::DoesNotExist);
    assert!(matches!(c.query(), Query::NoInput));
    let e1 = c.pull(HopEvent::NoInput).unwrap();
    assert_eq!(e1.render(), "❌ /tmp/missing");
    assert!(c.pull(HopEvent::NoInput).is_none());
    assert!(matches!(c.query(), Query::Exhausted));
}

#[test]
fn scenario_symlink_with_trailing_slash() {
    // /tmp/d/ where /tmp/d is a symlink to the real directory /tmp/real:
    // the non-following stat classifies the path as a symlink, so the
    // dereference wins over any trailing-slash handling.
    let mut c = chaseln::chaseln("/tmp", "d/", EntryKind::Symlink);
    assert_eq!(readlink_query_path(&c), "/tmp/d/");
    let resolved = chaseln::util::resolve_symlink_target("/tmp/d/", "real").unwrap();
    assert_eq!(resolved, "/tmp/real");
    let e1 = c
        .pull(HopEvent::LinkRead { target: String::from("real"), kind: EntryKind::Directory })
        .unwrap();
    assert_eq!(e1.render(), "🔗 /tmp/d/");
    let e2 = c.pull(HopEvent::NoInput).unwrap();
    assert_eq!(e2.render(), "→ 📁 real");
    assert_eq!(e2.abs_location, "/tmp/real");
    assert!(c.pull(HopEvent::NoInput).is_none());
}

#[test]
fn directory_with_trailing_slash_is_trimmed() {
    let mut c = chaseln::chaseln("/", "tmp/real/", EntryKind::Directory);
    assert_eq!(stat_query_path(&c), "/tmp/real");
    let e1 = c.pull(HopEvent::Normalized { kind: EntryKind::Directory }).unwrap();
    assert_eq!(e1.render(), "📁 /tmp/real/");
    let e2 = c.pull(HopEvent::NoInput).unwrap();
    assert_eq!(e2.render(), "← 📁 /tmp/real");
    assert_eq!(e2.prefix, EntryPrefix::TrimmedTrailingSlash);
    assert!(c.pull(HopEvent::NoInput).is_none());
}

#[test]
fn directory_without_trailing_slash_is_terminal() {
    // Round trip: no symlink, no trailing separator — exactly one entry,
    // prefix First, kind as classified.
    let mut c = chaseln::chaseln("/", "tmp", EntryKind::Directory);
    assert!(matches!(c.query(), Query::NoInput));
    let e1 = c.pull(HopEvent::NoInput).unwrap();
    assert_eq!(e1.prefix, EntryPrefix::First);
    assert_eq!(e1.kind, EntryKind::Directory);
    assert_eq!(e1.render(), "📁 /tmp");
    assert!(c.pull(HopEvent::NoInput).is_none());
}

#[test]
fn root_with_trailing_slash_is_seen() {
    // "/" already ends in the separator and normalizes to itself, which is
    // the initial location: the chain returns to its origin and stops.
    let mut c = chaseln::chain::EntriesChain::new(String::from("/"), EntryKind::Directory);
    assert_eq!(stat_query_path(&c), "/");
    let e1 = c.pull(HopEvent::Normalized { kind: EntryKind::Directory }).unwrap();
    assert_eq!(e1.render(), "📁 /");
    let e2 = c.pull(HopEvent::NoInput).unwrap();
    assert_eq!(e2.render(), "🔁 📁 /");
    assert_eq!(e2.prefix, EntryPrefix::Seen);
    assert!(c.pull(HopEvent::NoInput).is_none());
}

#[test]
fn link_read_failure_ends_chain() {
    // A symlink whose target cannot be read: the chain ends at that hop.
    let mut c = chaseln::chaseln("/tmp", "a", EntryKind::Symlink);
    let e1 = c.pull(HopEvent::LinkFailed).unwrap();
    assert_eq!(e1.render(), "🔗 /tmp/a");
    assert!(c.pull(HopEvent::NoInput).is_none());
}

#[test]
fn symlink_at_root_has_no_parent() {
    // A symlink at "/" itself has no parent directory to resolve against:
    // the chain ends at that hop.
    let mut c = chaseln::chain::EntriesChain::new(String::from("/"), EntryKind::Symlink);
    assert_eq!(readlink_query_path(&c), "/");
    assert!(chaseln::util::resolve_symlink_target("/", "x").is_none());
    let e1 = c
        .pull(HopEvent::LinkRead { target: String::from("x"), kind: EntryKind::File })
        .unwrap();
    assert_eq!(e1.render(), "🔗 /");
    assert!(c.pull(HopEvent::NoInput).is_none());
}

#[test]
fn ill_matched_event_ends_chain() {
    // A pull that needed a link read but got no input terminates the
    // traversal at the produced entry instead of erring.
    let mut c = chaseln::chaseln("/tmp", "a", EntryKind::Symlink);
    let e1 = c.pull(HopEvent::NoInput).unwrap();
    assert_eq!(e1.kind, EntryKind::Symlink);
    assert!(c.pull(HopEvent::NoInput).is_none());
}

#[test]
fn chain_of_two_symlinks() {
    // a -> b, b -> c, c is a file: three entries, only the last terminal.
    let mut c = chaseln::chaseln("/tmp", "a", EntryKind::Symlink);
    let e1 = c
        .pull(HopEvent::LinkRead { target: String::from("b"), kind: EntryKind::Symlink })
        .unwrap();
    assert_eq!(e1.render(), "🔗 /tmp/a");
    assert_eq!(readlink_query_path(&c), "/tmp/b");
    let e2 = c
        .pull(HopEvent::LinkRead { target: String::from("c"), kind: EntryKind::File })
        .unwrap();
    assert_eq!(e2.render(), "→ 🔗 b");
    let e3 = c.pull(HopEvent::NoInput).unwrap();
    assert_eq!(e3.render(), "→ 📄 c");
    assert!(c.pull(HopEvent::NoInput).is_none());
}
