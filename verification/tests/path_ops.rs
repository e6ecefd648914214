use chaseln::entry::{classify_from_stat, kind_icon, prefix_label, Entry, EntryKind, EntryPrefix};
use chaseln::util::{
    any_path_to_abs, ends_in_separator, is_absolute, normalize_path, parent_of,
    resolve_symlink_target,
};

#[test]
fn join_keeps_absolute_paths() {
    assert_eq!(any_path_to_abs("/home/u", "/etc/passwd"), "/etc/passwd");
}

#[test]
fn join_appends_relative_paths() {
    assert_eq!(any_path_to_abs("/home/u", "x.txt"), "/home/u/x.txt");
    assert_eq!(any_path_to_abs("/home/u/", "x.txt"), "/home/u/x.txt");
    assert_eq!(any_path_to_abs("", "x.txt"), "x.txt");
}

#[test]
fn absoluteness_is_a_leading_separator() {
    assert!(is_absolute("/a"));
    assert!(!is_absolute("a"));
    assert!(!is_absolute(""));
    assert!(ends_in_separator("/a/"));
    assert!(!ends_in_separator("/a"));
    assert!(!ends_in_separator(""));
}

#[test]
fn normalize_drops_trailing_separator() {
    assert_eq!(normalize_path("/tmp/d/"), "/tmp/d");
}

#[test]
fn normalize_collapses_and_drops_dot_segments() {
    assert_eq!(normalize_path("//a/./b//"), "/a/b");
    assert_eq!(normalize_path("a/./b/"), "a/b");
    assert_eq!(normalize_path("/./."), "/");
    assert_eq!(normalize_path("/"), "/");
}

#[test]
fn normalize_keeps_dot_dot_literally() {
    assert_eq!(normalize_path("/a/../b/"), "/a/../b");
    assert_eq!(normalize_path("/.."), "/..");
}

#[test]
fn parent_drops_the_last_component() {
    assert_eq!(parent_of("/tmp/a").unwrap(), "/tmp");
    assert_eq!(parent_of("/tmp/a/").unwrap(), "/tmp");
    assert_eq!(parent_of("/a").unwrap(), "/");
    assert_eq!(parent_of("a").unwrap(), "");
}

#[test]
fn root_and_empty_have_no_parent() {
    assert!(parent_of("/").is_none());
    assert!(parent_of("///").is_none());
    assert!(parent_of("").is_none());
}

#[test]
fn resolve_joins_target_onto_parent() {
    assert_eq!(resolve_symlink_target("/tmp/x", "x").unwrap(), "/tmp/x");
    assert_eq!(resolve_symlink_target("/tmp/a", "b").unwrap(), "/tmp/b");
    assert_eq!(resolve_symlink_target("/tmp/a", "/abs").unwrap(), "/abs");
    assert!(resolve_symlink_target("/", "x").is_none());
}

#[test]
fn classification_follows_the_stat_bits() {
    assert_eq!(classify_from_stat(false, false, false), EntryKind::DoesNotExist);
    assert_eq!(classify_from_stat(false, true, true), EntryKind::DoesNotExist);
    assert_eq!(classify_from_stat(true, true, false), EntryKind::Symlink);
    assert_eq!(classify_from_stat(true, true, true), EntryKind::Symlink);
    assert_eq!(classify_from_stat(true, false, true), EntryKind::Directory);
    assert_eq!(classify_from_stat(true, false, false), EntryKind::File);
}

#[test]
fn labels_and_icons() {
    assert_eq!(prefix_label(EntryPrefix::First), "");
    assert_eq!(prefix_label(EntryPrefix::Dereferenced), "→ ");
    assert_eq!(prefix_label(EntryPrefix::TrimmedTrailingSlash), "← ");
    assert_eq!(prefix_label(EntryPrefix::Seen), "🔁 ");
    assert_eq!(kind_icon(EntryKind::Symlink), "🔗");
    assert_eq!(kind_icon(EntryKind::Directory), "📁");
    assert_eq!(kind_icon(EntryKind::File), "📄");
    assert_eq!(kind_icon(EntryKind::DoesNotExist), "❌");
}

#[test]
fn rendering_concatenates_prefix_icon_and_display() {
    let e = Entry {
        abs_location: String::from("/tmp/b"),
        display: String::from("b"),
        kind: EntryKind::File,
        prefix: EntryPrefix::Dereferenced,
    };
    assert_eq!(e.render(), "→ 📄 b");
}
