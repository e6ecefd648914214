//! The value objects of the traversal: what kind of filesystem object a hop
//! names, how the hop was reached, and the hop itself, together with its
//! rendered display line.

use vstd::prelude::*;

verus! {

/// What a non-following stat reports a path to be. A stat failure of any
/// cause collapses to `DoesNotExist`: causes are not distinguished.
#[derive(Clone, Copy, PartialEq, Eq, Structural, Debug)]
pub enum EntryKind {
    Symlink,
    Directory,
    File,
    DoesNotExist,
}

/// How a hop was reached. `First` applies only to the initial entry;
/// `Dereferenced` marks an entry reached through a symlink target;
/// `TrimmedTrailingSlash` one reached by lexically normalizing a directory
/// path that carried a trailing slash; `Seen` one whose location was
/// already visited — always the final entry of the chain.
#[derive(Clone, Copy, PartialEq, Eq, Structural, Debug)]
pub enum EntryPrefix {
    First,
    Dereferenced,
    TrimmedTrailingSlash,
    Seen,
}

/// The kind a non-following stat maps to: stat failure means the path does
/// not exist; otherwise the symlink bit wins over the directory bit, and a
/// plain file is everything else.
pub open spec fn classify_spec(exists: bool, is_symlink: bool, is_dir: bool) -> EntryKind {
    if !exists {
        EntryKind::DoesNotExist
    } else if is_symlink {
        EntryKind::Symlink
    } else if is_dir {
        EntryKind::Directory
    } else {
        EntryKind::File
    }
}

/// Maps the outcome of a non-following stat — whether it succeeded, and the
/// symlink and directory bits it reported — to an `EntryKind`.
pub fn classify_from_stat(exists: bool, is_symlink: bool, is_dir: bool) -> (k: EntryKind)
    ensures
        k == classify_spec(exists, is_symlink, is_dir),
{
    if !exists {
        EntryKind::DoesNotExist
    } else if is_symlink {
        EntryKind::Symlink
    } else if is_dir {
        EntryKind::Directory
    } else {
        EntryKind::File
    }
}

/// One hop of the chain: where it is, the literal text describing how it
/// was reached, what it is, and how it is prefixed when displayed.
pub struct Entry {
    pub abs_location: String,
    pub display: String,
    pub kind: EntryKind,
    pub prefix: EntryPrefix,
}

/// The mathematical value of an `Entry`.
#[verifier::ext_equal]
pub struct EntryModel {
    pub abs_location: Seq<char>,
    pub display: Seq<char>,
    pub kind: EntryKind,
    pub prefix: EntryPrefix,
}

impl View for Entry {
    type V = EntryModel;

    open spec fn view(&self) -> EntryModel {
        EntryModel {
            abs_location: self.abs_location@,
            display: self.display@,
            kind: self.kind,
            prefix: self.prefix,
        }
    }
}

/// The display marker of each prefix.
pub open spec fn prefix_label_spec(p: EntryPrefix) -> Seq<char> {
    match p {
        EntryPrefix::First => ""@,
        EntryPrefix::Dereferenced => "→ "@,
        EntryPrefix::TrimmedTrailingSlash => "← "@,
        EntryPrefix::Seen => "🔁 "@,
    }
}

/// The glyph of each kind.
pub open spec fn kind_icon_spec(k: EntryKind) -> Seq<char> {
    match k {
        EntryKind::Symlink => "🔗"@,
        EntryKind::Directory => "📁"@,
        EntryKind::File => "📄"@,
        EntryKind::DoesNotExist => "❌"@,
    }
}

/// A rendered line: the prefix marker, the kind glyph, a space, and the
/// literal display text of the hop.
pub open spec fn rendered_spec(e: EntryModel) -> Seq<char> {
    prefix_label_spec(e.prefix) + kind_icon_spec(e.kind) + " "@ + e.display
}

pub fn prefix_label(p: EntryPrefix) -> (r: &'static str)
    ensures
        r@ == prefix_label_spec(p),
{
    match p {
        EntryPrefix::First => "",
        EntryPrefix::Dereferenced => "→ ",
        EntryPrefix::TrimmedTrailingSlash => "← ",
        EntryPrefix::Seen => "🔁 ",
    }
}

pub fn kind_icon(k: EntryKind) -> (r: &'static str)
    ensures
        r@ == kind_icon_spec(k),
{
    match k {
        EntryKind::Symlink => "🔗",
        EntryKind::Directory => "📁",
        EntryKind::File => "📄",
        EntryKind::DoesNotExist => "❌",
    }
}

impl Entry {
    /// The line shown for this hop: `"{prefix}{kind_icon} {display}"`.
    pub fn render(&self) -> (r: String)
        ensures
            r@ == rendered_spec(self@),
    {
        let mut r = String::from_str(prefix_label(self.prefix));
        r.append(kind_icon(self.kind));
        r.append(" ");
        r.append(self.display.as_str());
        r
    }
}

} // verus!
