//! The chain-traversal state machine. It owns the current entry and the
//! visited set, and produces entries one per pull until a terminal entry is
//! reached. Every filesystem fact a pull depends on — the literal text of a
//! symlink, the kind a non-following stat reports — is handed in as a
//! `HopEvent` by the caller; `query` says which fact the next pull needs.
//! The whole transition is pinned down by the specification-level
//! `step_spec`, and the chain's published laws follow from an invariant
//! every transition preserves.

use crate::entry::{Entry, EntryKind, EntryModel, EntryPrefix};
use crate::util::{
    ends_in_sep, ends_in_separator, normalize_path, normalize_spec, resolve_symlink_target,
    resolved_spec,
};
use vstd::prelude::*;

verus! {

/// The filesystem fact a pull consumes. `NoInput` accompanies a pull that
/// needs none; `LinkRead` carries the literal text stored in the current
/// symlink and the classification of the location it resolves to;
/// `LinkFailed` reports that the link could not be read; `Normalized`
/// carries the classification of the current directory path once lexically
/// normalized.
pub enum HopEvent {
    NoInput,
    LinkRead { target: String, kind: EntryKind },
    LinkFailed,
    Normalized { kind: EntryKind },
}

/// The mathematical value of a `HopEvent`.
pub enum HopEventModel {
    NoInput,
    LinkRead { target: Seq<char>, kind: EntryKind },
    LinkFailed,
    Normalized { kind: EntryKind },
}

impl View for HopEvent {
    type V = HopEventModel;

    open spec fn view(&self) -> HopEventModel {
        match self {
            HopEvent::NoInput => HopEventModel::NoInput,
            HopEvent::LinkRead { target, kind } => HopEventModel::LinkRead {
                target: target@,
                kind: *kind,
            },
            HopEvent::LinkFailed => HopEventModel::LinkFailed,
            HopEvent::Normalized { kind } => HopEventModel::Normalized { kind: *kind },
        }
    }
}

/// The mathematical state of a traversal: the entry the next pull will
/// produce (or nothing once exhausted), the initial location and kind the
/// chain started from, and every entry produced so far. The visited set is
/// seeded with the initial location alone and never grown, so it is carried
/// here simply as that location.
#[verifier::ext_equal]
pub struct ChainModel {
    pub current: Option<EntryModel>,
    pub initial_location: Seq<char>,
    pub initial_kind: EntryKind,
    pub produced: Seq<EntryModel>,
}

/// An entry at which a chain ends regardless of any event: a plain file, a
/// missing path, or a directory without a trailing separator.
pub open spec fn terminal_kind(e: EntryModel) -> bool {
    ||| e.kind == EntryKind::File
    ||| e.kind == EntryKind::DoesNotExist
    ||| (e.kind == EntryKind::Directory && !ends_in_sep(e.abs_location))
}

/// The initial entry of a chain started at `abs` whose non-following stat
/// reported `kind`: displayed as the absolute input path itself.
pub open spec fn first_entry_model(abs: Seq<char>, kind: EntryKind) -> EntryModel {
    EntryModel { abs_location: abs, display: abs, kind: kind, prefix: EntryPrefix::First }
}

/// A freshly constructed chain: the initial entry is pending, nothing is
/// produced yet, and the visited set holds exactly the initial location.
pub open spec fn init_model(abs: Seq<char>, kind: EntryKind) -> ChainModel {
    ChainModel {
        current: Some(first_entry_model(abs, kind)),
        initial_location: abs,
        initial_kind: kind,
        produced: Seq::empty(),
    }
}

/// The prefix of a next hop at `loc`: overridden to `Seen` when `loc` is
/// already in the visited set, otherwise the hop's own prefix.
pub open spec fn next_prefix(m: ChainModel, loc: Seq<char>, hop: EntryPrefix) -> EntryPrefix {
    if loc == m.initial_location {
        EntryPrefix::Seen
    } else {
        hop
    }
}

/// One pull of the chain, as a mathematical function of the state and the
/// event handed in: the new state and the entry produced. An exhausted
/// chain produces nothing; otherwise the pending entry is produced, and the
/// state advances — to exhaustion for a `Seen` or terminal entry, through
/// the symlink target for a symlink, through lexical normalization for a
/// directory with a trailing separator. A missing or ill-matched event ends
/// the chain at the produced entry: traversal failure degrades to early
/// termination, never to an error.
pub open spec fn step_spec(m: ChainModel, ev: HopEventModel) -> (ChainModel, Option<EntryModel>) {
    match m.current {
        None => (m, None),
        Some(e) => {
            let halted = ChainModel { current: None, produced: m.produced.push(e), ..m };
            if e.prefix == EntryPrefix::Seen {
                (halted, Some(e))
            } else if e.kind == EntryKind::File || e.kind == EntryKind::DoesNotExist {
                (halted, Some(e))
            } else if e.kind == EntryKind::Directory {
                if !ends_in_sep(e.abs_location) {
                    (halted, Some(e))
                } else {
                    match ev {
                        HopEventModel::Normalized { kind } => {
                            let p = normalize_spec(e.abs_location);
                            let nxt = EntryModel {
                                abs_location: p,
                                display: p,
                                kind: kind,
                                prefix: next_prefix(m, p, EntryPrefix::TrimmedTrailingSlash),
                            };
                            (ChainModel { current: Some(nxt), produced: m.produced.push(e), ..m },
                            Some(e))
                        },
                        _ => (halted, Some(e)),
                    }
                }
            } else {
                match ev {
                    HopEventModel::LinkRead { target, kind } => {
                        match resolved_spec(e.abs_location, target) {
                            Some(rl) => {
                                let nxt = EntryModel {
                                    abs_location: rl,
                                    display: target,
                                    kind: kind,
                                    prefix: next_prefix(m, rl, EntryPrefix::Dereferenced),
                                };
                                (ChainModel {
                                    current: Some(nxt),
                                    produced: m.produced.push(e),
                                    ..m
                                }, Some(e))
                            },
                            None => (halted, Some(e)),
                        }
                    },
                    _ => (halted, Some(e)),
                }
            }
        },
    }
}

/// The invariant every reachable traversal state satisfies.
pub open spec fn inv(m: ChainModel) -> bool {
    &&& m.produced.len() > 0 ==> m.produced[0] == first_entry_model(
        m.initial_location,
        m.initial_kind,
    )
    &&& forall|i: int|
        1 <= i < m.produced.len() ==> (#[trigger] m.produced[i]).prefix != EntryPrefix::First
    &&& forall|i: int|
        0 <= i < m.produced.len() - 1 ==> !terminal_kind(#[trigger] m.produced[i])
            && m.produced[i].prefix != EntryPrefix::Seen
    &&& forall|i: int|
        0 <= i < m.produced.len() && (#[trigger] m.produced[i]).prefix == EntryPrefix::Seen
            ==> m.produced[i].abs_location == m.initial_location
    &&& forall|i: int|
        0 <= i < m.produced.len() && ((#[trigger] m.produced[i]).prefix
            == EntryPrefix::Dereferenced || m.produced[i].prefix
            == EntryPrefix::TrimmedTrailingSlash) ==> m.produced[i].abs_location
            != m.initial_location
    &&& m.produced.len() > 0 && (terminal_kind(m.produced.last()) || m.produced.last().prefix
        == EntryPrefix::Seen) ==> m.current is None
    &&& match m.current {
        Some(e) => {
            &&& m.produced.len() == 0 ==> e == first_entry_model(
                m.initial_location,
                m.initial_kind,
            )
            &&& m.produced.len() > 0 ==> !terminal_kind(m.produced.last())
                && m.produced.last().prefix != EntryPrefix::Seen
            &&& e.prefix == EntryPrefix::Seen ==> e.abs_location == m.initial_location
            &&& (e.prefix == EntryPrefix::Dereferenced || e.prefix
                == EntryPrefix::TrimmedTrailingSlash) ==> e.abs_location != m.initial_location
            &&& e.prefix == EntryPrefix::First ==> m.produced.len() == 0
        },
        None => true,
    }
}

pub proof fn lemma_init_inv(abs: Seq<char>, kind: EntryKind)
    ensures
        inv(init_model(abs, kind)),
{
}

/// Every transition preserves the invariant, whatever event arrives.
pub proof fn lemma_step_preserves_inv(m: ChainModel, ev: HopEventModel)
    requires
        inv(m),
    ensures
        inv(step_spec(m, ev).0),
{
    match m.current {
        None => {},
        Some(e) => {
            let p2 = m.produced.push(e);
            assert(p2.last() == e);
            assert(forall|i: int| 0 <= i < m.produced.len() ==> p2[i] == m.produced[i]);
        },
    }
}

/// Once the chain is exhausted it stays exhausted and produces nothing:
/// the sequence of entries a traversal produces has a definite end.
pub proof fn lemma_exhausted_stays_exhausted(m: ChainModel, ev: HopEventModel)
    requires
        m.current is None,
    ensures
        step_spec(m, ev).0 == m,
        step_spec(m, ev).1 is None,
{
}

/// The first produced entry is the initial one: prefix `First`, located at
/// the initial absolute path, displayed as that path, with the kind the
/// initial non-following stat reported.
pub proof fn lemma_first_produced(m: ChainModel)
    requires
        inv(m),
        m.produced.len() > 0,
    ensures
        m.produced[0] == first_entry_model(m.initial_location, m.initial_kind),
        m.produced[0].prefix == EntryPrefix::First,
        m.produced[0].kind == m.initial_kind,
        m.produced[0].abs_location == m.initial_location,
{
}

/// An entry of terminal kind — a file, a missing path, or a directory
/// without a trailing separator — is the last entry produced, and the
/// chain is exhausted after it.
pub proof fn lemma_terminal_is_last(m: ChainModel, i: int)
    requires
        inv(m),
        0 <= i < m.produced.len(),
        terminal_kind(m.produced[i]),
    ensures
        i == m.produced.len() - 1,
        m.current is None,
{
}

/// An entry prefixed `Seen` is the last entry produced, its location is
/// the initial entry's location, and the chain is exhausted after it.
pub proof fn lemma_seen_is_last(m: ChainModel, i: int)
    requires
        inv(m),
        0 <= i < m.produced.len(),
        m.produced[i].prefix == EntryPrefix::Seen,
    ensures
        i == m.produced.len() - 1,
        m.produced[i].abs_location == m.initial_location,
        m.current is None,
{
}

/// A produced entry whose location lies in the visited set is the first
/// entry or the last one; since the visited set holds exactly the initial
/// location, at most (visited-set size + 1) produced entries sit at
/// visited locations.
pub proof fn lemma_revisit_is_first_or_last(m: ChainModel, i: int)
    requires
        inv(m),
        0 <= i < m.produced.len(),
        m.produced[i].abs_location == m.initial_location,
    ensures
        i == 0 || i == m.produced.len() - 1,
{
    if 0 < i && i < m.produced.len() - 1 {
        assert(m.produced[i].prefix != EntryPrefix::First);
        assert(m.produced[i].prefix != EntryPrefix::Seen);
        assert(m.produced[i].abs_location != m.initial_location);
    }
}

/// Round trip: a chain started at a path that is no symlink and carries no
/// trailing separator yields exactly one entry — the initial one, prefix
/// `First`, kind as the non-following stat classified it — and is then
/// exhausted, whatever event accompanies the pull.
pub proof fn lemma_round_trip_single_entry(abs: Seq<char>, kind: EntryKind, ev: HopEventModel)
    requires
        kind != EntryKind::Symlink,
        !ends_in_sep(abs),
    ensures
        step_spec(init_model(abs, kind), ev).1 == Some(first_entry_model(abs, kind)),
        step_spec(init_model(abs, kind), ev).0.current is None,
        step_spec(init_model(abs, kind), ev).0.produced =~= seq![first_entry_model(abs, kind)],
{
}

/// What the next pull needs from the filesystem: nothing ever again
/// (`Exhausted`), nothing for this pull (`NoInput`), the literal text of
/// the symlink at the carried location (`NeedsReadlink`), or the
/// non-following stat of the carried normalized location (`NeedsStat`).
pub enum Query {
    Exhausted,
    NoInput,
    NeedsReadlink(String),
    NeedsStat(String),
}

/// The traversal engine: pending entry, visited set, and — as ghost state —
/// the initial kind and the trace of produced entries the laws speak of.
pub struct EntriesChain {
    current: Option<Entry>,
    initial_location: String,
    initial_kind: Ghost<EntryKind>,
    produced: Ghost<Seq<EntryModel>>,
}

impl View for EntriesChain {
    type V = ChainModel;

    closed spec fn view(&self) -> ChainModel {
        ChainModel {
            current: match self.current {
                Some(e) => Some(e@),
                None => None,
            },
            initial_location: self.initial_location@,
            initial_kind: self.initial_kind@,
            produced: self.produced@,
        }
    }
}

impl EntriesChain {
    /// The state is a reachable one.
    pub open spec fn wf(&self) -> bool {
        inv(self@)
    }

    /// Starts a traversal at `abs_location`, whose non-following stat
    /// classified it as `kind`.
    pub fn new(abs_location: String, kind: EntryKind) -> (r: EntriesChain)
        ensures
            r@ == init_model(abs_location@, kind),
            r.wf(),
    {
        let display = abs_location.clone();
        let initial_location = abs_location.clone();
        let first = Entry { abs_location, display, kind, prefix: EntryPrefix::First };
        let r = EntriesChain {
            current: Some(first),
            initial_location,
            initial_kind: Ghost(kind),
            produced: Ghost(Seq::empty()),
        };
        proof {
            assert(r@ =~= init_model(r.initial_location@, kind));
            lemma_init_inv(r.initial_location@, kind);
        }
        r
    }

    /// Which filesystem fact the next pull needs.
    pub fn query(&self) -> (q: Query)
        ensures
            match q {
                Query::Exhausted => self@.current is None,
                Query::NoInput => self@.current matches Some(e) && (e.prefix == EntryPrefix::Seen
                    || terminal_kind(e)),
                Query::NeedsReadlink(p) => self@.current matches Some(e) && e.prefix
                    != EntryPrefix::Seen && e.kind == EntryKind::Symlink && p@ == e.abs_location,
                Query::NeedsStat(p) => self@.current matches Some(e) && e.prefix
                    != EntryPrefix::Seen && e.kind == EntryKind::Directory && ends_in_sep(
                    e.abs_location,
                ) && p@ == normalize_spec(e.abs_location),
            },
    {
        match &self.current {
            None => Query::Exhausted,
            Some(e) => {
                if e.prefix == EntryPrefix::Seen {
                    Query::NoInput
                } else {
                    match e.kind {
                        EntryKind::File | EntryKind::DoesNotExist => Query::NoInput,
                        EntryKind::Directory => {
                            if ends_in_separator(e.abs_location.as_str()) {
                                Query::NeedsStat(normalize_path(e.abs_location.as_str()))
                            } else {
                                Query::NoInput
                            }
                        },
                        EntryKind::Symlink => Query::NeedsReadlink(e.abs_location.clone()),
                    }
                }
            },
        }
    }

    /// Produces the next entry of the chain, consuming the event the last
    /// `query` asked for, exactly as `step_spec` describes; `None` once the
    /// chain is exhausted.
    pub fn pull(&mut self, ev: HopEvent) -> (r: Option<Entry>)
        ensures
            final(self)@ == step_spec(old(self)@, ev@).0,
            match r {
                Some(e) => step_spec(old(self)@, ev@).1 == Some(e@),
                None => step_spec(old(self)@, ev@).1 is None,
            },
            old(self).wf() ==> final(self).wf(),
    {
        let cur = self.current.take();
        match cur {
            None => None,
            Some(e) => {
                proof {
                    self.produced@ = self.produced@.push(e@);
                }
                if e.prefix == EntryPrefix::Seen {
                    // cycle terminal: the chain stays exhausted
                } else if e.kind == EntryKind::Symlink {
                    match ev {
                        HopEvent::LinkRead { target, kind } => {
                            match resolve_symlink_target(e.abs_location.as_str(), target.as_str()) {
                                Some(rl) => {
                                    let prefix = if rl == self.initial_location {
                                        EntryPrefix::Seen
                                    } else {
                                        EntryPrefix::Dereferenced
                                    };
                                    self.current = Some(
                                        Entry { abs_location: rl, display: target, kind, prefix },
                                    );
                                },
                                None => {},
                            }
                        },
                        _ => {},
                    }
                } else if e.kind == EntryKind::Directory {
                    if ends_in_separator(e.abs_location.as_str()) {
                        match ev {
                            HopEvent::Normalized { kind } => {
                                let p = normalize_path(e.abs_location.as_str());
                                let display = p.clone();
                                let prefix = if p == self.initial_location {
                                    EntryPrefix::Seen
                                } else {
                                    EntryPrefix::TrimmedTrailingSlash
                                };
                                self.current = Some(
                                    Entry { abs_location: p, display, kind, prefix },
                                );
                            },
                            _ => {},
                        }
                    }
                }
                proof {
                    assert(self@ =~= step_spec(old(self)@, ev@).0);
                    if inv(old(self)@) {
                        lemma_step_preserves_inv(old(self)@, ev@);
                    }
                }
                Some(e)
            },
        }
    }
}

} // verus!
