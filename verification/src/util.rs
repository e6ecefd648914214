//! Lexical path manipulation: everything here works on the text of a path
//! and never consults the filesystem.

use vstd::prelude::*;

verus! {

/// A path is absolute when its text starts with the separator.
pub open spec fn is_absolute_spec(s: Seq<char>) -> bool {
    s.len() > 0 && s[0] == '/'
}

/// A path carries a trailing-slash marker when its text ends in the separator.
pub open spec fn ends_in_sep(s: Seq<char>) -> bool {
    s.len() > 0 && s[s.len() - 1] == '/'
}

pub fn is_absolute(s: &str) -> (r: bool)
    ensures
        r == is_absolute_spec(s@),
{
    let n = s.unicode_len();
    n > 0 && s.get_char(0) == '/'
}

pub fn ends_in_separator(s: &str) -> (r: bool)
    ensures
        r == ends_in_sep(s@),
{
    let n = s.unicode_len();
    n > 0 && s.get_char(n - 1) == '/'
}

/// The absolute location a path names relative to a base directory: an
/// already-absolute path is kept unchanged, any other is joined onto the
/// base, with a separator inserted only where the base does not already
/// end in one.
pub open spec fn join_spec(parent: Seq<char>, maybe_relative: Seq<char>) -> Seq<char> {
    if is_absolute_spec(maybe_relative) {
        maybe_relative
    } else if parent.len() == 0 {
        maybe_relative
    } else if ends_in_sep(parent) {
        parent + maybe_relative
    } else {
        parent + seq!['/'] + maybe_relative
    }
}

/// Text with every trailing separator removed.
pub open spec fn strip_trailing_seps(s: Seq<char>) -> Seq<char>
    decreases s.len(),
{
    if s.len() > 0 && s[s.len() - 1] == '/' {
        strip_trailing_seps(s.drop_last())
    } else {
        s
    }
}

/// Text with the trailing run of non-separator characters removed.
pub open spec fn strip_last_component(s: Seq<char>) -> Seq<char>
    decreases s.len(),
{
    if s.len() > 0 && s[s.len() - 1] != '/' {
        strip_last_component(s.drop_last())
    } else {
        s
    }
}

proof fn lemma_strip_seps_at(s: Seq<char>, i: int)
    requires
        0 <= i <= s.len(),
        forall|m: int| i <= m < s.len() ==> s[m] == '/',
        i > 0 ==> s[i - 1] != '/',
    ensures
        strip_trailing_seps(s) == s.subrange(0, i),
    decreases s.len(),
{
    if i == s.len() {
        assert(s.subrange(0, i) =~= s);
    } else {
        let t = s.drop_last();
        assert(t =~= s.subrange(0, s.len() - 1));
        lemma_strip_seps_at(t, i);
        assert(t.subrange(0, i) =~= s.subrange(0, i));
    }
}

proof fn lemma_strip_component_at(s: Seq<char>, i: int)
    requires
        0 <= i <= s.len(),
        forall|m: int| i <= m < s.len() ==> s[m] != '/',
        i > 0 ==> s[i - 1] == '/',
    ensures
        strip_last_component(s) == s.subrange(0, i),
    decreases s.len(),
{
    if i == s.len() {
        assert(s.subrange(0, i) =~= s);
    } else {
        let t = s.drop_last();
        assert(t =~= s.subrange(0, s.len() - 1));
        lemma_strip_component_at(t, i);
        assert(t.subrange(0, i) =~= s.subrange(0, i));
    }
}

/// The parent directory of a path, computed on the text alone: trailing
/// separators are ignored, then the final component and the separators
/// before it are dropped. The root (or a path of separators only) has no
/// parent; a path that was a single relative component has the empty
/// parent; a path whose only remaining ancestor is the root has parent
/// `/`.
pub open spec fn parent_spec(s: Seq<char>) -> Option<Seq<char>> {
    let t = strip_trailing_seps(s);
    if t.len() == 0 {
        None
    } else {
        let u = strip_last_component(t);
        let v = strip_trailing_seps(u);
        if v.len() == 0 && u.len() > 0 {
            Some(seq!['/'])
        } else {
            Some(v)
        }
    }
}

/// The parent directory of `s`, or `None` when `s` is the root or empty.
pub fn parent_of(s: &str) -> (r: Option<String>)
    ensures
        match r {
            Some(p) => parent_spec(s@) == Some(p@),
            None => parent_spec(s@) is None,
        },
{
    let n = s.unicode_len();
    let mut i: usize = n;
    while i > 0 && s.get_char(i - 1) == '/'
        invariant
            n == s@.len(),
            i <= n,
            forall|m: int| i <= m < n ==> s@[m] == '/',
        decreases i,
    {
        i = i - 1;
    }
    proof {
        lemma_strip_seps_at(s@, i as int);
    }
    if i == 0 {
        return None;
    }
    let mut j: usize = i;
    while j > 0 && s.get_char(j - 1) != '/'
        invariant
            n == s@.len(),
            0 < i <= n,
            j <= i,
            forall|m: int| j <= m < i ==> s@[m] != '/',
        decreases j,
    {
        j = j - 1;
    }
    proof {
        let t = s@.subrange(0, i as int);
        lemma_strip_component_at(t, j as int);
        assert(t.subrange(0, j as int) =~= s@.subrange(0, j as int));
    }
    let mut k: usize = j;
    while k > 0 && s.get_char(k - 1) == '/'
        invariant
            n == s@.len(),
            j <= n,
            k <= j,
            forall|m: int| k <= m < j ==> s@[m] == '/',
        decreases k,
    {
        k = k - 1;
    }
    proof {
        let u = s@.subrange(0, j as int);
        lemma_strip_seps_at(u, k as int);
        assert(u.subrange(0, k as int) =~= s@.subrange(0, k as int));
    }
    if k == 0 && j > 0 {
        let r = String::from_str("/");
        proof {
            reveal_strlit("/");
            assert(r@ =~= seq!['/']);
        }
        Some(r)
    } else {
        Some(String::from_str(s.substring_char(0, k)))
    }
}

/// The end of the segment starting at `i`: the first separator position at
/// or after `i`, or the end of the text.
pub open spec fn seg_end(s: Seq<char>, i: int) -> int
    decreases s.len() - i when 0 <= i <= s.len()
{
    if i >= s.len() {
        s.len() as int
    } else if s[i] == '/' {
        i
    } else {
        seg_end(s, i + 1)
    }
}

pub proof fn lemma_seg_end_bounds(s: Seq<char>, i: int)
    requires
        0 <= i <= s.len(),
    ensures
        i <= seg_end(s, i) <= s.len(),
        forall|m: int| i <= m < seg_end(s, i) ==> s[m] != '/',
        seg_end(s, i) < s.len() ==> s[seg_end(s, i)] == '/',
    decreases s.len() - i,
{
    if i < s.len() && s[i] != '/' {
        lemma_seg_end_bounds(s, i + 1);
    }
}

proof fn lemma_seg_end_is(s: Seq<char>, i: int, j: int)
    requires
        0 <= i <= j <= s.len(),
        forall|m: int| i <= m < j ==> s[m] != '/',
        j < s.len() ==> s[j] == '/',
    ensures
        seg_end(s, i) == j,
    decreases j - i,
{
    if i < j {
        lemma_seg_end_is(s, i + 1, j);
    }
}

/// The segments of `s` from position `i` on, with empty and bare `.`
/// segments dropped, joined by single separators.
pub open spec fn norm_from(s: Seq<char>, i: int) -> Seq<char>
    decreases s.len() - i when 0 <= i <= s.len()
    via norm_from_decreases
{
    if i >= s.len() {
        Seq::empty()
    } else if s[i] == '/' {
        norm_from(s, i + 1)
    } else {
        let j = seg_end(s, i);
        let g = s.subrange(i, j);
        let rest = norm_from(s, j);
        if g == seq!['.'] {
            rest
        } else if rest.len() == 0 {
            g
        } else {
            g + seq!['/'] + rest
        }
    }
}

#[via_fn]
proof fn norm_from_decreases(s: Seq<char>, i: int) {
    if 0 <= i && i < s.len() && s[i] != '/' {
        lemma_seg_end_bounds(s, i);
    }
}

/// Lexical normalization: collapse repeated separators, drop bare `.`
/// segments and any trailing separator. `..` segments are kept literally —
/// nothing here consults the filesystem. An absolute path that normalizes
/// to nothing is the root.
pub open spec fn normalize_spec(s: Seq<char>) -> Seq<char> {
    if is_absolute_spec(s) {
        seq!['/'] + norm_from(s, 0)
    } else {
        norm_from(s, 0)
    }
}

/// Two pieces of normalized output, joined by a separator where both are
/// non-empty.
spec fn glue(a: Seq<char>, b: Seq<char>) -> Seq<char> {
    if a.len() == 0 {
        b
    } else if b.len() == 0 {
        a
    } else {
        a + seq!['/'] + b
    }
}

/// Lexically normalizes a path, as `normalize_spec` describes.
pub fn normalize_path(s: &str) -> (r: String)
    ensures
        r@ == normalize_spec(s@),
{
    let n = s.unicode_len();
    let mut body = String::new();
    let mut i: usize = 0;
    while i < n
        invariant
            n == s@.len(),
            i <= n,
            norm_from(s@, 0) == glue(body@, norm_from(s@, i as int)),
        decreases n - i,
    {
        if s.get_char(i) == '/' {
            i = i + 1;
        } else {
            let mut j: usize = i + 1;
            while j < n && s.get_char(j) != '/'
                invariant
                    n == s@.len(),
                    i < j,
                    j <= n,
                    s@[i as int] != '/',
                    forall|m: int| i <= m < j ==> s@[m] != '/',
                decreases n - j,
            {
                j = j + 1;
            }
            proof {
                lemma_seg_end_is(s@, i as int, j as int);
            }
            let ghost g = s@.subrange(i as int, j as int);
            let ghost rest = norm_from(s@, j as int);
            let is_dot = j - i == 1 && s.get_char(i) == '.';
            proof {
                if is_dot {
                    assert(g =~= seq!['.']);
                } else {
                    assert(g.len() == j - i);
                    if g == seq!['.'] {
                        assert(g[0] == s@[i as int]);
                        assert(false);
                    }
                }
            }
            if !is_dot {
                let ghost body0 = body@;
                if !body.as_str().is_empty() {
                    body.append("/");
                    proof {
                        reveal_strlit("/");
                        assert(("/")@ =~= seq!['/']);
                    }
                }
                body.append(s.substring_char(i, j));
                proof {
                    if body0.len() == 0 {
                        assert(body@ =~= g);
                    } else {
                        assert(body@ =~= body0 + seq!['/'] + g);
                        if rest.len() > 0 {
                            assert(body0 + seq!['/'] + (g + seq!['/'] + rest) =~= (body0 + seq!['/']
                                + g) + seq!['/'] + rest);
                        }
                    }
                    assert(glue(body@, rest) == glue(body0, norm_from(s@, i as int)));
                }
            }
            i = j;
        }
    }
    proof {
        assert(norm_from(s@, n as int) =~= Seq::<char>::empty());
        assert(norm_from(s@, 0) == body@);
    }
    if is_absolute(s) {
        let mut r = String::from_str("/");
        proof {
            reveal_strlit("/");
            assert(r@ =~= seq!['/']);
        }
        r.append(body.as_str());
        r
    } else {
        body
    }
}

/// Makes a path absolute relative to `parent`; pass-through if it already is.
pub fn any_path_to_abs(parent: &str, maybe_relative: &str) -> (r: String)
    ensures
        r@ == join_spec(parent@, maybe_relative@),
{
    if is_absolute(maybe_relative) {
        String::from_str(maybe_relative)
    } else {
        let mut r = String::from_str(parent);
        if !parent.is_empty() && !ends_in_separator(parent) {
            r.append("/");
            proof {
                reveal_strlit("/");
                assert(("/")@ =~= seq!['/']);
            }
        }
        r.append(maybe_relative);
        proof {
            assert(r@ =~= join_spec(parent@, maybe_relative@));
        }
        r
    }
}

/// Where a symlink at `location` whose stored text is `target` points: the
/// target joined onto the parent directory of `location`, or nothing when
/// `location` has no parent.
pub open spec fn resolved_spec(location: Seq<char>, target: Seq<char>) -> Option<Seq<char>> {
    match parent_spec(location) {
        Some(p) => Some(join_spec(p, target)),
        None => None,
    }
}

/// The absolute location a symlink at `location` with literal text `target`
/// points to, or `None` when `location` has no parent directory.
pub fn resolve_symlink_target(location: &str, target: &str) -> (r: Option<String>)
    ensures
        match r {
            Some(p) => resolved_spec(location@, target@) == Some(p@),
            None => resolved_spec(location@, target@) is None,
        },
{
    match parent_of(location) {
        Some(p) => Some(any_path_to_abs(p.as_str(), target)),
        None => None,
    }
}

} // verus!
