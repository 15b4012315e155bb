//! Recency rotation: a most-recently-used-first list of session names,
//! filtered on every query against the sessions that are currently live.
//! `next`/`previous` step through the filtered list without wrapping
//! around; `add` moves a name to the front unless the name is reserved or
//! the session opted out of tracking.

use vstd::prelude::*;
use vstd::string::*;

use crate::model::TmuxSession;
use crate::utils;

verus! {

/// The subsequence of `recent` whose names are live, in recency order.
pub open spec fn live_filtered(recent: Seq<Seq<char>>, live: Seq<Seq<char>>) -> Seq<Seq<char>>
    decreases recent.len(),
{
    if recent.len() == 0 {
        Seq::empty()
    } else {
        let pre = live_filtered(recent.drop_last(), live);
        if live.contains(recent.last()) {
            pre.push(recent.last())
        } else {
            pre
        }
    }
}

/// Index of the first occurrence of `x` in `s`, or -1 when `x` is absent.
pub open spec fn first_index(s: Seq<Seq<char>>, x: Seq<char>) -> int
    decreases s.len(),
{
    if s.len() == 0 {
        -1
    } else if s[0] == x {
        0
    } else {
        let r = first_index(s.drop_first(), x);
        if r == -1 {
            -1
        } else {
            r + 1
        }
    }
}

/// The element after the first occurrence of `current`, or nothing when
/// `current` is absent or last.
pub open spec fn spec_next(s: Seq<Seq<char>>, current: Seq<char>) -> Option<Seq<char>> {
    let i = first_index(s, current);
    if i >= 0 && i + 1 < s.len() {
        Some(s[i + 1])
    } else {
        None
    }
}

/// The element before the first occurrence of `current`, or nothing when
/// `current` is absent or first.
pub open spec fn spec_previous(s: Seq<Seq<char>>, current: Seq<char>) -> Option<Seq<char>> {
    let i = first_index(s, current);
    if i >= 1 {
        Some(s[i - 1])
    } else {
        None
    }
}

/// `s` with every occurrence of `x` removed, order kept.
pub open spec fn without(s: Seq<Seq<char>>, x: Seq<char>) -> Seq<Seq<char>>
    decreases s.len(),
{
    if s.len() == 0 {
        Seq::empty()
    } else {
        let pre = without(s.drop_last(), x);
        if s.last() == x {
            pre
        } else {
            pre.push(s.last())
        }
    }
}

/// The list after recording a use of `name`: `name` first, every prior
/// occurrence of it removed, everything else in order.
pub open spec fn spec_add(names: Seq<Seq<char>>, name: Seq<char>) -> Seq<Seq<char>> {
    seq![name] + without(names, name)
}

/// No name occurs twice.
pub open spec fn no_duplicate_names(s: Seq<Seq<char>>) -> bool {
    forall|i: int, j: int| 0 <= i < j < s.len() ==> s[i] != s[j]
}

/// `first_index` returns either -1 on an absent name, or the position of
/// the first occurrence.
pub proof fn lemma_first_index_props(s: Seq<Seq<char>>, x: Seq<char>)
    ensures
        first_index(s, x) == -1 ==> !s.contains(x),
        first_index(s, x) != -1 ==> {
            let i = first_index(s, x);
            &&& 0 <= i < s.len()
            &&& s[i] == x
            &&& forall|j: int| 0 <= j < i ==> s[j] != x
        },
        s.contains(x) ==> first_index(s, x) != -1,
    decreases s.len(),
{
    if s.len() > 0 && s[0] != x {
        lemma_first_index_props(s.drop_first(), x);
        let t = s.drop_first();
        assert forall|k: int| 0 <= k < t.len() implies t[k] == s[k + 1] by {}
        if first_index(t, x) == -1 {
            if s.contains(x) {
                let j = choose|j: int| 0 <= j < s.len() && s[j] == x;
                assert(t[j - 1] == x);
                assert(t.contains(x));
            }
        } else {
            let i = first_index(t, x);
            assert(s[i + 1] == x);
            assert forall|j: int| 0 <= j < i + 1 implies s[j] != x by {
                if j > 0 {
                    assert(t[j - 1] != x);
                }
            }
        }
    }
}

/// A position whose earlier positions all miss `x` and which holds `x` is
/// the first index of `x`.
pub proof fn lemma_first_index_at(s: Seq<Seq<char>>, x: Seq<char>, i: int)
    requires
        0 <= i < s.len(),
        s[i] == x,
        forall|j: int| 0 <= j < i ==> s[j] != x,
    ensures
        first_index(s, x) == i,
    decreases s.len(),
{
    if i > 0 {
        let t = s.drop_first();
        assert forall|k: int| 0 <= k < t.len() implies t[k] == s[k + 1] by {}
        assert(t[i - 1] == x);
        assert forall|j: int| 0 <= j < i - 1 implies t[j] != x by {
            assert(s[j + 1] != x);
        }
        lemma_first_index_at(t, x, i - 1);
    }
}

/// The recency rotation state: the persisted recent-name list together
/// with the live session-name set, both read fresh for each query.
pub struct RecentImpl {
    pub recent_session_names: Vec<String>,
    pub current_session_names: Vec<String>,
}

impl RecentImpl {
    /// The live-filtered recency sequence these queries step through.
    pub open spec fn filtered(&self) -> Seq<Seq<char>> {
        live_filtered(self.recent_session_names.deep_view(), self.current_session_names.deep_view())
    }

    /// Build the rotation state from the persisted recent list and the
    /// live session names.
    pub fn new(recent_session_names: Vec<String>, current_session_names: Vec<String>) -> (r:
        RecentImpl)
        ensures
            r.recent_session_names == recent_session_names,
            r.current_session_names == current_session_names,
    {
        RecentImpl { recent_session_names, current_session_names }
    }

    /// The recent list filtered to live names, in recency order.
    fn filter_live(&self) -> (r: Vec<String>)
        ensures
            r.deep_view() == self.filtered(),
    {
        let recent = &self.recent_session_names;
        let n = recent.len();
        let mut r: Vec<String> = Vec::new();
        let mut i: usize = 0;
        while i < n
            invariant
                i <= n,
                n == recent.len(),
                recent == self.recent_session_names,
                r.deep_view() =~= live_filtered(
                    recent.deep_view().take(i as int),
                    self.current_session_names.deep_view(),
                ),
            decreases n - i,
        {
            let ghost pre = r.deep_view();
            if utils::vec_contains_name(&self.current_session_names, recent[i].as_str()) {
                r.push(recent[i].clone());
            }
            proof {
                let t = recent.deep_view().take(i + 1);
                assert(t.drop_last() =~= recent.deep_view().take(i as int));
                assert(t.last() == recent.deep_view()[i as int]);
                assert(r.deep_view() =~= live_filtered(
                    t,
                    self.current_session_names.deep_view(),
                ));
            }
            i = i + 1;
        }
        proof {
            assert(recent.deep_view().take(n as int) =~= recent.deep_view());
        }
        r
    }

    /// The live name used after `session_name` in recency order, or
    /// nothing when `session_name` is absent from the filtered list or is
    /// its last element. No wraparound: rotation stops at the end.
    pub fn next(&self, session_name: &str) -> (r: Option<String>)
        ensures
            r.deep_view() == spec_next(self.filtered(), session_name@),
    {
        let f = self.filter_live();
        let n = f.len();
        let mut i: usize = 0;
        while i < n
            invariant
                i <= n,
                n == f.len(),
                f.deep_view() == self.filtered(),
                forall|j: int| 0 <= j < i ==> f.deep_view()[j] != session_name@,
            decreases n - i,
        {
            if utils::str_eq(f[i].as_str(), session_name) {
                proof {
                    lemma_first_index_at(f.deep_view(), session_name@, i as int);
                }
                if i + 1 < n {
                    return Some(f[i + 1].clone());
                } else {
                    return None;
                }
            }
            i = i + 1;
        }
        proof {
            lemma_first_index_props(f.deep_view(), session_name@);
            if first_index(f.deep_view(), session_name@) != -1 {
                let k = first_index(f.deep_view(), session_name@);
                assert(f.deep_view()[k] != session_name@);
            }
        }
        None
    }

    /// The live name used before `session_name` in recency order, or
    /// nothing when `session_name` is absent from the filtered list or is
    /// its first element. No wraparound: rotation stops at the start.
    pub fn previous(&self, session_name: &str) -> (r: Option<String>)
        ensures
            r.deep_view() == spec_previous(self.filtered(), session_name@),
    {
        let f = self.filter_live();
        let n = f.len();
        let mut i: usize = 0;
        while i < n
            invariant
                i <= n,
                n == f.len(),
                f.deep_view() == self.filtered(),
                forall|j: int| 0 <= j < i ==> f.deep_view()[j] != session_name@,
            decreases n - i,
        {
            if utils::str_eq(f[i].as_str(), session_name) {
                proof {
                    lemma_first_index_at(f.deep_view(), session_name@, i as int);
                }
                if i >= 1 {
                    return Some(f[i - 1].clone());
                } else {
                    return None;
                }
            }
            i = i + 1;
        }
        proof {
            lemma_first_index_props(f.deep_view(), session_name@);
            if first_index(f.deep_view(), session_name@) != -1 {
                let k = first_index(f.deep_view(), session_name@);
                assert(f.deep_view()[k] != session_name@);
            }
        }
        None
    }

    /// Record a use of `session_name`: the rewritten recent list with the
    /// name moved to the front, or nothing (no write) when the name is
    /// purely numeric or the stored session opted out of recency tracking.
    pub fn add(&self, session: Option<&TmuxSession>, session_name: &str) -> (r: Option<
        Vec<String>,
    >)
        ensures
            crate::spec_is_numeric(session_name@) ==> r is None,
            !crate::spec_is_numeric(session_name@) && (match session {
                Some(s) => s.no_recent_tracking == Some(true),
                None => false,
            }) ==> r is None,
            !crate::spec_is_numeric(session_name@) && (match session {
                Some(s) => s.no_recent_tracking != Some(true),
                None => true,
            }) ==> r is Some && r.unwrap().deep_view() == spec_add(
                self.recent_session_names.deep_view(),
                session_name@,
            ),
    {
        if utils::is_numeric(session_name) {
            return None;
        }
        if let Some(session) = session {
            if let Some(no_recent_tracking) = session.no_recent_tracking {
                if no_recent_tracking {
                    return None;
                }
            }
        }
        let mut names: Vec<String> = Vec::new();
        names.push(session_name.to_owned());
        let recent = &self.recent_session_names;
        let n = recent.len();
        let mut i: usize = 0;
        while i < n
            invariant
                i <= n,
                n == recent.len(),
                recent == self.recent_session_names,
                names.deep_view() =~= seq![session_name@] + without(
                    recent.deep_view().take(i as int),
                    session_name@,
                ),
            decreases n - i,
        {
            let ghost pre_names = names.deep_view();
            let ghost t = recent.deep_view().take(i + 1);
            proof {
                assert(t.drop_last() =~= recent.deep_view().take(i as int));
                assert(t.last() == recent.deep_view()[i as int]);
            }
            if !utils::str_eq(recent[i].as_str(), session_name) {
                names.push(recent[i].clone());
                proof {
                    assert(names.deep_view() =~= pre_names.push(
                        recent.deep_view()[i as int],
                    ));
                    assert(without(t, session_name@) == without(
                        t.drop_last(),
                        session_name@,
                    ).push(t.last()));
                    assert(names.deep_view() =~= seq![session_name@] + without(
                        t,
                        session_name@,
                    ));
                }
            } else {
                proof {
                    assert(without(t, session_name@) == without(t.drop_last(), session_name@));
                    assert(names.deep_view() =~= seq![session_name@] + without(
                        t,
                        session_name@,
                    ));
                }
            }
            i = i + 1;
        }
        proof {
            assert(recent.deep_view().take(n as int) =~= recent.deep_view());
        }
        Some(names)
    }
}

/// Removing a name removes every occurrence of it.
pub proof fn lemma_without_not_contains(s: Seq<Seq<char>>, x: Seq<char>)
    ensures
        !without(s, x).contains(x),
    decreases s.len(),
{
    if s.len() > 0 {
        lemma_without_not_contains(s.drop_last(), x);
        let w = without(s, x);
        if w.contains(x) {
            let j = choose|j: int| 0 <= j < w.len() && w[j] == x;
            if s.last() != x && j == w.len() - 1 {
            } else {
                assert(without(s.drop_last(), x)[j] == x);
                assert(without(s.drop_last(), x).contains(x));
            }
        }
    }
}

/// Removing an absent name changes nothing.
pub proof fn lemma_without_absent(s: Seq<Seq<char>>, x: Seq<char>)
    requires
        !s.contains(x),
    ensures
        without(s, x) == s,
    decreases s.len(),
{
    if s.len() > 0 {
        assert(s[s.len() - 1] != x);
        assert forall|j: int| 0 <= j < s.drop_last().len() implies s.drop_last()[j] != x by {
            assert(s[j] != x);
        }
        if s.drop_last().contains(x) {
            let j = choose|j: int| 0 <= j < s.drop_last().len() && s.drop_last()[j] == x;
        }
        lemma_without_absent(s.drop_last(), x);
        assert(without(s, x) =~= s);
    }
}

/// Prepending the removed name and removing it again is removal once.
proof fn lemma_without_prepended(u: Seq<Seq<char>>, x: Seq<char>)
    ensures
        without(seq![x] + u, x) == without(u, x),
    decreases u.len(),
{
    let v = seq![x] + u;
    if u.len() == 0 {
        assert(v.len() == 1);
        assert(v.last() == v[0]);
        assert(v[0] == seq![x][0]);
        assert(v.last() == x);
        assert(v.drop_last() =~= Seq::<Seq<char>>::empty());
        assert(v.drop_last().len() == 0);
        assert(without(v.drop_last(), x) == Seq::<Seq<char>>::empty());
        assert(without(v, x) == without(v.drop_last(), x));
        assert(without(u, x) == Seq::<Seq<char>>::empty());
    } else {
        lemma_without_prepended(u.drop_last(), x);
        assert(v.drop_last() =~= seq![x] + u.drop_last());
        assert(v.last() == u.last());
        assert(without(v.drop_last(), x) == without(u.drop_last(), x));
        if u.last() == x {
            assert(without(v, x) == without(v.drop_last(), x));
            assert(without(u, x) == without(u.drop_last(), x));
        } else {
            assert(without(v, x) == without(v.drop_last(), x).push(v.last()));
            assert(without(u, x) == without(u.drop_last(), x).push(u.last()));
        }
    }
}

/// LAW: recording a use of a name twice in immediate succession leaves
/// the list exactly as recording it once does — the name stands at the
/// front exactly once, with no duplicate introduced.
pub proof fn lemma_add_idempotent(names: Seq<Seq<char>>, name: Seq<char>)
    ensures
        spec_add(spec_add(names, name), name) == spec_add(names, name),
{
    lemma_without_prepended(without(names, name), name);
    lemma_without_not_contains(names, name);
    lemma_without_absent(without(names, name), name);
}

/// Filtering keeps each name at most as often as the input holds it; in
/// particular a duplicate-free recent list filters to a duplicate-free
/// sequence.
pub proof fn lemma_live_filtered_no_duplicates(recent: Seq<Seq<char>>, live: Seq<Seq<char>>)
    requires
        no_duplicate_names(recent),
    ensures
        no_duplicate_names(live_filtered(recent, live)),
    decreases recent.len(),
{
    if recent.len() > 0 {
        assert forall|i: int, j: int|
            0 <= i < j < recent.drop_last().len() implies recent.drop_last()[i]
            != recent.drop_last()[j] by {
            assert(recent[i] != recent[j]);
        }
        lemma_live_filtered_no_duplicates(recent.drop_last(), live);
        let pre = live_filtered(recent.drop_last(), live);
        lemma_live_filtered_subset(recent.drop_last(), live);
        if live.contains(recent.last()) {
            let f = pre.push(recent.last());
            assert forall|i: int, j: int| 0 <= i < j < f.len() implies f[i] != f[j] by {
                if j == f.len() - 1 {
                    assert(pre.contains(pre[i]));
                    let k = choose|k: int|
                        0 <= k < recent.drop_last().len() && recent.drop_last()[k] == pre[i];
                    assert(recent[k] == pre[i]);
                    assert(recent[k] != recent[recent.len() - 1]);
                }
            }
        }
    }
}

/// Every filtered name comes from the recent list.
pub proof fn lemma_live_filtered_subset(recent: Seq<Seq<char>>, live: Seq<Seq<char>>)
    ensures
        forall|i: int|
            0 <= i < live_filtered(recent, live).len() ==> recent.contains(
                #[trigger] live_filtered(recent, live)[i],
            ),
    decreases recent.len(),
{
    if recent.len() > 0 {
        lemma_live_filtered_subset(recent.drop_last(), live);
        let f = live_filtered(recent, live);
        let pre = live_filtered(recent.drop_last(), live);
        assert forall|i: int| 0 <= i < f.len() implies recent.contains(f[i]) by {
            if i < pre.len() {
                let k = choose|k: int|
                    0 <= k < recent.drop_last().len() && recent.drop_last()[k] == pre[i];
                assert(recent[k] == f[i]);
            } else {
                assert(f[i] == recent[recent.len() - 1]);
            }
        }
    }
}

/// LAW: `next` and `previous` are inverses over a duplicate-free
/// live-filtered sequence — whenever stepping forward from `a` lands on
/// `b`, stepping backward from `b` lands on `a`.
pub proof fn lemma_next_previous_inverse(f: Seq<Seq<char>>, a: Seq<char>, b: Seq<char>)
    requires
        no_duplicate_names(f),
        spec_next(f, a) == Some(b),
    ensures
        spec_previous(f, b) == Some(a),
{
    lemma_first_index_props(f, a);
    let i = first_index(f, a);
    assert(f[i + 1] == b);
    assert forall|j: int| 0 <= j < i + 1 implies f[j] != b by {
        if f[j] == b {
            assert(f[j] == f[i + 1]);
        }
    }
    lemma_first_index_at(f, b, i + 1);
    assert(f[i] == a);
}

/// LAW: `next` yields nothing exactly when the queried name is absent
/// from the duplicate-free live-filtered sequence or is its last element.
pub proof fn lemma_next_none(f: Seq<Seq<char>>, a: Seq<char>)
    requires
        no_duplicate_names(f),
    ensures
        (spec_next(f, a) is None) <==> (!f.contains(a) || (f.len() > 0 && f.last() == a)),
{
    lemma_first_index_props(f, a);
    let i = first_index(f, a);
    if i != -1 {
        assert(f.contains(f[i]));
        if i + 1 < f.len() {
            if f.last() == a {
                assert(f[i] == f[f.len() - 1]);
            }
        } else {
            assert(f.last() == a);
        }
    }
}

} // verus!
