//! Small shared helpers: numeric-name detection, string equality, the
//! left-biased merge of stored and live session maps, and the fallback
//! window-name generator.

use vstd::prelude::*;
use vstd::string::*;

use crate::model::{TmuxSessionV, TmuxSessions};

verus! {

/// The mapping that save-all stores: the stored descriptor, with live
/// entries added only under names not already stored.
pub open spec fn spec_merge(
    stored: Map<Seq<char>, TmuxSessionV>,
    live: Map<Seq<char>, TmuxSessionV>,
) -> Map<Seq<char>, TmuxSessionV> {
    live.union_prefer_right(stored)
}

/// True when every character of `as_str` is an ASCII digit (the empty
/// string counts). Such names are reserved/transient and never persisted
/// or replayed.
pub fn is_numeric(as_str: &str) -> (r: bool)
    ensures
        r == crate::spec_is_numeric(as_str@),
{
    let len = as_str.unicode_len();
    let mut i: usize = 0;
    while i < len
        invariant
            i <= len,
            len == as_str@.len(),
            forall|j: int| 0 <= j < i ==> '0' <= #[trigger] as_str@[j] <= '9',
        decreases len - i,
    {
        let c = as_str.get_char(i);
        if c < '0' || c > '9' {
            return false;
        }
        i = i + 1;
    }
    true
}

/// Character-equality of two string slices.
pub fn str_eq(a: &str, b: &str) -> (r: bool)
    ensures
        r == (a@ == b@),
{
    let sa = a.to_owned();
    let sb = b.to_owned();
    let r = sa == sb;
    proof {
        if a@ == b@ {
            assert(sa@ =~= sb@);
        }
    }
    r
}

/// Whether a list of names holds the given name.
pub fn vec_contains_name(names: &Vec<String>, name: &str) -> (r: bool)
    ensures
        r == names.deep_view().contains(name@),
{
    let n = names.len();
    let mut i: usize = 0;
    while i < n
        invariant
            i <= n,
            n == names.len(),
            forall|j: int| 0 <= j < i ==> names.deep_view()[j] != name@,
        decreases n - i,
    {
        if str_eq(names[i].as_str(), name) {
            assert(names.deep_view()[i as int] == name@);
            return true;
        }
        i = i + 1;
    }
    proof {
        if names.deep_view().contains(name@) {
            let j = choose|j: int|
                0 <= j < names.deep_view().len() && names.deep_view()[j] == name@;
            assert(names.deep_view()[j] != name@);
        }
    }
    false
}

/// Left-biased union of the stored descriptor with the live session map,
/// used at save-all time: every stored entry is kept unchanged, a live
/// entry is added only under a name not already stored, and nothing else
/// is added. The user's curated descriptor is never clobbered by live
/// inspection.
pub fn merge(config_sessions: TmuxSessions, current_sessions: TmuxSessions) -> (r: TmuxSessions)
    requires
        config_sessions.wf(),
        current_sessions.wf(),
    ensures
        r.wf(),
        r@ == spec_merge(config_sessions@, current_sessions@),
        forall|k: Seq<char>| #[trigger]
            config_sessions@.contains_key(k) ==> r@.contains_key(k) && r@[k]
                == config_sessions@[k],
        forall|k: Seq<char>| #[trigger]
            current_sessions@.contains_key(k) && !config_sessions@.contains_key(k)
                ==> r@.contains_key(k) && r@[k] == current_sessions@[k],
        forall|k: Seq<char>| #[trigger]
            r@.contains_key(k) ==> config_sessions@.contains_key(k)
                || current_sessions@.contains_key(k),
{
    let ghost config_map = config_sessions@;
    let ghost current_map = current_sessions@;
    let mut sessions = config_sessions;
    let mut rest = current_sessions;
    while rest.len() > 0
        invariant
            sessions.wf(),
            rest.wf(),
            forall|k: Seq<char>| #[trigger]
                config_map.contains_key(k) ==> sessions@.contains_key(k) && sessions@[k]
                    == config_map[k],
            forall|k: Seq<char>| #[trigger]
                sessions@.contains_key(k) ==> config_map.contains_key(k) || (
                current_map.contains_key(k) && !rest@.contains_key(k) && sessions@[k]
                    == current_map[k]),
            forall|k: Seq<char>| #[trigger]
                current_map.contains_key(k) && !config_map.contains_key(k) && !rest@.contains_key(
                    k,
                ) ==> sessions@.contains_key(k),
            forall|k: Seq<char>| #[trigger]
                rest@.contains_key(k) ==> current_map.contains_key(k) && rest@[k]
                    == current_map[k],
        decreases rest.spec_entries().len(),
    {
        let (name, session) = rest.take_first();
        if !sessions.contains_key(name.as_str()) {
            sessions.insert(name, session);
        }
    }
    proof {
        assert(rest.spec_entries() =~= Seq::<
            (Seq<char>, crate::model::TmuxSessionV),
        >::empty());
        assert forall|k: Seq<char>| #[trigger] rest@.contains_key(k) implies false by {
            crate::model::lemma_map_of_entries_dom(rest.spec_entries(), k);
        }
        assert(sessions@ =~= spec_merge(config_map, current_map));
    }
    sessions
}

/// A fallback window name drawn from a clock reading: `win_` followed by
/// a number between 1 and 98 taken from the reading's nanosecond part.
pub fn random_window_name(subsec_nanos: u32) -> (r: String)
    ensures
        r@ == "win_"@ + crate::numtext::spec_digits(((subsec_nanos % 98) + 1) as nat),
{
    let number = (subsec_nanos % 98) + 1;
    let mut name = "win_".to_owned();
    name.append(crate::numtext::usize_to_string(number as usize).as_str());
    name
}

/// The lines of a name-list file worth keeping: those that are not blank
/// (made only of spaces and tabs), in file order.
pub fn non_blank_lines(lines: Vec<String>) -> (r: Vec<String>)
    ensures
        r.deep_view() == lines.deep_view().filter(|l: Seq<char>| !spec_line_blank(l)),
{
    let n = lines.len();
    let mut lines = lines;
    let mut r: Vec<String> = Vec::new();
    let mut i: usize = 0;
    while i < n
        invariant
            i <= n,
            lines.deep_view().len() == n,
            r.deep_view() =~= lines.deep_view().take(i as int).filter(
                |l: Seq<char>| !spec_line_blank(l),
            ),
        decreases n - i,
    {
        let blank = line_blank(&lines[i]);
        if !blank {
            let ghost pre = r.deep_view();
            r.push(lines[i].clone());
            proof {
                assert(r.deep_view() =~= pre.push(lines.deep_view()[i as int]));
            }
        }
        proof {
            reveal_with_fuel(Seq::filter, 2);
            assert(lines.deep_view().take(i + 1).drop_last() =~= lines.deep_view().take(i as int));
            assert(lines.deep_view().take(i + 1).last() == lines.deep_view()[i as int]);
            assert(lines.deep_view().take(i + 1).filter(|l: Seq<char>| !spec_line_blank(l))
                =~= lines.deep_view().take(i as int).filter(|l: Seq<char>| !spec_line_blank(l))
                + if !spec_line_blank(lines.deep_view()[i as int]) {
                seq![lines.deep_view()[i as int]]
            } else {
                Seq::empty()
            });
        }
        i = i + 1;
    }
    proof {
        assert(lines.deep_view().take(n as int) =~= lines.deep_view());
    }
    r
}

/// A blank line: every character is a space or a tab.
pub open spec fn spec_line_blank(l: Seq<char>) -> bool {
    forall|i: int| 0 <= i < l.len() ==> (#[trigger] l[i]) == ' ' || l[i] == '\t'
}

/// Whether a line is blank.
fn line_blank(l: &String) -> (r: bool)
    ensures
        r == spec_line_blank(l@),
{
    let s = l.as_str();
    let len = s.unicode_len();
    let mut i: usize = 0;
    while i < len
        invariant
            i <= len,
            len == s@.len(),
            s@ == l@,
            forall|j: int| 0 <= j < i ==> (#[trigger] s@[j]) == ' ' || s@[j] == '\t',
        decreases len - i,
    {
        let c = s.get_char(i);
        if c != ' ' && c != '\t' {
            return false;
        }
        i = i + 1;
    }
    true
}

/// LAW: merge output never takes a reserved (purely numeric) or
/// windowless session from live state — since the live-enumeration
/// boundary yields only non-numeric names with at least one window, every
/// merged entry that is new (not already stored) is of that kind too.
pub proof fn lemma_merge_adds_no_reserved(
    stored: Map<Seq<char>, TmuxSessionV>,
    live: Map<Seq<char>, TmuxSessionV>,
)
    requires
        forall|k: Seq<char>| #[trigger]
            live.contains_key(k) ==> !crate::spec_is_numeric(k) && live[k].windows.len() > 0,
    ensures
        forall|k: Seq<char>| #[trigger]
            spec_merge(stored, live).contains_key(k) && !stored.contains_key(k)
                ==> !crate::spec_is_numeric(k) && spec_merge(stored, live)[k].windows.len() > 0,
{
}

} // verus!
