//! Single-session operations: select-or-create, delete, update, and the
//! live-enumeration boundary that turns raw multiplexer listings into a
//! stored-shape mapping, filtering out reserved and windowless sessions.

use vstd::prelude::*;

use crate::commands::{MuxCommand, MuxCommandV};
use crate::model::{TmuxSession, TmuxSessionV, TmuxSessions};
use crate::sessions::{SessionStorageImpl, LAYOUT_SETTLE_DELAY_MILLIS};

verus! {

/// The plan a restore leaves behind for one name: the session's windows,
/// panes and deferred layouts when the name is stored, nothing otherwise.
pub open spec fn spec_restore_cmds(m: Map<Seq<char>, TmuxSessionV>, name: Seq<char>) -> Seq<
    MuxCommandV,
> {
    if m.contains_key(name) {
        crate::sessions::spec_process_session(name, m[name].windows)
            + crate::sessions::spec_restore_layouts(
            crate::sessions::spec_session_layouts(name, m[name].windows),
            LAYOUT_SETTLE_DELAY_MILLIS,
        )
    } else {
        Seq::empty()
    }
}

/// The select-or-create plan: switch the client to a live session; or
/// restore a stored one and switch into it unless it was created in
/// background mode; or do nothing for an unknown name.
pub open spec fn spec_select(
    m: Map<Seq<char>, TmuxSessionV>,
    name: Seq<char>,
    is_live: bool,
) -> Seq<MuxCommandV> {
    if is_live {
        seq![MuxCommandV::SelectSession { session_name: name }]
    } else {
        spec_restore_cmds(m, name) + if crate::sessions::spec_restore_result(m, name) == Some(
            false,
        ) {
            seq![MuxCommandV::SelectSession { session_name: name }]
        } else {
            Seq::empty()
        }
    }
}

/// The mapping that live enumeration yields: each listed session under
/// its name, keeping the first listing of a name and dropping reserved
/// (purely numeric) names and windowless sessions at this boundary.
pub open spec fn spec_collect_live(entries: Seq<(Seq<char>, TmuxSessionV)>) -> Map<
    Seq<char>,
    TmuxSessionV,
>
    decreases entries.len(),
{
    if entries.len() == 0 {
        Map::empty()
    } else {
        let m = spec_collect_live(entries.drop_last());
        let last = entries.last();
        if !crate::spec_is_numeric(last.0) && last.1.windows.len() > 0 && !m.contains_key(
            last.0,
        ) {
            m.insert(last.0, last.1)
        } else {
            m
        }
    }
}

/// LAW: the live-enumeration boundary filters — every session it yields
/// has a non-numeric name and at least one window.
pub proof fn lemma_collect_live_filters(entries: Seq<(Seq<char>, TmuxSessionV)>)
    ensures
        forall|k: Seq<char>| #[trigger]
            spec_collect_live(entries).contains_key(k) ==> !crate::spec_is_numeric(k)
                && spec_collect_live(entries)[k].windows.len() > 0,
    decreases entries.len(),
{
    if entries.len() > 0 {
        lemma_collect_live_filters(entries.drop_last());
    }
}

/// Single-session operations against the stored mapping and the live
/// multiplexer state.
pub struct SessionImpl {
}

impl SessionImpl {
    /// Build the component.
    pub fn new() -> (r: SessionImpl) {
        SessionImpl {  }
    }

    /// The select-or-create plan for a name: switch to it when it is
    /// live; otherwise replay its stored topology and switch into it
    /// unless it came up in background mode; an unknown, non-live name
    /// yields no commands (the caller reports "not found").
    pub fn select(
        &self,
        name: &str,
        is_live: bool,
        sessions: &TmuxSessions,
        storage: &SessionStorageImpl,
    ) -> (r: Vec<MuxCommand>)
        requires
            sessions.wf(),
        ensures
            r.deep_view() == spec_select(sessions@, name@, is_live),
    {
        if is_live {
            let mut cmds: Vec<MuxCommand> = Vec::new();
            cmds.push(MuxCommand::SelectSession { session_name: name.to_owned() });
            proof {
                assert(cmds.deep_view() =~= spec_select(sessions@, name@, true));
            }
            cmds
        } else {
            let (background, mut cmds) = storage.restore(sessions, name);
            let switch = match background {
                Some(b) => !b,
                None => false,
            };
            if switch {
                cmds.push(MuxCommand::SelectSession { session_name: name.to_owned() });
            }
            proof {
                assert(cmds.deep_view() =~= spec_select(sessions@, name@, false));
            }
            cmds
        }
    }

    /// The mapping with the named session removed; the caller saves it
    /// back, so delete is a whole load-edit-save of the topology file.
    pub fn delete(&self, session_name: &str, sessions: TmuxSessions) -> (r: TmuxSessions)
        requires
            sessions.wf(),
        ensures
            r.wf(),
            r@ == sessions@.remove(session_name@),
    {
        let mut sessions = sessions;
        sessions.remove(session_name);
        sessions
    }

    /// The mapping with the named session replaced (or added); the caller
    /// saves it back.
    pub fn update(&self, session_name: &str, session: TmuxSession, sessions: TmuxSessions) -> (r:
        TmuxSessions)
        requires
            sessions.wf(),
        ensures
            r.wf(),
            r@ == sessions@.insert(session_name@, session@),
    {
        let mut sessions = sessions;
        sessions.insert(session_name.to_owned(), session);
        sessions
    }

    /// Turn the raw live listing into a stored-shape mapping, filtering
    /// reserved (purely numeric) names and windowless sessions out at
    /// this boundary and keeping the first listing of each name.
    pub fn list(&self, entries: Vec<(String, TmuxSession)>) -> (r: TmuxSessions)
        ensures
            r.wf(),
            r@ == spec_collect_live(entries.deep_view()),
            forall|k: Seq<char>| #[trigger]
                r@.contains_key(k) ==> !crate::spec_is_numeric(k) && r@[k].windows.len() > 0,
    {
        let ghost ev = entries.deep_view();
        let mut r = TmuxSessions::new();
        let count = entries.len();
        let mut entries = entries;
        let mut i: usize = 0;
        while i < count
            invariant
                i <= count,
                entries.len() == count - i,
                entries.deep_view() =~= ev.skip(i as int),
                ev.len() == count,
                r.wf(),
                r@ == spec_collect_live(ev.take(i as int)),
            decreases count - i,
        {
            let ghost prev = entries.deep_view();
            let (name, session) = entries.remove(0);
            proof {
                assert(prev[0] == ev[i as int]);
                assert(session@ == prev[0].1);
            }
            let keep = !crate::utils::is_numeric(name.as_str()) && session.windows.len() > 0
                && !r.contains_key(name.as_str());
            if keep {
                r.insert(name, session);
            }
            proof {
                assert(entries.deep_view() =~= prev.skip(1));
                assert(entries.deep_view() =~= ev.skip(i + 1));
                assert(ev.take(i + 1).drop_last() =~= ev.take(i as int));
                assert(ev.take(i + 1).last() == ev[i as int]);
                assert(r@ == spec_collect_live(ev.take(i + 1)));
            }
            i = i + 1;
        }
        proof {
            assert(ev.take(count as int) =~= ev);
            lemma_collect_live_filters(ev);
        }
        r
    }
}

} // verus!
