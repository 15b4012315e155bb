//! Smart-split pane state machine. Inspecting the focused window's panes
//! and their owning-window tags, it decides one of four transitions: join
//! an existing window's pane in, split a second pane off, report that the
//! target is already placed here, or swap the target into the last pane
//! and re-tag. The machine keeps no state of its own — all memory lives
//! in the pane tags the multiplexer stores.

use vstd::prelude::*;
use vstd::string::*;

use crate::commands::{MuxCommand, MuxCommandV};
use crate::model::{PaneWindowName, PaneWindowNameV, TmuxPane, TmuxPaneV, TmuxSession,
    TmuxSessionV, TmuxWindow, TmuxWindowV};
use crate::numtext;

verus! {

/// Position of the first colon at or after `from`, or the length when no
/// colon follows.
pub open spec fn first_colon_from(l: Seq<char>, from: int) -> int
    decreases l.len() - from,
{
    if from >= l.len() || from < 0 {
        l.len() as int
    } else if l[from] == ':' {
        from
    } else {
        first_colon_from(l, from + 1)
    }
}

/// `first_colon_from` stays within bounds, lands on a colon when one
/// exists, and skips no colon.
pub proof fn lemma_first_colon_props(l: Seq<char>, from: int)
    requires
        0 <= from <= l.len(),
    ensures
        from <= first_colon_from(l, from) <= l.len(),
        first_colon_from(l, from) < l.len() ==> l[first_colon_from(l, from)] == ':',
        forall|j: int| from <= j < first_colon_from(l, from) ==> l[j] != ':',
    decreases l.len() - from,
{
    if from < l.len() && l[from] != ':' {
        lemma_first_colon_props(l, from + 1);
    }
}

/// The pane/tag record one listing line denotes: the text before the
/// first colon read as a number (zero when unreadable), and the text
/// between the first and second colon as the owning-window tag, absent
/// when empty.
pub open spec fn spec_pane_window_name(l: Seq<char>) -> PaneWindowNameV {
    let c1 = first_colon_from(l, 0);
    let c2 = first_colon_from(l, c1 + 1);
    let name = l.subrange(c1 + 1, c2);
    PaneWindowNameV {
        index: numtext::spec_parse_usize_or_zero(l.take(c1)),
        window_name: if name.len() == 0 {
            None
        } else {
            Some(name)
        },
    }
}

/// Position of the first colon at or after `from`.
fn find_colon(s: &str, from: usize) -> (r: usize)
    requires
        from <= s@.len(),
    ensures
        r == first_colon_from(s@, from as int),
        from <= r <= s@.len(),
    {
    let len = s.unicode_len();
    let mut i: usize = from;
    while i < len
        invariant
            from <= i <= len,
            len == s@.len(),
            first_colon_from(s@, from as int) == first_colon_from(s@, i as int),
        decreases len - i,
    {
        let c = s.get_char(i);
        if c == ':' {
            return i;
        }
        i = i + 1;
    }
    i
}

/// The smart-split state machine, stateless in itself.
pub struct WindowImpl {
}

impl WindowImpl {
    /// Build the component.
    pub fn new() -> (r: WindowImpl) {
        WindowImpl {  }
    }

    /// Read the focused window's pane listing — one `index:tag` line per
    /// pane — into pane/tag records. Every line must hold a colon, as the
    /// listing's caller-specified field order guarantees.
    pub fn get_pane_window_names(&self, lines: &Vec<String>) -> (r: Vec<PaneWindowName>)
        requires
            forall|i: int|
                0 <= i < lines.deep_view().len() ==> first_colon_from(
                    #[trigger] lines.deep_view()[i],
                    0,
                ) < lines.deep_view()[i].len(),
        ensures
            r.deep_view() == lines.deep_view().map_values(|l: Seq<char>| spec_pane_window_name(l)),
    {
        let ghost lv = lines.deep_view();
        let n = lines.len();
        let mut r: Vec<PaneWindowName> = Vec::new();
        let mut i: usize = 0;
        while i < n
            invariant
                i <= n,
                n == lines.len(),
                lv == lines.deep_view(),
                forall|j: int|
                    0 <= j < lv.len() ==> first_colon_from(#[trigger] lv[j], 0) < lv[j].len(),
                r.deep_view() =~= lv.take(i as int).map_values(
                    |l: Seq<char>| spec_pane_window_name(l),
                ),
            decreases n - i,
        {
            let line = lines[i].as_str();
            let len = line.unicode_len();
            proof {
                assert(line@ == lv[i as int]);
                lemma_first_colon_props(line@, 0);
                assert(first_colon_from(line@, 0) < line@.len());
            }
            let c1 = find_colon(line, 0);
            proof {
                assert(c1 < len);
                lemma_first_colon_props(line@, c1 + 1);
            }
            let c2 = find_colon(line, c1 + 1);
            let index_part = line.substring_char(0, c1);
            proof {
                assert(index_part@ == line@.take(c1 as int));
            }
            let index = numtext::parse_usize_or_zero(index_part);
            let name_part = line.substring_char(c1 + 1, c2);
            let window_name: Option<String> = if name_part.unicode_len() == 0 {
                None
            } else {
                Some(name_part.to_owned())
            };
            let ghost pre = r.deep_view();
            let record = PaneWindowName { index, window_name };
            proof {
                assert(record@ == spec_pane_window_name(lv[i as int]));
            }
            r.push(record);
            proof {
                assert(r.deep_view() =~= pre.push(spec_pane_window_name(lv[i as int])));
                assert(r.deep_view() =~= lv.take(i + 1).map_values(
                    |l: Seq<char>| spec_pane_window_name(l),
                ));
            }
            i = i + 1;
        }
        proof {
            assert(lv.take(n as int) =~= lv);
        }
        r
    }

    /// The commands splitting a second pane off the focused window from a
    /// stored pane: the split itself, then — when the pane has no startup
    /// command but has a shell command — the keystrokes starting it in
    /// the new pane, which stands at `pane_count` (the count after the
    /// split, as the multiplexer reports it).
    pub fn split_window(&self, pane: &TmuxPane, pane_count: usize) -> (r: Vec<MuxCommand>)
        ensures
            r.deep_view() == spec_split_window_cmds(pane@, pane_count),
    {
        let mut cmds: Vec<MuxCommand> = Vec::new();
        cmds.push(
            MuxCommand::SplitCurrentWindow {
                horizontal: true,
                path: pane.path.clone(),
                startup_command: pane.startup_command.clone(),
            },
        );
        if pane.startup_command.is_none() {
            if let Some(shell_command) = &pane.shell_command {
                cmds.push(
                    MuxCommand::SendKeysToCurrentWindow {
                        pane_index: pane_count,
                        keys: shell_command.clone(),
                    },
                );
            }
        }
        proof {
            assert(cmds.deep_view() =~= spec_split_window_cmds(pane@, pane_count));
        }
        cmds
    }

    /// The swap-and-rename transition: when no window named after the
    /// target exists in the current session, create a background window
    /// — named from the last pane's tag, or the fallback name — seeded
    /// from the stored pane, start its shell command if applicable, and
    /// swap its first pane with the focused window's last pane; when such
    /// a window exists, swap directly and rename the vacated window to
    /// the last pane's prior tag. Either way, re-tag the focused window's
    /// last pane with the target session's name.
    pub fn replace_pane(
        &self,
        session_name: &str,
        pane_to_swap: &TmuxPane,
        current_window_last_pane: &PaneWindowName,
        current_session_window_names: &Vec<String>,
        current_session_name: &str,
    ) -> (r: Vec<MuxCommand>)
        ensures
            r.deep_view() == spec_replace_pane_cmds(
                session_name@,
                pane_to_swap@,
                current_window_last_pane@,
                current_session_window_names.deep_view(),
                current_session_name@,
            ),
    {
        let window_name: String = match &current_window_last_pane.window_name {
            Some(name) => name.clone(),
            None => "princess_kenny".to_owned(),
        };
        let mut cmds: Vec<MuxCommand> = Vec::new();
        if !crate::utils::vec_contains_name(current_session_window_names, session_name) {
            cmds.push(
                MuxCommand::NewWindowInCurrentSession {
                    window_name: window_name.clone(),
                    path: pane_to_swap.path.clone(),
                    environment: crate::sessions::clone_environment(&pane_to_swap.environment),
                    startup_command: pane_to_swap.startup_command.clone(),
                    background: true,
                },
            );
            if pane_to_swap.startup_command.is_none() {
                if let Some(shell_command) = &pane_to_swap.shell_command {
                    cmds.push(
                        MuxCommand::SendKeys {
                            session_name: current_session_name.to_owned(),
                            window_name: window_name.clone(),
                            pane_index: 1,
                            keys: shell_command.clone(),
                        },
                    );
                }
            }
            cmds.push(
                MuxCommand::SwapPanes {
                    current_window_pane_index: current_window_last_pane.index,
                    source_window_name: window_name.clone(),
                    source_pane_index: 1,
                },
            );
        } else {
            cmds.push(
                MuxCommand::SwapPanes {
                    current_window_pane_index: current_window_last_pane.index,
                    source_window_name: session_name.to_owned(),
                    source_pane_index: 1,
                },
            );
            cmds.push(
                MuxCommand::RenameWindowInCurrentSession {
                    old_name: session_name.to_owned(),
                    new_name: window_name.clone(),
                },
            );
        }
        cmds.push(
            MuxCommand::SetPaneOptionForCurrentWindow {
                pane_index: current_window_last_pane.index,
                name: "@window-name".to_owned(),
                value: session_name.to_owned(),
            },
        );
        proof {
            assert(cmds.deep_view() =~= spec_replace_pane_cmds(
                session_name@,
                pane_to_swap@,
                current_window_last_pane@,
                current_session_window_names.deep_view(),
                current_session_name@,
            ));
        }
        cmds
    }

    /// Decide and plan the smart split for a target session against the
    /// focused window's pane/tag records and the current session's window
    /// names. A stored session without a first window or first pane
    /// yields no commands.
    #[verifier::loop_isolation(false)]
    pub fn smart_split(
        &self,
        session_name: &str,
        session: &TmuxSession,
        pane_window_names: &Vec<PaneWindowName>,
        current_session_window_names: &Vec<String>,
        current_session_name: &str,
    ) -> (r: Vec<MuxCommand>)
        ensures
            r.deep_view() == spec_smart_split_cmds(
                session_name@,
                session@,
                pane_window_names.deep_view(),
                current_session_window_names.deep_view(),
                current_session_name@,
            ),
    {
        let ghost pv = pane_window_names.deep_view();
        let mut cmds: Vec<MuxCommand> = Vec::new();
        if session.windows.len() == 0 || session.windows[0].panes.len() == 0 {
            proof {
                assert(cmds.deep_view() =~= Seq::<MuxCommandV>::empty());
            }
            return cmds;
        }
        let pane = &session.windows[0].panes[0];
        proof {
            assert(session@.windows[0] == session.windows@[0]@);
            assert(session@.windows[0].panes[0] == session.windows@[0].panes@[0]@);
            assert(pane@ == session@.windows[0].panes[0]);
        }
        let window_exists = crate::utils::vec_contains_name(
            current_session_window_names,
            session_name,
        );
        if window_exists && pane_window_names.len() == 1 {
            cmds.push(
                MuxCommand::JoinPaneToCurrentWindow {
                    window_name: session_name.to_owned(),
                    pane_index: 1,
                },
            );
            cmds.push(MuxCommand::RefreshClient);
            proof {
                assert(cmds.deep_view() =~= spec_smart_split_cmds(
                    session_name@,
                    session@,
                    pv,
                    current_session_window_names.deep_view(),
                    current_session_name@,
                ));
            }
            return cmds;
        }
        if pane_window_names.len() == 1 {
            let mut split_cmds = self.split_window(pane, 2);
            cmds.append(&mut split_cmds);
            cmds.push(
                MuxCommand::SetPaneOptionForCurrentWindow {
                    pane_index: 2,
                    name: "@window-name".to_owned(),
                    value: session_name.to_owned(),
                },
            );
            proof {
                assert(cmds.deep_view() =~= spec_smart_split_cmds(
                    session_name@,
                    session@,
                    pv,
                    current_session_window_names.deep_view(),
                    current_session_name@,
                ));
            }
            return cmds;
        }
        let n = pane_window_names.len();
        let mut i: usize = 0;
        while i < n
            invariant
                i <= n,
                n == pane_window_names.len(),
                pv == pane_window_names.deep_view(),
                cmds.deep_view() =~= Seq::<MuxCommandV>::empty(),
                forall|j: int|
                    0 <= j < i ==> (#[trigger] pv[j]).window_name != Some(session_name@),
            decreases n - i,
        {
            let tagged = match &pane_window_names[i].window_name {
                Some(name) => crate::utils::str_eq(name.as_str(), session_name),
                None => false,
            };
            if tagged {
                proof {
                    assert(pv[i as int] == pane_window_names@[i as int]@);
                    assert(pv[i as int].window_name == Some(session_name@));
                    lemma_first_tagged_at(pv, session_name@, i as int);
                }
                let message = pane_message(pane_window_names[i].index, session_name);
                proof {
                    assert(message@ == spec_pane_message(pv[i as int].index, session_name@));
                }
                cmds.push(MuxCommand::DisplayMessage { message });
                proof {
                    assert(cmds.deep_view() =~= seq![
                        MuxCommandV::DisplayMessage {
                            message: spec_pane_message(pv[i as int].index, session_name@),
                        },
                    ]);
                }
                return cmds;
            }
            i = i + 1;
        }
        proof {
            lemma_first_tagged_none(pv, session_name@);
        }
        if pane_window_names.len() > 0 {
            let last = &pane_window_names[pane_window_names.len() - 1];
            let r = self.replace_pane(
                session_name,
                pane,
                last,
                current_session_window_names,
                current_session_name,
            );
            proof {
                assert(r.deep_view() =~= spec_smart_split_cmds(
                    session_name@,
                    session@,
                    pv,
                    current_session_window_names.deep_view(),
                    current_session_name@,
                ));
            }
            return r;
        }
        proof {
            assert(cmds.deep_view() =~= spec_smart_split_cmds(
                session_name@,
                session@,
                pv,
                current_session_window_names.deep_view(),
                current_session_name@,
            ));
        }
        cmds
    }
}

/// The window/pane record one detail-listing line denotes, read from six
/// colon-separated fields: window ordinal, window name, layout, pane
/// ordinal, pane-active mark, pane path. Nothing when the line has too
/// few fields or an ordinal is unreadable.
pub open spec fn spec_parse_detail_line(l: Seq<char>) -> Option<
    (usize, Seq<char>, Seq<char>, TmuxPaneV),
> {
    let c1 = first_colon_from(l, 0);
    let c2 = first_colon_from(l, c1 + 1);
    let c3 = first_colon_from(l, c2 + 1);
    let c4 = first_colon_from(l, c3 + 1);
    let c5 = first_colon_from(l, c4 + 1);
    let c6 = first_colon_from(l, c5 + 1);
    if c5 >= l.len() {
        None
    } else {
        match (
            numtext::spec_parse_usize(l.take(c1)),
            numtext::spec_parse_usize(l.subrange(c3 + 1, c4)),
        ) {
            (Some(window_index), Some(pane_index)) => Some(
                (
                    window_index,
                    l.subrange(c1 + 1, c2),
                    l.subrange(c2 + 1, c3),
                    TmuxPaneV {
                        index: pane_index,
                        path: l.subrange(c5 + 1, c6),
                        active: l.subrange(c4 + 1, c5) == "1"@,
                        startup_command: None,
                        shell_command: None,
                        environment: Seq::empty(),
                    },
                ),
            ),
            _ => None,
        }
    }
}

/// Index of the first window of this name, or -1.
pub open spec fn first_window_named(ws: Seq<TmuxWindowV>, name: Seq<char>) -> int
    decreases ws.len(),
{
    if ws.len() == 0 {
        -1
    } else if ws[0].name == name {
        0
    } else {
        let r = first_window_named(ws.drop_first(), name);
        if r == -1 {
            -1
        } else {
            r + 1
        }
    }
}

/// A position whose earlier windows all differ in name and which holds
/// the name is the first position of that name.
proof fn lemma_first_window_named_at(ws: Seq<TmuxWindowV>, name: Seq<char>, i: int)
    requires
        0 <= i < ws.len(),
        ws[i].name == name,
        forall|j: int| 0 <= j < i ==> (#[trigger] ws[j]).name != name,
    ensures
        first_window_named(ws, name) == i,
    decreases ws.len(),
{
    if i > 0 {
        let t = ws.drop_first();
        assert forall|k: int| 0 <= k < t.len() implies t[k] == ws[k + 1] by {}
        assert(t[i - 1].name == name);
        assert forall|j: int| 0 <= j < i - 1 implies (#[trigger] t[j]).name != name by {
            assert(ws[j + 1].name != name);
        }
        lemma_first_window_named_at(t, name, i - 1);
    }
}

/// When no window holds the name, there is no first position.
proof fn lemma_first_window_named_none(ws: Seq<TmuxWindowV>, name: Seq<char>)
    requires
        forall|j: int| 0 <= j < ws.len() ==> (#[trigger] ws[j]).name != name,
    ensures
        first_window_named(ws, name) == -1,
    decreases ws.len(),
{
    if ws.len() > 0 {
        let t = ws.drop_first();
        assert forall|j: int| 0 <= j < t.len() implies (#[trigger] t[j]).name != name by {
            assert(ws[j + 1].name != name);
        }
        lemma_first_window_named_none(t, name);
    }
}

/// Position of the first window carrying the given name, if any.
fn find_window_position(windows: &Vec<TmuxWindow>, name: &str) -> (r: Option<usize>)
    ensures
        match r {
            Some(j) => j < windows.deep_view().len() && first_window_named(
                windows.deep_view(),
                name@,
            ) == j as int,
            None => first_window_named(windows.deep_view(), name@) == -1,
        },
{
    let count = windows.len();
    let mut j: usize = 0;
    while j < count
        invariant
            j <= count,
            count == windows.len(),
            forall|k: int|
                0 <= k < j ==> (#[trigger] windows.deep_view()[k]).name != name@,
        decreases count - j,
    {
        if crate::utils::str_eq(windows[j].name.as_str(), name) {
            proof {
                lemma_first_window_named_at(windows.deep_view(), name@, j as int);
            }
            return Some(j);
        }
        j = j + 1;
    }
    proof {
        lemma_first_window_named_none(windows.deep_view(), name@);
    }
    None
}

/// One listing line folded into the windows gathered so far: its pane is
/// appended to the window already carrying the line's window name, or a
/// new window is opened for it.
pub open spec fn spec_add_detail(ws: Seq<TmuxWindowV>, l: Seq<char>) -> Seq<TmuxWindowV> {
    let parsed = spec_parse_detail_line(l).unwrap();
    let j = first_window_named(ws, parsed.1);
    if j >= 0 {
        ws.update(
            j,
            TmuxWindowV {
                index: ws[j].index,
                name: ws[j].name,
                layout: ws[j].layout,
                panes: ws[j].panes.push(parsed.3),
                active: ws[j].active,
            },
        )
    } else {
        ws.push(
            TmuxWindowV {
                index: parsed.0,
                name: parsed.1,
                layout: parsed.2,
                panes: seq![parsed.3],
                active: None,
            },
        )
    }
}

/// The windows the first `k` listing lines denote.
pub open spec fn spec_details_upto(lines: Seq<Seq<char>>, k: int) -> Seq<TmuxWindowV>
    decreases k,
{
    if k <= 0 {
        Seq::empty()
    } else {
        spec_add_detail(spec_details_upto(lines, k - 1), lines[k - 1])
    }
}

impl WindowImpl {
    /// Read a session's pane detail listing — one line per pane, in the
    /// caller-specified field order — into windows with their panes
    /// grouped under them, in first-appearance order. Every line must
    /// denote a record, as the listing's field order guarantees.
    #[verifier::loop_isolation(false)]
    pub fn list_with_pane_details(&self, lines: &Vec<String>) -> (r: Vec<TmuxWindow>)
        requires
            forall|i: int|
                0 <= i < lines.deep_view().len() ==> spec_parse_detail_line(
                    #[trigger] lines.deep_view()[i],
                ) is Some,
        ensures
            r.deep_view() == spec_details_upto(
                lines.deep_view(),
                lines.deep_view().len() as int,
            ),
    {
        let ghost lv = lines.deep_view();
        let n = lines.len();
        let mut windows: Vec<TmuxWindow> = Vec::new();
        let mut i: usize = 0;
        while i < n
            invariant
                i <= n,
                windows.deep_view() =~= spec_details_upto(lv, i as int),
            decreases n - i,
        {
            let line = lines[i].as_str();
            let len = line.unicode_len();
            proof {
                assert(line@ == lv[i as int]);
                assert(spec_parse_detail_line(lv[i as int]) is Some);
                lemma_first_colon_props(line@, 0);
            }
            let c1 = find_colon(line, 0);
            proof {
                lemma_first_colon_props(line@, c1 + 1);
            }
            let c2 = find_colon(line, c1 + 1);
            proof {
                lemma_first_colon_props(line@, c2 + 1);
            }
            let c3 = find_colon(line, c2 + 1);
            proof {
                lemma_first_colon_props(line@, c3 + 1);
            }
            let c4 = find_colon(line, c3 + 1);
            proof {
                lemma_first_colon_props(line@, c4 + 1);
            }
            let c5 = find_colon(line, c4 + 1);
            proof {
                assert(c5 < len);
                lemma_first_colon_props(line@, c5 + 1);
            }
            let c6 = find_colon(line, c5 + 1);
            let window_index = match numtext::parse_usize(line.substring_char(0, c1)) {
                Some(v) => v,
                None => {
                    proof {
                        assert(false);
                    }
                    0
                },
            };
            let window_name = line.substring_char(c1 + 1, c2);
            let layout = line.substring_char(c2 + 1, c3);
            let pane_index = match numtext::parse_usize(line.substring_char(c3 + 1, c4)) {
                Some(v) => v,
                None => {
                    proof {
                        assert(false);
                    }
                    0
                },
            };
            let active = crate::utils::str_eq(line.substring_char(c4 + 1, c5), "1");
            let path = line.substring_char(c5 + 1, c6);
            let pane = TmuxPane {
                index: pane_index,
                path: path.to_owned(),
                active,
                startup_command: None,
                shell_command: None,
                environment: Vec::new(),
            };
            proof {
                assert(pane@.environment =~= Seq::<crate::model::NameValueV>::empty());
                assert(pane@ == spec_parse_detail_line(lv[i as int]).unwrap().3);
            }
            let ghost parsed = spec_parse_detail_line(lv[i as int]).unwrap();
            proof {
                assert(parsed.0 == window_index);
                assert(parsed.1 == window_name@);
                assert(parsed.2 == layout@);
                assert(parsed.3 == pane@);
            }
            let ghost ws_pre = windows.deep_view();
            let found = find_window_position(&windows, window_name);
            match found {
                Some(j) => {
                    let ghost old_w = ws_pre[j as int];
                    let mut w = windows.remove(j);
                    proof {
                        assert(w@ == old_w);
                    }
                    let ghost old_panes = w.panes.deep_view();
                    w.panes.push(pane);
                    proof {
                        assert(w.panes.deep_view() =~= old_panes.push(pane@));
                        assert(w@ == (TmuxWindowV {
                            index: old_w.index,
                            name: old_w.name,
                            layout: old_w.layout,
                            panes: old_w.panes.push(pane@),
                            active: old_w.active,
                        }));
                    }
                    windows.insert(j, w);
                    proof {
                        assert(windows.deep_view() =~= ws_pre.update(j as int, w@));
                        assert(windows.deep_view() =~= spec_add_detail(ws_pre, lv[i as int]));
                    }
                },
                None => {
                    let w = TmuxWindow {
                        index: window_index,
                        name: window_name.to_owned(),
                        layout: layout.to_owned(),
                        panes: vec![pane],
                        active: None,
                    };
                    proof {
                        assert(w.panes.deep_view() =~= seq![parsed.3]);
                        assert(w@ == (TmuxWindowV {
                            index: parsed.0,
                            name: parsed.1,
                            layout: parsed.2,
                            panes: seq![parsed.3],
                            active: None,
                        }));
                    }
                    windows.push(w);
                    proof {
                        assert(windows.deep_view() =~= ws_pre.push(
                            TmuxWindowV {
                                index: parsed.0,
                                name: parsed.1,
                                layout: parsed.2,
                                panes: seq![parsed.3],
                                active: None,
                            },
                        ));
                        assert(windows.deep_view() =~= spec_add_detail(ws_pre, lv[i as int]));
                    }
                },
            }
            i = i + 1;
        }
        proof {
            assert(windows.deep_view() =~= spec_details_upto(lv, n as int));
        }
        windows
    }
}

/// The status record one pane-listing line denotes, read from six
/// colon-separated fields: window ordinal, window-active mark, window
/// name, pane ordinal, owning-window tag, pane-active mark. Nothing — the
/// line is skipped — when fields are missing; unreadable ordinals count
/// as zero.
pub open spec fn spec_parse_status_line(l: Seq<char>) -> Option<
    (usize, bool, Seq<char>, crate::model::StatusPaneV),
> {
    let c1 = first_colon_from(l, 0);
    let c2 = first_colon_from(l, c1 + 1);
    let c3 = first_colon_from(l, c2 + 1);
    let c4 = first_colon_from(l, c3 + 1);
    let c5 = first_colon_from(l, c4 + 1);
    let c6 = first_colon_from(l, c5 + 1);
    if c5 >= l.len() {
        None
    } else {
        let tag = l.subrange(c4 + 1, c5);
        Some(
            (
                numtext::spec_parse_usize_or_zero(l.take(c1)),
                l.subrange(c1 + 1, c2) == "1"@,
                l.subrange(c2 + 1, c3),
                crate::model::StatusPaneV {
                    index: numtext::spec_parse_usize_or_zero(l.subrange(c3 + 1, c4)),
                    window_name: if tag.len() == 0 {
                        None
                    } else {
                        Some(tag)
                    },
                    active: l.subrange(c5 + 1, c6) == "1"@,
                },
            ),
        )
    }
}

/// Index of the first status window with the given ordinal, or -1.
pub open spec fn first_window_indexed(ws: Seq<crate::model::StatusWindowV>, wi: usize) -> int
    decreases ws.len(),
{
    if ws.len() == 0 {
        -1
    } else if ws[0].index == wi {
        0
    } else {
        let r = first_window_indexed(ws.drop_first(), wi);
        if r == -1 {
            -1
        } else {
            r + 1
        }
    }
}

/// The position where a window of the given ordinal is inserted to keep
/// the sequence ordered: before the first window with a larger ordinal.
pub open spec fn sorted_insert_pos(ws: Seq<crate::model::StatusWindowV>, wi: usize) -> int
    decreases ws.len(),
{
    if ws.len() == 0 {
        0
    } else if ws[0].index > wi {
        0
    } else {
        1 + sorted_insert_pos(ws.drop_first(), wi)
    }
}

proof fn lemma_first_window_indexed_at(ws: Seq<crate::model::StatusWindowV>, wi: usize, i: int)
    requires
        0 <= i < ws.len(),
        ws[i].index == wi,
        forall|j: int| 0 <= j < i ==> (#[trigger] ws[j]).index != wi,
    ensures
        first_window_indexed(ws, wi) == i,
    decreases ws.len(),
{
    if i > 0 {
        let t = ws.drop_first();
        assert forall|k: int| 0 <= k < t.len() implies t[k] == ws[k + 1] by {}
        assert forall|j: int| 0 <= j < i - 1 implies (#[trigger] t[j]).index != wi by {
            assert(ws[j + 1].index != wi);
        }
        lemma_first_window_indexed_at(t, wi, i - 1);
    }
}

proof fn lemma_first_window_indexed_none(ws: Seq<crate::model::StatusWindowV>, wi: usize)
    requires
        forall|j: int| 0 <= j < ws.len() ==> (#[trigger] ws[j]).index != wi,
    ensures
        first_window_indexed(ws, wi) == -1,
    decreases ws.len(),
{
    if ws.len() > 0 {
        let t = ws.drop_first();
        assert forall|j: int| 0 <= j < t.len() implies (#[trigger] t[j]).index != wi by {
            assert(ws[j + 1].index != wi);
        }
        lemma_first_window_indexed_none(t, wi);
    }
}

proof fn lemma_sorted_insert_pos_at(ws: Seq<crate::model::StatusWindowV>, wi: usize, p: int)
    requires
        0 <= p <= ws.len(),
        forall|k: int| 0 <= k < p ==> (#[trigger] ws[k]).index <= wi,
        p < ws.len() ==> ws[p].index > wi,
    ensures
        sorted_insert_pos(ws, wi) == p,
    decreases ws.len(),
{
    if p > 0 {
        let t = ws.drop_first();
        assert forall|k: int| 0 <= k < t.len() implies t[k] == ws[k + 1] by {}
        assert(ws[0].index <= wi);
        assert forall|k: int| 0 <= k < p - 1 implies (#[trigger] t[k]).index <= wi by {
            assert(ws[k + 1].index <= wi);
        }
        lemma_sorted_insert_pos_at(t, wi, p - 1);
    }
}

/// Index of the first status window carrying the ordinal, if any.
fn find_window_indexed(windows: &Vec<crate::model::StatusWindow>, wi: usize) -> (r: Option<usize>)
    ensures
        match r {
            Some(j) => j < windows.deep_view().len() && first_window_indexed(
                windows.deep_view(),
                wi,
            ) == j as int,
            None => first_window_indexed(windows.deep_view(), wi) == -1,
        },
{
    let count = windows.len();
    let mut j: usize = 0;
    while j < count
        invariant
            j <= count,
            count == windows.len(),
            forall|k: int| 0 <= k < j ==> (#[trigger] windows.deep_view()[k]).index != wi,
        decreases count - j,
    {
        if windows[j].index == wi {
            proof {
                lemma_first_window_indexed_at(windows.deep_view(), wi, j as int);
            }
            return Some(j);
        }
        j = j + 1;
    }
    proof {
        lemma_first_window_indexed_none(windows.deep_view(), wi);
    }
    None
}

/// The ordered insertion position for a window of the given ordinal.
fn find_insert_pos(windows: &Vec<crate::model::StatusWindow>, wi: usize) -> (r: usize)
    ensures
        r <= windows.deep_view().len(),
        r as int == sorted_insert_pos(windows.deep_view(), wi),
{
    let count = windows.len();
    let mut p: usize = 0;
    while p < count
        invariant
            p <= count,
            count == windows.len(),
            forall|k: int| 0 <= k < p ==> (#[trigger] windows.deep_view()[k]).index <= wi,
        decreases count - p,
    {
        if windows[p].index > wi {
            proof {
                lemma_sorted_insert_pos_at(windows.deep_view(), wi, p as int);
            }
            return p;
        }
        p = p + 1;
    }
    proof {
        lemma_sorted_insert_pos_at(windows.deep_view(), wi, count as int);
    }
    p
}

/// One status-listing line folded into the windows gathered so far: a
/// skipped line changes nothing; a pane joins the window already carrying
/// its ordinal, or opens a new window placed in ordinal order.
pub open spec fn spec_add_status(
    ws: Seq<crate::model::StatusWindowV>,
    l: Seq<char>,
) -> Seq<crate::model::StatusWindowV> {
    match spec_parse_status_line(l) {
        None => ws,
        Some((wi, wactive, wname, pane)) => {
            let j = first_window_indexed(ws, wi);
            if j >= 0 {
                ws.update(
                    j,
                    crate::model::StatusWindowV {
                        name: ws[j].name,
                        index: ws[j].index,
                        active: ws[j].active,
                        panes: ws[j].panes.push(pane),
                    },
                )
            } else {
                ws.insert(
                    sorted_insert_pos(ws, wi),
                    crate::model::StatusWindowV {
                        name: wname,
                        index: wi,
                        active: wactive,
                        panes: seq![pane],
                    },
                )
            }
        },
    }
}

/// The status windows the first `k` listing lines denote.
pub open spec fn spec_status_upto(lines: Seq<Seq<char>>, k: int) -> Seq<
    crate::model::StatusWindowV,
>
    decreases k,
{
    if k <= 0 {
        Seq::empty()
    } else {
        spec_add_status(spec_status_upto(lines, k - 1), lines[k - 1])
    }
}

impl WindowImpl {
    /// Read the current session's pane listing into status windows: panes
    /// grouped under their window's ordinal, windows ordered by ordinal,
    /// lines with missing fields skipped.
    #[verifier::loop_isolation(false)]
    pub fn list_names_for_status(&self, lines: &Vec<String>) -> (r: Vec<
        crate::model::StatusWindow,
    >)
        ensures
            r.deep_view() == spec_status_upto(lines.deep_view(), lines.deep_view().len() as int),
    {
        let ghost lv = lines.deep_view();
        let n = lines.len();
        let mut windows: Vec<crate::model::StatusWindow> = Vec::new();
        let mut i: usize = 0;
        while i < n
            invariant
                i <= n,
                windows.deep_view() =~= spec_status_upto(lv, i as int),
            decreases n - i,
        {
            let line = lines[i].as_str();
            let len = line.unicode_len();
            proof {
                assert(line@ == lv[i as int]);
                lemma_first_colon_props(line@, 0);
            }
            let c1 = find_colon(line, 0);
            if c1 >= len {
                proof {
                    assert(spec_parse_status_line(lv[i as int]) is None);
                    assert(windows.deep_view() =~= spec_status_upto(lv, i + 1));
                }
                i = i + 1;
                continue ;
            }
            proof {
                lemma_first_colon_props(line@, c1 + 1);
            }
            let c2 = find_colon(line, c1 + 1);
            if c2 >= len {
                proof {
                    assert(spec_parse_status_line(lv[i as int]) is None);
                    assert(windows.deep_view() =~= spec_status_upto(lv, i + 1));
                }
                i = i + 1;
                continue ;
            }
            proof {
                lemma_first_colon_props(line@, c2 + 1);
            }
            let c3 = find_colon(line, c2 + 1);
            if c3 >= len {
                proof {
                    assert(spec_parse_status_line(lv[i as int]) is None);
                    assert(windows.deep_view() =~= spec_status_upto(lv, i + 1));
                }
                i = i + 1;
                continue ;
            }
            proof {
                lemma_first_colon_props(line@, c3 + 1);
            }
            let c4 = find_colon(line, c3 + 1);
            if c4 >= len {
                proof {
                    assert(spec_parse_status_line(lv[i as int]) is None);
                    assert(windows.deep_view() =~= spec_status_upto(lv, i + 1));
                }
                i = i + 1;
                continue ;
            }
            proof {
                lemma_first_colon_props(line@, c4 + 1);
            }
            let c5 = find_colon(line, c4 + 1);
            if c5 >= len {
                proof {
                    assert(spec_parse_status_line(lv[i as int]) is None);
                    assert(windows.deep_view() =~= spec_status_upto(lv, i + 1));
                }
                i = i + 1;
                continue ;
            }
            proof {
                lemma_first_colon_props(line@, c5 + 1);
            }
            let c6 = find_colon(line, c5 + 1);
            let window_index = numtext::parse_usize_or_zero(line.substring_char(0, c1));
            let window_active = crate::utils::str_eq(line.substring_char(c1 + 1, c2), "1");
            let window_name = line.substring_char(c2 + 1, c3);
            let pane_index = numtext::parse_usize_or_zero(line.substring_char(c3 + 1, c4));
            let tag = line.substring_char(c4 + 1, c5);
            let pane_window_name: Option<String> = if tag.unicode_len() == 0 {
                None
            } else {
                Some(tag.to_owned())
            };
            let pane_active = crate::utils::str_eq(line.substring_char(c5 + 1, c6), "1");
            let status_pane = crate::model::StatusPane {
                index: pane_index,
                window_name: pane_window_name,
                active: pane_active,
            };
            let ghost parsed = spec_parse_status_line(lv[i as int]).unwrap();
            proof {
                assert(parsed.0 == window_index);
                assert(parsed.1 == window_active);
                assert(parsed.2 == window_name@);
                assert(parsed.3 == status_pane@);
            }
            let ghost ws_pre = windows.deep_view();
            match find_window_indexed(&windows, window_index) {
                Some(j) => {
                    let ghost old_w = ws_pre[j as int];
                    let mut w = windows.remove(j);
                    proof {
                        assert(w@ == old_w);
                    }
                    let ghost old_panes = w.panes.deep_view();
                    w.panes.push(status_pane);
                    proof {
                        assert(w.panes.deep_view() =~= old_panes.push(parsed.3));
                        assert(w@ == (crate::model::StatusWindowV {
                            name: old_w.name,
                            index: old_w.index,
                            active: old_w.active,
                            panes: old_w.panes.push(parsed.3),
                        }));
                    }
                    windows.insert(j, w);
                    proof {
                        assert(windows.deep_view() =~= ws_pre.update(j as int, w@));
                        assert(windows.deep_view() =~= spec_add_status(ws_pre, lv[i as int]));
                    }
                },
                None => {
                    let p = find_insert_pos(&windows, window_index);
                    let w = crate::model::StatusWindow {
                        name: window_name.to_owned(),
                        index: window_index,
                        active: window_active,
                        panes: vec![status_pane],
                    };
                    proof {
                        assert(w.panes.deep_view() =~= seq![parsed.3]);
                        assert(w@ == (crate::model::StatusWindowV {
                            name: parsed.2,
                            index: parsed.0,
                            active: parsed.1,
                            panes: seq![parsed.3],
                        }));
                    }
                    windows.insert(p, w);
                    proof {
                        assert(windows.deep_view() =~= ws_pre.insert(p as int, w@));
                        assert(windows.deep_view() =~= spec_add_status(ws_pre, lv[i as int]));
                    }
                },
            }
            i = i + 1;
        }
        proof {
            assert(windows.deep_view() =~= spec_status_upto(lv, n as int));
        }
        windows
    }
}

/// The commands of the split transition.
pub open spec fn spec_split_window_cmds(pane: TmuxPaneV, pane_count: usize) -> Seq<MuxCommandV> {
    let split = MuxCommandV::SplitCurrentWindow {
        horizontal: true,
        path: pane.path,
        startup_command: pane.startup_command,
    };
    if pane.startup_command is None && pane.shell_command is Some {
        seq![
            split,
            MuxCommandV::SendKeysToCurrentWindow {
                pane_index: pane_count,
                keys: pane.shell_command.unwrap(),
            },
        ]
    } else {
        seq![split]
    }
}

/// The commands of the swap-and-rename transition.
pub open spec fn spec_replace_pane_cmds(
    session_name: Seq<char>,
    pane_to_swap: TmuxPaneV,
    last_pane: PaneWindowNameV,
    window_names: Seq<Seq<char>>,
    current_session_name: Seq<char>,
) -> Seq<MuxCommandV> {
    let window_name = match last_pane.window_name {
        Some(name) => name,
        None => "princess_kenny"@,
    };
    let retag = MuxCommandV::SetPaneOptionForCurrentWindow {
        pane_index: last_pane.index,
        name: "@window-name"@,
        value: session_name,
    };
    if !window_names.contains(session_name) {
        let create = seq![
            MuxCommandV::NewWindowInCurrentSession {
                window_name,
                path: pane_to_swap.path,
                environment: pane_to_swap.environment,
                startup_command: pane_to_swap.startup_command,
                background: true,
            },
        ];
        let keys: Seq<MuxCommandV> = if pane_to_swap.startup_command is None
            && pane_to_swap.shell_command is Some {
            seq![
                MuxCommandV::SendKeys {
                    session_name: current_session_name,
                    window_name,
                    pane_index: 1,
                    keys: pane_to_swap.shell_command.unwrap(),
                },
            ]
        } else {
            Seq::empty()
        };
        create + keys + seq![
            MuxCommandV::SwapPanes {
                current_window_pane_index: last_pane.index,
                source_window_name: window_name,
                source_pane_index: 1,
            },
            retag,
        ]
    } else {
        seq![
            MuxCommandV::SwapPanes {
                current_window_pane_index: last_pane.index,
                source_window_name: session_name,
                source_pane_index: 1,
            },
            MuxCommandV::RenameWindowInCurrentSession {
                old_name: session_name,
                new_name: window_name,
            },
            retag,
        ]
    }
}

/// Index of the first pane tagged with the given name, or -1.
pub open spec fn first_tagged(panes: Seq<PaneWindowNameV>, name: Seq<char>) -> int
    decreases panes.len(),
{
    if panes.len() == 0 {
        -1
    } else if panes[0].window_name == Some(name) {
        0
    } else {
        let r = first_tagged(panes.drop_first(), name);
        if r == -1 {
            -1
        } else {
            r + 1
        }
    }
}

/// A position whose earlier panes all lack the tag and which holds it is
/// the first tagged position.
proof fn lemma_first_tagged_at(panes: Seq<PaneWindowNameV>, name: Seq<char>, i: int)
    requires
        0 <= i < panes.len(),
        panes[i].window_name == Some(name),
        forall|j: int| 0 <= j < i ==> (#[trigger] panes[j]).window_name != Some(name),
    ensures
        first_tagged(panes, name) == i,
    decreases panes.len(),
{
    if i > 0 {
        let t = panes.drop_first();
        assert forall|k: int| 0 <= k < t.len() implies t[k] == panes[k + 1] by {}
        assert(t[i - 1].window_name == Some(name));
        assert forall|j: int| 0 <= j < i - 1 implies (#[trigger] t[j]).window_name != Some(
            name,
        ) by {
            assert(panes[j + 1].window_name != Some(name));
        }
        lemma_first_tagged_at(t, name, i - 1);
    }
}

/// When no pane holds the tag, there is no first tagged position.
proof fn lemma_first_tagged_none(panes: Seq<PaneWindowNameV>, name: Seq<char>)
    requires
        forall|j: int|
            0 <= j < panes.len() ==> (#[trigger] panes[j]).window_name != Some(name),
    ensures
        first_tagged(panes, name) == -1,
    decreases panes.len(),
{
    if panes.len() > 0 {
        let t = panes.drop_first();
        assert forall|j: int| 0 <= j < t.len() implies (#[trigger] t[j]).window_name != Some(
            name,
        ) by {
            assert(panes[j + 1].window_name != Some(name));
        }
        lemma_first_tagged_none(t, name);
    }
}

/// The informational message naming the pane that already shows the
/// target session.
pub open spec fn spec_pane_message(index: usize, name: Seq<char>) -> Seq<char> {
    "#[fg=#e0e0e0,align=centre]Pane #[fg=#8a60ab]"@ + numtext::spec_digits(index as nat)
        + "#[fg=#e0e0e0] is #[fg=#8a60ab]"@ + name
}

/// Build the informational message for a pane index and session name.
fn pane_message(index: usize, name: &str) -> (r: String)
    ensures
        r@ == spec_pane_message(index, name@),
{
    let mut s = "#[fg=#e0e0e0,align=centre]Pane #[fg=#8a60ab]".to_owned();
    s.append(numtext::usize_to_string(index).as_str());
    s.append("#[fg=#e0e0e0] is #[fg=#8a60ab]");
    s.append(name);
    s
}

/// The full smart-split decision: join when a window named after the
/// target exists and the focused window has one pane; split when it has
/// one pane; report when a pane is already tagged for the target; swap
/// and re-tag otherwise.
pub open spec fn spec_smart_split_cmds(
    session_name: Seq<char>,
    session: TmuxSessionV,
    panes: Seq<PaneWindowNameV>,
    window_names: Seq<Seq<char>>,
    current_session_name: Seq<char>,
) -> Seq<MuxCommandV> {
    if session.windows.len() == 0 || session.windows[0].panes.len() == 0 {
        Seq::empty()
    } else {
        let pane = session.windows[0].panes[0];
        let window_exists = window_names.contains(session_name);
        if window_exists && panes.len() == 1 {
            seq![
                MuxCommandV::JoinPaneToCurrentWindow {
                    window_name: session_name,
                    pane_index: 1,
                },
                MuxCommandV::RefreshClient,
            ]
        } else if panes.len() == 1 {
            spec_split_window_cmds(pane, 2) + seq![
                MuxCommandV::SetPaneOptionForCurrentWindow {
                    pane_index: 2,
                    name: "@window-name"@,
                    value: session_name,
                },
            ]
        } else if first_tagged(panes, session_name) >= 0 {
            seq![
                MuxCommandV::DisplayMessage {
                    message: spec_pane_message(
                        panes[first_tagged(panes, session_name)].index,
                        session_name,
                    ),
                },
            ]
        } else if panes.len() > 0 {
            spec_replace_pane_cmds(
                session_name,
                pane,
                panes[panes.len() - 1],
                window_names,
                current_session_name,
            )
        } else {
            Seq::empty()
        }
    }
}

} // verus!
