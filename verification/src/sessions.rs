//! Session persistence and replay engine: turns a stored topology into
//! the exact sequence of multiplexer commands that reconstructs it.
//! Windows are replayed in order — the first one creates the session,
//! later ones are created at their 1-based positions — panes beyond the
//! first are split off in order, and layout application is deferred
//! behind one settling delay.

use vstd::prelude::*;
use vstd::string::*;

use crate::commands::{MuxCommand, MuxCommandV};
use crate::model::{Layout, LayoutV, NameValue, TmuxSession, TmuxSessionV, TmuxSessions,
    TmuxWindow, TmuxWindowV};

verus! {

/// The settling delay, in milliseconds, that passes before deferred
/// layouts are applied.
pub const LAYOUT_SETTLE_DELAY_MILLIS: u64 = 300;

/// The commands that split off the pane standing at the given 1-based
/// position: the split itself, then — only when the pane has no startup
/// command but has a shell command — the keystrokes that start the shell
/// command there.
pub open spec fn spec_pane_split_cmds(
    session_name: Seq<char>,
    window_name: Seq<char>,
    pane: crate::model::TmuxPaneV,
    position: usize,
) -> Seq<MuxCommandV> {
    let split = MuxCommandV::SplitWindow {
        session_name,
        window_name,
        horizontal: true,
        path: pane.path,
        startup_command: pane.startup_command,
    };
    if pane.startup_command is None && pane.shell_command is Some {
        seq![
            split,
            MuxCommandV::SendKeys {
                session_name,
                window_name,
                pane_index: position,
                keys: pane.shell_command.unwrap(),
            },
        ]
    } else {
        seq![split]
    }
}

/// The split commands for the panes at 0-based indexes `1 .. k` of a
/// window, in order.
pub open spec fn spec_splits_upto(
    session_name: Seq<char>,
    window_name: Seq<char>,
    panes: Seq<crate::model::TmuxPaneV>,
    k: int,
) -> Seq<MuxCommandV>
    decreases k,
{
    if k <= 1 {
        Seq::empty()
    } else {
        spec_splits_upto(session_name, window_name, panes, k - 1) + spec_pane_split_cmds(
            session_name,
            window_name,
            panes[k - 1],
            k as usize,
        )
    }
}

/// The command that brings a window into existence: the first window is
/// created together with the session, a later window is created at its
/// 1-based position. Either takes the first pane's working directory and
/// environment as creation context, and the first pane's startup command
/// when it has one.
pub open spec fn spec_window_base_cmd(
    session_name: Seq<char>,
    w: TmuxWindowV,
    i: int,
) -> MuxCommandV {
    let path = if w.panes.len() == 0 {
        None
    } else {
        Some(w.panes[0].path)
    };
    let environment = if w.panes.len() == 0 {
        Seq::<crate::model::NameValueV>::empty()
    } else {
        w.panes[0].environment
    };
    let startup_command = w.spec_startup_command_for_pane(1);
    if i == 0 {
        MuxCommandV::NewSession {
            session_name,
            window_name: w.name,
            path,
            environment,
            startup_command,
        }
    } else {
        MuxCommandV::NewWindow {
            session_name,
            window_name: w.name,
            position: (i + 1) as usize,
            path,
            environment,
            startup_command,
        }
    }
}

/// The keystrokes for the first pane's shell command, sent only when that
/// pane has no startup command (the startup command always wins).
pub open spec fn spec_window_shell_cmds(session_name: Seq<char>, w: TmuxWindowV) -> Seq<
    MuxCommandV,
> {
    if w.spec_startup_command_for_pane(1) is None && w.spec_shell_command_for_pane(1) is Some {
        seq![
            MuxCommandV::SendKeys {
                session_name,
                window_name: w.name,
                pane_index: 1,
                keys: w.spec_shell_command_for_pane(1).unwrap(),
            },
        ]
    } else {
        Seq::empty()
    }
}

/// Every command replaying one window: creation, first-pane keystrokes,
/// then the splits for the remaining panes in order.
pub open spec fn spec_window_cmds(session_name: Seq<char>, w: TmuxWindowV, i: int) -> Seq<
    MuxCommandV,
> {
    seq![spec_window_base_cmd(session_name, w, i)] + spec_window_shell_cmds(session_name, w)
        + spec_splits_upto(session_name, w.name, w.panes, w.panes.len() as int)
}

/// The deferred layout record of one window: present exactly when the
/// window has more than one pane (a single pane needs no arrangement).
pub open spec fn spec_window_layouts(session_name: Seq<char>, w: TmuxWindowV) -> Seq<LayoutV> {
    if w.panes.len() > 1 {
        seq![LayoutV { session_name, window_name: w.name, layout: w.layout }]
    } else {
        Seq::empty()
    }
}

/// The replay commands of the first `k` windows, in window order.
pub open spec fn spec_session_cmds_upto(
    session_name: Seq<char>,
    windows: Seq<TmuxWindowV>,
    k: int,
) -> Seq<MuxCommandV>
    decreases k,
{
    if k <= 0 {
        Seq::empty()
    } else {
        spec_session_cmds_upto(session_name, windows, k - 1) + spec_window_cmds(
            session_name,
            windows[k - 1],
            k - 1,
        )
    }
}

/// The deferred layout records of the first `k` windows, in window order.
pub open spec fn spec_session_layouts_upto(
    session_name: Seq<char>,
    windows: Seq<TmuxWindowV>,
    k: int,
) -> Seq<LayoutV>
    decreases k,
{
    if k <= 0 {
        Seq::empty()
    } else {
        spec_session_layouts_upto(session_name, windows, k - 1) + spec_window_layouts(
            session_name,
            windows[k - 1],
        )
    }
}

/// The full replay of one session: nothing for a windowless session;
/// otherwise every window's commands in order, closed by selecting the
/// first window.
pub open spec fn spec_process_session(session_name: Seq<char>, windows: Seq<TmuxWindowV>) -> Seq<
    MuxCommandV,
> {
    if windows.len() == 0 {
        Seq::empty()
    } else {
        spec_session_cmds_upto(session_name, windows, windows.len() as int).push(
            MuxCommandV::SelectWindow { session_name, index: 1 },
        )
    }
}

/// The deferred layout records of one session's replay.
pub open spec fn spec_session_layouts(session_name: Seq<char>, windows: Seq<TmuxWindowV>) -> Seq<
    LayoutV,
> {
    if windows.len() == 0 {
        Seq::empty()
    } else {
        spec_session_layouts_upto(session_name, windows, windows.len() as int)
    }
}

/// The commands applying deferred layouts: nothing when no window needs a
/// layout; otherwise one settling wait (when the delay is positive)
/// followed by one layout application per recorded window, in order.
pub open spec fn spec_restore_layouts(layouts: Seq<LayoutV>, delay_in_millis: u64) -> Seq<
    MuxCommandV,
> {
    if layouts.len() == 0 {
        Seq::empty()
    } else {
        let waits: Seq<MuxCommandV> = if delay_in_millis > 0 {
            seq![MuxCommandV::Wait { millis: delay_in_millis }]
        } else {
            Seq::empty()
        };
        waits + layouts.map_values(
            |l: LayoutV| MuxCommandV::SelectLayout {
                session_name: l.session_name,
                window_name: l.window_name,
                layout: l.layout,
            },
        )
    }
}

/// Whether restore-all replays a stored entry: it must have at least one
/// window, its name must not be purely numeric (reserved/transient), and
/// no live session of that name may exist.
pub open spec fn spec_replayable(
    name: Seq<char>,
    session: TmuxSessionV,
    live: Seq<Seq<char>>,
) -> bool {
    session.windows.len() > 0 && !crate::spec_is_numeric(name) && !live.contains(name)
}

/// The creation/split commands of restore-all over the stored entries in
/// order, skipping entries that are not replayable.
pub open spec fn spec_replay_cmds(
    entries: Seq<(Seq<char>, TmuxSessionV)>,
    live: Seq<Seq<char>>,
) -> Seq<MuxCommandV>
    decreases entries.len(),
{
    if entries.len() == 0 {
        Seq::empty()
    } else {
        let last = entries.last();
        spec_replay_cmds(entries.drop_last(), live) + if spec_replayable(last.0, last.1, live) {
            spec_process_session(last.0, last.1.windows)
        } else {
            Seq::empty()
        }
    }
}

/// The deferred layout records of restore-all, across every replayed
/// session in order.
pub open spec fn spec_replay_layouts(
    entries: Seq<(Seq<char>, TmuxSessionV)>,
    live: Seq<Seq<char>>,
) -> Seq<LayoutV>
    decreases entries.len(),
{
    if entries.len() == 0 {
        Seq::empty()
    } else {
        let last = entries.last();
        spec_replay_layouts(entries.drop_last(), live) + if spec_replayable(last.0, last.1, live) {
            spec_session_layouts(last.0, last.1.windows)
        } else {
            Seq::empty()
        }
    }
}

/// The whole restore-all plan: every replayed session's commands, then
/// all deferred layouts at the end behind a single settling delay.
pub open spec fn spec_restore_all(
    entries: Seq<(Seq<char>, TmuxSessionV)>,
    live: Seq<Seq<char>>,
) -> Seq<MuxCommandV> {
    spec_replay_cmds(entries, live) + spec_restore_layouts(
        spec_replay_layouts(entries, live),
        LAYOUT_SETTLE_DELAY_MILLIS,
    )
}

/// What restore reports for a name: nothing when the name is not stored;
/// otherwise the stored background flag when the session had windows to
/// create, and foreground (false) when it had none or no flag.
pub open spec fn spec_restore_result(
    m: Map<Seq<char>, TmuxSessionV>,
    name: Seq<char>,
) -> Option<bool> {
    if m.contains_key(name) {
        let s = m[name];
        if s.windows.len() > 0 {
            match s.background {
                Some(b) => Some(b),
                None => Some(false),
            }
        } else {
            Some(false)
        }
    } else {
        None
    }
}

/// A deep copy of an environment list.
pub(crate) fn clone_environment(environment: &Vec<NameValue>) -> (r: Vec<NameValue>)
    ensures
        r.deep_view() == environment.deep_view(),
{
    let n = environment.len();
    let mut r: Vec<NameValue> = Vec::new();
    let mut i: usize = 0;
    while i < n
        invariant
            i <= n,
            n == environment.len(),
            r.deep_view() =~= environment.deep_view().take(i as int),
        decreases n - i,
    {
        let ghost pre = r.deep_view();
        let nv = NameValue {
            name: environment[i].name.clone(),
            value: environment[i].value.clone(),
        };
        proof {
            assert(nv@ == environment.deep_view()[i as int]);
        }
        r.push(nv);
        proof {
            assert(r.deep_view() =~= pre.push(environment.deep_view()[i as int]));
            assert(r.deep_view() =~= environment.deep_view().take(i + 1));
        }
        i = i + 1;
    }
    proof {
        assert(environment.deep_view().take(n as int) =~= environment.deep_view());
    }
    r
}

/// The session persistence and replay engine, bound to the topology file
/// it loads and stores.
pub struct SessionStorageImpl {
    pub filename: String,
}

impl SessionStorageImpl {
    /// An engine working against the given topology file.
    pub fn new(filename: &str) -> (r: SessionStorageImpl)
        ensures
            r.filename@ == filename@,
    {
        SessionStorageImpl { filename: filename.to_owned() }
    }

    /// Compute the command sequence replaying one session's windows, and
    /// append the windows whose layout must later be applied to
    /// `windows_to_layout`.
    pub fn process_session(
        &self,
        session_name: &str,
        windows: &Vec<TmuxWindow>,
        windows_to_layout: &mut Vec<Layout>,
    ) -> (r: Vec<MuxCommand>)
        ensures
            r.deep_view() == spec_process_session(session_name@, windows.deep_view()),
            final(windows_to_layout).deep_view() == old(windows_to_layout).deep_view()
                + spec_session_layouts(session_name@, windows.deep_view()),
    {
        let ghost wv = windows.deep_view();
        let ghost name_v = session_name@;
        let ghost layouts0 = windows_to_layout.deep_view();
        let mut cmds: Vec<MuxCommand> = Vec::new();
        if windows.is_empty() {
            proof {
                assert(cmds.deep_view() =~= spec_process_session(name_v, wv));
                assert(windows_to_layout.deep_view() =~= layouts0 + spec_session_layouts(
                    name_v,
                    wv,
                ));
            }
            return cmds;
        }
        let n = windows.len();
        let mut i: usize = 0;
        while i < n
            invariant
                i <= n,
                n == windows.len(),
                wv == windows.deep_view(),
                name_v == session_name@,
                cmds.deep_view() =~= spec_session_cmds_upto(name_v, wv, i as int),
                windows_to_layout.deep_view() =~= layouts0 + spec_session_layouts_upto(
                    name_v,
                    wv,
                    i as int,
                ),
            decreases n - i,
        {
            let ghost cmds_before = cmds.deep_view();
            let ghost layouts_before = windows_to_layout.deep_view();
            let w = &windows[i];
            let command = w.startup_command_for_pane(1);
            let (path, environment): (Option<String>, Vec<NameValue>) = if w.panes.is_empty() {
                (None, Vec::new())
            } else {
                (Some(w.panes[0].path.clone()), clone_environment(&w.panes[0].environment))
            };
            proof {
                assert(path.deep_view() == if wv[i as int].panes.len() == 0 {
                    None::<Seq<char>>
                } else {
                    Some(wv[i as int].panes[0].path)
                });
                assert(environment.deep_view() =~= if wv[i as int].panes.len() == 0 {
                    Seq::<crate::model::NameValueV>::empty()
                } else {
                    wv[i as int].panes[0].environment
                });
            }
            if i == 0 {
                cmds.push(
                    MuxCommand::NewSession {
                        session_name: session_name.to_owned(),
                        window_name: w.name.clone(),
                        path,
                        environment,
                        startup_command: command.clone(),
                    },
                );
            } else {
                cmds.push(
                    MuxCommand::NewWindow {
                        session_name: session_name.to_owned(),
                        window_name: w.name.clone(),
                        position: i + 1,
                        path,
                        environment,
                        startup_command: command.clone(),
                    },
                );
            }
            proof {
                assert(cmds.deep_view() =~= cmds_before + seq![
                    spec_window_base_cmd(name_v, wv[i as int], i as int),
                ]);
            }
            if command.is_none() {
                if let Some(shell_command) = w.shell_command_for_pane(1) {
                    cmds.push(
                        MuxCommand::SendKeys {
                            session_name: session_name.to_owned(),
                            window_name: w.name.clone(),
                            pane_index: 1,
                            keys: shell_command,
                        },
                    );
                }
            }
            proof {
                assert(cmds.deep_view() =~= cmds_before + seq![
                    spec_window_base_cmd(name_v, wv[i as int], i as int),
                ] + spec_window_shell_cmds(name_v, wv[i as int]));
            }
            let ghost cmds_mid = cmds.deep_view();
            let pane_count = w.panes.len();
            let mut j: usize = 1;
            while j < pane_count
                invariant
                    1 <= j <= pane_count || (pane_count == 0 && j == 1),
                    pane_count == w.panes.len(),
                    i < n == windows.len(),
                    w == &windows[i as int],
                    wv == windows.deep_view(),
                    name_v == session_name@,
                    cmds_mid == cmds_before + seq![
                        spec_window_base_cmd(name_v, wv[i as int], i as int),
                    ] + spec_window_shell_cmds(name_v, wv[i as int]),
                    cmds.deep_view() =~= cmds_mid + spec_splits_upto(
                        name_v,
                        wv[i as int].name,
                        wv[i as int].panes,
                        j as int,
                    ),
                decreases pane_count - j,
            {
                let ghost cmds_pre = cmds.deep_view();
                let pane = &w.panes[j];
                cmds.push(
                    MuxCommand::SplitWindow {
                        session_name: session_name.to_owned(),
                        window_name: w.name.clone(),
                        horizontal: true,
                        path: pane.path.clone(),
                        startup_command: pane.startup_command.clone(),
                    },
                );
                if pane.startup_command.is_none() {
                    if let Some(shell_command) = &pane.shell_command {
                        cmds.push(
                            MuxCommand::SendKeys {
                                session_name: session_name.to_owned(),
                                window_name: w.name.clone(),
                                pane_index: j + 1,
                                keys: shell_command.clone(),
                            },
                        );
                    }
                }
                proof {
                    assert(cmds.deep_view() =~= cmds_pre + spec_pane_split_cmds(
                        name_v,
                        wv[i as int].name,
                        wv[i as int].panes[j as int],
                        (j + 1) as usize,
                    ));
                    assert(cmds.deep_view() =~= cmds_mid + spec_splits_upto(
                        name_v,
                        wv[i as int].name,
                        wv[i as int].panes,
                        j + 1,
                    ));
                }
                j = j + 1;
            }
            if pane_count > 1 {
                windows_to_layout.push(
                    Layout {
                        session_name: session_name.to_owned(),
                        window_name: w.name.clone(),
                        layout: w.layout.clone(),
                    },
                );
            }
            proof {
                if pane_count <= 1 {
                    assert(spec_splits_upto(
                        name_v,
                        wv[i as int].name,
                        wv[i as int].panes,
                        j as int,
                    ) =~= Seq::<MuxCommandV>::empty());
                }
                assert(cmds.deep_view() =~= cmds_before + spec_window_cmds(
                    name_v,
                    wv[i as int],
                    i as int,
                ));
                assert(cmds.deep_view() =~= spec_session_cmds_upto(name_v, wv, i + 1));
                assert(windows_to_layout.deep_view() =~= layouts_before + spec_window_layouts(
                    name_v,
                    wv[i as int],
                ));
                assert(windows_to_layout.deep_view() =~= layouts0 + spec_session_layouts_upto(
                    name_v,
                    wv,
                    i + 1,
                ));
            }
            i = i + 1;
        }
        cmds.push(MuxCommand::SelectWindow { session_name: session_name.to_owned(), index: 1 });
        proof {
            assert(cmds.deep_view() =~= spec_process_session(name_v, wv));
            assert(windows_to_layout.deep_view() =~= layouts0 + spec_session_layouts(name_v, wv));
        }
        cmds
    }

    /// Compute the commands applying the recorded layouts: one settling
    /// wait, then each layout in order; nothing when no window needs one.
    pub fn restore_layouts(&self, windows_to_layout: &Vec<Layout>, delay_in_millis: u64) -> (r:
        Vec<MuxCommand>)
        ensures
            r.deep_view() == spec_restore_layouts(windows_to_layout.deep_view(), delay_in_millis),
    {
        let ghost lv = windows_to_layout.deep_view();
        let mut cmds: Vec<MuxCommand> = Vec::new();
        if windows_to_layout.is_empty() {
            proof {
                assert(cmds.deep_view() =~= spec_restore_layouts(lv, delay_in_millis));
            }
            return cmds;
        }
        if delay_in_millis > 0 {
            cmds.push(MuxCommand::Wait { millis: delay_in_millis });
        }
        let ghost waits = cmds.deep_view();
        let n = windows_to_layout.len();
        let mut i: usize = 0;
        while i < n
            invariant
                i <= n,
                n == windows_to_layout.len(),
                lv == windows_to_layout.deep_view(),
                cmds.deep_view() =~= waits + lv.take(i as int).map_values(
                    |l: LayoutV| MuxCommandV::SelectLayout {
                        session_name: l.session_name,
                        window_name: l.window_name,
                        layout: l.layout,
                    },
                ),
            decreases n - i,
        {
            let ghost pre = cmds.deep_view();
            let layout = &windows_to_layout[i];
            let cmd = MuxCommand::SelectLayout {
                session_name: layout.session_name.clone(),
                window_name: layout.window_name.clone(),
                layout: layout.layout.clone(),
            };
            proof {
                assert(cmd@ == (MuxCommandV::SelectLayout {
                    session_name: lv[i as int].session_name,
                    window_name: lv[i as int].window_name,
                    layout: lv[i as int].layout,
                }));
            }
            cmds.push(cmd);
            proof {
                assert(cmds.deep_view() =~= pre.push(
                    MuxCommandV::SelectLayout {
                        session_name: lv[i as int].session_name,
                        window_name: lv[i as int].window_name,
                        layout: lv[i as int].layout,
                    },
                ));
            }
            proof {
                assert(lv.take(i + 1).map_values(
                    |l: LayoutV| MuxCommandV::SelectLayout {
                        session_name: l.session_name,
                        window_name: l.window_name,
                        layout: l.layout,
                    },
                ) =~= lv.take(i as int).map_values(
                    |l: LayoutV| MuxCommandV::SelectLayout {
                        session_name: l.session_name,
                        window_name: l.window_name,
                        layout: l.layout,
                    },
                ).push(
                    MuxCommandV::SelectLayout {
                        session_name: lv[i as int].session_name,
                        window_name: lv[i as int].window_name,
                        layout: lv[i as int].layout,
                    },
                ));
                assert(cmds.deep_view() =~= waits + lv.take(i + 1).map_values(
                    |l: LayoutV| MuxCommandV::SelectLayout {
                        session_name: l.session_name,
                        window_name: l.window_name,
                        layout: l.layout,
                    },
                ));
            }
            i = i + 1;
        }
        proof {
            assert(lv.take(n as int) =~= lv);
        }
        cmds
    }

    /// Replay one stored session by name: nothing to do (and no report)
    /// when the name is not stored; otherwise the session's full command
    /// plan — windows, panes, then deferred layouts behind the settling
    /// delay — and whether it was created in background mode.
    pub fn restore(&self, sessions: &TmuxSessions, session_name: &str) -> (r: (
        Option<bool>,
        Vec<MuxCommand>,
    ))
        requires
            sessions.wf(),
        ensures
            r.0 == spec_restore_result(sessions@, session_name@),
            sessions@.contains_key(session_name@) ==> r.1.deep_view() == spec_process_session(
                session_name@,
                sessions@[session_name@].windows,
            ) + spec_restore_layouts(
                spec_session_layouts(session_name@, sessions@[session_name@].windows),
                LAYOUT_SETTLE_DELAY_MILLIS,
            ),
            !sessions@.contains_key(session_name@) ==> r.1.deep_view() == Seq::<
                MuxCommandV,
            >::empty(),
    {
        match sessions.get(session_name) {
            Some(session) => {
                let mut windows_to_layout: Vec<Layout> = Vec::new();
                let mut cmds = self.process_session(
                    session_name,
                    &session.windows,
                    &mut windows_to_layout,
                );
                let mut layout_cmds = self.restore_layouts(
                    &windows_to_layout,
                    LAYOUT_SETTLE_DELAY_MILLIS,
                );
                cmds.append(&mut layout_cmds);
                let background = if !session.windows.is_empty() {
                    if let Some(background) = session.background {
                        background
                    } else {
                        false
                    }
                } else {
                    false
                };
                proof {
                    assert(windows_to_layout.deep_view() =~= spec_session_layouts(
                        session_name@,
                        sessions@[session_name@].windows,
                    ));
                }
                (Some(background), cmds)
            },
            None => {
                let cmds: Vec<MuxCommand> = Vec::new();
                proof {
                    assert(cmds.deep_view() =~= Seq::<MuxCommandV>::empty());
                }
                (None, cmds)
            },
        }
    }

    /// Replay every stored session that is replayable — has at least one
    /// window, is not reserved (purely numeric), and does not already
    /// exist live — accumulating all deferred layouts and applying them
    /// once, behind a single settling delay, at the very end.
    pub fn restore_all(&self, sessions: &TmuxSessions, current_session_names: &Vec<String>) -> (r:
        Vec<MuxCommand>)
        ensures
            r.deep_view() == spec_restore_all(
                sessions.spec_entries(),
                current_session_names.deep_view(),
            ),
    {
        let ghost entries = sessions.spec_entries();
        let ghost live = current_session_names.deep_view();
        let mut cmds: Vec<MuxCommand> = Vec::new();
        let mut windows_to_layout: Vec<Layout> = Vec::new();
        let n = sessions.entries.len();
        let mut i: usize = 0;
        while i < n
            invariant
                i <= n,
                n == sessions.entries.len(),
                entries == sessions.spec_entries(),
                live == current_session_names.deep_view(),
                cmds.deep_view() =~= spec_replay_cmds(entries.take(i as int), live),
                windows_to_layout.deep_view() =~= spec_replay_layouts(
                    entries.take(i as int),
                    live,
                ),
            decreases n - i,
        {
            let ghost cmds_before = cmds.deep_view();
            let ghost layouts_before = windows_to_layout.deep_view();
            let name = &sessions.entries[i].0;
            let session = &sessions.entries[i].1;
            let non_numeric = !crate::utils::is_numeric(name.as_str());
            let windows = &session.windows;
            if windows.len() > 0 && non_numeric && !crate::utils::vec_contains_name(
                current_session_names,
                name.as_str(),
            ) {
                let mut session_cmds = self.process_session(
                    name.as_str(),
                    windows,
                    &mut windows_to_layout,
                );
                cmds.append(&mut session_cmds);
            }
            proof {
                let t = entries.take(i + 1);
                assert(t.drop_last() =~= entries.take(i as int));
                assert(t.last() == entries[i as int]);
                assert(entries[i as int].0 == name@);
                assert(entries[i as int].1 == session@);
                assert(cmds.deep_view() =~= spec_replay_cmds(t, live));
                assert(windows_to_layout.deep_view() =~= spec_replay_layouts(t, live));
            }
            i = i + 1;
        }
        proof {
            assert(entries.take(n as int) =~= entries);
        }
        let mut layout_cmds = self.restore_layouts(&windows_to_layout, LAYOUT_SETTLE_DELAY_MILLIS);
        cmds.append(&mut layout_cmds);
        cmds
    }

    /// The stored session names, in stored order, read without touching
    /// the multiplexer.
    pub fn list(&self, sessions: &TmuxSessions) -> (r: Vec<String>)
        ensures
            r.deep_view() == sessions.spec_entries().map_values(
                |e: (Seq<char>, TmuxSessionV)| e.0,
            ),
    {
        sessions.keys()
    }

    /// Serialize the full mapping into the document lines that overwrite
    /// the topology file — a save is always this single full rewrite,
    /// never a partial one.
    pub fn save(&self, sessions: &TmuxSessions) -> (r: Vec<String>)
        ensures
            r.deep_view() == crate::codec::spec_print_topology(sessions.spec_entries()),
    {
        crate::codec::serialize_topology(sessions)
    }

    /// Read the mapping back from the topology file's lines: an absent
    /// file is an empty mapping; malformed content parses to nothing and
    /// the caller treats that as fatal (the file is trusted hand-edited
    /// state, not recoverable data).
    pub fn load(&self, file_content: Option<&Vec<String>>) -> (r: Option<TmuxSessions>)
        ensures
            match file_content {
                None => r is Some && r.unwrap().wf() && r.unwrap()@ == Map::<
                    Seq<char>,
                    TmuxSessionV,
                >::empty(),
                Some(lines) => {
                    let s = crate::codec::spec_parse_topology(lines.deep_view());
                    match r {
                        Some(m) => s == Some(m.spec_entries()) && m.wf(),
                        None => s is None,
                    }
                },
            },
    {
        match file_content {
            None => Some(TmuxSessions::new()),
            Some(lines) => crate::codec::parse_topology(lines),
        }
    }

    /// Rewrite a document of the older on-disk shape (window lists only)
    /// into the current shape, defaulting the session-level flags to
    /// absent; nothing on malformed content.
    pub fn convert(&self, file_content: &Vec<String>) -> (r: Option<Vec<String>>)
        ensures
            ({
                let s = crate::codec::spec_parse_old_topology(file_content.deep_view());
                match r {
                    Some(out) => s is Some && crate::model::entries_unique(
                        crate::codec::spec_convert_entries(s.unwrap()),
                    ) && out.deep_view() == crate::codec::spec_print_topology(
                        crate::codec::spec_convert_entries(s.unwrap()),
                    ),
                    None => s is None || !crate::model::entries_unique(
                        crate::codec::spec_convert_entries(s.unwrap()),
                    ),
                }
            }),
    {
        crate::codec::convert_topology(file_content)
    }
}

/// LAW: restore-all never replays a reserved (purely numeric) session, a
/// windowless session, or a session that already exists live — dropping
/// such an entry from the stored mapping leaves the whole restore-all
/// plan unchanged.
pub proof fn lemma_restore_all_skips_unreplayable(
    entries: Seq<(Seq<char>, TmuxSessionV)>,
    live: Seq<Seq<char>>,
    i: int,
)
    requires
        0 <= i < entries.len(),
        !spec_replayable(entries[i].0, entries[i].1, live),
    ensures
        spec_restore_all(entries.remove(i), live) == spec_restore_all(entries, live),
{
    lemma_replay_cmds_remove(entries, live, i);
    lemma_replay_layouts_remove(entries, live, i);
}

/// Dropping an unreplayable entry leaves the creation/split commands
/// unchanged.
proof fn lemma_replay_cmds_remove(
    entries: Seq<(Seq<char>, TmuxSessionV)>,
    live: Seq<Seq<char>>,
    i: int,
)
    requires
        0 <= i < entries.len(),
        !spec_replayable(entries[i].0, entries[i].1, live),
    ensures
        spec_replay_cmds(entries.remove(i), live) == spec_replay_cmds(entries, live),
    decreases entries.len(),
{
    if i == entries.len() - 1 {
        assert(entries.remove(i) =~= entries.drop_last());
        assert(spec_replay_cmds(entries, live) =~= spec_replay_cmds(entries.drop_last(), live));
    } else {
        lemma_replay_cmds_remove(entries.drop_last(), live, i);
        assert(entries.remove(i).drop_last() =~= entries.drop_last().remove(i));
        assert(entries.remove(i).last() == entries.last());
        assert(spec_replay_cmds(entries.remove(i), live) =~= spec_replay_cmds(entries, live));
    }
}

/// Dropping an unreplayable entry leaves the deferred layouts unchanged.
proof fn lemma_replay_layouts_remove(
    entries: Seq<(Seq<char>, TmuxSessionV)>,
    live: Seq<Seq<char>>,
    i: int,
)
    requires
        0 <= i < entries.len(),
        !spec_replayable(entries[i].0, entries[i].1, live),
    ensures
        spec_replay_layouts(entries.remove(i), live) == spec_replay_layouts(entries, live),
    decreases entries.len(),
{
    if i == entries.len() - 1 {
        assert(entries.remove(i) =~= entries.drop_last());
        assert(spec_replay_layouts(entries, live) =~= spec_replay_layouts(
            entries.drop_last(),
            live,
        ));
    } else {
        lemma_replay_layouts_remove(entries.drop_last(), live, i);
        assert(entries.remove(i).drop_last() =~= entries.drop_last().remove(i));
        assert(entries.remove(i).last() == entries.last());
        assert(spec_replay_layouts(entries.remove(i), live) =~= spec_replay_layouts(
            entries,
            live,
        ));
    }
}

} // verus!
