//! In-memory topology model: panes, windows, sessions, and the keyed
//! session mapping that the persistence engine stores and replays.

use vstd::prelude::*;

verus! {

/// A name/value pair: a session option or an environment variable.
#[derive(Debug, Clone, PartialEq)]
pub struct NameValue {
    pub name: String,
    pub value: String,
}

/// Mathematical image of a [`NameValue`].
pub ghost struct NameValueV {
    pub name: Seq<char>,
    pub value: Seq<char>,
}

impl View for NameValue {
    type V = NameValueV;

    open spec fn view(&self) -> NameValueV {
        NameValueV { name: self.name@, value: self.value@ }
    }
}

impl DeepView for NameValue {
    type V = NameValueV;

    open spec fn deep_view(&self) -> NameValueV {
        self@
    }
}

/// One terminal surface of a window. The ordinal index is 1-based and
/// stable within its window. At most one of the startup command (replaces
/// the shell at creation) and the shell command (sent as keystrokes after
/// creation) takes effect: the startup command always wins.
#[derive(Debug, Clone, PartialEq)]
pub struct TmuxPane {
    pub index: usize,
    pub path: String,
    pub active: bool,
    pub startup_command: Option<String>,
    pub shell_command: Option<String>,
    pub environment: Vec<NameValue>,
}

/// Mathematical image of a [`TmuxPane`].
pub ghost struct TmuxPaneV {
    pub index: usize,
    pub path: Seq<char>,
    pub active: bool,
    pub startup_command: Option<Seq<char>>,
    pub shell_command: Option<Seq<char>>,
    pub environment: Seq<NameValueV>,
}

impl View for TmuxPane {
    type V = TmuxPaneV;

    open spec fn view(&self) -> TmuxPaneV {
        TmuxPaneV {
            index: self.index,
            path: self.path@,
            active: self.active,
            startup_command: self.startup_command.deep_view(),
            shell_command: self.shell_command.deep_view(),
            environment: self.environment.deep_view(),
        }
    }
}

impl DeepView for TmuxPane {
    type V = TmuxPaneV;

    open spec fn deep_view(&self) -> TmuxPaneV {
        self@
    }
}

/// An ordered container of panes, addressable by 1-based position within
/// its session. The layout descriptor is an opaque string handed to the
/// multiplexer verbatim.
#[derive(Debug, Clone, PartialEq)]
pub struct TmuxWindow {
    pub index: usize,
    pub name: String,
    pub layout: String,
    pub panes: Vec<TmuxPane>,
    pub active: Option<bool>,
}

/// Mathematical image of a [`TmuxWindow`].
pub ghost struct TmuxWindowV {
    pub index: usize,
    pub name: Seq<char>,
    pub layout: Seq<char>,
    pub panes: Seq<TmuxPaneV>,
    pub active: Option<bool>,
}

impl View for TmuxWindow {
    type V = TmuxWindowV;

    open spec fn view(&self) -> TmuxWindowV {
        TmuxWindowV {
            index: self.index,
            name: self.name@,
            layout: self.layout@,
            panes: self.panes.deep_view(),
            active: self.active,
        }
    }
}

impl DeepView for TmuxWindow {
    type V = TmuxWindowV;

    open spec fn deep_view(&self) -> TmuxWindowV {
        self@
    }
}

impl TmuxWindow {
    /// Startup command of the pane at the given 1-based index, or nothing
    /// when the window has no panes at all.
    pub fn startup_command_for_pane(&self, index: usize) -> (r: Option<String>)
        requires
            self.panes.len() == 0 || 1 <= index <= self.panes.len(),
        ensures
            r.deep_view() == self@.spec_startup_command_for_pane(index as int),
    {
        if self.panes.is_empty() {
            None
        } else {
            self.panes[index - 1].startup_command.clone()
        }
    }

    /// Shell command of the pane at the given 1-based index, or nothing
    /// when the window has no panes at all.
    pub fn shell_command_for_pane(&self, index: usize) -> (r: Option<String>)
        requires
            self.panes.len() == 0 || 1 <= index <= self.panes.len(),
        ensures
            r.deep_view() == self@.spec_shell_command_for_pane(index as int),
    {
        if self.panes.is_empty() {
            None
        } else {
            self.panes[index - 1].shell_command.clone()
        }
    }
}

impl TmuxWindowV {
    /// Startup command of the pane at the given 1-based index, if any.
    pub open spec fn spec_startup_command_for_pane(self, index: int) -> Option<Seq<char>> {
        if self.panes.len() == 0 {
            None
        } else {
            self.panes[index - 1].startup_command
        }
    }

    /// Shell command of the pane at the given 1-based index, if any.
    pub open spec fn spec_shell_command_for_pane(self, index: int) -> Option<Seq<char>> {
        if self.panes.len() == 0 {
            None
        } else {
            self.panes[index - 1].shell_command
        }
    }
}

/// A named workspace: an ordered sequence of windows plus session-level
/// flags and options. A set background flag means a restored session is
/// created without switching the client into it; a set
/// `no_recent_tracking` flag keeps the session out of the recency list.
#[derive(Debug, Clone, PartialEq)]
pub struct TmuxSession {
    pub background: Option<bool>,
    pub no_recent_tracking: Option<bool>,
    pub windows: Vec<TmuxWindow>,
    pub options: Vec<NameValue>,
}

/// Mathematical image of a [`TmuxSession`].
pub ghost struct TmuxSessionV {
    pub background: Option<bool>,
    pub no_recent_tracking: Option<bool>,
    pub windows: Seq<TmuxWindowV>,
    pub options: Seq<NameValueV>,
}

impl View for TmuxSession {
    type V = TmuxSessionV;

    open spec fn view(&self) -> TmuxSessionV {
        TmuxSessionV {
            background: self.background,
            no_recent_tracking: self.no_recent_tracking,
            windows: self.windows.deep_view(),
            options: self.options.deep_view(),
        }
    }
}

impl DeepView for TmuxSession {
    type V = TmuxSessionV;

    open spec fn deep_view(&self) -> TmuxSessionV {
        self@
    }
}

/// A deferred layout application: once a window's panes all exist, its
/// stored layout descriptor is applied verbatim.
#[derive(Debug, Clone, PartialEq)]
pub struct Layout {
    pub session_name: String,
    pub window_name: String,
    pub layout: String,
}

/// Mathematical image of a [`Layout`].
pub ghost struct LayoutV {
    pub session_name: Seq<char>,
    pub window_name: Seq<char>,
    pub layout: Seq<char>,
}

impl View for Layout {
    type V = LayoutV;

    open spec fn view(&self) -> LayoutV {
        LayoutV {
            session_name: self.session_name@,
            window_name: self.window_name@,
            layout: self.layout@,
        }
    }
}

impl DeepView for Layout {
    type V = LayoutV;

    open spec fn deep_view(&self) -> LayoutV {
        self@
    }
}

/// A pane of the currently focused window together with its owning-window
/// tag, when one was recorded by the smart-split machine.
#[derive(Debug, Clone, PartialEq)]
pub struct PaneWindowName {
    pub index: usize,
    pub window_name: Option<String>,
}

/// Mathematical image of a [`PaneWindowName`].
pub ghost struct PaneWindowNameV {
    pub index: usize,
    pub window_name: Option<Seq<char>>,
}

impl View for PaneWindowName {
    type V = PaneWindowNameV;

    open spec fn view(&self) -> PaneWindowNameV {
        PaneWindowNameV { index: self.index, window_name: self.window_name.deep_view() }
    }
}

impl DeepView for PaneWindowName {
    type V = PaneWindowNameV;

    open spec fn deep_view(&self) -> PaneWindowNameV {
        self@
    }
}

/// A pane entry of the status line: its index, its owning-window tag when
/// one is set, and whether it is the active pane.
#[derive(Debug, Clone, PartialEq)]
pub struct StatusPane {
    pub index: usize,
    pub window_name: Option<String>,
    pub active: bool,
}

/// Mathematical image of a [`StatusPane`].
pub ghost struct StatusPaneV {
    pub index: usize,
    pub window_name: Option<Seq<char>>,
    pub active: bool,
}

impl View for StatusPane {
    type V = StatusPaneV;

    open spec fn view(&self) -> StatusPaneV {
        StatusPaneV {
            index: self.index,
            window_name: self.window_name.deep_view(),
            active: self.active,
        }
    }
}

impl DeepView for StatusPane {
    type V = StatusPaneV;

    open spec fn deep_view(&self) -> StatusPaneV {
        self@
    }
}

/// A window entry of the status line with its panes.
#[derive(Debug, Clone, PartialEq)]
pub struct StatusWindow {
    pub name: String,
    pub index: usize,
    pub active: bool,
    pub panes: Vec<StatusPane>,
}

/// Mathematical image of a [`StatusWindow`].
pub ghost struct StatusWindowV {
    pub name: Seq<char>,
    pub index: usize,
    pub active: bool,
    pub panes: Seq<StatusPaneV>,
}

impl View for StatusWindow {
    type V = StatusWindowV;

    open spec fn view(&self) -> StatusWindowV {
        StatusWindowV {
            name: self.name@,
            index: self.index,
            active: self.active,
            panes: self.panes.deep_view(),
        }
    }
}

impl DeepView for StatusWindow {
    type V = StatusWindowV;

    open spec fn deep_view(&self) -> StatusWindowV {
        self@
    }
}

/// Width and height of the client window, used to place popups.
#[derive(Debug, Clone, PartialEq)]
pub struct WindowDimension {
    pub width: usize,
    pub height: usize,
}

/// The stored topology: a mapping from session name to session, with
/// keyed lookup only (insertion order is irrelevant to its meaning, but
/// is kept so that files are rewritten deterministically). The invariant
/// [`TmuxSessions::wf`] says that no key occurs twice.
#[derive(Debug)]
pub struct TmuxSessions {
    pub entries: Vec<(String, TmuxSession)>,
}

/// The mapping that a sequence of name/session entries denotes; on a
/// duplicated key the later entry wins (well-formed sequences have none).
pub open spec fn map_of_entries(s: Seq<(Seq<char>, TmuxSessionV)>) -> Map<
    Seq<char>,
    TmuxSessionV,
>
    decreases s.len(),
{
    if s.len() == 0 {
        Map::empty()
    } else {
        map_of_entries(s.drop_last()).insert(s.last().0, s.last().1)
    }
}

/// A key occurs somewhere in an entry sequence.
pub open spec fn entries_have_key(s: Seq<(Seq<char>, TmuxSessionV)>, k: Seq<char>) -> bool {
    exists|i: int| 0 <= i < s.len() && s[i].0 == k
}

/// No key occurs twice in an entry sequence.
pub open spec fn entries_unique(s: Seq<(Seq<char>, TmuxSessionV)>) -> bool {
    forall|i: int, j: int| 0 <= i < j < s.len() ==> s[i].0 != s[j].0
}

/// The denoted mapping contains a key exactly when some entry holds it.
pub proof fn lemma_map_of_entries_dom(s: Seq<(Seq<char>, TmuxSessionV)>, k: Seq<char>)
    ensures
        map_of_entries(s).contains_key(k) <==> entries_have_key(s, k),
    decreases s.len(),
{
    if s.len() > 0 {
        lemma_map_of_entries_dom(s.drop_last(), k);
        if s.last().0 == k {
            assert(s[s.len() - 1].0 == k);
        } else if entries_have_key(s.drop_last(), k) {
            let i = choose|i: int| 0 <= i < s.drop_last().len() && s.drop_last()[i].0 == k;
            assert(s[i].0 == k);
        } else if entries_have_key(s, k) {
            let i = choose|i: int| 0 <= i < s.len() && s[i].0 == k;
            assert(s.drop_last()[i].0 == k);
        }
    }
}

/// With unique keys, the denoted mapping sends each held key to the value
/// of its (single) entry.
pub proof fn lemma_map_of_entries_at(s: Seq<(Seq<char>, TmuxSessionV)>, i: int)
    requires
        entries_unique(s),
        0 <= i < s.len(),
    ensures
        map_of_entries(s).contains_key(s[i].0),
        map_of_entries(s)[s[i].0] == s[i].1,
    decreases s.len(),
{
    if i == s.len() - 1 {
        lemma_map_of_entries_dom(s, s[i].0);
    } else {
        lemma_map_of_entries_at(s.drop_last(), i);
        assert(s.last().0 != s[i].0);
    }
}

impl View for TmuxSessions {
    type V = Map<Seq<char>, TmuxSessionV>;

    open spec fn view(&self) -> Map<Seq<char>, TmuxSessionV> {
        map_of_entries(self.entries.deep_view())
    }
}

impl TmuxSessions {
    /// Entry sequence, in stored order.
    pub open spec fn spec_entries(&self) -> Seq<(Seq<char>, TmuxSessionV)> {
        self.entries.deep_view()
    }

    /// Well-formed: no session name occurs twice.
    pub open spec fn wf(&self) -> bool {
        entries_unique(self.spec_entries())
    }

    /// An empty mapping.
    pub fn new() -> (r: TmuxSessions)
        ensures
            r.wf(),
            r@ == Map::<Seq<char>, TmuxSessionV>::empty(),
            r.spec_entries() == Seq::<(Seq<char>, TmuxSessionV)>::empty(),
    {
        let r = TmuxSessions { entries: Vec::new() };
        proof {
            assert(r.spec_entries() =~= Seq::<(Seq<char>, TmuxSessionV)>::empty());
        }
        r
    }

    /// Number of stored sessions.
    pub fn len(&self) -> (r: usize)
        ensures
            r == self.spec_entries().len(),
    {
        self.entries.len()
    }

    /// Position of the entry holding the given name, if any.
    fn position_of(&self, name: &str) -> (r: Option<usize>)
        ensures
            match r {
                Some(i) => i < self.spec_entries().len() && self.spec_entries()[i as int].0
                    == name@,
                None => !entries_have_key(self.spec_entries(), name@),
            },
    {
        let n = self.entries.len();
        let mut i: usize = 0;
        while i < n
            invariant
                i <= n,
                n == self.spec_entries().len(),
                forall|j: int| 0 <= j < i ==> self.spec_entries()[j].0 != name@,
            decreases n - i,
        {
            if crate::utils::str_eq(self.entries[i].0.as_str(), name) {
                return Some(i);
            }
            i = i + 1;
        }
        None
    }

    /// Whether a session of this name is stored.
    pub fn contains_key(&self, name: &str) -> (r: bool)
        ensures
            r == self@.contains_key(name@),
    {
        proof {
            lemma_map_of_entries_dom(self.spec_entries(), name@);
        }
        self.position_of(name).is_some()
    }

    /// The stored session of this name, if any.
    pub fn get(&self, name: &str) -> (r: Option<&TmuxSession>)
        requires
            self.wf(),
        ensures
            match r {
                Some(session) => self@.contains_key(name@) && session@ == self@[name@],
                None => !self@.contains_key(name@),
            },
    {
        proof {
            lemma_map_of_entries_dom(self.spec_entries(), name@);
        }
        match self.position_of(name) {
            Some(i) => {
                proof {
                    lemma_map_of_entries_at(self.spec_entries(), i as int);
                }
                Some(&self.entries[i].1)
            },
            None => None,
        }
    }

    /// Store a session under a name, replacing any session stored under
    /// the same name.
    pub fn insert(&mut self, name: String, session: TmuxSession)
        requires
            old(self).wf(),
        ensures
            final(self).wf(),
            final(self)@ == old(self)@.insert(name@, session@),
    {
        let ghost old_entries = self.spec_entries();
        match self.position_of(name.as_str()) {
            Some(i) => {
                self.entries.set(i, (name, session));
                proof {
                    lemma_map_of_entries_update(old_entries, self.spec_entries(), i as int);
                }
            },
            None => {
                self.entries.push((name, session));
                proof {
                    assert(self.spec_entries() =~= old_entries.push((name@, session@)));
                    assert(self.spec_entries().drop_last() =~= old_entries);
                }
            },
        }
    }

    /// Remove the session stored under a name, if any.
    pub fn remove(&mut self, name: &str)
        requires
            old(self).wf(),
        ensures
            final(self).wf(),
            final(self)@ == old(self)@.remove(name@),
    {
        let ghost old_entries = self.spec_entries();
        match self.position_of(name) {
            Some(i) => {
                self.entries.remove(i);
                proof {
                    assert(self.spec_entries() =~= old_entries.remove(i as int));
                    lemma_map_of_entries_remove(old_entries, i as int);
                }
            },
            None => {
                proof {
                    lemma_map_of_entries_dom(old_entries, name@);
                    assert(self@ =~= old(self)@.remove(name@));
                }
            },
        }
    }

    /// Remove and return the first stored entry.
    pub fn take_first(&mut self) -> (r: (String, TmuxSession))
        requires
            old(self).wf(),
            old(self).spec_entries().len() > 0,
        ensures
            final(self).wf(),
            r.0@ == old(self).spec_entries()[0].0,
            r.1@ == old(self).spec_entries()[0].1,
            final(self).spec_entries() == old(self).spec_entries().remove(0),
            final(self)@ == old(self)@.remove(r.0@),
            old(self)@.contains_key(r.0@),
            old(self)@[r.0@] == r.1@,
    {
        let ghost old_entries = self.spec_entries();
        let e = self.entries.remove(0);
        proof {
            assert(self.spec_entries() =~= old_entries.remove(0));
            lemma_map_of_entries_remove(old_entries, 0);
            lemma_map_of_entries_at(old_entries, 0);
        }
        e
    }

    /// All stored names, in stored order.
    pub fn keys(&self) -> (r: Vec<String>)
        ensures
            r.deep_view() == self.spec_entries().map_values(
                |e: (Seq<char>, TmuxSessionV)| e.0,
            ),
    {
        let n = self.entries.len();
        let mut r: Vec<String> = Vec::new();
        let mut i: usize = 0;
        while i < n
            invariant
                i <= n,
                n == self.spec_entries().len(),
                self.spec_entries().len() == self.entries.len(),
                r.deep_view() =~= self.spec_entries().take(i as int).map_values(
                    |e: (Seq<char>, TmuxSessionV)| e.0,
                ),
            decreases n - i,
        {
            r.push(self.entries[i].0.clone());
            proof {
                assert(self.spec_entries().take(i + 1 as int).map_values(
                    |e: (Seq<char>, TmuxSessionV)| e.0,
                ) =~= self.spec_entries().take(i as int).map_values(
                    |e: (Seq<char>, TmuxSessionV)| e.0,
                ).push(self.spec_entries()[i as int].0));
            }
            i = i + 1;
        }
        proof {
            assert(self.spec_entries().take(n as int) =~= self.spec_entries());
        }
        r
    }
}

/// Replacing one entry (key kept) replaces just that key's value in the
/// denoted mapping.
proof fn lemma_map_of_entries_update(
    pre: Seq<(Seq<char>, TmuxSessionV)>,
    post: Seq<(Seq<char>, TmuxSessionV)>,
    i: int,
)
    requires
        entries_unique(pre),
        0 <= i < pre.len(),
        post.len() == pre.len(),
        post[i].0 == pre[i].0,
        forall|j: int| 0 <= j < pre.len() && j != i ==> post[j] == pre[j],
    ensures
        entries_unique(post),
        map_of_entries(post) == map_of_entries(pre).insert(post[i].0, post[i].1),
    decreases pre.len(),
{
    assert forall|a: int, b: int| 0 <= a < b < post.len() implies post[a].0 != post[b].0 by {
        assert(pre[a].0 != pre[b].0);
    }
    if i == pre.len() - 1 {
        assert(post.drop_last() =~= pre.drop_last());
    } else {
        lemma_map_of_entries_update(pre.drop_last(), post.drop_last(), i);
        assert(post.last() == pre.last());
        assert(map_of_entries(post) =~= map_of_entries(pre).insert(post[i].0, post[i].1));
    }
}

/// Removing one entry removes just that key from the denoted mapping.
proof fn lemma_map_of_entries_remove(pre: Seq<(Seq<char>, TmuxSessionV)>, i: int)
    requires
        entries_unique(pre),
        0 <= i < pre.len(),
    ensures
        entries_unique(pre.remove(i)),
        map_of_entries(pre.remove(i)) == map_of_entries(pre).remove(pre[i].0),
    decreases pre.len(),
{
    let post = pre.remove(i);
    assert forall|a: int, b: int| 0 <= a < b < post.len() implies post[a].0 != post[b].0 by {
        let a0 = if a < i {
            a
        } else {
            a + 1
        };
        let b0 = if b < i {
            b
        } else {
            b + 1
        };
        assert(pre[a0].0 != pre[b0].0);
    }
    if i == pre.len() - 1 {
        assert(post =~= pre.drop_last());
        lemma_map_of_entries_dom(post, pre[i].0);
        assert(map_of_entries(post) =~= map_of_entries(pre).remove(pre[i].0));
    } else {
        lemma_map_of_entries_remove(pre.drop_last(), i);
        assert(post.drop_last() =~= pre.drop_last().remove(i));
        assert(post.last() == pre.last());
        assert(map_of_entries(post) =~= map_of_entries(pre).remove(pre[i].0));
    }
}

} // verus!
