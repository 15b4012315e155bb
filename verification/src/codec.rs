//! Topology file codec. The stored topology is written as a line-oriented
//! text document: one value per line, with explicit counts before each
//! list and one-character markers for flags and optional fields, so that
//! reading is fully deterministic. Parsing inverts printing exactly; a
//! malformed document parses to nothing and the caller treats that as a
//! fatal error, since the file is trusted hand-editable state.
//!
//! Layout, in order: entry count; then per session its name, background
//! flag, recency-exclusion flag, options (count, then name/value line
//! pairs), windows (count, then per window its ordinal, name, layout,
//! active flag, and panes: count, then per pane its ordinal, path, active
//! flag, startup command, shell command, and environment pairs). A flag
//! line is `n` (absent), `f` (false) or `t` (true); an optional string is
//! an `n` line, or an `s` line followed by the value line.

use vstd::prelude::*;
use vstd::string::*;

use crate::model::{NameValue, NameValueV, TmuxPane, TmuxPaneV, TmuxSession, TmuxSessionV,
    TmuxSessions, TmuxWindow, TmuxWindowV};
use crate::numtext;

verus! {

/// The line for an optional boolean flag.
pub open spec fn spec_print_opt_flag(b: Option<bool>) -> Seq<char> {
    match b {
        None => seq!['n'],
        Some(false) => seq!['f'],
        Some(true) => seq!['t'],
    }
}

/// The line for a boolean.
pub open spec fn spec_print_bool(b: bool) -> Seq<char> {
    if b {
        seq!['t']
    } else {
        seq!['f']
    }
}

/// The lines for an optional string: a marker line, then the value line
/// when present.
pub open spec fn spec_print_opt_string(s: Option<Seq<char>>) -> Seq<Seq<char>> {
    match s {
        None => seq![seq!['n']],
        Some(v) => seq![seq!['s'], v],
    }
}

/// The two lines of one name/value pair.
pub open spec fn spec_print_name_value(nv: NameValueV) -> Seq<Seq<char>> {
    seq![nv.name, nv.value]
}

/// The name/value lines of the first `k` pairs.
pub open spec fn spec_print_nvs_upto(s: Seq<NameValueV>, k: int) -> Seq<Seq<char>>
    decreases k,
{
    if k <= 0 {
        Seq::empty()
    } else {
        spec_print_nvs_upto(s, k - 1) + spec_print_name_value(s[k - 1])
    }
}

/// The lines of a name/value list: its count, then the pairs.
pub open spec fn spec_print_name_values(s: Seq<NameValueV>) -> Seq<Seq<char>> {
    seq![numtext::spec_digits(s.len())] + spec_print_nvs_upto(s, s.len() as int)
}

/// The lines of one pane.
pub open spec fn spec_print_pane(p: TmuxPaneV) -> Seq<Seq<char>> {
    seq![numtext::spec_digits(p.index as nat), p.path, spec_print_bool(p.active)]
        + spec_print_opt_string(p.startup_command) + spec_print_opt_string(p.shell_command)
        + spec_print_name_values(p.environment)
}

/// The pane lines of the first `k` panes.
pub open spec fn spec_print_panes_upto(s: Seq<TmuxPaneV>, k: int) -> Seq<Seq<char>>
    decreases k,
{
    if k <= 0 {
        Seq::empty()
    } else {
        spec_print_panes_upto(s, k - 1) + spec_print_pane(s[k - 1])
    }
}

/// The lines of a pane list: its count, then the panes.
pub open spec fn spec_print_panes(s: Seq<TmuxPaneV>) -> Seq<Seq<char>> {
    seq![numtext::spec_digits(s.len())] + spec_print_panes_upto(s, s.len() as int)
}

/// The lines of one window.
pub open spec fn spec_print_window(w: TmuxWindowV) -> Seq<Seq<char>> {
    seq![numtext::spec_digits(w.index as nat), w.name, w.layout, spec_print_opt_flag(w.active)]
        + spec_print_panes(w.panes)
}

/// The window lines of the first `k` windows.
pub open spec fn spec_print_windows_upto(s: Seq<TmuxWindowV>, k: int) -> Seq<Seq<char>>
    decreases k,
{
    if k <= 0 {
        Seq::empty()
    } else {
        spec_print_windows_upto(s, k - 1) + spec_print_window(s[k - 1])
    }
}

/// The lines of a window list: its count, then the windows.
pub open spec fn spec_print_windows(s: Seq<TmuxWindowV>) -> Seq<Seq<char>> {
    seq![numtext::spec_digits(s.len())] + spec_print_windows_upto(s, s.len() as int)
}

/// The lines of one session body (the name line stands before it).
pub open spec fn spec_print_session(s: TmuxSessionV) -> Seq<Seq<char>> {
    seq![spec_print_opt_flag(s.background), spec_print_opt_flag(s.no_recent_tracking)]
        + spec_print_name_values(s.options) + spec_print_windows(s.windows)
}

/// The lines of one stored entry: the session name, then the body.
pub open spec fn spec_print_entry(name: Seq<char>, s: TmuxSessionV) -> Seq<Seq<char>> {
    seq![name] + spec_print_session(s)
}

/// The entry lines of the first `k` entries.
pub open spec fn spec_print_entries_upto(s: Seq<(Seq<char>, TmuxSessionV)>, k: int) -> Seq<
    Seq<char>,
>
    decreases k,
{
    if k <= 0 {
        Seq::empty()
    } else {
        spec_print_entries_upto(s, k - 1) + spec_print_entry(s[k - 1].0, s[k - 1].1)
    }
}

/// The whole document: the entry count, then every entry in stored order.
pub open spec fn spec_print_topology(s: Seq<(Seq<char>, TmuxSessionV)>) -> Seq<Seq<char>> {
    seq![numtext::spec_digits(s.len())] + spec_print_entries_upto(s, s.len() as int)
}

/// The line printed for an optional flag.
fn print_opt_flag(b: Option<bool>) -> (r: String)
    ensures
        r@ == spec_print_opt_flag(b),
{
    proof {
        reveal_strlit("n");
        reveal_strlit("f");
        reveal_strlit("t");
    }
    let r = match b {
        None => "n",
        Some(false) => "f",
        Some(true) => "t",
    };
    proof {
        assert(r@ =~= spec_print_opt_flag(b));
    }
    r.to_owned()
}

/// The line printed for a boolean.
fn print_bool(b: bool) -> (r: String)
    ensures
        r@ == spec_print_bool(b),
{
    proof {
        reveal_strlit("f");
        reveal_strlit("t");
    }
    let r = if b {
        "t"
    } else {
        "f"
    };
    proof {
        assert(r@ =~= spec_print_bool(b));
    }
    r.to_owned()
}

/// Append the lines of an optional string.
fn print_opt_string(out: &mut Vec<String>, s: &Option<String>)
    ensures
        final(out).deep_view() == old(out).deep_view() + spec_print_opt_string(s.deep_view()),
{
    proof {
        reveal_strlit("n");
        reveal_strlit("s");
    }
    match s {
        None => {
            let marker = "n";
            proof {
                assert(marker@ =~= seq!['n']);
            }
            out.push(marker.to_owned());
            proof {
                assert(out.deep_view() =~= old(out).deep_view() + spec_print_opt_string(
                    s.deep_view(),
                ));
            }
        },
        Some(v) => {
            let marker = "s";
            proof {
                assert(marker@ =~= seq!['s']);
            }
            out.push(marker.to_owned());
            out.push(v.clone());
            proof {
                assert(out.deep_view() =~= old(out).deep_view() + spec_print_opt_string(
                    s.deep_view(),
                ));
            }
        },
    }
}

/// Append the lines of a name/value list: count, then the pairs.
fn print_name_values(out: &mut Vec<String>, s: &Vec<NameValue>)
    ensures
        final(out).deep_view() == old(out).deep_view() + spec_print_name_values(s.deep_view()),
{
    let ghost base = old(out).deep_view();
    out.push(numtext::usize_to_string(s.len()));
    let n = s.len();
    let mut i: usize = 0;
    while i < n
        invariant
            i <= n,
            n == s.len(),
            out.deep_view() =~= base + seq![numtext::spec_digits(n as nat)]
                + spec_print_nvs_upto(s.deep_view(), i as int),
        decreases n - i,
    {
        let ghost pre = out.deep_view();
        out.push(s[i].name.clone());
        out.push(s[i].value.clone());
        proof {
            assert(out.deep_view() =~= pre + spec_print_name_value(s.deep_view()[i as int]));
            assert(out.deep_view() =~= base + seq![numtext::spec_digits(n as nat)]
                + spec_print_nvs_upto(s.deep_view(), i + 1));
        }
        i = i + 1;
    }
    proof {
        assert(out.deep_view() =~= base + spec_print_name_values(s.deep_view()));
    }
}

/// Append the lines of one pane.
fn print_pane(out: &mut Vec<String>, p: &TmuxPane)
    ensures
        final(out).deep_view() == old(out).deep_view() + spec_print_pane(p@),
{
    let ghost base = old(out).deep_view();
    out.push(numtext::usize_to_string(p.index));
    out.push(p.path.clone());
    out.push(print_bool(p.active));
    print_opt_string(out, &p.startup_command);
    print_opt_string(out, &p.shell_command);
    print_name_values(out, &p.environment);
    proof {
        assert(out.deep_view() =~= base + spec_print_pane(p@));
    }
}

/// Append the lines of a pane list: count, then the panes.
fn print_panes(out: &mut Vec<String>, s: &Vec<TmuxPane>)
    ensures
        final(out).deep_view() == old(out).deep_view() + spec_print_panes(s.deep_view()),
{
    let ghost base = old(out).deep_view();
    out.push(numtext::usize_to_string(s.len()));
    let n = s.len();
    let mut i: usize = 0;
    while i < n
        invariant
            i <= n,
            n == s.len(),
            out.deep_view() =~= base + seq![numtext::spec_digits(n as nat)]
                + spec_print_panes_upto(s.deep_view(), i as int),
        decreases n - i,
    {
        print_pane(out, &s[i]);
        proof {
            assert(out.deep_view() =~= base + seq![numtext::spec_digits(n as nat)]
                + spec_print_panes_upto(s.deep_view(), i + 1));
        }
        i = i + 1;
    }
    proof {
        assert(out.deep_view() =~= base + spec_print_panes(s.deep_view()));
    }
}

/// Append the lines of one window.
fn print_window(out: &mut Vec<String>, w: &TmuxWindow)
    ensures
        final(out).deep_view() == old(out).deep_view() + spec_print_window(w@),
{
    let ghost base = old(out).deep_view();
    out.push(numtext::usize_to_string(w.index));
    out.push(w.name.clone());
    out.push(w.layout.clone());
    out.push(print_opt_flag(w.active));
    print_panes(out, &w.panes);
    proof {
        assert(out.deep_view() =~= base + spec_print_window(w@));
    }
}

/// Append the lines of a window list: count, then the windows.
fn print_windows(out: &mut Vec<String>, s: &Vec<TmuxWindow>)
    ensures
        final(out).deep_view() == old(out).deep_view() + spec_print_windows(s.deep_view()),
{
    let ghost base = old(out).deep_view();
    out.push(numtext::usize_to_string(s.len()));
    let n = s.len();
    let mut i: usize = 0;
    while i < n
        invariant
            i <= n,
            n == s.len(),
            out.deep_view() =~= base + seq![numtext::spec_digits(n as nat)]
                + spec_print_windows_upto(s.deep_view(), i as int),
        decreases n - i,
    {
        print_window(out, &s[i]);
        proof {
            assert(out.deep_view() =~= base + seq![numtext::spec_digits(n as nat)]
                + spec_print_windows_upto(s.deep_view(), i + 1));
        }
        i = i + 1;
    }
    proof {
        assert(out.deep_view() =~= base + spec_print_windows(s.deep_view()));
    }
}

/// Append the lines of one session body.
fn print_session(out: &mut Vec<String>, s: &TmuxSession)
    ensures
        final(out).deep_view() == old(out).deep_view() + spec_print_session(s@),
{
    let ghost base = old(out).deep_view();
    out.push(print_opt_flag(s.background));
    out.push(print_opt_flag(s.no_recent_tracking));
    print_name_values(out, &s.options);
    print_windows(out, &s.windows);
    proof {
        assert(out.deep_view() =~= base + spec_print_session(s@));
    }
}

/// The lines serializing the whole stored topology; writing them over the
/// topology file is the single full rewrite a save performs.
pub fn serialize_topology(sessions: &TmuxSessions) -> (r: Vec<String>)
    ensures
        r.deep_view() == spec_print_topology(sessions.spec_entries()),
{
    let ghost entries = sessions.spec_entries();
    let mut out: Vec<String> = Vec::new();
    out.push(numtext::usize_to_string(sessions.entries.len()));
    let n = sessions.entries.len();
    let mut i: usize = 0;
    while i < n
        invariant
            i <= n,
            n == sessions.entries.len(),
            entries == sessions.spec_entries(),
            out.deep_view() =~= seq![numtext::spec_digits(n as nat)] + spec_print_entries_upto(
                entries,
                i as int,
            ),
        decreases n - i,
    {
        let ghost pre = out.deep_view();
        out.push(sessions.entries[i].0.clone());
        proof {
            assert(out.deep_view() =~= pre + seq![entries[i as int].0]);
        }
        print_session(&mut out, &sessions.entries[i].1);
        proof {
            assert(out.deep_view() =~= pre + spec_print_entry(
                entries[i as int].0,
                entries[i as int].1,
            ));
            assert(out.deep_view() =~= seq![numtext::spec_digits(n as nat)]
                + spec_print_entries_upto(entries, i + 1));
        }
        i = i + 1;
    }
    proof {
        assert(out.deep_view() =~= spec_print_topology(entries));
    }
    out
}

/// One line read at a position: the line and the next position.
pub open spec fn spec_read_line(lines: Seq<Seq<char>>, pos: int) -> Option<(Seq<char>, int)> {
    if 0 <= pos < lines.len() {
        Some((lines[pos], pos + 1))
    } else {
        None
    }
}

/// An optional-flag line read back.
pub open spec fn spec_parse_opt_flag_line(l: Seq<char>) -> Option<Option<bool>> {
    if l == seq!['n'] {
        Some(None)
    } else if l == seq!['f'] {
        Some(Some(false))
    } else if l == seq!['t'] {
        Some(Some(true))
    } else {
        None
    }
}

/// A boolean line read back.
pub open spec fn spec_parse_bool_line(l: Seq<char>) -> Option<bool> {
    if l == seq!['f'] {
        Some(false)
    } else if l == seq!['t'] {
        Some(true)
    } else {
        None
    }
}

/// An optional flag read at a position.
pub open spec fn spec_parse_opt_flag(lines: Seq<Seq<char>>, pos: int) -> Option<
    (Option<bool>, int),
> {
    match spec_read_line(lines, pos) {
        Some((l, p)) => match spec_parse_opt_flag_line(l) {
            Some(b) => Some((b, p)),
            None => None,
        },
        None => None,
    }
}

/// A boolean read at a position.
pub open spec fn spec_parse_bool(lines: Seq<Seq<char>>, pos: int) -> Option<(bool, int)> {
    match spec_read_line(lines, pos) {
        Some((l, p)) => match spec_parse_bool_line(l) {
            Some(b) => Some((b, p)),
            None => None,
        },
        None => None,
    }
}

/// A count or ordinal read at a position.
pub open spec fn spec_parse_usize_at(lines: Seq<Seq<char>>, pos: int) -> Option<(usize, int)> {
    match spec_read_line(lines, pos) {
        Some((l, p)) => match numtext::spec_parse_usize(l) {
            Some(v) => Some((v, p)),
            None => None,
        },
        None => None,
    }
}

/// An optional string read at a position: a marker line, then the value
/// line when the marker says one follows.
pub open spec fn spec_parse_opt_string(lines: Seq<Seq<char>>, pos: int) -> Option<
    (Option<Seq<char>>, int),
> {
    match spec_read_line(lines, pos) {
        Some((l, p)) => if l == seq!['n'] {
            Some((None, p))
        } else if l == seq!['s'] {
            match spec_read_line(lines, p) {
                Some((v, p2)) => Some((Some(v), p2)),
                None => None,
            }
        } else {
            None
        },
        None => None,
    }
}

/// `n` name/value pairs read at a position.
pub open spec fn spec_parse_nvs(lines: Seq<Seq<char>>, pos: int, n: int) -> Option<
    (Seq<NameValueV>, int),
>
    decreases n,
{
    if n <= 0 {
        Some((Seq::empty(), pos))
    } else {
        match spec_read_line(lines, pos) {
            Some((name, p1)) => match spec_read_line(lines, p1) {
                Some((value, p2)) => match spec_parse_nvs(lines, p2, n - 1) {
                    Some((rest, p3)) => Some((seq![NameValueV { name, value }] + rest, p3)),
                    None => None,
                },
                None => None,
            },
            None => None,
        }
    }
}

/// A counted name/value list read at a position.
pub open spec fn spec_parse_name_values(lines: Seq<Seq<char>>, pos: int) -> Option<
    (Seq<NameValueV>, int),
> {
    match spec_parse_usize_at(lines, pos) {
        Some((n, p)) => spec_parse_nvs(lines, p, n as int),
        None => None,
    }
}

/// A name/value list short enough for its count line.
pub open spec fn spec_nvs_representable(s: Seq<NameValueV>) -> bool {
    s.len() <= usize::MAX
}

/// A pane whose environment list fits its count line.
pub open spec fn spec_pane_representable(p: TmuxPaneV) -> bool {
    spec_nvs_representable(p.environment)
}

/// A pane list that fits its count lines throughout.
pub open spec fn spec_panes_representable(s: Seq<TmuxPaneV>) -> bool {
    s.len() <= usize::MAX && forall|i: int|
        0 <= i < s.len() ==> spec_pane_representable(#[trigger] s[i])
}

/// A window that fits its count lines throughout.
pub open spec fn spec_window_representable(w: TmuxWindowV) -> bool {
    spec_panes_representable(w.panes)
}

/// A window list that fits its count lines throughout.
pub open spec fn spec_windows_representable(s: Seq<TmuxWindowV>) -> bool {
    s.len() <= usize::MAX && forall|i: int|
        0 <= i < s.len() ==> spec_window_representable(#[trigger] s[i])
}

/// A session that fits its count lines throughout.
pub open spec fn spec_session_representable(s: TmuxSessionV) -> bool {
    spec_nvs_representable(s.options) && spec_windows_representable(s.windows)
}

/// A stored mapping that fits its count lines throughout. Every value
/// held in executable vectors satisfies this; it excludes only the
/// unrepresentable (count lines would overflow a machine word).
pub open spec fn spec_entries_representable(s: Seq<(Seq<char>, TmuxSessionV)>) -> bool {
    s.len() <= usize::MAX && forall|i: int|
        0 <= i < s.len() ==> spec_session_representable(#[trigger] s[i].1)
}

/// One line read, with its new position.
fn read_line<'a>(lines: &'a Vec<String>, pos: usize) -> (r: Option<(&'a String, usize)>)
    ensures
        match r {
            Some(p) => spec_read_line(lines.deep_view(), pos as int) == Some((p.0@, p.1 as int))
                && pos < lines.len() && p.1 == pos + 1,
            None => spec_read_line(lines.deep_view(), pos as int) is None,
        },
{
    if pos < lines.len() {
        Some((&lines[pos], pos + 1))
    } else {
        None
    }
}

/// Whether a line consists of the single given character.
fn line_is_char(l: &String, c: char) -> (r: bool)
    ensures
        r == (l@ == seq![c]),
{
    let ls = l.as_str();
    if ls.unicode_len() == 1 {
        let c0 = ls.get_char(0);
        proof {
            if c0 == c {
                assert(l@ =~= seq![c]);
            }
        }
        c0 == c
    } else {
        proof {
            assert(seq![c].len() == 1);
        }
        false
    }
}

/// An optional flag read at a position.
fn parse_opt_flag(lines: &Vec<String>, pos: usize) -> (r: Option<(Option<bool>, usize)>)
    ensures
        ({
            let s = spec_parse_opt_flag(lines.deep_view(), pos as int);
            match r {
                Some(p) => s == Some((p.0, p.1 as int)),
                None => s is None,
            }
        }),
{
    match read_line(lines, pos) {
        Some((l, p)) => {
            if line_is_char(l, 'n') {
                Some((None, p))
            } else if line_is_char(l, 'f') {
                Some((Some(false), p))
            } else if line_is_char(l, 't') {
                Some((Some(true), p))
            } else {
                None
            }
        },
        None => None,
    }
}

/// A boolean read at a position.
fn parse_bool(lines: &Vec<String>, pos: usize) -> (r: Option<(bool, usize)>)
    ensures
        ({
            let s = spec_parse_bool(lines.deep_view(), pos as int);
            match r {
                Some(p) => s == Some((p.0, p.1 as int)),
                None => s is None,
            }
        }),
{
    match read_line(lines, pos) {
        Some((l, p)) => {
            if line_is_char(l, 'f') {
                Some((false, p))
            } else if line_is_char(l, 't') {
                Some((true, p))
            } else {
                None
            }
        },
        None => None,
    }
}

/// A count or ordinal read at a position.
fn parse_usize_at(lines: &Vec<String>, pos: usize) -> (r: Option<(usize, usize)>)
    ensures
        ({
            let s = spec_parse_usize_at(lines.deep_view(), pos as int);
            match r {
                Some(p) => s == Some((p.0, p.1 as int)),
                None => s is None,
            }
        }),
{
    match read_line(lines, pos) {
        Some((l, p)) => match numtext::parse_usize(l.as_str()) {
            Some(v) => Some((v, p)),
            None => None,
        },
        None => None,
    }
}

/// An optional string read at a position.
fn parse_opt_string(lines: &Vec<String>, pos: usize) -> (r: Option<(Option<String>, usize)>)
    ensures
        ({
            let s = spec_parse_opt_string(lines.deep_view(), pos as int);
            match r {
                Some(p) => s == Some((p.0.deep_view(), p.1 as int)),
                None => s is None,
            }
        }),
{
    match read_line(lines, pos) {
        Some((l, p)) => {
            if line_is_char(l, 'n') {
                Some((None, p))
            } else if line_is_char(l, 's') {
                match read_line(lines, p) {
                    Some((v, p2)) => Some((Some(v.clone()), p2)),
                    None => None,
                }
            } else {
                None
            }
        },
        None => None,
    }
}

/// `n` name/value pairs read at a position.
fn parse_nvs(lines: &Vec<String>, pos: usize, n: usize) -> (r: Option<(Vec<NameValue>, usize)>)
    ensures
        ({
            let s = spec_parse_nvs(lines.deep_view(), pos as int, n as int);
            match r {
                Some(p) => s == Some((p.0.deep_view(), p.1 as int)),
                None => s is None,
            }
        }),
    decreases n,
{
    if n == 0 {
        let v: Vec<NameValue> = Vec::new();
        proof {
            assert(v.deep_view() =~= Seq::<NameValueV>::empty());
        }
        Some((v, pos))
    } else {
        match read_line(lines, pos) {
            Some((name, p1)) => match read_line(lines, p1) {
                Some((value, p2)) => {
                    let nv = NameValue { name: name.clone(), value: value.clone() };
                    match parse_nvs(lines, p2, n - 1) {
                        Some((rest, p3)) => {
                            let mut v: Vec<NameValue> = Vec::new();
                            v.push(nv);
                            let mut rest = rest;
                            let ghost rest_v = rest.deep_view();
                            v.append(&mut rest);
                            proof {
                                assert(v.deep_view() =~= seq![
                                    NameValueV {
                                        name: lines.deep_view()[pos as int],
                                        value: lines.deep_view()[p1 as int],
                                    },
                                ] + rest_v);
                            }
                            Some((v, p3))
                        },
                        None => None,
                    }
                },
                None => None,
            },
            None => None,
        }
    }
}

/// One pane read at a position.
pub open spec fn spec_parse_pane(lines: Seq<Seq<char>>, pos: int) -> Option<(TmuxPaneV, int)> {
    match spec_parse_usize_at(lines, pos) {
        Some((index, p1)) => match spec_read_line(lines, p1) {
            Some((path, p2)) => match spec_parse_bool(lines, p2) {
                Some((active, p3)) => match spec_parse_opt_string(lines, p3) {
                    Some((startup_command, p4)) => match spec_parse_opt_string(lines, p4) {
                        Some((shell_command, p5)) => match spec_parse_name_values(lines, p5) {
                            Some((environment, p6)) => Some(
                                (
                                    TmuxPaneV {
                                        index,
                                        path,
                                        active,
                                        startup_command,
                                        shell_command,
                                        environment,
                                    },
                                    p6,
                                ),
                            ),
                            None => None,
                        },
                        None => None,
                    },
                    None => None,
                },
                None => None,
            },
            None => None,
        },
        None => None,
    }
}

/// `n` panes read at a position.
pub open spec fn spec_parse_panes_n(lines: Seq<Seq<char>>, pos: int, n: int) -> Option<
    (Seq<TmuxPaneV>, int),
>
    decreases n,
{
    if n <= 0 {
        Some((Seq::empty(), pos))
    } else {
        match spec_parse_pane(lines, pos) {
            Some((pane, p1)) => match spec_parse_panes_n(lines, p1, n - 1) {
                Some((rest, p2)) => Some((seq![pane] + rest, p2)),
                None => None,
            },
            None => None,
        }
    }
}

/// A counted pane list read at a position.
pub open spec fn spec_parse_panes(lines: Seq<Seq<char>>, pos: int) -> Option<
    (Seq<TmuxPaneV>, int),
> {
    match spec_parse_usize_at(lines, pos) {
        Some((n, p)) => spec_parse_panes_n(lines, p, n as int),
        None => None,
    }
}

/// One window read at a position.
pub open spec fn spec_parse_window(lines: Seq<Seq<char>>, pos: int) -> Option<
    (TmuxWindowV, int),
> {
    match spec_parse_usize_at(lines, pos) {
        Some((index, p1)) => match spec_read_line(lines, p1) {
            Some((name, p2)) => match spec_read_line(lines, p2) {
                Some((layout, p3)) => match spec_parse_opt_flag(lines, p3) {
                    Some((active, p4)) => match spec_parse_panes(lines, p4) {
                        Some((panes, p5)) => Some(
                            (TmuxWindowV { index, name, layout, panes, active }, p5),
                        ),
                        None => None,
                    },
                    None => None,
                },
                None => None,
            },
            None => None,
        },
        None => None,
    }
}

/// `n` windows read at a position.
pub open spec fn spec_parse_windows_n(lines: Seq<Seq<char>>, pos: int, n: int) -> Option<
    (Seq<TmuxWindowV>, int),
>
    decreases n,
{
    if n <= 0 {
        Some((Seq::empty(), pos))
    } else {
        match spec_parse_window(lines, pos) {
            Some((w, p1)) => match spec_parse_windows_n(lines, p1, n - 1) {
                Some((rest, p2)) => Some((seq![w] + rest, p2)),
                None => None,
            },
            None => None,
        }
    }
}

/// A counted window list read at a position.
pub open spec fn spec_parse_windows(lines: Seq<Seq<char>>, pos: int) -> Option<
    (Seq<TmuxWindowV>, int),
> {
    match spec_parse_usize_at(lines, pos) {
        Some((n, p)) => spec_parse_windows_n(lines, p, n as int),
        None => None,
    }
}

/// One session body read at a position.
pub open spec fn spec_parse_session(lines: Seq<Seq<char>>, pos: int) -> Option<
    (TmuxSessionV, int),
> {
    match spec_parse_opt_flag(lines, pos) {
        Some((background, p1)) => match spec_parse_opt_flag(lines, p1) {
            Some((no_recent_tracking, p2)) => match spec_parse_name_values(lines, p2) {
                Some((options, p3)) => match spec_parse_windows(lines, p3) {
                    Some((windows, p4)) => Some(
                        (TmuxSessionV { background, no_recent_tracking, windows, options }, p4),
                    ),
                    None => None,
                },
                None => None,
            },
            None => None,
        },
        None => None,
    }
}

/// `n` stored entries read at a position.
pub open spec fn spec_parse_entries_n(lines: Seq<Seq<char>>, pos: int, n: int) -> Option<
    (Seq<(Seq<char>, TmuxSessionV)>, int),
>
    decreases n,
{
    if n <= 0 {
        Some((Seq::empty(), pos))
    } else {
        match spec_read_line(lines, pos) {
            Some((name, p1)) => match spec_parse_session(lines, p1) {
                Some((session, p2)) => match spec_parse_entries_n(lines, p2, n - 1) {
                    Some((rest, p3)) => Some((seq![(name, session)] + rest, p3)),
                    None => None,
                },
                None => None,
            },
            None => None,
        }
    }
}

/// The whole document read back: the entry sequence, provided every line
/// is consumed and no session name is stored twice.
pub open spec fn spec_parse_topology(lines: Seq<Seq<char>>) -> Option<
    Seq<(Seq<char>, TmuxSessionV)>,
> {
    match spec_parse_usize_at(lines, 0) {
        Some((n, p)) => match spec_parse_entries_n(lines, p, n as int) {
            Some((entries, p2)) => if p2 == lines.len()
                && crate::model::entries_unique(entries) {
                Some(entries)
            } else {
                None
            },
            None => None,
        },
        None => None,
    }
}

/// A counted name/value list read at a position.
fn parse_name_values(lines: &Vec<String>, pos: usize) -> (r: Option<(Vec<NameValue>, usize)>)
    ensures
        ({
            let s = spec_parse_name_values(lines.deep_view(), pos as int);
            match r {
                Some(p) => s == Some((p.0.deep_view(), p.1 as int)),
                None => s is None,
            }
        }),
{
    match parse_usize_at(lines, pos) {
        Some((n, p)) => parse_nvs(lines, p, n),
        None => None,
    }
}

/// One pane read at a position.
fn parse_pane(lines: &Vec<String>, pos: usize) -> (r: Option<(TmuxPane, usize)>)
    ensures
        ({
            let s = spec_parse_pane(lines.deep_view(), pos as int);
            match r {
                Some(p) => s == Some((p.0@, p.1 as int)),
                None => s is None,
            }
        }),
{
    match parse_usize_at(lines, pos) {
        Some((index, p1)) => match read_line(lines, p1) {
            Some((path, p2)) => match parse_bool(lines, p2) {
                Some((active, p3)) => match parse_opt_string(lines, p3) {
                    Some((startup_command, p4)) => match parse_opt_string(lines, p4) {
                        Some((shell_command, p5)) => match parse_name_values(lines, p5) {
                            Some((environment, p6)) => Some(
                                (
                                    TmuxPane {
                                        index,
                                        path: path.clone(),
                                        active,
                                        startup_command,
                                        shell_command,
                                        environment,
                                    },
                                    p6,
                                ),
                            ),
                            None => None,
                        },
                        None => None,
                    },
                    None => None,
                },
                None => None,
            },
            None => None,
        },
        None => None,
    }
}

/// `n` panes read at a position.
fn parse_panes_n(lines: &Vec<String>, pos: usize, n: usize) -> (r: Option<(Vec<TmuxPane>, usize)>)
    ensures
        ({
            let s = spec_parse_panes_n(lines.deep_view(), pos as int, n as int);
            match r {
                Some(p) => s == Some((p.0.deep_view(), p.1 as int)),
                None => s is None,
            }
        }),
    decreases n,
{
    if n == 0 {
        let v: Vec<TmuxPane> = Vec::new();
        proof {
            assert(v.deep_view() =~= Seq::<TmuxPaneV>::empty());
        }
        Some((v, pos))
    } else {
        match parse_pane(lines, pos) {
            Some((pane, p1)) => match parse_panes_n(lines, p1, n - 1) {
                Some((rest, p2)) => {
                    let ghost pane_v = pane@;
                    let ghost rest_v = rest.deep_view();
                    let mut v: Vec<TmuxPane> = Vec::new();
                    v.push(pane);
                    let mut rest = rest;
                    v.append(&mut rest);
                    proof {
                        assert(v.deep_view() =~= seq![pane_v] + rest_v);
                    }
                    Some((v, p2))
                },
                None => None,
            },
            None => None,
        }
    }
}

/// A counted pane list read at a position.
fn parse_panes(lines: &Vec<String>, pos: usize) -> (r: Option<(Vec<TmuxPane>, usize)>)
    ensures
        ({
            let s = spec_parse_panes(lines.deep_view(), pos as int);
            match r {
                Some(p) => s == Some((p.0.deep_view(), p.1 as int)),
                None => s is None,
            }
        }),
{
    match parse_usize_at(lines, pos) {
        Some((n, p)) => parse_panes_n(lines, p, n),
        None => None,
    }
}

/// One window read at a position.
fn parse_window(lines: &Vec<String>, pos: usize) -> (r: Option<(TmuxWindow, usize)>)
    ensures
        ({
            let s = spec_parse_window(lines.deep_view(), pos as int);
            match r {
                Some(p) => s == Some((p.0@, p.1 as int)),
                None => s is None,
            }
        }),
{
    match parse_usize_at(lines, pos) {
        Some((index, p1)) => match read_line(lines, p1) {
            Some((name, p2)) => {
                let name = name.clone();
                match read_line(lines, p2) {
                    Some((layout, p3)) => match parse_opt_flag(lines, p3) {
                        Some((active, p4)) => match parse_panes(lines, p4) {
                            Some((panes, p5)) => Some(
                                (
                                    TmuxWindow {
                                        index,
                                        name,
                                        layout: layout.clone(),
                                        panes,
                                        active,
                                    },
                                    p5,
                                ),
                            ),
                            None => None,
                        },
                        None => None,
                    },
                    None => None,
                }
            },
            None => None,
        },
        None => None,
    }
}

/// `n` windows read at a position.
fn parse_windows_n(lines: &Vec<String>, pos: usize, n: usize) -> (r: Option<
    (Vec<TmuxWindow>, usize),
>)
    ensures
        ({
            let s = spec_parse_windows_n(lines.deep_view(), pos as int, n as int);
            match r {
                Some(p) => s == Some((p.0.deep_view(), p.1 as int)),
                None => s is None,
            }
        }),
    decreases n,
{
    if n == 0 {
        let v: Vec<TmuxWindow> = Vec::new();
        proof {
            assert(v.deep_view() =~= Seq::<TmuxWindowV>::empty());
        }
        Some((v, pos))
    } else {
        match parse_window(lines, pos) {
            Some((w, p1)) => match parse_windows_n(lines, p1, n - 1) {
                Some((rest, p2)) => {
                    let ghost w_v = w@;
                    let ghost rest_v = rest.deep_view();
                    let mut v: Vec<TmuxWindow> = Vec::new();
                    v.push(w);
                    let mut rest = rest;
                    v.append(&mut rest);
                    proof {
                        assert(v.deep_view() =~= seq![w_v] + rest_v);
                    }
                    Some((v, p2))
                },
                None => None,
            },
            None => None,
        }
    }
}

/// A counted window list read at a position.
fn parse_windows(lines: &Vec<String>, pos: usize) -> (r: Option<(Vec<TmuxWindow>, usize)>)
    ensures
        ({
            let s = spec_parse_windows(lines.deep_view(), pos as int);
            match r {
                Some(p) => s == Some((p.0.deep_view(), p.1 as int)),
                None => s is None,
            }
        }),
{
    match parse_usize_at(lines, pos) {
        Some((n, p)) => parse_windows_n(lines, p, n),
        None => None,
    }
}

/// One session body read at a position.
fn parse_session(lines: &Vec<String>, pos: usize) -> (r: Option<(TmuxSession, usize)>)
    ensures
        ({
            let s = spec_parse_session(lines.deep_view(), pos as int);
            match r {
                Some(p) => s == Some((p.0@, p.1 as int)),
                None => s is None,
            }
        }),
{
    match parse_opt_flag(lines, pos) {
        Some((background, p1)) => match parse_opt_flag(lines, p1) {
            Some((no_recent_tracking, p2)) => match parse_name_values(lines, p2) {
                Some((options, p3)) => match parse_windows(lines, p3) {
                    Some((windows, p4)) => Some(
                        (TmuxSession { background, no_recent_tracking, windows, options }, p4),
                    ),
                    None => None,
                },
                None => None,
            },
            None => None,
        },
        None => None,
    }
}

/// `n` stored entries read at a position.
fn parse_entries_n(lines: &Vec<String>, pos: usize, n: usize) -> (r: Option<
    (Vec<(String, TmuxSession)>, usize),
>)
    ensures
        ({
            let s = spec_parse_entries_n(lines.deep_view(), pos as int, n as int);
            match r {
                Some(p) => s == Some((p.0.deep_view(), p.1 as int)),
                None => s is None,
            }
        }),
    decreases n,
{
    if n == 0 {
        let v: Vec<(String, TmuxSession)> = Vec::new();
        proof {
            assert(v.deep_view() =~= Seq::<(Seq<char>, TmuxSessionV)>::empty());
        }
        Some((v, pos))
    } else {
        match read_line(lines, pos) {
            Some((name, p1)) => {
                let name = name.clone();
                match parse_session(lines, p1) {
                    Some((session, p2)) => match parse_entries_n(lines, p2, n - 1) {
                        Some((rest, p3)) => {
                            let ghost head_v = (name@, session@);
                            let ghost rest_v = rest.deep_view();
                            let mut v: Vec<(String, TmuxSession)> = Vec::new();
                            v.push((name, session));
                            let mut rest = rest;
                            v.append(&mut rest);
                            proof {
                                assert(v.deep_view() =~= seq![head_v] + rest_v);
                            }
                            Some((v, p3))
                        },
                        None => None,
                    },
                    None => None,
                }
            },
            None => None,
        }
    }
}

/// Whether no session name occurs twice among the entries.
fn check_entries_unique(entries: &Vec<(String, TmuxSession)>) -> (r: bool)
    ensures
        r == crate::model::entries_unique(entries.deep_view()),
{
    let n = entries.len();
    let mut i: usize = 0;
    while i < n
        invariant
            i <= n,
            n == entries.len(),
            forall|a: int, b: int|
                0 <= a < b < n && a < i ==> entries.deep_view()[a].0 != entries.deep_view()[b].0,
        decreases n - i,
    {
        let mut j: usize = i + 1;
        while j < n
            invariant
                i < j <= n || (i + 1 > n && j == i + 1),
                i < n,
                n == entries.len(),
                forall|b: int|
                    i < b < j ==> entries.deep_view()[i as int].0 != entries.deep_view()[b].0,
            decreases n - j,
        {
            if crate::utils::str_eq(entries[i].0.as_str(), entries[j].0.as_str()) {
                assert(entries.deep_view()[i as int].0 == entries.deep_view()[j as int].0);
                return false;
            }
            j = j + 1;
        }
        i = i + 1;
    }
    true
}

/// The stored topology read back from the document lines, or nothing on
/// any malformed content: a bad count, flag or ordinal, missing lines,
/// trailing lines, or a session name stored twice. The caller treats a
/// failed parse as fatal; an absent file is an empty mapping and never
/// reaches the parser.
pub fn parse_topology(lines: &Vec<String>) -> (r: Option<TmuxSessions>)
    ensures
        ({
            let s = spec_parse_topology(lines.deep_view());
            match r {
                Some(m) => s == Some(m.spec_entries()) && m.wf(),
                None => s is None,
            }
        }),
{
    match parse_usize_at(lines, 0) {
        Some((n, p)) => match parse_entries_n(lines, p, n) {
            Some((entries, p2)) => {
                if p2 == lines.len() {
                    if check_entries_unique(&entries) {
                        Some(TmuxSessions { entries })
                    } else {
                        None
                    }
                } else {
                    None
                }
            },
            None => None,
        },
        None => None,
    }
}

/// `n` entries of the older on-disk shape — a session name followed
/// directly by a window list, with no session-level flags or options —
/// read at a position.
pub open spec fn spec_parse_old_entries_n(lines: Seq<Seq<char>>, pos: int, n: int) -> Option<
    (Seq<(Seq<char>, Seq<TmuxWindowV>)>, int),
>
    decreases n,
{
    if n <= 0 {
        Some((Seq::empty(), pos))
    } else {
        match spec_read_line(lines, pos) {
            Some((name, p1)) => match spec_parse_windows(lines, p1) {
                Some((windows, p2)) => match spec_parse_old_entries_n(lines, p2, n - 1) {
                    Some((rest, p3)) => Some((seq![(name, windows)] + rest, p3)),
                    None => None,
                },
                None => None,
            },
            None => None,
        }
    }
}

/// The older document shape read back whole.
pub open spec fn spec_parse_old_topology(lines: Seq<Seq<char>>) -> Option<
    Seq<(Seq<char>, Seq<TmuxWindowV>)>,
> {
    match spec_parse_usize_at(lines, 0) {
        Some((n, p)) => match spec_parse_old_entries_n(lines, p, n as int) {
            Some((entries, p2)) => if p2 == lines.len() {
                Some(entries)
            } else {
                None
            },
            None => None,
        },
        None => None,
    }
}

/// The session an old-shape entry converts to: its windows, with the
/// session-level flags absent and no options.
pub open spec fn spec_convert_session(windows: Seq<TmuxWindowV>) -> TmuxSessionV {
    TmuxSessionV { background: None, no_recent_tracking: None, windows, options: Seq::empty() }
}

/// The current-shape entries an old document converts to.
pub open spec fn spec_convert_entries(old: Seq<(Seq<char>, Seq<TmuxWindowV>)>) -> Seq<
    (Seq<char>, TmuxSessionV),
> {
    old.map_values(|e: (Seq<char>, Seq<TmuxWindowV>)| (e.0, spec_convert_session(e.1)))
}

/// `n` old-shape entries read at a position.
fn parse_old_entries_n(lines: &Vec<String>, pos: usize, n: usize) -> (r: Option<
    (Vec<(String, Vec<TmuxWindow>)>, usize),
>)
    ensures
        ({
            let s = spec_parse_old_entries_n(lines.deep_view(), pos as int, n as int);
            match r {
                Some(p) => s == Some((p.0.deep_view(), p.1 as int)),
                None => s is None,
            }
        }),
    decreases n,
{
    if n == 0 {
        let v: Vec<(String, Vec<TmuxWindow>)> = Vec::new();
        proof {
            assert(v.deep_view() =~= Seq::<(Seq<char>, Seq<TmuxWindowV>)>::empty());
        }
        Some((v, pos))
    } else {
        match read_line(lines, pos) {
            Some((name, p1)) => {
                let name = name.clone();
                match parse_windows(lines, p1) {
                    Some((windows, p2)) => match parse_old_entries_n(lines, p2, n - 1) {
                        Some((rest, p3)) => {
                            let ghost head_v = (name@, windows.deep_view());
                            let ghost rest_v = rest.deep_view();
                            let mut v: Vec<(String, Vec<TmuxWindow>)> = Vec::new();
                            v.push((name, windows));
                            let mut rest = rest;
                            v.append(&mut rest);
                            proof {
                                assert(v.deep_view() =~= seq![head_v] + rest_v);
                            }
                            Some((v, p3))
                        },
                        None => None,
                    },
                    None => None,
                }
            },
            None => None,
        }
    }
}

/// Rewrite a document of the older shape (window lists only) into the
/// current shape, defaulting the session-level flags to absent; nothing
/// on malformed content or on a session name stored twice.
pub fn convert_topology(lines: &Vec<String>) -> (r: Option<Vec<String>>)
    ensures
        ({
            let s = spec_parse_old_topology(lines.deep_view());
            match r {
                Some(out) => s is Some && crate::model::entries_unique(
                    spec_convert_entries(s.unwrap()),
                ) && out.deep_view() == spec_print_topology(spec_convert_entries(s.unwrap())),
                None => s is None || !crate::model::entries_unique(
                    spec_convert_entries(s.unwrap()),
                ),
            }
        }),
{
    match parse_usize_at(lines, 0) {
        Some((n, p)) => match parse_old_entries_n(lines, p, n) {
            Some((old_entries, p2)) => {
                if p2 != lines.len() {
                    return None;
                }
                let ghost old_v = old_entries.deep_view();
                let mut entries: Vec<(String, TmuxSession)> = Vec::new();
                let count = old_entries.len();
                let mut old_entries = old_entries;
                let mut i: usize = 0;
                while i < count
                    invariant
                        i <= count,
                        old_entries.len() == count - i,
                        old_entries.deep_view() =~= old_v.skip(i as int),
                        old_v.len() == count,
                        entries.deep_view() =~= spec_convert_entries(old_v.take(i as int)),
                    decreases count - i,
                {
                    let ghost prev = old_entries.deep_view();
                    let (name, windows) = old_entries.remove(0);
                    proof {
                        assert(prev[0] == old_v[i as int]);
                        assert(windows.deep_view() == prev[0].1);
                    }
                    let empty_options: Vec<NameValue> = Vec::new();
                    proof {
                        assert(empty_options.deep_view() =~= Seq::<NameValueV>::empty());
                    }
                    let session = TmuxSession {
                        background: None,
                        no_recent_tracking: None,
                        windows,
                        options: empty_options,
                    };
                    proof {
                        assert(session@ == spec_convert_session(old_v[i as int].1));
                    }
                    entries.push((name, session));
                    proof {
                        assert(old_entries.deep_view() =~= prev.skip(1));
                        assert(old_entries.deep_view() =~= old_v.skip(i + 1));
                        assert(spec_convert_entries(old_v.take(i + 1)) =~= spec_convert_entries(
                            old_v.take(i as int),
                        ).push((old_v[i as int].0, spec_convert_session(old_v[i as int].1))));
                        assert(entries.deep_view() =~= spec_convert_entries(old_v.take(i + 1)));
                    }
                    i = i + 1;
                }
                proof {
                    assert(old_v.take(count as int) =~= old_v);
                }
                if check_entries_unique(&entries) {
                    Some(serialize_topology(&TmuxSessions { entries }))
                } else {
                    None
                }
            },
            None => None,
        },
        None => None,
    }
}

/// A window over a concatenation splits into windows over its parts.
proof fn lemma_subrange_concat(
    lines: Seq<Seq<char>>,
    pos: int,
    a: Seq<Seq<char>>,
    b: Seq<Seq<char>>,
)
    requires
        0 <= pos,
        pos + a.len() + b.len() <= lines.len(),
        lines.subrange(pos, pos + a.len() + b.len()) == a + b,
    ensures
        lines.subrange(pos, pos + a.len()) == a,
        lines.subrange(pos + a.len(), pos + a.len() + b.len()) == b,
{
    assert forall|k: int| 0 <= k < a.len() implies lines.subrange(pos, pos + a.len())[k]
        == a[k] by {
        assert(lines.subrange(pos, pos + a.len() + b.len())[k] == (a + b)[k]);
    }
    assert(lines.subrange(pos, pos + a.len()) =~= a);
    assert forall|k: int|
        0 <= k < b.len() implies lines.subrange(pos + a.len(), pos + a.len() + b.len())[k]
        == b[k] by {
        assert(lines.subrange(pos, pos + a.len() + b.len())[a.len() + k] == (a + b)[a.len() + k]);
    }
    assert(lines.subrange(pos + a.len(), pos + a.len() + b.len()) =~= b);
}

/// A printed flag line reads back as the flag.
proof fn lemma_rt_opt_flag(lines: Seq<Seq<char>>, pos: int, b: Option<bool>)
    requires
        0 <= pos,
        pos + 1 <= lines.len(),
        lines[pos] == spec_print_opt_flag(b),
    ensures
        spec_parse_opt_flag(lines, pos) == Some((b, pos + 1)),
{
    assert(seq!['n'][0] == 'n');
    assert(seq!['f'][0] == 'f');
    assert(seq!['t'][0] == 't');
}

/// A printed boolean line reads back as the boolean.
proof fn lemma_rt_bool(lines: Seq<Seq<char>>, pos: int, b: bool)
    requires
        0 <= pos,
        pos + 1 <= lines.len(),
        lines[pos] == spec_print_bool(b),
    ensures
        spec_parse_bool(lines, pos) == Some((b, pos + 1)),
{
    assert(seq!['f'][0] == 'f');
    assert(seq!['t'][0] == 't');
}

/// A printed count or ordinal line reads back as its value.
proof fn lemma_rt_usize(lines: Seq<Seq<char>>, pos: int, n: usize)
    requires
        0 <= pos,
        pos + 1 <= lines.len(),
        lines[pos] == numtext::spec_digits(n as nat),
    ensures
        spec_parse_usize_at(lines, pos) == Some((n, pos + 1)),
{
    numtext::lemma_parse_inverts_digits(n);
}

/// Printed optional-string lines read back as the optional string.
proof fn lemma_rt_opt_string(lines: Seq<Seq<char>>, pos: int, s: Option<Seq<char>>)
    requires
        0 <= pos,
        pos + spec_print_opt_string(s).len() <= lines.len(),
        lines.subrange(pos, pos + spec_print_opt_string(s).len()) == spec_print_opt_string(s),
    ensures
        spec_parse_opt_string(lines, pos) == Some((s, pos + spec_print_opt_string(s).len())),
{
    let p = spec_print_opt_string(s);
    assert(seq!['n'][0] == 'n');
    assert(seq!['s'][0] == 's');
    match s {
        None => {
            assert(lines[pos] == p[0]);
        },
        Some(v) => {
            assert(lines[pos] == lines.subrange(pos, pos + 2)[0]);
            assert(lines[pos + 1] == lines.subrange(pos, pos + 2)[1]);
            assert(lines[pos] == seq!['s']);
            assert(lines[pos + 1] == v);
        },
    }
}

/// A printed pair list decomposes at its first pair.
proof fn lemma_print_nvs_front(s: Seq<NameValueV>, k: int)
    requires
        1 <= k <= s.len(),
    ensures
        spec_print_nvs_upto(s, k) == spec_print_name_value(s[0]) + spec_print_nvs_upto(
            s.drop_first(),
            k - 1,
        ),
    decreases k,
{
    if k == 1 {
        assert(spec_print_nvs_upto(s, 0) =~= Seq::<Seq<char>>::empty());
        assert(spec_print_nvs_upto(s.drop_first(), 0) =~= Seq::<Seq<char>>::empty());
        assert(spec_print_nvs_upto(s, 1) =~= spec_print_name_value(s[0])
            + spec_print_nvs_upto(s.drop_first(), 0));
    } else {
        lemma_print_nvs_front(s, k - 1);
        assert(s.drop_first()[k - 2] == s[k - 1]);
        assert(spec_print_nvs_upto(s, k) =~= spec_print_name_value(s[0]) + spec_print_nvs_upto(
            s.drop_first(),
            k - 1,
        ));
    }
}

/// Printed name/value pairs read back as the pair sequence.
proof fn lemma_rt_nvs(lines: Seq<Seq<char>>, pos: int, s: Seq<NameValueV>)
    requires
        0 <= pos,
        s.len() <= usize::MAX,
        pos + spec_print_nvs_upto(s, s.len() as int).len() <= lines.len(),
        lines.subrange(pos, pos + spec_print_nvs_upto(s, s.len() as int).len())
            == spec_print_nvs_upto(s, s.len() as int),
    ensures
        spec_parse_nvs(lines, pos, s.len() as int) == Some(
            (s, pos + spec_print_nvs_upto(s, s.len() as int).len()),
        ),
    decreases s.len(),
{
    let pr = spec_print_nvs_upto(s, s.len() as int);
    if s.len() == 0 {
        assert(s =~= Seq::<NameValueV>::empty());
    } else {
        lemma_print_nvs_front(s, s.len() as int);
        let head = spec_print_name_value(s[0]);
        let tail = spec_print_nvs_upto(s.drop_first(), s.len() - 1);
        lemma_subrange_concat(lines, pos, head, tail);
        assert(lines[pos] == lines.subrange(pos, pos + 2)[0]);
        assert(lines[pos + 1] == lines.subrange(pos, pos + 2)[1]);
        assert(lines[pos] == s[0].name);
        assert(lines[pos + 1] == s[0].value);
        lemma_rt_nvs(lines, pos + 2, s.drop_first());
        assert(NameValueV { name: lines[pos], value: lines[pos + 1] } == s[0]);
        assert(seq![s[0]] + s.drop_first() =~= s);
    }
}

/// A printed counted name/value list reads back as the list.
proof fn lemma_rt_name_values(lines: Seq<Seq<char>>, pos: int, s: Seq<NameValueV>)
    requires
        0 <= pos,
        spec_nvs_representable(s),
        pos + spec_print_name_values(s).len() <= lines.len(),
        lines.subrange(pos, pos + spec_print_name_values(s).len()) == spec_print_name_values(s),
    ensures
        spec_parse_name_values(lines, pos) == Some((s, pos + spec_print_name_values(s).len())),
{
    let count = seq![numtext::spec_digits(s.len())];
    let body = spec_print_nvs_upto(s, s.len() as int);
    lemma_subrange_concat(lines, pos, count, body);
    assert(lines[pos] == lines.subrange(pos, pos + 1)[0]);
    assert(lines[pos] == numtext::spec_digits(s.len()));
    let n: usize = s.len() as usize;
    assert(numtext::spec_digits(n as nat) == numtext::spec_digits(s.len()));
    lemma_rt_usize(lines, pos, n);
    lemma_rt_nvs(lines, pos + 1, s);
}

/// A printed pane reads back as the pane.
proof fn lemma_rt_pane(lines: Seq<Seq<char>>, pos: int, p: TmuxPaneV)
    requires
        0 <= pos,
        spec_pane_representable(p),
        pos + spec_print_pane(p).len() <= lines.len(),
        lines.subrange(pos, pos + spec_print_pane(p).len()) == spec_print_pane(p),
    ensures
        spec_parse_pane(lines, pos) == Some((p, pos + spec_print_pane(p).len())),
{
    let h = seq![numtext::spec_digits(p.index as nat), p.path, spec_print_bool(p.active)];
    let os1 = spec_print_opt_string(p.startup_command);
    let os2 = spec_print_opt_string(p.shell_command);
    let nv = spec_print_name_values(p.environment);
    assert(spec_print_pane(p) == h + os1 + os2 + nv);
    assert(h + os1 + os2 + nv =~= ((h + os1) + os2) + nv);
    lemma_subrange_concat(lines, pos, (h + os1) + os2, nv);
    lemma_subrange_concat(lines, pos, h + os1, os2);
    lemma_subrange_concat(lines, pos, h, os1);
    assert(lines[pos] == lines.subrange(pos, pos + 3)[0]);
    assert(lines[pos + 1] == lines.subrange(pos, pos + 3)[1]);
    assert(lines[pos + 2] == lines.subrange(pos, pos + 3)[2]);
    lemma_rt_usize(lines, pos, p.index);
    lemma_rt_bool(lines, pos + 2, p.active);
    lemma_rt_opt_string(lines, pos + 3, p.startup_command);
    lemma_rt_opt_string(lines, pos + 3 + os1.len(), p.shell_command);
    lemma_rt_name_values(lines, pos + 3 + os1.len() + os2.len(), p.environment);
}

/// A printed pane list decomposes at its first pane.
proof fn lemma_print_panes_front(s: Seq<TmuxPaneV>, k: int)
    requires
        1 <= k <= s.len(),
    ensures
        spec_print_panes_upto(s, k) == spec_print_pane(s[0]) + spec_print_panes_upto(
            s.drop_first(),
            k - 1,
        ),
    decreases k,
{
    if k == 1 {
        assert(spec_print_panes_upto(s, 0) =~= Seq::<Seq<char>>::empty());
        assert(spec_print_panes_upto(s.drop_first(), 0) =~= Seq::<Seq<char>>::empty());
        assert(spec_print_panes_upto(s, 1) =~= spec_print_pane(s[0]) + spec_print_panes_upto(
            s.drop_first(),
            0,
        ));
    } else {
        lemma_print_panes_front(s, k - 1);
        assert(s.drop_first()[k - 2] == s[k - 1]);
        assert(spec_print_panes_upto(s, k) =~= spec_print_pane(s[0]) + spec_print_panes_upto(
            s.drop_first(),
            k - 1,
        ));
    }
}

/// Printed panes read back as the pane sequence.
proof fn lemma_rt_panes_n(lines: Seq<Seq<char>>, pos: int, s: Seq<TmuxPaneV>)
    requires
        0 <= pos,
        spec_panes_representable(s),
        pos + spec_print_panes_upto(s, s.len() as int).len() <= lines.len(),
        lines.subrange(pos, pos + spec_print_panes_upto(s, s.len() as int).len())
            == spec_print_panes_upto(s, s.len() as int),
    ensures
        spec_parse_panes_n(lines, pos, s.len() as int) == Some(
            (s, pos + spec_print_panes_upto(s, s.len() as int).len()),
        ),
    decreases s.len(),
{
    if s.len() == 0 {
        assert(s =~= Seq::<TmuxPaneV>::empty());
    } else {
        lemma_print_panes_front(s, s.len() as int);
        let head = spec_print_pane(s[0]);
        let tail = spec_print_panes_upto(s.drop_first(), s.len() - 1);
        lemma_subrange_concat(lines, pos, head, tail);
        lemma_rt_pane(lines, pos, s[0]);
        assert forall|i: int|
            0 <= i < s.drop_first().len() implies spec_pane_representable(
            #[trigger] s.drop_first()[i],
        ) by {
            assert(s.drop_first()[i] == s[i + 1]);
        }
        lemma_rt_panes_n(lines, pos + head.len(), s.drop_first());
        assert(seq![s[0]] + s.drop_first() =~= s);
    }
}

/// A printed counted pane list reads back as the list.
proof fn lemma_rt_panes(lines: Seq<Seq<char>>, pos: int, s: Seq<TmuxPaneV>)
    requires
        0 <= pos,
        spec_panes_representable(s),
        pos + spec_print_panes(s).len() <= lines.len(),
        lines.subrange(pos, pos + spec_print_panes(s).len()) == spec_print_panes(s),
    ensures
        spec_parse_panes(lines, pos) == Some((s, pos + spec_print_panes(s).len())),
{
    let count = seq![numtext::spec_digits(s.len())];
    let body = spec_print_panes_upto(s, s.len() as int);
    lemma_subrange_concat(lines, pos, count, body);
    assert(lines[pos] == lines.subrange(pos, pos + 1)[0]);
    let n: usize = s.len() as usize;
    assert(numtext::spec_digits(n as nat) == numtext::spec_digits(s.len()));
    lemma_rt_usize(lines, pos, n);
    lemma_rt_panes_n(lines, pos + 1, s);
}

/// A printed window reads back as the window.
proof fn lemma_rt_window(lines: Seq<Seq<char>>, pos: int, w: TmuxWindowV)
    requires
        0 <= pos,
        spec_window_representable(w),
        pos + spec_print_window(w).len() <= lines.len(),
        lines.subrange(pos, pos + spec_print_window(w).len()) == spec_print_window(w),
    ensures
        spec_parse_window(lines, pos) == Some((w, pos + spec_print_window(w).len())),
{
    let h = seq![
        numtext::spec_digits(w.index as nat),
        w.name,
        w.layout,
        spec_print_opt_flag(w.active),
    ];
    let pn = spec_print_panes(w.panes);
    assert(spec_print_window(w) == h + pn);
    lemma_subrange_concat(lines, pos, h, pn);
    assert(lines[pos] == lines.subrange(pos, pos + 4)[0]);
    assert(lines[pos + 1] == lines.subrange(pos, pos + 4)[1]);
    assert(lines[pos + 2] == lines.subrange(pos, pos + 4)[2]);
    assert(lines[pos + 3] == lines.subrange(pos, pos + 4)[3]);
    lemma_rt_usize(lines, pos, w.index);
    lemma_rt_opt_flag(lines, pos + 3, w.active);
    lemma_rt_panes(lines, pos + 4, w.panes);
}

/// A printed window list decomposes at its first window.
proof fn lemma_print_windows_front(s: Seq<TmuxWindowV>, k: int)
    requires
        1 <= k <= s.len(),
    ensures
        spec_print_windows_upto(s, k) == spec_print_window(s[0]) + spec_print_windows_upto(
            s.drop_first(),
            k - 1,
        ),
    decreases k,
{
    if k == 1 {
        assert(spec_print_windows_upto(s, 0) =~= Seq::<Seq<char>>::empty());
        assert(spec_print_windows_upto(s.drop_first(), 0) =~= Seq::<Seq<char>>::empty());
        assert(spec_print_windows_upto(s, 1) =~= spec_print_window(s[0])
            + spec_print_windows_upto(s.drop_first(), 0));
    } else {
        lemma_print_windows_front(s, k - 1);
        assert(s.drop_first()[k - 2] == s[k - 1]);
        assert(spec_print_windows_upto(s, k) =~= spec_print_window(s[0])
            + spec_print_windows_upto(s.drop_first(), k - 1));
    }
}

/// Printed windows read back as the window sequence.
proof fn lemma_rt_windows_n(lines: Seq<Seq<char>>, pos: int, s: Seq<TmuxWindowV>)
    requires
        0 <= pos,
        spec_windows_representable(s),
        pos + spec_print_windows_upto(s, s.len() as int).len() <= lines.len(),
        lines.subrange(pos, pos + spec_print_windows_upto(s, s.len() as int).len())
            == spec_print_windows_upto(s, s.len() as int),
    ensures
        spec_parse_windows_n(lines, pos, s.len() as int) == Some(
            (s, pos + spec_print_windows_upto(s, s.len() as int).len()),
        ),
    decreases s.len(),
{
    if s.len() == 0 {
        assert(s =~= Seq::<TmuxWindowV>::empty());
    } else {
        lemma_print_windows_front(s, s.len() as int);
        let head = spec_print_window(s[0]);
        let tail = spec_print_windows_upto(s.drop_first(), s.len() - 1);
        lemma_subrange_concat(lines, pos, head, tail);
        lemma_rt_window(lines, pos, s[0]);
        assert forall|i: int|
            0 <= i < s.drop_first().len() implies spec_window_representable(
            #[trigger] s.drop_first()[i],
        ) by {
            assert(s.drop_first()[i] == s[i + 1]);
        }
        lemma_rt_windows_n(lines, pos + head.len(), s.drop_first());
        assert(seq![s[0]] + s.drop_first() =~= s);
    }
}

/// A printed counted window list reads back as the list.
proof fn lemma_rt_windows(lines: Seq<Seq<char>>, pos: int, s: Seq<TmuxWindowV>)
    requires
        0 <= pos,
        spec_windows_representable(s),
        pos + spec_print_windows(s).len() <= lines.len(),
        lines.subrange(pos, pos + spec_print_windows(s).len()) == spec_print_windows(s),
    ensures
        spec_parse_windows(lines, pos) == Some((s, pos + spec_print_windows(s).len())),
{
    let count = seq![numtext::spec_digits(s.len())];
    let body = spec_print_windows_upto(s, s.len() as int);
    lemma_subrange_concat(lines, pos, count, body);
    assert(lines[pos] == lines.subrange(pos, pos + 1)[0]);
    let n: usize = s.len() as usize;
    assert(numtext::spec_digits(n as nat) == numtext::spec_digits(s.len()));
    lemma_rt_usize(lines, pos, n);
    lemma_rt_windows_n(lines, pos + 1, s);
}

/// A printed session body reads back as the session.
proof fn lemma_rt_session(lines: Seq<Seq<char>>, pos: int, s: TmuxSessionV)
    requires
        0 <= pos,
        spec_session_representable(s),
        pos + spec_print_session(s).len() <= lines.len(),
        lines.subrange(pos, pos + spec_print_session(s).len()) == spec_print_session(s),
    ensures
        spec_parse_session(lines, pos) == Some((s, pos + spec_print_session(s).len())),
{
    let h = seq![spec_print_opt_flag(s.background), spec_print_opt_flag(s.no_recent_tracking)];
    let nv = spec_print_name_values(s.options);
    let ws = spec_print_windows(s.windows);
    assert(spec_print_session(s) == h + nv + ws);
    assert(h + nv + ws =~= (h + nv) + ws);
    lemma_subrange_concat(lines, pos, h + nv, ws);
    lemma_subrange_concat(lines, pos, h, nv);
    assert(lines[pos] == lines.subrange(pos, pos + 2)[0]);
    assert(lines[pos + 1] == lines.subrange(pos, pos + 2)[1]);
    lemma_rt_opt_flag(lines, pos, s.background);
    lemma_rt_opt_flag(lines, pos + 1, s.no_recent_tracking);
    lemma_rt_name_values(lines, pos + 2, s.options);
    lemma_rt_windows(lines, pos + 2 + nv.len(), s.windows);
}

/// A printed entry list decomposes at its first entry.
proof fn lemma_print_entries_front(s: Seq<(Seq<char>, TmuxSessionV)>, k: int)
    requires
        1 <= k <= s.len(),
    ensures
        spec_print_entries_upto(s, k) == spec_print_entry(s[0].0, s[0].1)
            + spec_print_entries_upto(s.drop_first(), k - 1),
    decreases k,
{
    if k == 1 {
        assert(spec_print_entries_upto(s, 0) =~= Seq::<Seq<char>>::empty());
        assert(spec_print_entries_upto(s.drop_first(), 0) =~= Seq::<Seq<char>>::empty());
        assert(spec_print_entries_upto(s, 1) =~= spec_print_entry(s[0].0, s[0].1)
            + spec_print_entries_upto(s.drop_first(), 0));
    } else {
        lemma_print_entries_front(s, k - 1);
        assert(s.drop_first()[k - 2] == s[k - 1]);
        assert(spec_print_entries_upto(s, k) =~= spec_print_entry(s[0].0, s[0].1)
            + spec_print_entries_upto(s.drop_first(), k - 1));
    }
}

/// Printed entries read back as the entry sequence.
proof fn lemma_rt_entries_n(lines: Seq<Seq<char>>, pos: int, s: Seq<(Seq<char>, TmuxSessionV)>)
    requires
        0 <= pos,
        spec_entries_representable(s),
        pos + spec_print_entries_upto(s, s.len() as int).len() <= lines.len(),
        lines.subrange(pos, pos + spec_print_entries_upto(s, s.len() as int).len())
            == spec_print_entries_upto(s, s.len() as int),
    ensures
        spec_parse_entries_n(lines, pos, s.len() as int) == Some(
            (s, pos + spec_print_entries_upto(s, s.len() as int).len()),
        ),
    decreases s.len(),
{
    if s.len() == 0 {
        assert(s =~= Seq::<(Seq<char>, TmuxSessionV)>::empty());
    } else {
        lemma_print_entries_front(s, s.len() as int);
        let head = spec_print_entry(s[0].0, s[0].1);
        let tail = spec_print_entries_upto(s.drop_first(), s.len() - 1);
        lemma_subrange_concat(lines, pos, head, tail);
        let nm = seq![s[0].0];
        let body = spec_print_session(s[0].1);
        assert(head == nm + body);
        lemma_subrange_concat(lines, pos, nm, body);
        assert(lines[pos] == lines.subrange(pos, pos + 1)[0]);
        assert(lines[pos] == s[0].0);
        lemma_rt_session(lines, pos + 1, s[0].1);
        assert forall|i: int|
            0 <= i < s.drop_first().len() implies spec_session_representable(
            #[trigger] s.drop_first()[i].1,
        ) by {
            assert(s.drop_first()[i] == s[i + 1]);
        }
        lemma_rt_entries_n(lines, pos + head.len(), s.drop_first());
        assert(seq![s[0]] + s.drop_first() =~= s);
        assert((lines[pos], spec_parse_session(lines, pos + 1).unwrap().0) == s[0]);
    }
}

/// LAW: the topology file round-trips — serializing any representable,
/// well-formed stored mapping and parsing the document back yields
/// exactly the same mapping, entry for entry.
pub proof fn lemma_topology_round_trip(entries: Seq<(Seq<char>, TmuxSessionV)>)
    requires
        crate::model::entries_unique(entries),
        spec_entries_representable(entries),
    ensures
        spec_parse_topology(spec_print_topology(entries)) == Some(entries),
{
    let lines = spec_print_topology(entries);
    let count = seq![numtext::spec_digits(entries.len())];
    let body = spec_print_entries_upto(entries, entries.len() as int);
    assert(lines == count + body);
    assert(lines.subrange(0, lines.len() as int) =~= lines);
    lemma_subrange_concat(lines, 0, count, body);
    assert(lines[0] == lines.subrange(0, 1)[0]);
    let n: usize = entries.len() as usize;
    assert(numtext::spec_digits(n as nat) == numtext::spec_digits(entries.len()));
    lemma_rt_usize(lines, 0, n);
    lemma_rt_entries_n(lines, 1, entries);
}

} // verus!
