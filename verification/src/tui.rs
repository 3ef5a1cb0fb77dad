//! The keyboard shell: keys, its state machine and the frame it draws.
use vstd::prelude::*;

use crate::application::TodoQueryProjection;
use crate::text::{chars_of, spec_trim, string_of, trim};
use crate::todo::spec_priority_name;

verus! {

/// Keys the shell understands.
#[derive(Debug, Clone, Copy, PartialEq, Eq, Structural)]
pub enum Key {
    Up,
    Down,
    Refresh,
    Quit,
    Unknown,
}

pub const ESCAPE_UP: &'static str = "\u{1b}[A";
pub const ESCAPE_DOWN: &'static str = "\u{1b}[B";
pub const ESCAPE: &'static str = "\u{1b}";

/// The key a trimmed token names.
pub open spec fn spec_key_of(t: Seq<char>) -> Key {
    if t == "k"@ || t == "up"@ || t == ESCAPE_UP@ {
        Key::Up
    } else if t == "j"@ || t == "down"@ || t == ESCAPE_DOWN@ {
        Key::Down
    } else if t == "r"@ || t == "refresh"@ {
        Key::Refresh
    } else if t == "q"@ || t == "quit"@ || t == ESCAPE@ {
        Key::Quit
    } else {
        Key::Unknown
    }
}

fn token_is(t: &Vec<char>, word: &str) -> (r: bool)
    ensures
        r == (t@ == word@),
{
    let w = chars_of(word);
    crate::text::chars_eq(t.as_slice(), w.as_slice())
}

impl Key {
    /// Read one line-oriented key token, surrounding whitespace ignored.
    pub fn parse(input: &str) -> (r: Key)
        ensures
            r == spec_key_of(spec_trim(input@)),
    {
        let t = trim(input);
        if token_is(&t, "k") || token_is(&t, "up") || token_is(&t, ESCAPE_UP) {
            Key::Up
        } else if token_is(&t, "j") || token_is(&t, "down") || token_is(&t, ESCAPE_DOWN) {
            Key::Down
        } else if token_is(&t, "r") || token_is(&t, "refresh") {
            Key::Refresh
        } else if token_is(&t, "q") || token_is(&t, "quit") || token_is(&t, ESCAPE) {
            Key::Quit
        } else {
            Key::Unknown
        }
    }
}

pub const STATUS_READY: &'static str = "ready";
pub const STATUS_REFRESH_REQUESTED: &'static str = "refresh requested";
pub const STATUS_REFRESHED: &'static str = "refreshed";
pub const STATUS_UNKNOWN_KEY: &'static str = "unknown key (use j/k, r, or q)";

/// The shell's state, independent of how it is drawn.
#[derive(Debug, Clone, PartialEq, Eq)]
pub struct TuiState {
    selected: usize,
    quit: bool,
    refresh_requested: bool,
    status: String,
}

fn owned(s: &str) -> (r: String)
    ensures
        r@ == s@,
{
    string_of(chars_of(s).as_slice())
}

impl Default for TuiState {
    /// The same state as `TuiState::new`.
    fn default() -> (r: TuiState)
        ensures
            r.spec_selected() == 0,
            !r.spec_quit(),
            !r.spec_refresh_requested(),
            r.spec_status() == STATUS_READY@,
    {
        TuiState::new()
    }
}

impl TuiState {
    pub closed spec fn spec_selected(self) -> int {
        self.selected as int
    }

    pub closed spec fn spec_quit(self) -> bool {
        self.quit
    }

    pub closed spec fn spec_refresh_requested(self) -> bool {
        self.refresh_requested
    }

    pub closed spec fn spec_status(self) -> Seq<char> {
        self.status@
    }

    /// The first row selected, nothing pending, ready.
    pub fn new() -> (r: TuiState)
        ensures
            r.spec_selected() == 0,
            !r.spec_quit(),
            !r.spec_refresh_requested(),
            r.spec_status() == STATUS_READY@,
    {
        TuiState { selected: 0, quit: false, refresh_requested: false, status: owned(STATUS_READY) }
    }

    /// Apply one key. Moving stays within the rows there are; a refresh is only
    /// requested, never performed here.
    pub fn apply(&mut self, key: Key, item_count: usize)
        ensures
            match key {
                Key::Up => final(self).spec_selected() == if old(self).spec_selected() > 0 {
                    old(self).spec_selected() - 1
                } else {
                    0
                } && final(self).spec_quit() == old(self).spec_quit()
                    && final(self).spec_refresh_requested() == old(self).spec_refresh_requested()
                    && final(self).spec_status() == old(self).spec_status(),
                Key::Down => final(self).spec_selected() == if item_count == 0 {
                    old(self).spec_selected()
                } else if old(self).spec_selected() + 1 < item_count - 1 {
                    old(self).spec_selected() + 1
                } else {
                    item_count - 1
                } && final(self).spec_quit() == old(self).spec_quit()
                    && final(self).spec_refresh_requested() == old(self).spec_refresh_requested()
                    && final(self).spec_status() == old(self).spec_status(),
                Key::Refresh => final(self).spec_selected() == old(self).spec_selected()
                    && final(self).spec_quit() == old(self).spec_quit()
                    && final(self).spec_refresh_requested()
                    && final(self).spec_status() == STATUS_REFRESH_REQUESTED@,
                Key::Quit => final(self).spec_selected() == old(self).spec_selected()
                    && final(self).spec_quit()
                    && final(self).spec_refresh_requested() == old(self).spec_refresh_requested()
                    && final(self).spec_status() == old(self).spec_status(),
                Key::Unknown => final(self).spec_selected() == old(self).spec_selected()
                    && final(self).spec_quit() == old(self).spec_quit()
                    && final(self).spec_refresh_requested() == old(self).spec_refresh_requested()
                    && final(self).spec_status() == STATUS_UNKNOWN_KEY@,
            },
            old(self).spec_selected() < item_count ==> final(self).spec_selected() < item_count,
    {
        match key {
            Key::Up => {
                if self.selected > 0 {
                    self.selected = self.selected - 1;
                }
            },
            Key::Down => {
                if item_count > 0 {
                    if self.selected < item_count - 1 && self.selected + 1 < item_count - 1 {
                        self.selected = self.selected + 1;
                    } else {
                        self.selected = item_count - 1;
                    }
                }
            },
            Key::Refresh => {
                self.refresh_requested = true;
                self.status = owned(STATUS_REFRESH_REQUESTED);
            },
            Key::Quit => {
                self.quit = true;
            },
            Key::Unknown => {
                self.status = owned(STATUS_UNKNOWN_KEY);
            },
        }
    }

    /// Finish a refresh once new rows have been loaded: the selection is
    /// clamped to them.
    pub fn complete_refresh(&mut self, item_count: usize)
        ensures
            final(self).spec_selected() == if old(self).spec_selected() < item_count - 1 {
                old(self).spec_selected()
            } else if item_count == 0 {
                0
            } else {
                item_count - 1
            },
            final(self).spec_quit() == old(self).spec_quit(),
            final(self).spec_refresh_requested() == old(self).spec_refresh_requested(),
            final(self).spec_status() == STATUS_REFRESHED@,
    {
        let limit: usize = if item_count == 0 { 0 } else { item_count - 1 };
        if self.selected > limit {
            self.selected = limit;
        }
        self.status = owned(STATUS_REFRESHED);
    }

    pub fn selected(&self) -> (r: usize)
        ensures
            r == self.spec_selected(),
    {
        self.selected
    }

    pub fn should_quit(&self) -> (r: bool)
        ensures
            r == self.spec_quit(),
    {
        self.quit
    }

    pub fn status(&self) -> (r: &str)
        ensures
            r@ == self.spec_status(),
    {
        self.status.as_str()
    }

    /// Whether a refresh was asked for since the last call; asking clears it.
    pub fn take_refresh_request(&mut self) -> (r: bool)
        ensures
            r == old(self).spec_refresh_requested(),
            !final(self).spec_refresh_requested(),
            final(self).spec_selected() == old(self).spec_selected(),
            final(self).spec_quit() == old(self).spec_quit(),
            final(self).spec_status() == old(self).spec_status(),
    {
        let requested = self.refresh_requested;
        self.refresh_requested = false;
        requested
    }
}

// ── Drawing ──

pub const FRAME_HEADER: &'static str = "mg-calr | todos\n";
pub const FRAME_RULE: &'static str = "────────────────────────────────────────\n";
pub const FRAME_EMPTY: &'static str = "  (no todos)\n";
pub const FRAME_FOOTER: &'static str = "j/k move  r refresh  q quit | ";

/// How a row shows its todo's lifecycle.
pub open spec fn spec_state_word(t: TodoQueryProjection) -> Seq<char> {
    if t.completed_at is Some {
        "done"@
    } else if t.trashed_at is Some {
        "trash"@
    } else {
        "open"@
    }
}

/// One row: the selection marker, the lifecycle, the title and the priority.
pub open spec fn spec_row(selected: int, i: int, t: TodoQueryProjection) -> Seq<char> {
    (if i == selected { ">"@ } else { " "@ }) + " ["@ + spec_state_word(t) + "] "@ + t.title@ + " ["@
        + spec_priority_name(t.priority) + "]\n"@
}

/// The first `n` rows.
pub open spec fn spec_rows(selected: int, todos: Seq<TodoQueryProjection>, n: int) -> Seq<char>
    decreases n,
{
    if n <= 0 {
        Seq::empty()
    } else {
        spec_rows(selected, todos, n - 1) + spec_row(selected, n - 1, todos[n - 1])
    }
}

/// The whole frame the shell draws.
pub open spec fn spec_frame(selected: int, status: Seq<char>, todos: Seq<TodoQueryProjection>) -> Seq<char> {
    FRAME_HEADER@ + FRAME_RULE@ + (if todos.len() == 0 {
        FRAME_EMPTY@
    } else {
        spec_rows(selected, todos, todos.len() as int)
    }) + FRAME_RULE@ + FRAME_FOOTER@ + status + "\n"@
}

fn append(out: &mut Vec<char>, s: &str)
    ensures
        final(out)@ == old(out)@ + s@,
{
    let chars = chars_of(s);
    let mut i: usize = 0;
    while i < chars.len()
        invariant
            i <= chars.len(),
            chars@ == s@,
            out@ == old(out)@ + chars@.subrange(0, i as int),
        decreases chars.len() - i,
    {
        out.push(chars[i]);
        assert(chars@.subrange(0, i + 1) =~= chars@.subrange(0, i as int).push(chars@[i as int]));
        i += 1;
    }
    assert(chars@.subrange(0, chars@.len() as int) =~= chars@);
}

impl TuiState {
    /// Draw the frame for these rows, in the order the query gave them.
    pub fn render(&self, todos: &[TodoQueryProjection]) -> (r: String)
        ensures
            r@ == spec_frame(self.spec_selected(), self.spec_status(), todos@),
    {
        let mut frame: Vec<char> = Vec::new();
        append(&mut frame, FRAME_HEADER);
        append(&mut frame, FRAME_RULE);
        let ghost top = frame@;
        if todos.len() == 0 {
            append(&mut frame, FRAME_EMPTY);
        } else {
            let mut i: usize = 0;
            while i < todos.len()
                invariant
                    i <= todos.len(),
                    frame@ == top + spec_rows(self.selected as int, todos@, i as int),
                decreases todos.len() - i,
            {
                let todo = &todos[i];
                let ghost before = frame@;
                append(&mut frame, if i == self.selected { ">" } else { " " });
                append(&mut frame, " [");
                append(&mut frame, if todo.completed_at.is_some() {
                    "done"
                } else if todo.trashed_at.is_some() {
                    "trash"
                } else {
                    "open"
                });
                append(&mut frame, "] ");
                append(&mut frame, todo.title.as_str());
                append(&mut frame, " [");
                append(&mut frame, todo.priority.as_str());
                append(&mut frame, "]\n");
                assert(frame@ =~= before + spec_row(self.selected as int, i as int, todos@[i as int]));
                i += 1;
            }
        }
        append(&mut frame, FRAME_RULE);
        append(&mut frame, FRAME_FOOTER);
        append(&mut frame, self.status.as_str());
        append(&mut frame, "\n");
        assert(frame@ =~= spec_frame(self.spec_selected(), self.spec_status(), todos@));
        string_of(frame.as_slice())
    }
}

} // verus!
