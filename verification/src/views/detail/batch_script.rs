//! Batch script viewer.

use crate::text::{lines, lines_seq, push_str, to_string};
use crate::views::detail::log_viewer::{sat_add_usize, sat_sub_usize};
use crate::views::detail::scroll::{resolve, resolve_offset, Outcome, Scroll};
use crate::views::keys::{Key, KeyPress};
use vstd::prelude::*;

verus! {

/// Scrollable batch script viewer.
pub struct BatchScriptScreen {
    job_id: String,
    script: String,
    lines: Vec<String>,
    scroll: Scroll,
    /// Viewport height from the last render; lets key handling resolve
    /// `Bottom` to the same offset the user is actually looking at.
    viewport_height: usize,
}

/// What a batch script viewer shows.
pub struct BatchScriptView {
    pub job_id: Seq<char>,
    pub script: Seq<char>,
    pub scroll: Scroll,
    pub viewport_height: usize,
}

/// The viewer's state after `key`, with `len` lines.
pub open spec fn batch_key_state(s: BatchScriptView, len: int, key: Key) -> BatchScriptView {
    let cur = resolve_offset(s.scroll, len, s.viewport_height as int);
    if key == Key::Up || key == Key::Char('k') {
        BatchScriptView { scroll: Scroll::At(sat_sub_usize(cur, 1)), ..s }
    } else if key == Key::Down || key == Key::Char('j') {
        BatchScriptView { scroll: Scroll::At(sat_add_usize(cur, 1)), ..s }
    } else if key == Key::PageUp {
        BatchScriptView { scroll: Scroll::At(sat_sub_usize(cur, 10)), ..s }
    } else if key == Key::PageDown {
        BatchScriptView { scroll: Scroll::At(sat_add_usize(cur, 10)), ..s }
    } else if key == Key::Home {
        BatchScriptView { scroll: Scroll::At(0), ..s }
    } else if key == Key::End {
        BatchScriptView { scroll: Scroll::Bottom, ..s }
    } else {
        s
    }
}

impl BatchScriptScreen {
    /// The viewer's state.
    pub closed spec fn state(&self) -> BatchScriptView {
        BatchScriptView {
            job_id: self.job_id@,
            script: self.script@,
            scroll: self.scroll,
            viewport_height: self.viewport_height,
        }
    }

    /// The viewer's lines are those of its script.
    pub closed spec fn wf(&self) -> bool {
        self.lines.deep_view() == lines_seq(self.script@)
    }

    /// Create a new batch script viewer at the top.
    pub fn new(job_id: String, script: String) -> (s: Self)
        ensures
            s.wf(),
            s.state() == (BatchScriptView {
                job_id: job_id@,
                script: script@,
                scroll: Scroll::At(0),
                viewport_height: 0,
            }),
    {
        let lines = lines(script.as_str());
        BatchScriptScreen { job_id, script, lines, scroll: Scroll::At(0), viewport_height: 0 }
    }

    /// Resolve the scroll position to a concrete offset given the viewport height.
    pub fn resolved_offset(&self, content_height: usize) -> (r: usize)
        requires
            self.wf(),
        ensures
            r == resolve_offset(
                self.state().scroll,
                lines_seq(self.state().script).len() as int,
                content_height as int,
            ),
    {
        resolve(self.scroll, self.lines.len(), content_height)
    }

    /// The scroll position.
    pub fn scroll(&self) -> (r: Scroll)
        ensures
            r == self.state().scroll,
    {
        self.scroll
    }

    /// Set the scroll position.
    pub fn set_scroll(&mut self, scroll: Scroll)
        requires
            old(self).wf(),
        ensures
            final(self).wf(),
            final(self).state() == (BatchScriptView { scroll, ..old(self).state() }),
    {
        self.scroll = scroll;
    }

    /// Record the viewport height of the last render.
    pub fn set_viewport_height(&mut self, height: usize)
        requires
            old(self).wf(),
        ensures
            final(self).wf(),
            final(self).state() == (BatchScriptView { viewport_height: height, ..old(self).state() }),
    {
        self.viewport_height = height;
    }

    /// The number of script lines.
    pub fn line_count(&self) -> (r: usize)
        requires
            self.wf(),
        ensures
            r == lines_seq(self.state().script).len(),
    {
        self.lines.len()
    }

    /// The script line at `i`.
    pub fn line(&self, i: usize) -> (r: &str)
        requires
            self.wf(),
            i < lines_seq(self.state().script).len(),
        ensures
            r@ == lines_seq(self.state().script)[i as int],
    {
        assert(self.lines.deep_view()[i as int] == self.lines@[i as int]@);
        self.lines[i].as_str()
    }

    /// Handle a key: `Esc`/`q` close; arrows and `j`/`k` scroll one line
    /// from the offset on screen, page keys ten, `Home` to the top, `End` to
    /// the bottom.
    pub fn handle_key(&mut self, key: KeyPress) -> (r: Outcome)
        requires
            old(self).wf(),
        ensures
            final(self).wf(),
            final(self).state() == batch_key_state(
                old(self).state(),
                lines_seq(old(self).state().script).len() as int,
                key.key,
            ),
            r == (if key.key == Key::Esc || key.key == Key::Char('q') {
                Outcome::Close
            } else {
                Outcome::Nothing
            }),
    {
        let current = self.resolved_offset(self.viewport_height);
        match key.key {
            Key::Esc | Key::Char('q') => Outcome::Close,
            Key::Up | Key::Char('k') => {
                self.scroll = Scroll::At(current.saturating_sub(1));
                Outcome::Nothing
            },
            Key::Down | Key::Char('j') => {
                self.scroll = Scroll::At(current.saturating_add(1));
                Outcome::Nothing
            },
            Key::PageUp => {
                self.scroll = Scroll::At(current.saturating_sub(10));
                Outcome::Nothing
            },
            Key::PageDown => {
                self.scroll = Scroll::At(current.saturating_add(10));
                Outcome::Nothing
            },
            Key::Home => {
                self.scroll = Scroll::At(0);
                Outcome::Nothing
            },
            Key::End => {
                self.scroll = Scroll::Bottom;
                Outcome::Nothing
            },
            _ => Outcome::Nothing,
        }
    }

    /// The script content for clipboard copy.
    pub fn content(&self) -> (r: &str)
        ensures
            r@ == self.state().script,
    {
        self.script.as_str()
    }

    /// The label for clipboard copy: `Batch Script job <id>`.
    pub fn label(&self) -> (r: String)
        ensures
            r@ == "Batch Script job "@ + self.state().job_id,
    {
        let mut r = to_string("Batch Script job ");
        push_str(&mut r, self.job_id.as_str());
        r
    }
}

} // verus!
