//! Log viewer with follow mode.

use crate::text::{lines, lines_seq, push_str, str_eq, to_string};
use crate::views::detail::scroll::{resolve, resolve_offset, Outcome, Scroll};
use crate::views::keys::{Key, KeyPress};
use vstd::prelude::*;

verus! {

/// Auto-refreshing log viewer.
pub struct LogViewerScreen {
    job_id: String,
    log_path: String,
    log_type: String,
    content: String,
    lines: Vec<String>,
    follow: bool,
    scroll: Scroll,
}

/// What a log viewer shows.
pub struct LogViewerView {
    pub job_id: Seq<char>,
    pub log_path: Seq<char>,
    pub log_type: Seq<char>,
    pub content: Seq<char>,
    pub follow: bool,
    pub scroll: Scroll,
}

impl LogViewerScreen {
    /// The viewer's state.
    pub closed spec fn state(&self) -> LogViewerView {
        LogViewerView {
            job_id: self.job_id@,
            log_path: self.log_path@,
            log_type: self.log_type@,
            content: self.content@,
            follow: self.follow,
            scroll: self.scroll,
        }
    }

    /// The viewer's lines are those of its content.
    pub closed spec fn wf(&self) -> bool {
        self.lines.deep_view() == lines_seq(self.content@)
    }

    /// Create a new log viewer, following at the bottom.
    pub fn new(job_id: String, log_path: String, log_type: String, content: String) -> (s: Self)
        ensures
            s.wf(),
            s.state() == (LogViewerView {
                job_id: job_id@,
                log_path: log_path@,
                log_type: log_type@,
                content: content@,
                follow: true,
                scroll: Scroll::Bottom,
            }),
    {
        let lines = lines(content.as_str());
        LogViewerScreen {
            job_id,
            log_path,
            log_type,
            content,
            lines,
            follow: true,
            scroll: Scroll::Bottom,
        }
    }

    /// Resolve the scroll position to a concrete offset given the viewport height.
    pub fn resolved_offset(&self, content_height: usize) -> (r: usize)
        requires
            self.wf(),
        ensures
            r == resolve_offset(
                self.state().scroll,
                lines_seq(self.state().content).len() as int,
                content_height as int,
            ),
    {
        resolve(self.scroll, self.lines.len(), content_height)
    }

    /// Update the log content; when following, scroll to the bottom.
    pub fn update_content(&mut self, content: String)
        requires
            old(self).wf(),
        ensures
            final(self).wf(),
            final(self).state() == (if content@ == old(self).state().content {
                old(self).state()
            } else {
                (LogViewerView {
                    content: content@,
                    scroll: if old(self).state().follow {
                        Scroll::Bottom
                    } else {
                        old(self).state().scroll
                    },
                    ..old(self).state()
                })
            }),
    {
        if str_eq(content.as_str(), self.content.as_str()) {
            return;
        }
        self.lines = lines(content.as_str());
        self.content = content;
        if self.follow {
            self.scroll = Scroll::Bottom;
        }
    }

    /// Toggle follow mode; turning it on scrolls to the bottom.
    pub fn toggle_follow(&mut self)
        requires
            old(self).wf(),
        ensures
            final(self).wf(),
            final(self).state() == (LogViewerView {
                follow: !old(self).state().follow,
                scroll: if !old(self).state().follow {
                    Scroll::Bottom
                } else {
                    old(self).state().scroll
                },
                ..old(self).state()
            }),
    {
        self.follow = !self.follow;
        if self.follow {
            self.scroll = Scroll::Bottom;
        }
    }

    /// The number of log lines.
    pub fn line_count(&self) -> (r: usize)
        requires
            self.wf(),
        ensures
            r == lines_seq(self.state().content).len(),
    {
        self.lines.len()
    }

    /// The log line at `i`.
    pub fn line(&self, i: usize) -> (r: &str)
        requires
            self.wf(),
            i < lines_seq(self.state().content).len(),
        ensures
            r@ == lines_seq(self.state().content)[i as int],
    {
        assert(self.lines.deep_view()[i as int] == self.lines@[i as int]@);
        self.lines[i].as_str()
    }

    /// The scroll position.
    pub fn scroll(&self) -> (r: Scroll)
        ensures
            r == self.state().scroll,
    {
        self.scroll
    }

    /// Set the scroll position.
    pub fn set_scroll(&mut self, scroll: Scroll)
        requires
            old(self).wf(),
        ensures
            final(self).wf(),
            final(self).state() == (LogViewerView { scroll, ..old(self).state() }),
    {
        self.scroll = scroll;
    }

    /// Set follow mode without scrolling.
    pub fn set_follow(&mut self, follow: bool)
        requires
            old(self).wf(),
        ensures
            final(self).wf(),
            final(self).state() == (LogViewerView { follow, ..old(self).state() }),
    {
        self.follow = follow;
    }

    /// Handle a key: `Esc`/`q` close, `f` toggles follow, arrows and
    /// `j`/`k` scroll by one line, page keys by ten, `Home` goes to the top;
    /// each of these stops following. `End` goes to the bottom and follows.
    pub fn handle_key(&mut self, key: KeyPress) -> (r: Outcome)
        requires
            old(self).wf(),
        ensures
            final(self).wf(),
            final(self).state() == log_key_state(
                old(self).state(),
                lines_seq(old(self).state().content).len() as int,
                key.key,
            ),
            r == (if key.key == Key::Esc || key.key == Key::Char('q') {
                Outcome::Close
            } else {
                Outcome::Nothing
            }),
    {
        let len = self.lines.len();
        let current = match self.scroll {
            Scroll::At(n) => n,
            Scroll::Bottom => len.saturating_sub(1),
        };
        match key.key {
            Key::Esc | Key::Char('q') => Outcome::Close,
            Key::Char('f') => {
                self.toggle_follow();
                Outcome::Nothing
            },
            Key::Up | Key::Char('k') => {
                self.scroll = Scroll::At(current.saturating_sub(1));
                self.follow = false;
                Outcome::Nothing
            },
            Key::Down | Key::Char('j') => {
                self.scroll = Scroll::At(current.saturating_add(1));
                self.follow = false;
                Outcome::Nothing
            },
            Key::PageUp => {
                self.scroll = Scroll::At(current.saturating_sub(10));
                self.follow = false;
                Outcome::Nothing
            },
            Key::PageDown => {
                self.scroll = Scroll::At(current.saturating_add(10));
                self.follow = false;
                Outcome::Nothing
            },
            Key::Home => {
                self.scroll = Scroll::At(0);
                self.follow = false;
                Outcome::Nothing
            },
            Key::End => {
                self.scroll = Scroll::Bottom;
                self.follow = true;
                Outcome::Nothing
            },
            _ => Outcome::Nothing,
        }
    }

    /// The log content.
    pub fn content(&self) -> (r: &str)
        ensures
            r@ == self.state().content,
    {
        self.content.as_str()
    }

    /// The label for clipboard copy: `Log <type> job <id>`.
    pub fn label(&self) -> (r: String)
        ensures
            r@ == "Log "@ + self.state().log_type + " job "@ + self.state().job_id,
    {
        let mut r = to_string("Log ");
        push_str(&mut r, self.log_type.as_str());
        push_str(&mut r, " job ");
        push_str(&mut r, self.job_id.as_str());
        r
    }

    /// Whether follow mode is enabled.
    pub fn is_following(&self) -> (r: bool)
        ensures
            r == self.state().follow,
    {
        self.follow
    }
}

/// The line a relative move starts from: the offset, or the last line at
/// the bottom.
pub open spec fn log_current(scroll: Scroll, len: int) -> int {
    match scroll {
        Scroll::At(n) => n as int,
        Scroll::Bottom => if len > 0 {
            len - 1
        } else {
            0
        },
    }
}

/// `a + b` saturated at `usize::MAX`.
pub open spec fn sat_add_usize(a: int, b: int) -> usize {
    if a + b > usize::MAX {
        usize::MAX
    } else {
        (a + b) as usize
    }
}

/// `a - b`, or zero, as a `usize`.
pub open spec fn sat_sub_usize(a: int, b: int) -> usize {
    if a > b {
        (a - b) as usize
    } else {
        0
    }
}

/// The log viewer's state after `key`, with `len` lines.
pub open spec fn log_key_state(s: LogViewerView, len: int, key: Key) -> LogViewerView {
    let cur = log_current(s.scroll, len);
    if key == Key::Char('f') {
        LogViewerView {
            follow: !s.follow,
            scroll: if !s.follow {
                Scroll::Bottom
            } else {
                s.scroll
            },
            ..s
        }
    } else if key == Key::Up || key == Key::Char('k') {
        LogViewerView { scroll: Scroll::At(sat_sub_usize(cur, 1)), follow: false, ..s }
    } else if key == Key::Down || key == Key::Char('j') {
        LogViewerView { scroll: Scroll::At(sat_add_usize(cur, 1)), follow: false, ..s }
    } else if key == Key::PageUp {
        LogViewerView { scroll: Scroll::At(sat_sub_usize(cur, 10)), follow: false, ..s }
    } else if key == Key::PageDown {
        LogViewerView { scroll: Scroll::At(sat_add_usize(cur, 10)), follow: false, ..s }
    } else if key == Key::Home {
        LogViewerView { scroll: Scroll::At(0), follow: false, ..s }
    } else if key == Key::End {
        LogViewerView { scroll: Scroll::Bottom, follow: true, ..s }
    } else {
        s
    }
}

} // verus!
