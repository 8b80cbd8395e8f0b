//! Prompt for an optional node override when attaching to a job.

use crate::config::AttachConfig;
use crate::slurm::fetch::{attach_command_spec, build_attach_command};
use crate::text::{chars_of, is_blank, string_from_range, to_string, trim, trim_seq};
use crate::views::detail::scroll::Outcome;
use crate::views::keys::{Key, KeyPress};
use vstd::prelude::*;

verus! {

/// Modal prompt for a node expression override when attaching to a job.
pub struct AttachPromptScreen {
    pub job_id: String,
    input: String,
}

/// The message given when attaching is switched off.
pub open spec fn attach_disabled_message() -> Seq<char> {
    "Attach is disabled in config ([attach] enabled = false)"@
}

impl AttachPromptScreen {
    /// The text typed so far.
    pub closed spec fn input_text(&self) -> Seq<char> {
        self.input@
    }

    /// The job the prompt is for.
    pub closed spec fn job_text(&self) -> Seq<char> {
        self.job_id@
    }

    /// Create a new attach prompt holding the default node.
    pub fn new(job_id: String, default_node: String) -> (s: Self)
        ensures
            s.job_text() == job_id@,
            s.input_text() == default_node@,
    {
        AttachPromptScreen {
            job_id,
            input: default_node,
        }
    }

    /// The text typed so far.
    pub fn input(&self) -> (r: &str)
        ensures
            r@ == self.input_text(),
    {
        self.input.as_str()
    }

    /// Replace the typed text.
    pub fn set_input(&mut self, input: String)
        ensures
            final(self).input_text() == input@,
            final(self).job_text() == old(self).job_text(),
    {
        self.input = input;
    }

    /// The prompt's title.
    pub fn title(&self) -> (r: &'static str)
        ensures
            r@ == "Attach with node override"@,
    {
        "Attach with node override"
    }

    /// The text shown while nothing is typed.
    pub fn placeholder(&self) -> (r: &'static str)
        ensures
            r@ == "node name/expression (empty to skip -w)"@,
    {
        "node name/expression (empty to skip -w)"
    }

    /// Check if attach is enabled in config.
    pub fn check_enabled(config: &AttachConfig) -> (r: Result<(), String>)
        ensures
            config.enabled <==> r is Ok,
            r matches Err(m) ==> m@ == attach_disabled_message(),
    {
        if !config.enabled {
            Err(to_string("Attach is disabled in config ([attach] enabled = false)"))
        } else {
            Ok(())
        }
    }

    /// Build the attach command from the config and the user's node
    /// override; a blank override runs without `-w`.
    pub fn build_command(&self, job_id: &str, config: &AttachConfig) -> (r: Vec<String>)
        ensures
            r.deep_view() == attach_command_spec(
                job_id@,
                if trim_seq(self.input_text()).len() == 0 {
                    None
                } else {
                    Some(trim_seq(self.input_text()))
                },
                config.default_command@,
                config.extra_args@,
            ),
    {
        let t = trim(self.input.as_str());
        if is_blank(self.input.as_str()) {
            build_attach_command(
                job_id,
                None,
                config.default_command.as_str(),
                config.extra_args.as_str(),
            )
        } else {
            build_attach_command(
                job_id,
                Some(t.as_str()),
                config.default_command.as_str(),
                config.extra_args.as_str(),
            )
        }
    }

    /// Handle a key: `Esc` closes, `Enter` closes with the trimmed input,
    /// a character is typed, `Backspace` deletes the last character.
    pub fn handle_key(&mut self, key: KeyPress) -> (r: Outcome)
        ensures
            final(self).job_text() == old(self).job_text(),
            match key.key {
                Key::Esc => r == Outcome::Close && final(self).input_text() == old(self).input_text(),
                Key::Enter => r matches Outcome::Value(v) && v@ == trim_seq(old(self).input_text())
                    && final(self).input_text() == old(self).input_text(),
                Key::Char(c) => r == Outcome::Nothing && final(self).input_text() == old(
                    self,
                ).input_text().push(c),
                Key::Backspace => r == Outcome::Nothing && final(self).input_text() == if old(
                    self,
                ).input_text().len() == 0 {
                    old(self).input_text()
                } else {
                    old(self).input_text().drop_last()
                },
                _ => r == Outcome::Nothing && final(self).input_text() == old(self).input_text(),
            },
    {
        match key.key {
            Key::Esc => Outcome::Close,
            Key::Enter => Outcome::Value(trim(self.input.as_str())),
            Key::Char(c) => {
                self.input.push(c);
                Outcome::Nothing
            },
            Key::Backspace => {
                let v = chars_of(self.input.as_str());
                if v.len() > 0 {
                    self.input = string_from_range(&v, 0, v.len() - 1);
                    assert(self.input@ =~= v@.drop_last());
                }
                Outcome::Nothing
            },
            _ => Outcome::Nothing,
        }
    }
}

} // verus!
