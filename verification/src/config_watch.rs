//! Which configuration is in force, as the settings file changes under the session.
//!
//! The file is compared by its text, not its modification time (two writes within one
//! second may share a time stamp). A file that does not parse never replaces the
//! configuration in force, and the same broken text is not parsed again until it changes.
//! Reading and parsing the file is the caller's; the configuration type is opaque here.

use vstd::prelude::*;
use crate::text::same_text;

verus! {

/// A piece of text, by its characters.
pub open spec fn text_view(text: Option<String>) -> Option<Seq<char>> {
    match text {
        Some(t) => Some(t@),
        None => None,
    }
}

/// The configuration in force and the file text it was last compared with.
pub struct ConfigWatch<C> {
    /// The text read last time (`None`: there was no file to read).
    text: Option<String>,
    /// The configuration in force.
    config: C,
    /// Why the last text did not parse, if it did not.
    error: Option<String>,
}

impl<C> ConfigWatch<C> {
    /// The text read last time.
    pub closed spec fn seen(&self) -> Option<Seq<char>> {
        text_view(self.text)
    }

    /// The configuration in force.
    pub closed spec fn in_force(&self) -> C {
        self.config
    }

    /// Why the last text did not parse.
    pub closed spec fn failure(&self) -> Option<Seq<char>> {
        text_view(self.error)
    }

    /// Starts from `config`, with no file read yet.
    pub fn new(config: C) -> (watch: ConfigWatch<C>)
        ensures
            watch.seen() is None,
            watch.in_force() == config,
            watch.failure() is None,
    {
        ConfigWatch { text: None, config, error: None }
    }

    /// The configuration in force.
    pub fn config(&self) -> (config: &C)
        ensures
            *config == self.in_force(),
    {
        &self.config
    }

    /// Why the last text did not parse (`None`: it did, or nothing was read yet).
    pub fn error(&self) -> (error: Option<&String>)
        ensures
            match error {
                Some(e) => self.failure() == Some(e@),
                None => self.failure() is None,
            },
    {
        match &self.error {
            Some(e) => Some(e),
            None => None,
        }
    }

    /// Whether the file now reads `text` differently from last time, so that it must be
    /// parsed; an unchanged file, broken or not, is left alone.
    pub fn changed_text(&self, text: Option<&str>) -> (fresh: bool)
        ensures
            fresh == (self.seen() != match text {
                Some(t) => Some(t@),
                None => None::<Seq<char>>,
            }),
    {
        match (&self.text, text) {
            (Some(old), Some(new)) => !same_text(old.as_str(), new),
            (None, None) => false,
            _ => true,
        }
    }

    /// Takes in what the file read (`text`) and what parsing it gave: a configuration and
    /// whether it equals the one in force, or why it failed. Only a configuration that
    /// differs replaces the one in force, and only then is `true` returned; a failure keeps
    /// the one in force and records why. Either way the text is remembered.
    pub fn settle(&mut self, text: Option<String>, parsed: Result<C, String>, same: bool) -> (changed: bool)
        ensures
            final(self).seen() == text_view(text),
            changed == (parsed is Ok && !same),
            match parsed {
                Ok(config) => if same {
                    &&& final(self).in_force() == old(self).in_force()
                    &&& final(self).failure() == old(self).failure()
                } else {
                    &&& final(self).in_force() == config
                    &&& final(self).failure() is None
                },
                Err(reason) => {
                    &&& final(self).in_force() == old(self).in_force()
                    &&& final(self).failure() == Some(reason@)
                },
            },
    {
        let changed = match parsed {
            Ok(config) => {
                if same {
                    false
                } else {
                    self.config = config;
                    self.error = None;
                    true
                }
            },
            Err(reason) => {
                self.error = Some(reason);
                false
            },
        };
        self.text = text;
        changed
    }
}

} // verus!
