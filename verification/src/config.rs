//! Settings of a run.
use vstd::prelude::*;

verus! {

/// The models to use and what to print while building and running.
pub struct Config {
    pub text_model: String,
    pub embedding_model: String,
    pub debug_build: bool,
    pub debug_run: bool,
    pub debug_chat: bool,
}

impl Config {
    /// A copy of these settings.
    pub fn duplicate(&self) -> (c: Config)
        ensures
            c.text_model@ == self.text_model@,
            c.embedding_model@ == self.embedding_model@,
            c.debug_build == self.debug_build,
            c.debug_run == self.debug_run,
            c.debug_chat == self.debug_chat,
    {
        Config {
            text_model: self.text_model.clone(),
            embedding_model: self.embedding_model.clone(),
            debug_build: self.debug_build,
            debug_run: self.debug_run,
            debug_chat: self.debug_chat,
        }
    }
}

} // verus!
