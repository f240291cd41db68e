use crate::client::Config;
use crate::json::Value;
use crate::plugin::error::Error;
use crate::plugin::persistence::{string_view, PersistenceError};
use crate::plugin::startup::start_outcome;
use crate::plugin::state::MixpanelState;
use vstd::prelude::*;

verus! {

/// What is needed to set up the local state of a project.
#[derive(Debug)]
pub struct Builder {
    pub token: String,
    pub config: Option<Config>,
}

impl Builder {
    pub fn new(token: &str, config: Option<Config>) -> (r: Self)
        ensures
            r.token@ == token@,
            r.config == config,
    {
        Builder { token: token.to_owned(), config }
    }

    /// The state at start-up, as `MixpanelState::new` gives it for the
    /// token and the configuration.
    pub fn build(
        self,
        stored: Result<Option<Value>, PersistenceError>,
        machine_id: Result<String, String>,
        platform: &str,
        webview_version: Option<String>,
        now: u64,
    ) -> (r: Result<MixpanelState, Error>)
        ensures
            start_outcome(
                r,
                self.token@,
                self.config,
                stored,
                machine_id,
                platform@,
                string_view(webview_version),
                now,
            ),
    {
        MixpanelState::new(
            self.token.as_str(),
            self.config,
            stored,
            machine_id,
            platform,
            webview_version,
            now,
        )
    }
}

} // verus!
