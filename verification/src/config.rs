//! What the program is configured with.

use crate::client::{ClientOptions, ClientOptionsView};
use crate::text::opt_text;
use vstd::prelude::*;

verus! {

/// The configuration of a run: the credentials, and the channel whose clips are read.
#[derive(Debug)]
pub struct Config {
    pub client_id: String,
    pub bearer: Option<String>,
    pub channel: String,
}

impl Config {
    /// The credentials that the configuration names.
    pub fn client_options(&self) -> (client_options: ClientOptions)
        ensures
            client_options@ == (ClientOptionsView {
                client_id: self.client_id@,
                bearer: opt_text(self.bearer),
            }),
    {
        let bearer = match &self.bearer {
            Some(b) => Some(b.clone()),
            None => None,
        };
        ClientOptions::new(self.client_id.clone(), bearer)
    }
}

} // verus!
