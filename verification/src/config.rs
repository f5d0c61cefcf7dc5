//! Pipeline configuration as plain values.

use vstd::prelude::*;

verus! {

/// What the pipeline is told at startup. Every field is optional; a missing
/// field falls back to the default below. `replay` set means "ignore the
/// persisted checkpoint and start from the earliest retained log position".
#[derive(Clone, Debug)]
pub struct Config {
    pub mongo_url: Option<String>,
    pub change_stream_namespaces: Option<Vec<String>>,
    pub replay: Option<bool>,
}

impl Default for Config {
    /// The defaults used when no configuration file is found: a local log
    /// connection, no namespace filter, no replay.
    fn default() -> (c: Config)
        ensures
            c.mongo_url matches Some(u) && u@ == "mongodb://127.0.0.1:27017"@,
            c.change_stream_namespaces matches Some(n) && n@ == Seq::<String>::empty(),
            c.replay == Some(false),
    {
        Config {
            mongo_url: Some("mongodb://127.0.0.1:27017".to_owned()),
            change_stream_namespaces: Some(Vec::new()),
            replay: Some(false),
        }
    }
}

impl Config {
    /// Whether the persisted checkpoint is to be ignored; unset means no.
    pub fn replay_requested(&self) -> (r: bool)
        ensures
            r == (self.replay == Some(true)),
    {
        match self.replay {
            Some(b) => b,
            None => false,
        }
    }
}

} // verus!
