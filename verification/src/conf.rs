//! The gateway's configuration: the validated values the start-up code
//! hands over after reading and parsing the configuration file.

use crate::types::{NatsHost, Port};
use vstd::prelude::*;
use vstd::string::StringExecFns;

verus! {

/// A configuration fault: the file could not be read or parsed, or a
/// value failed validation.
#[derive(Debug, Clone)]
pub struct ConfError {
    pub message: String,
}

impl ConfError {
    /// The displayable text of the fault.
    pub fn to_string(&self) -> (r: String)
        ensures
            r@ == "ConfError: "@ + self.message@,
    {
        let mut s = String::from_str("ConfError: ");
        s.append(self.message.as_str());
        s
    }
}

/// The message-broker section of the configuration.
#[derive(Debug, Clone)]
pub struct NatsConf {
    pub host: NatsHost,
}

/// The whole configuration: where to listen, whether to enable CORS and
/// for which origins, where the broker is, and the debug switch.
#[derive(Debug)]
pub struct Conf {
    pub listen_port: Port,
    pub enable_cors: bool,
    pub nats: NatsConf,
    pub allowed_origins: Vec<String>,
    pub is_debug: bool,
}

} // verus!
