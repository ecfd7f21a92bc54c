//! The client's configuration and the rules it must meet.

use crate::text::{is_blank, trimmed};
use vstd::prelude::*;

verus! {

#[derive(Debug, Clone, PartialEq, Eq)]
pub struct Config {
    pub gateway: Option<String>,
    pub port: Option<u16>,
}

impl Config {
    /// What is wrong with the configuration, if anything: a gateway that is
    /// set but blank, then a port that is set to zero.
    pub open spec fn fault(self) -> Option<Seq<char>> {
        if self.gateway matches Some(gateway) && trimmed(gateway@).len() == 0 {
            Some("gateway must not be empty"@)
        } else if self.port == Some(0u16) {
            Some("port must be non-zero"@)
        } else {
            None
        }
    }

    /// Checks the configuration. A value that is not set is in order.
    pub fn validate(&self) -> (result: Result<(), String>)
        ensures
            match self.fault() {
                Some(expected) => result matches Err(reason) && reason@ == expected,
                None => result is Ok,
            },
    {
        match &self.gateway {
            Some(gateway) => {
                if is_blank(gateway.as_str()) {
                    return Err("gateway must not be empty".to_owned());
                }
            },
            None => {},
        }
        match self.port {
            Some(port) => {
                if port == 0 {
                    return Err("port must be non-zero".to_owned());
                }
            },
            None => {},
        }
        Ok(())
    }
}

} // verus!
