//! Admission and framing logic of a gateway that tunnels UDP over an
//! HTTP/3-style CONNECT-UDP protocol: the datagram wire codec, the access
//! policy, the token-bucket rate limiter, credential checks, the hash-linked
//! audit chain, and the per-request decisions that compose them.

use vstd::prelude::*;

pub mod audit;
pub mod auth;
pub mod config;
pub mod doctor;
pub mod masque;
pub mod policy;
pub mod proto;
pub mod rate;
pub mod session;
pub mod text;

verus! {

/// The text of the library's greeting.
pub open spec fn greeting_text() -> Seq<char> {
    "Hello from toppy-core!"@
}

/// Returns a generic greeting.
pub fn greeting() -> (text: &'static str)
    ensures
        text@ == greeting_text(),
{
    "Hello from toppy-core!"
}

} // verus!
