use vstd::prelude::*;

pub mod callbacks;
pub mod client;
pub mod commands;
pub mod error;
pub mod framing;
pub mod key;
pub mod messages;
pub mod record;
pub mod request_dispatcher;
pub mod server;
pub mod session;
pub mod storage;
pub mod text;
pub mod tokenizer;
pub mod validation;

verus! {

} // verus!
