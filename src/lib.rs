use vstd::prelude::*;

pub mod boot;
pub mod bridge;
pub mod dispatcher;
pub mod error;
pub mod run;

pub use boot::{apply_overrides, Boot, BootStage, Outcome, TopicConfig, INTENT_QUEUE_CAPACITY};
pub use bridge::{Bridge, BridgeAction, BridgeEvent, BridgeStage, LEDGER_ENDPOINT};
pub use dispatcher::{Channel, Dispatcher, Ready, Source, Step};
pub use error::Error;
