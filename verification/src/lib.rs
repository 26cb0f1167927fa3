//! Branch-and-merge bookkeeping for chat histories, modelled on a Git graph:
//! a [`Root`] holds named [`Branch`]es of [`Message`]s; branches can be created,
//! forked at a message, merged (forced, inferred from fork records, or by hand)
//! and removed. Every operation is verified against the contracts stated here.

mod ids;

pub mod types;
pub mod branch;
pub mod root;
pub mod merge;
pub mod laws;

pub use types::{
    Branch, GcError, I64OrUuid, IsForked, ManualMergeAction, MergeMode, Message, Root, StringOrUuid,
    Uuid,
};
