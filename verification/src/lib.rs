//! Core engine for a control surface over a clustered key-value store:
//! decoding of the cluster's info-protocol text, lifecycle of the single
//! live session, compilation of declarative queries into an execution
//! strategy, and normalization of heterogeneous record fields into display
//! strings. Cluster transport stays with the caller; every decision about
//! what to ask and how to read the answer is made — and verified — here.

pub mod info;
pub mod introspect;
pub mod normalize;
pub mod query;
pub mod session;
pub mod text;
