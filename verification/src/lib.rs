//! Access gateway core for a chat bot: a persisted permission store, a pure
//! role resolver, a syntactic command router, and the grant/request-access
//! workflow.  Transport, content fetching and the on-disk config mechanics are
//! external collaborators; this crate holds the decision logic and its proofs.

pub mod lex;
pub mod roles;
pub mod router;
pub mod store;
pub mod workflow;
