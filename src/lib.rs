//! Host-side storage for one light client: its client state, its consensus
//! states ordered by height, and the update metadata of each height, together
//! with the host context that answers a verification framework's queries.

pub mod height;
pub mod storage;
pub mod context;
pub mod api;
