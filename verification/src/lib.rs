//! Local-first collaborative editing core: two independently editable
//! document replicas converge to identical state through a change-request /
//! patch protocol and a synchronization core that serializes all backend
//! mutation and cross-propagates each backend's history to the other.

pub mod backend;
pub mod model;
pub mod protocol;
pub mod replica;
pub mod sync;
