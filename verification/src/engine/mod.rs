//! What holds the widgets together: geometry, events, the store, layout and dispatch.

pub mod callbacks;
pub mod dispatcher;
pub mod forest;
pub mod forest_proofs;
pub mod horizontal_layout_manager;
pub mod input;
pub mod layout_manager;
pub mod point;
pub mod routing_proofs;
pub mod widget_store;
pub mod window;
