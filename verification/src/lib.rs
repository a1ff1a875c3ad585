//! A retained-mode toolkit of widgets: a store that owns the widgets of a window as a forest,
//! layout managers that arrange the children of a container, a dispatcher that takes the
//! events of the window to the widgets, and a redraw pass that paints what is marked.
//!
//! The toolkit neither opens a window nor paints. It takes the window's events as plain
//! values and answers with plain values: the events delivered, the handlers to run, and the
//! commands to paint.

pub mod engine;
pub mod widget;
