//! The widgets: what every widget can do, and the widgets that come with the toolkit.

pub mod any_widget;
pub mod box_widget;
pub mod checkbox_widget;
pub mod config;
pub mod drawable;
pub mod image_widget;
pub mod push_button_widget;
pub mod text_widget;
pub mod widget;
