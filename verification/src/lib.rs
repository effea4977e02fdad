//! The verified core of a retained-mode GUI toolkit: the element tree and its
//! store, event routing and pointer capture, widget state machines, and style
//! bookkeeping.

pub mod animation;
pub mod audio;
pub mod calendar;
pub mod controls;
pub mod dispatch;
pub mod dropdown;
pub mod element_id;
pub mod error;
pub mod events;
pub mod input;
pub mod layout;
pub mod markdown;
pub mod options;
pub mod pointer_capture;
pub mod resources;
pub mod store;
pub mod style;
pub mod text_input;
