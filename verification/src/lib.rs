//! Verified core of the herdr desktop GUI client: wire-color decoding,
//! clipped CPU drawing, chrome layout, the UI model, settings state, key and mouse
//! mapping, and the decisions of the background API worker.

pub mod color;
pub mod schema;
pub mod model;
pub mod layout;
pub mod font;
pub mod draw;
pub mod theme;
pub mod settings;
pub mod frame;
pub mod selection;
pub mod protocol;
pub mod input;
pub mod worker;
pub mod chrome;
pub mod native;
pub mod mirror;
pub mod args;
pub mod render;
pub mod connection;
pub mod view;
pub mod panes;
