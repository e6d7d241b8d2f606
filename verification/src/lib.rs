//! A terminal UI toolkit in the Turbo Vision tradition, with its geometry,
//! colour, list-navigation and dialog-data logic specified and proved.

pub mod collate;
pub mod color;
pub mod data;
pub mod desktop;
pub mod dialog;
pub mod command;
pub mod event;
pub mod status;
pub mod theme;
pub mod validate;
pub mod view;
pub mod widgets;
pub mod window;
pub mod text;
