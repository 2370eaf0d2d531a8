pub mod app;
pub mod docker;
pub mod net;
pub mod selection;
pub mod output;
pub mod text;
pub mod zfs;
pub mod view;
pub mod layout;
