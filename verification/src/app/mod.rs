pub mod state;
pub mod system;
pub mod dispatch;
pub mod handlers;
pub mod init;
pub mod navigation;
pub mod network;
pub mod zfs;
