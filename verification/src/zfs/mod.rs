pub mod arc;
pub mod commands;
pub mod datasets;
pub mod kstat;
pub mod pools;
pub mod scrub;
pub mod snapshots;
pub mod status;
