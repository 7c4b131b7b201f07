//! Download engine for chaptered media: task keys, the pause registry, the
//! image-set and segmented-video downloaders as state machines, the live
//! progress table and the persisted task registry.

pub mod types;
pub mod text;
pub mod keys;
pub mod clock;
pub mod pause;
pub mod image;
pub mod rerun;
pub mod playlist;
pub mod hls;
pub mod episode;
pub mod live;
pub mod tasks;
pub mod chapter;
pub mod listing;
pub mod config;
pub mod proxy;
