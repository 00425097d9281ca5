//! Decision engine for camera-trap identification: taxonomy lookups, geofence
//! rules, score rollups and the cascade that reconciles a detector with a
//! species classifier.

pub mod classifier;
pub mod constants;
pub mod detector;
pub mod ensemble;
pub mod error;
pub mod geofence;
pub mod io;
pub mod letterbox;
pub mod lookup;
pub mod model_info;
pub mod shape;
pub mod text;
