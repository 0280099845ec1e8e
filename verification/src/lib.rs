//! In-memory network index and snapshot-refresh layer for a multi-feed
//! transit topology: per-feed inverted indices over stop-on-route records,
//! stop hierarchies, content-hash change detection, and an atomically
//! replaceable global snapshot served to concurrent readers.

pub mod errors;
pub mod hashing;
pub mod hierarchy;
pub mod models;
pub mod normalize;
pub mod query;
pub mod route_index;
pub mod snapshot;
pub mod strmap;
pub mod topology;

pub use errors::{data_processing_error, not_found_error, AppError, AppResult};
pub use hashing::{content_hash, to_hex_string};
pub use hierarchy::build_stop_hierarchy;
pub use models::{
    GTFSStop, LatLong, NandiPattern, NandiPatternDetails, NandiRoutesRes, NandiStop, NandiTrip,
    RouteStopMapping, RouteStopMappingWithGeojson, StopGeojson, VehicleData,
    VehicleServiceTypeResponse,
};
pub use normalize::{cast_vehicle_type, clean_identifier};
pub use route_index::GTFSRouteData;
pub use snapshot::{carry_forward, GTFSData};
pub use strmap::StrMap;
pub use topology::TopologyStore;
