//! Core logic of a family media archive tool: classifying media files,
//! resolving capture timestamps, grouping records into temporal batches,
//! deriving deterministic destination names, and planning copies with
//! content-hash duplicate detection.

pub mod batch;
pub mod hash;
pub mod media;
pub mod naming;
pub mod plan;
pub mod strutil;
pub mod time;

pub use batch::TemporalBatch;
pub use batch::group_by_temporal_proximity;
pub use batch::single_batch;
pub use hash::ContentHash;
pub use hash::hash_bytes;
pub use media::MediaItem;
pub use media::MediaType;
pub use media::PhotoFormat;
pub use media::VideoFormat;
pub use media::build_media_record;
pub use media::detect_media_type;
pub use naming::BatchNameError;
pub use naming::derive_folder_path;
pub use naming::generate_filename;
pub use naming::generate_folder_path;
pub use naming::validate_batch_name;
pub use plan::CopyAction;
pub use plan::CopyPlanEntry;
pub use plan::build_copy_plan;
pub use time::Timestamp;
pub use time::capture_timestamp_from_exif;
pub use time::parse_exif_datetime;
