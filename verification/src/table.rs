//! Sink configuration: the write target and the file-rolling settings.

use vstd::prelude::*;

verus! {

/// Where the sink writes its files.
#[derive(Debug, Clone)]
pub enum Destination {
    LocalFilesystem { local_directory: String },
    S3Bucket { s3_bucket: String, s3_directory: String, aws_region: String },
    FolderUri { path: String },
}

/// Settings that drive part sizing and the rolling policy.
///
/// Sizes are in bytes, durations in seconds.
#[derive(Debug, Clone)]
pub struct FileSettings {
    pub target_part_size: Option<usize>,
    pub target_file_size: Option<usize>,
    pub max_parts: Option<usize>,
    pub inactivity_rollover_seconds: Option<u64>,
    pub rollover_seconds: Option<u64>,
}

/// The sink's table configuration.
#[derive(Debug, Clone)]
pub struct FileSystemTable {
    pub write_target: Destination,
    pub file_settings: Option<FileSettings>,
}

/// Default threshold, in bytes, at which a buffered block becomes one
/// multipart part.
pub const DEFAULT_TARGET_PART_SIZE: usize = 5 * 1024 * 1024;

/// Default hard ceiling on the number of parts of one file.
pub const DEFAULT_MAX_PARTS: usize = 1000;

/// Default bound, in seconds, on how long a file may stay open.
pub const DEFAULT_ROLLOVER_SECONDS: u64 = 30;

impl FileSystemTable {
    /// The part-size threshold this configuration asks for.
    pub open spec fn spec_target_part_size(&self) -> int {
        match self.file_settings {
            Some(fs) => match fs.target_part_size {
                Some(n) => n as int,
                None => DEFAULT_TARGET_PART_SIZE as int,
            },
            None => DEFAULT_TARGET_PART_SIZE as int,
        }
    }

    /// Returns the part-size threshold: the configured value, or the
    /// default when none is set.
    pub fn target_part_size(&self) -> (r: usize)
        ensures
            r as int == self.spec_target_part_size(),
    {
        match &self.file_settings {
            Some(fs) => match fs.target_part_size {
                Some(n) => n,
                None => DEFAULT_TARGET_PART_SIZE,
            },
            None => DEFAULT_TARGET_PART_SIZE,
        }
    }
}

} // verus!
