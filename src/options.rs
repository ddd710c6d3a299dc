use vstd::prelude::*;

use crate::error::PipeError;
use crate::pipe_utils::{inferred_target, target_path_for};

verus! {

/// The configuration of a download, fixed once it starts.
#[derive(Clone, Copy, Debug, PartialEq, Eq, Structural)]
pub struct PipeDownloaderOptions {
    /// Nominal size of one range fetch.
    pub chunk_size_downloader: usize,
    /// Size of one decoded block.
    pub chunk_size_decoder: usize,
    /// Bytes per second allowed to each fetcher, where limited.
    pub max_download_speed: Option<usize>,
    /// Use a single connection, without range requests.
    pub force_no_chunks: bool,
    /// Number of fetchers.
    pub download_threads: usize,
    /// Leave out symbolic and hard links when unpacking.
    pub ignore_symlinks: bool,
    /// Go on where the target path exists.
    pub ignore_directory_exists: bool,
}

impl Default for PipeDownloaderOptions {
    fn default() -> (r: Self)
        ensures
            r.chunk_size_downloader == 30_000_000,
            r.chunk_size_decoder == 10_000_000,
            r.max_download_speed is None,
            !r.force_no_chunks,
            r.download_threads == 2,
            !r.ignore_symlinks,
            !r.ignore_directory_exists,
    {
        PipeDownloaderOptions {
            chunk_size_downloader: 30_000_000,
            chunk_size_decoder: 10_000_000,
            max_download_speed: None,
            force_no_chunks: false,
            download_threads: 2,
            ignore_symlinks: false,
            ignore_directory_exists: false,
        }
    }
}

impl PipeDownloaderOptions {
    /// Sizes and counts are positive, and so is a speed limit.
    pub open spec fn valid(&self) -> bool {
        &&& self.chunk_size_downloader > 0
        &&& self.chunk_size_decoder > 0
        &&& self.download_threads > 0
        &&& (self.max_download_speed matches Some(m) ==> m > 0)
    }

    /// Whether the options can drive a download.
    pub fn is_valid(&self) -> (r: bool)
        ensures
            r == self.valid(),
    {
        self.chunk_size_downloader > 0 && self.chunk_size_decoder > 0 && self.download_threads > 0
            && match self.max_download_speed {
            Some(m) => m > 0,
            None => true,
        }
    }
}

/// The command line of the downloader program.
#[derive(Clone, Debug)]
pub struct CliOptions {
    /// Address of the archive.
    pub url: String,
    /// Output directory; inferred from the URL where absent.
    pub output_dir: Option<String>,
    /// Bytes per second allowed to each fetcher.
    pub limit_speed: Option<usize>,
    /// Number of fetchers.
    pub download_threads: usize,
    /// Nominal size of one range fetch.
    pub download_buffer: usize,
    /// Size of one decoded block.
    pub unpack_buffer: usize,
    /// Print progress as JSON.
    pub json: bool,
    /// Seconds to wait after the end.
    pub wait_after_finish_sec: u64,
    /// Use a single connection.
    pub force_no_partial_content: bool,
    /// Leave out links when unpacking.
    pub ignore_symlinks: bool,
    /// Go on where the output directory exists.
    pub force: bool,
}

impl CliOptions {
    /// The download options that the command line asks for.
    pub fn downloader_options(&self) -> (r: PipeDownloaderOptions)
        ensures
            r.chunk_size_downloader == self.download_buffer,
            r.chunk_size_decoder == self.unpack_buffer,
            r.max_download_speed == self.limit_speed,
            r.force_no_chunks == self.force_no_partial_content,
            r.download_threads == self.download_threads,
            r.ignore_symlinks == self.ignore_symlinks,
            r.ignore_directory_exists == self.force,
    {
        PipeDownloaderOptions {
            chunk_size_downloader: self.download_buffer,
            chunk_size_decoder: self.unpack_buffer,
            max_download_speed: self.limit_speed,
            force_no_chunks: self.force_no_partial_content,
            download_threads: self.download_threads,
            ignore_symlinks: self.ignore_symlinks,
            ignore_directory_exists: self.force,
        }
    }
}

/// The first checks of a start: a second start is refused, and the target
/// is the path given or the one the URL names.
pub fn start_target(already_started: bool, url: &str, target_path: Option<String>) -> (r: Result<
    String,
    PipeError,
>)
    ensures
        already_started ==> r == Err::<String, PipeError>(PipeError::AlreadyStarted),
        !already_started && target_path is Some ==> r == Ok::<String, PipeError>(
            target_path->0,
        ),
        !already_started && target_path is None ==> match inferred_target(url@) {
            Some(t) => r matches Ok(p) && p@ == t,
            None => r == Err::<String, PipeError>(PipeError::CannotInferTarget),
        },
{
    if already_started {
        return Err(PipeError::AlreadyStarted);
    }
    target_path_for(url, target_path)
}

/// Refuses a target that exists, unless existing targets are ignored.
pub fn check_target_free(target_exists: bool, ignore_target_exists: bool) -> (r: Result<
    (),
    PipeError,
>)
    ensures
        r == if target_exists && !ignore_target_exists {
            Err::<(), PipeError>(PipeError::TargetExists)
        } else {
            Ok::<(), PipeError>(())
        },
{
    if target_exists && !ignore_target_exists {
        Err(PipeError::TargetExists)
    } else {
        Ok(())
    }
}

} // verus!
