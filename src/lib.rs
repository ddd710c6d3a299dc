//! Streaming archive fetcher: the decisions, bookkeeping and byte ordering of a
//! three-stage pipeline (parallel range fetch, decoding, extraction), with
//! their contracts.

pub mod decode;
pub mod error;
pub mod extract;
pub mod fetch;
pub mod options;
pub mod pipe_progress;
pub mod pipe_utils;
pub mod pipe_wrapper;
pub mod plan;
pub mod progress_history;
pub mod schedule;
pub mod text;
pub mod tsutils;
pub mod worker;
pub mod world_time;

pub use decode::DecodeProgress;
pub use error::PipeError;
pub use extract::{entry_action, EntryAction, EntryKind};
pub use fetch::ChunkDownload;
pub use options::{check_target_free, start_target, CliOptions, PipeDownloaderOptions};
pub use pipe_progress::{
    DownloadChunkProgress, InternalProgress, PipeDownloaderProgress, UnpackedFile,
};
pub use pipe_utils::{
    bytes_to_human, check_link_target, infer_target_path, is_link_url, is_tar_url, link_target,
    resolve_url, select_codec, target_path_for, url_last_segment, Codec,
};
pub use pipe_wrapper::{DataChunk, MpscReaderFromReceiver};
pub use plan::{
    after_failed_attempt, before_attempt, check_range_response, check_whole_response,
    probe_confirms_ranges,
    range_header, range_probe_needed, throttle_wait, AttemptStep, DownloadPlan, FailureStep,
};
pub use progress_history::{ProgressHistory, ProgressHistoryEntry};
pub use schedule::UnfinishedChunks;
pub use tsutils::TimePair;
pub use worker::{FetchWorker, WorkerAction, WorkerPhase};
pub use world_time::{init_world_time, world_time, WorldTimer, WorldTimerWrapper};
