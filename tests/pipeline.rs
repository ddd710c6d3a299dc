use pipe_downloader::{
    after_failed_attempt, before_attempt, bytes_to_human, check_link_target, check_range_response,
    check_target_free, entry_action, infer_target_path, init_world_time, is_link_url, is_tar_url,
    link_target, probe_confirms_ranges, range_header, range_probe_needed, resolve_url,
    select_codec, start_target, throttle_wait, url_last_segment, world_time, AttemptStep,
    ChunkDownload, CliOptions, FetchWorker, WorkerAction, WorkerPhase, Codec, DataChunk, DecodeProgress, DownloadPlan, EntryAction,
    EntryKind, FailureStep, InternalProgress, MpscReaderFromReceiver, PipeDownloaderOptions,
    PipeError, ProgressHistory, TimePair, UnfinishedChunks, WorldTimer, WorldTimerWrapper,
};
use std::sync::mpsc::sync_channel;

#[test]
fn infers_directory_from_tar_url() {
    assert_eq!(
        infer_target_path("https://example/path/archive.tar.gz"),
        Ok("archive".to_string())
    );
    assert_eq!(
        infer_target_path("http://localhost:23752/static/foo.tar.lz4"),
        Ok("foo".to_string())
    );
}

#[test]
fn refuses_to_infer_without_tar_infix() {
    assert_eq!(
        infer_target_path("https://example/path/archive.gz"),
        Err(PipeError::CannotInferTarget)
    );
    assert_eq!(
        infer_target_path("https://example/path/.tar.gz"),
        Err(PipeError::CannotInferTarget)
    );
    assert_eq!(infer_target_path(""), Err(PipeError::CannotInferTarget));
}

#[test]
fn last_segment_of_url() {
    assert_eq!(url_last_segment("a/b/c.tar.gz"), "c.tar.gz");
    assert_eq!(url_last_segment("plain"), "plain");
    assert_eq!(url_last_segment("ends/"), "");
}

#[test]
fn start_refuses_second_start_and_existing_target() {
    assert_eq!(
        start_target(true, "https://example/path/archive.tar.gz", None),
        Err(PipeError::AlreadyStarted)
    );
    assert_eq!(
        start_target(false, "https://example/path/archive.tar.gz", None),
        Ok("archive".to_string())
    );
    assert_eq!(
        start_target(false, "https://example/x.zip", Some("out".to_string())),
        Ok("out".to_string())
    );
    assert_eq!(check_target_free(true, false), Err(PipeError::TargetExists));
    assert_eq!(check_target_free(true, true), Ok(()));
    assert_eq!(check_target_free(false, false), Ok(()));
}

#[test]
fn codec_follows_suffix() {
    assert_eq!(select_codec("http://h/static/foo.tar.lz4"), Ok(Codec::Lz4));
    assert_eq!(select_codec("http://h/static/foo.tar.gz"), Ok(Codec::Gzip));
    assert_eq!(select_codec("http://h/static/foo.tar.bz2"), Ok(Codec::Bzip2));
    assert_eq!(select_codec("http://h/static/foo.tar.xz"), Ok(Codec::Xz));
    assert_eq!(select_codec("https://example/real.tar.zst"), Ok(Codec::Zstd));
    assert_eq!(
        select_codec("http://h/static/foo.tar"),
        Err(PipeError::UnknownCompression)
    );
}

#[test]
fn tar_detection() {
    assert!(is_tar_url("http://h/foo.tar.gz"));
    assert!(!is_tar_url("http://h/foo.gz"));
    assert!(is_link_url("http://h/foo.link"));
    assert!(!is_link_url("http://h/foo.tar.gz"));
}

#[test]
fn link_body_is_trimmed_and_checked() {
    assert_eq!(
        link_target("  https://example/real.tar.zst\n"),
        Ok("https://example/real.tar.zst".to_string())
    );
    assert_eq!(link_target("\t\n"), Err(PipeError::BadLinkUrl));
    assert_eq!(link_target("ftp://example/x"), Err(PipeError::BadLinkUrl));
    assert_eq!(
        check_link_target("http://a/b"),
        Ok("http://a/b".to_string())
    );
    assert_eq!(check_link_target(" http://a/b"), Err(PipeError::BadLinkUrl));
}

#[test]
fn link_resolution_waits_for_published_url() {
    let link = "https://example/archive.link";
    assert_eq!(resolve_url(link, &None, false), Ok(None));
    assert_eq!(resolve_url(link, &None, true), Err(PipeError::Stopped));
    let published = Some("https://example/real.tar.zst".to_string());
    let resolved = resolve_url(link, &published, false).unwrap().unwrap();
    assert_eq!(resolved, "https://example/real.tar.zst");
    assert_eq!(select_codec(&resolved), Ok(Codec::Zstd));
    assert!(is_tar_url(&resolved));
    assert_eq!(
        resolve_url("http://h/a.tar.gz", &None, true),
        Ok(Some("http://h/a.tar.gz".to_string()))
    );
}

#[test]
fn small_resources_use_one_connection() {
    assert_eq!(range_probe_needed(false, Some(9_999)), Ok(false));
    assert_eq!(range_probe_needed(false, Some(10_000)), Ok(true));
    assert_eq!(range_probe_needed(false, None), Ok(false));
    assert_eq!(range_probe_needed(false, Some(0)), Err(PipeError::EmptyBody));
    let plan = DownloadPlan::new(Some(9_999), false, 10, 10_000_000);
    assert_eq!(plan.active_worker_count, 1);
    assert_eq!(plan.chunk_count, 1);
    assert_eq!(plan.chunk_range(0), 0..9_999);
    assert!(plan.is_active_worker(0));
    assert!(!plan.is_active_worker(1));
}

#[test]
fn forced_single_connection_skips_probe() {
    assert_eq!(range_probe_needed(true, Some(50_000_000)), Ok(false));
    let plan = DownloadPlan::new(Some(50_000_000), false, 10, 10_000_000);
    assert!(!plan.use_ranges);
    assert_eq!(plan.active_worker_count, 1);
    assert_eq!(plan.chunk_count, 1);
    assert_eq!(plan.chunk_range(0), 0..50_000_000);
}

#[test]
fn probe_answered_with_200_falls_back() {
    assert!(probe_confirms_ranges(206));
    assert!(!probe_confirms_ranges(200));
    let plan = DownloadPlan::new(Some(50_000_000), probe_confirms_ranges(200), 4, 1_000_000);
    assert_eq!(plan.active_worker_count, 1);
    assert_eq!(
        after_failed_attempt(PipeError::TransientRead, false, plan.use_ranges),
        FailureStep::Fail(PipeError::TransientRead)
    );
}

#[test]
fn ranged_plan_splits_into_chunks() {
    let plan = DownloadPlan::new(Some(25_000_001), true, 10, 10_000_000);
    assert!(plan.use_ranges);
    assert_eq!(plan.active_worker_count, 10);
    assert_eq!(plan.chunk_count, 3);
    assert_eq!(plan.chunk_range(0), 0..10_000_000);
    assert_eq!(plan.chunk_range(1), 10_000_000..20_000_000);
    assert_eq!(plan.chunk_range(2), 20_000_000..25_000_001);
    assert!(plan.is_assigned(2, 2));
    assert!(!plan.is_assigned(2, 1));
    assert_eq!(plan.next_assigned(1, 0), Some(1));
    assert_eq!(plan.next_assigned(1, 2), None);
    assert_eq!(plan.next_assigned(9, 0), None);
    assert!(!plan.reuses_connection());
    assert_eq!(plan.request_range(2), 20_000_000..25_000_001);
    let lone = DownloadPlan::new(Some(25_000_001), true, 1, 10_000_000);
    assert!(lone.reuses_connection());
    assert_eq!(lone.request_range(1), 10_000_000..25_000_001);
    assert_eq!(lone.next_assigned(0, 1), Some(1));
    let exact = DownloadPlan::new(Some(30), true, 2, 10);
    assert_eq!(exact.chunk_count, 3);
    assert_eq!(exact.chunk_range(2), 20..30);
    assert!(exact.is_assigned(3, 1));
}

#[test]
fn unknown_length_disables_ranges() {
    let plan = DownloadPlan::new(None, true, 4, 1_000);
    assert!(!plan.use_ranges);
    assert_eq!(plan.active_worker_count, 1);
    assert_eq!(plan.chunk_count, 1);
}

#[test]
fn range_header_text() {
    assert_eq!(range_header(0, 100), "bytes=0-99");
    assert_eq!(range_header(1000, 2001), "bytes=1000-2000");
    assert_eq!(range_header(30_000_000, 60_000_000), "bytes=30000000-59999999");
}

#[test]
fn range_response_checks() {
    let r = 10..20;
    assert_eq!(check_range_response(&r, 206, Some(10)), Ok(()));
    assert_eq!(
        check_range_response(&r, 200, Some(10)),
        Err(PipeError::PartialContentUnsupported)
    );
    assert_eq!(
        check_range_response(&r, 404, Some(10)),
        Err(PipeError::UnexpectedStatus)
    );
    assert_eq!(
        check_range_response(&r, 206, None),
        Err(PipeError::ContentLengthMissing)
    );
    assert_eq!(
        check_range_response(&r, 206, Some(11)),
        Err(PipeError::ContentLengthMismatch)
    );
    let first = 0..20;
    assert_eq!(check_range_response(&first, 200, Some(20)), Ok(()));
    assert_eq!(
        check_range_response(&first, 500, Some(20)),
        Err(PipeError::UnexpectedStatus)
    );
}

#[test]
fn attempt_decisions() {
    assert_eq!(before_attempt(true, true), AttemptStep::Stop);
    assert_eq!(before_attempt(false, true), AttemptStep::Wait);
    assert_eq!(before_attempt(false, false), AttemptStep::Go);
    assert_eq!(
        after_failed_attempt(PipeError::TransientRead, true, true),
        FailureStep::Stop
    );
    assert_eq!(
        after_failed_attempt(PipeError::TransientConnect, false, true),
        FailureStep::Retry
    );
    assert_eq!(
        after_failed_attempt(PipeError::ContentLengthMismatch, false, true),
        FailureStep::Fail(PipeError::ContentLengthMismatch)
    );
}

#[test]
fn throttle_holds_worker_to_limit() {
    assert!(throttle_wait(2_000_000, 1_000_000, 1_000_000));
    assert!(!throttle_wait(1_000_000, 1_000_000, 1_000_000));
    assert!(!throttle_wait(0, 1, 0));
    assert!(throttle_wait(1, 1, 999_999));
}

#[test]
fn unfinished_chunks_seed_and_gate() {
    let mut u = UnfinishedChunks::seeded(5);
    assert_eq!(u.len(), 5);
    assert_eq!(u.smallest(), Some(0));
    assert!(u.window_open(2, 2));
    assert!(!u.window_open(3, 2));
    assert!(u.complete(1));
    assert!(!u.complete(1));
    assert_eq!(u.smallest(), Some(0));
    assert!(u.complete(0));
    assert_eq!(u.smallest(), Some(2));
    assert!(u.window_open(4, 2));
    assert!(u.complete(4) && u.complete(3) && u.complete(2));
    assert!(u.is_empty());
    assert!(u.window_open(9, 1));
}

fn chunk(start: usize, bytes: &[u8]) -> DataChunk {
    DataChunk {
        chunk_no: 0,
        data: bytes.to_vec(),
        range: start..start + bytes.len(),
    }
}

fn read_all(reader: &mut MpscReaderFromReceiver, step: usize) -> Result<Vec<u8>, PipeError> {
    let mut out = Vec::new();
    loop {
        match reader.fill() {
            Ok(true) => out.extend(reader.take(step)),
            Ok(false) => {}
            Err(PipeError::UpstreamClosed) => return Ok(out),
            Err(e) => return Err(e),
        }
    }
}

#[test]
fn reader_reorders_chunks() {
    let (send, recv) = sync_channel(10);
    send.send(chunk(6, b"ghi")).unwrap();
    send.send(chunk(3, b"def")).unwrap();
    send.send(chunk(0, b"abc")).unwrap();
    send.send(chunk(9, b"j")).unwrap();
    drop(send);
    let mut reader = MpscReaderFromReceiver::new(recv, true);
    assert_eq!(read_all(&mut reader, 2).unwrap(), b"abcdefghij".to_vec());
}

#[test]
fn reader_accept_and_take() {
    let (_send, recv) = sync_channel::<DataChunk>(1);
    let mut reader = MpscReaderFromReceiver::new(recv, false);
    assert!(!reader.has_data());
    assert!(!reader.accept(chunk(4, b"efgh")));
    assert!(!reader.install_waiting());
    assert!(reader.accept(chunk(0, b"abcd")));
    assert_eq!(reader.take(3), b"abc".to_vec());
    assert_eq!(reader.take(10), b"d".to_vec());
    assert!(!reader.has_data());
    assert!(reader.install_waiting());
    assert_eq!(reader.take(10), b"efgh".to_vec());
}

#[test]
fn reader_reports_closed_upstream() {
    let (send, recv) = sync_channel::<DataChunk>(1);
    drop(send);
    let mut reader = MpscReaderFromReceiver::new(recv, false);
    assert_eq!(reader.fill(), Err(PipeError::UpstreamClosed));
}

#[test]
fn sampler_merges_and_windows() {
    let mut h = ProgressHistory::new();
    assert_eq!(h.get_speed(1_000), 0);
    h.add_bytes(1_000, 1_000);
    h.add_bytes(1_100, 1_000);
    h.add_bytes(1_500, 2_000);
    // 4000 bytes since t=1000, measured at t=3000: 2000 B/s.
    assert_eq!(h.get_speed(3_000), 2_000);
    // Everything is stale 10 s later.
    assert_eq!(h.get_speed(20_000), 0);
    let mut small = ProgressHistory::with_window(2, 1_000);
    small.add_bytes(0, 10);
    small.add_bytes(600, 10);
    small.add_bytes(1_200, 10);
    // only the two newest buckets remain, the oldest at 600
    assert_eq!(small.get_speed(1_600), 20);
}

#[test]
fn progress_counts_and_completes_chunks() {
    let mut p = InternalProgress::new(0);
    let plan = DownloadPlan::new(Some(30), true, 2, 10);
    p.init_plan(&plan);
    assert_eq!(p.unfinished_chunks.len(), 3);
    assert_eq!(p.total_chunks, 3);
    p.begin_chunk(0, 10);
    assert_eq!(p.record_downloaded(0, 0, 4, 100), Ok(()));
    assert_eq!(p.record_downloaded(1, 1, 3, 100), Ok(()));
    assert_eq!(p.downloaded(), 7);
    assert_eq!(p.record_downloaded(0, 0, 6, 200), Ok(()));
    assert!(p.complete_chunk(0, 0));
    assert_eq!(p.total_downloaded, 10);
    assert_eq!(p.downloaded(), 13);
    p.reset_worker(1);
    assert_eq!(p.downloaded(), 10);
    let snap = p.progress(1_000);
    assert_eq!(snap.downloaded, 10);
    assert_eq!(snap.chunks_left, 2);
    assert_eq!(snap.chunks_total, 3);
    assert_eq!(snap.chunks_downloading, 2);
    assert_eq!(snap.elapsed_time_ms, 1_000);
    assert_eq!(p.get_download_speed(1_000), 10);
    p.signal_stop();
    assert_eq!(p.record_downloaded(0, 1, 1, 1_000), Err(PipeError::Stopped));
}

#[test]
fn progress_snapshots_are_monotone() {
    let mut p = InternalProgress::new(0);
    let plan = DownloadPlan::new(Some(100), true, 1, 50);
    p.init_plan(&plan);
    let mut last = p.progress(0);
    for step in 0..10u64 {
        let _ = p.record_downloaded(0, 0, 5, step * 10);
        if step == 9 {
            assert!(p.complete_chunk(0, 0));
        }
        p.record_unpacked(3, step * 10);
        let now = p.progress(step * 10);
        assert!(now.downloaded >= last.downloaded);
        assert!(now.unpacked >= last.unpacked);
        assert!(now.chunks_left <= last.chunks_left);
        last = now;
    }
    assert_eq!(last.chunks_left, 1);
    assert_eq!(last.unpacked, 30);
}

#[test]
fn eta_and_progress_line() {
    let mut p = InternalProgress::new(0);
    let plan = DownloadPlan::new(Some(2_000_000), true, 1, 1_000_000);
    p.init_plan(&plan);
    p.record_downloaded(0, 0, 1_000_000, 9_000).unwrap();
    // short-window speed at 10 s: 1 MB over 1 s
    assert_eq!(p.get_time_left_sec(10_000), Some(1));
    let line = p.progress_line(10_000);
    let expected = format!(
        "Downloaded: {} [{}/s now: {}/s], Unpack: {} [{}/s now: {}/s] - ETA: 00:00:01 [50.00%]",
        bytes_to_human(1_000_000),
        bytes_to_human(100_000),
        bytes_to_human(1_000_000),
        bytes_to_human(0),
        bytes_to_human(0),
        bytes_to_human(0),
    );
    assert_eq!(line, expected);
    p.mark_finished(20_000);
    assert_eq!(p.get_time_left_sec(30_000), Some(0));
    assert_eq!(p.get_download_speed(30_000), 0);
    assert_eq!(p.get_elapsed(30_000), 20_000);
}

#[test]
fn eta_unknown_when_slow_or_length_unknown() {
    let mut p = InternalProgress::new(0);
    assert_eq!(p.get_time_left_sec(1_000), None);
    let line = p.progress_line(1_000);
    assert!(line.ends_with("- ETA: unknown "));
    p.total_download_size = Some(3_700_000);
    p.chunk_downloaded = vec![0];
    p.record_downloaded(0, 0, 100, 500).unwrap();
    // 100 B/s over the window: (3_700_000 - 100) / 100 s
    assert_eq!(p.get_time_left_sec(1_500), Some(36_999));
    assert!(p.progress_line(1_500).contains("ETA: 10:16:39 [0.00%]"));
}

#[test]
fn sizes_in_si_units() {
    assert_eq!(bytes_to_human(1_000_000), "1 MB");
    assert_eq!(bytes_to_human(1_200_000_000), "1.20 GB");
    assert_eq!(bytes_to_human(980), "980 B");
}

#[test]
fn errors_and_stop_message() {
    let mut p = InternalProgress::new(0);
    p.fail_download(PipeError::Stopped);
    assert!(p.stop_requested);
    assert_eq!(p.error_message_download.as_deref(), Some("Stop requested"));
    assert_eq!(p.error_message, None);
    p.fail_unpack(PipeError::DecoderFailure);
    assert_eq!(
        p.error_message_unpack.as_deref(),
        Some("Error while reading from decoder")
    );
    assert!(p.upstream_failed());
    // the sink failed after an earlier stage did: that is no orderly end
    assert!(!p.end_sink(Err("broken".to_string())));
    p.mark_failed(5);
    assert_eq!(p.error_time_ms, Some(5));
    assert_eq!(p.finish_time_ms, None);
    assert_eq!(p.error_message.as_deref(), Some("broken"));
    assert_eq!(p.error_message_download.as_deref(), Some("Stop requested"));
    let mut q = InternalProgress::new(0);
    assert!(!q.upstream_failed());
    q.fail_overall("broken".to_string());
    assert_eq!(q.error_message.as_deref(), Some("broken"));
    assert!(q.stop_requested);
}

#[test]
fn pause_and_resume() {
    let mut p = InternalProgress::new(0);
    p.pause_download();
    assert!(p.paused);
    p.resume_download();
    assert!(!p.paused);
    p.publish_url("http://h/x.tar.gz".to_string());
    assert_eq!(p.progress(0).download_url.as_deref(), Some("http://h/x.tar.gz"));
}

#[test]
fn recent_entries_are_bounded() {
    let mut p = InternalProgress::new(0);
    for i in 0..12u64 {
        let idx = p.note_entry_started(format!("f{}", i), i);
        assert_eq!(idx as u64, i);
        p.note_entry_finished(idx);
    }
    assert_eq!(p.unpacked_files, 12);
    assert_eq!(p.last_unpacked_files.len(), 10);
    assert_eq!(p.last_unpacked_files[0].name, "f2");
    assert!(p.last_unpacked_files.iter().all(|f| f.finished));
}

#[test]
fn chunk_body_accumulates() {
    let mut c = ChunkDownload::new(Some(5));
    assert_eq!(c.next_read_len(), 5);
    assert_eq!(c.accept(b"abc".to_vec()), Ok(false));
    assert_eq!(c.next_read_len(), 2);
    assert_eq!(c.accept(Vec::new()), Err(PipeError::TransientRead));
    assert_eq!(c.accept(b"de".to_vec()), Ok(true));
    assert!(c.is_complete());
    assert_eq!(c.into_data(), b"abcde".to_vec());
    let mut open = ChunkDownload::new(None);
    assert_eq!(open.next_read_len(), 1_048_576);
    assert_eq!(open.accept(b"xy".to_vec()), Ok(false));
    assert_eq!(open.accept(Vec::new()), Ok(true));
    assert_eq!(open.into_data(), b"xy".to_vec());
}

#[test]
fn decoded_blocks_are_contiguous() {
    let mut d = DecodeProgress::new();
    let a = d.frame_block(vec![1, 2, 3]);
    let b = d.frame_block(vec![4, 5]);
    assert_eq!(a.range, 0..3);
    assert_eq!(b.range, 3..5);
    assert_eq!(d.unpacked_size(), 5);
    let (send, recv) = sync_channel(4);
    send.send(a).unwrap();
    send.send(b).unwrap();
    drop(send);
    let mut sink = MpscReaderFromReceiver::new(recv, false);
    assert_eq!(read_all(&mut sink, 4).unwrap(), vec![1, 2, 3, 4, 5]);
}

#[test]
fn extraction_policy() {
    assert_eq!(entry_action(EntryKind::Symlink, true), EntryAction::Skip);
    assert_eq!(entry_action(EntryKind::HardLink, true), EntryAction::Skip);
    assert_eq!(entry_action(EntryKind::Symlink, false), EntryAction::Unpack);
    assert_eq!(entry_action(EntryKind::File, true), EntryAction::Unpack);
    assert_eq!(entry_action(EntryKind::Directory, false), EntryAction::Defer);
}

#[test]
fn world_time_mean_offset() {
    let mut w = WorldTimerWrapper {
        world_timer: WorldTimer { offset: 5 },
    };
    init_world_time(&mut w, &vec![10, -3, 4]);
    assert_eq!(world_time(&w).offset, 3);
    init_world_time(&mut w, &vec![-7, -8]);
    assert_eq!(world_time(&w).offset, -7);
    init_world_time(&mut w, &vec![]);
    assert_eq!(world_time(&w).offset, 0);
    init_world_time(&mut w, &vec![i64::MAX, i64::MAX]);
    assert_eq!(world_time(&w).offset, i64::MAX);
}

#[test]
fn time_pair_reads_clocks() {
    let t = TimePair::now();
    assert!(t.unix_ms() > 1_600_000_000_000);
    let text = t.to_rfc3339().unwrap();
    assert!(text.starts_with("20"));
    assert!(t.as_ts() <= std::time::Instant::now());
}

#[test]
fn default_and_cli_options() {
    let o = PipeDownloaderOptions::default();
    assert_eq!(o.chunk_size_downloader, 30_000_000);
    assert_eq!(o.chunk_size_decoder, 10_000_000);
    assert_eq!(o.download_threads, 2);
    assert!(o.is_valid());
    let bad = PipeDownloaderOptions {
        download_threads: 0,
        ..o
    };
    assert!(!bad.is_valid());
    let cli = CliOptions {
        url: "http://h/a.tar.gz".to_string(),
        output_dir: None,
        limit_speed: Some(5),
        download_threads: 4,
        download_buffer: 7,
        unpack_buffer: 9,
        json: false,
        wait_after_finish_sec: 10,
        force_no_partial_content: true,
        ignore_symlinks: true,
        force: true,
    };
    let o = cli.downloader_options();
    assert_eq!(o.chunk_size_downloader, 7);
    assert_eq!(o.chunk_size_decoder, 9);
    assert_eq!(o.max_download_speed, Some(5));
    assert!(o.force_no_chunks && o.ignore_symlinks && o.ignore_directory_exists);
}

#[test]
fn error_kinds_retry_class() {
    assert!(PipeError::TransientRead.is_retryable());
    assert!(PipeError::TransientConnect.is_retryable());
    assert!(!PipeError::UnexpectedStatus.is_retryable());
    assert_eq!(PipeError::Stopped.message(), "Stop requested");
}

fn resource(len: usize) -> Vec<u8> {
    (0..len).map(|i| (i * 31 % 251) as u8).collect()
}

/// Splits `data` by `plan` and delivers the chunks worker by worker, the
/// highest worker first and each worker's chunks newest first.
fn deliver_scrambled(plan: &DownloadPlan, data: &[u8]) -> Vec<u8> {
    let (send, recv) = sync_channel(plan.chunk_count + 1);
    for worker in (0..plan.active_worker_count).rev() {
        let mut mine = Vec::new();
        let mut next = plan.next_assigned(worker, 0);
        while let Some(k) = next {
            mine.push(k);
            next = plan.next_assigned(worker, k + 1);
        }
        for k in mine.into_iter().rev() {
            let r = plan.chunk_range(k);
            send.send(DataChunk {
                chunk_no: k,
                data: data[r.clone()].to_vec(),
                range: r,
            })
            .unwrap();
        }
    }
    drop(send);
    let mut reader = MpscReaderFromReceiver::new(recv, true);
    read_all(&mut reader, 7).unwrap()
}

#[test]
fn plan_chunks_reassemble_in_any_order() {
    let data = resource(1_003);
    for threads in [1usize, 2, 10] {
        for force_no_chunks in [false, true] {
            // a resource this small skips the probe; ranges are kept here to
            // exercise the reordering unless they are forced off
            let probe = range_probe_needed(force_no_chunks, Some(data.len())).unwrap();
            assert!(!probe);
            let plan = DownloadPlan::new(Some(data.len()), !force_no_chunks, threads, 100);
            if force_no_chunks {
                assert_eq!(plan.chunk_count, 1);
            } else {
                assert_eq!(plan.chunk_count, 11);
            }
            assert_eq!(deliver_scrambled(&plan, &data), data);
        }
    }
}

#[test]
fn stop_request_winds_down() {
    let mut p = InternalProgress::new(0);
    let plan = DownloadPlan::new(Some(100_000), true, 2, 10_000);
    p.init_plan(&plan);
    p.signal_stop();
    assert_eq!(before_attempt(p.stop_requested, p.paused), AttemptStep::Stop);
    assert_eq!(
        after_failed_attempt(PipeError::TransientRead, p.stop_requested, true),
        FailureStep::Stop
    );
    assert_eq!(p.record_downloaded(0, 0, 10, 1), Err(PipeError::Stopped));
    assert!(p.record_unpacked(10, 1));
    assert_eq!(
        resolve_url("http://h/a.link", &None, p.stop_requested),
        Err(PipeError::Stopped)
    );
    p.fail_download(PipeError::Stopped);
    // the stop cut the sink's stream: an orderly end
    assert!(p.end_sink(Err("unexpected end of archive".to_string())));
    p.mark_finished(2);
    let snap = p.progress(3);
    assert_eq!(snap.finish_time_ms, Some(2));
    assert_eq!(snap.error_message, None);
    assert_eq!(snap.error_message_download.as_deref(), Some("Stop requested"));
    assert!(snap.stop_requested);
}

#[test]
fn fetcher_walks_its_chunks() {
    let plan = DownloadPlan::new(Some(50), true, 2, 10);
    let mut w = FetchWorker::new(&plan, 1);
    assert_eq!(w.get_phase(), WorkerPhase::Gate);
    assert_eq!(w.current_chunk(), Some(1));
    assert_eq!(w.observe(&plan, false, false, false), WorkerAction::WaitWindow);
    assert_eq!(w.observe(&plan, false, false, true), WorkerAction::Begin(1));
    assert_eq!(w.observe(&plan, false, true, true), WorkerAction::WaitRetry);
    assert_eq!(w.observe(&plan, false, false, true), WorkerAction::Fetch(1));
    assert_eq!(
        w.attempt_ended(&plan, Err(PipeError::TransientRead), false),
        WorkerAction::WaitRetry
    );
    assert_eq!(w.get_phase(), WorkerPhase::Ready);
    assert_eq!(w.observe(&plan, false, false, true), WorkerAction::Fetch(1));
    assert_eq!(w.attempt_ended(&plan, Ok(()), false), WorkerAction::Deliver(1));
    assert_eq!(w.current_chunk(), Some(3));
    assert_eq!(w.observe(&plan, false, false, true), WorkerAction::Begin(3));
    assert_eq!(w.observe(&plan, false, false, true), WorkerAction::Fetch(3));
    assert_eq!(w.attempt_ended(&plan, Ok(()), false), WorkerAction::Deliver(3));
    assert_eq!(w.current_chunk(), None);
    assert_eq!(w.get_phase(), WorkerPhase::Done);
}

#[test]
fn fetcher_stops_and_fails() {
    let plan = DownloadPlan::new(Some(50), true, 2, 10);
    let mut w = FetchWorker::new(&plan, 0);
    assert_eq!(w.observe(&plan, true, false, true), WorkerAction::Stop);
    assert_eq!(w.get_phase(), WorkerPhase::Done);
    let single = DownloadPlan::new(Some(50), false, 2, 10);
    let mut lone = FetchWorker::new(&single, 0);
    assert_eq!(lone.observe(&single, false, false, true), WorkerAction::Begin(0));
    assert_eq!(lone.observe(&single, false, false, true), WorkerAction::Fetch(0));
    assert_eq!(
        lone.attempt_ended(&single, Err(PipeError::TransientRead), false),
        WorkerAction::Fail(PipeError::TransientRead)
    );
    let idle = FetchWorker::new(&single, 1);
    assert_eq!(idle.get_phase(), WorkerPhase::Done);
    assert_eq!(idle.current_chunk(), None);
}

#[test]
fn received_nothing_means_closed_upstream() {
    let (_send, recv) = sync_channel::<DataChunk>(1);
    let mut reader = MpscReaderFromReceiver::new(recv, false);
    assert_eq!(reader.take_received(None), Err(PipeError::UpstreamClosed));
    assert_eq!(reader.take_received(Some(chunk(2, b"cd"))), Ok(false));
    assert_eq!(reader.take_received(Some(chunk(0, b"ab"))), Ok(true));
    // bytes installed: a further chunk waits
    assert_eq!(reader.take_received(Some(chunk(4, b"ef"))), Ok(true));
    assert_eq!(reader.take(10), b"ab".to_vec());
    assert_eq!(reader.fill(), Ok(true));
    assert_eq!(reader.take(10), b"cd".to_vec());
    assert_eq!(reader.fill(), Ok(true));
    assert_eq!(reader.take(10), b"ef".to_vec());
}

#[test]
fn controller_flags_change_nothing_else() {
    let mut p = InternalProgress::new(7);
    p.fail_unpack(PipeError::DecoderFailure);
    p.publish_url("http://h/a.tar.gz".to_string());
    p.pause_download();
    assert!(p.paused);
    assert!(!p.stop_by_request);
    p.signal_stop();
    p.signal_stop();
    assert!(p.stop_requested && p.stop_by_request && p.paused);
    assert_eq!(p.start_time_ms, 7);
    assert_eq!(p.download_url.as_deref(), Some("http://h/a.tar.gz"));
    assert_eq!(
        p.error_message_unpack.as_deref(),
        Some("Error while reading from decoder")
    );
    p.resume_download();
    assert!(!p.paused);
}

#[test]
fn whole_response_and_framing_checks() {
    assert_eq!(pipe_downloader::plan::check_whole_response(200), Ok(()));
    assert_eq!(
        pipe_downloader::plan::check_whole_response(206),
        Err(PipeError::UnexpectedStatus)
    );
    let mut d = DecodeProgress::new();
    assert!(d.can_frame(usize::MAX));
    d.frame_block(vec![1]);
    assert!(!d.can_frame(usize::MAX));
    assert!(d.can_frame(usize::MAX - 1));
}

#[test]
fn fetcher_outside_the_plan_is_done() {
    let plan = DownloadPlan::new(Some(9_000), false, 4, 1_000);
    for worker in 1..4 {
        let w = FetchWorker::new(&plan, worker);
        assert_eq!(w.get_phase(), WorkerPhase::Done);
        assert_eq!(w.current_chunk(), None);
    }
    let w = FetchWorker::new(&plan, 0);
    assert_eq!(w.current_chunk(), Some(0));
}
