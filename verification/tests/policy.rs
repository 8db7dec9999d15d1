use filesystem_sink::names::{format_file_name, format_padded};
use filesystem_sink::rolling::{MultiPartWriterStats, RollingPolicy};
use filesystem_sink::sink::{init_message, FileSystemDataRecovery};
use filesystem_sink::table::FileSettings;

fn settings(
    target_file_size: Option<usize>,
    max_parts: Option<usize>,
    inactivity_rollover_seconds: Option<u64>,
    rollover_seconds: Option<u64>,
) -> FileSettings {
    FileSettings {
        target_part_size: None,
        target_file_size,
        max_parts,
        inactivity_rollover_seconds,
        rollover_seconds,
    }
}

fn stats(bytes_written: usize, parts_written: usize, first: u64, last: u64) -> MultiPartWriterStats {
    MultiPartWriterStats {
        bytes_written,
        parts_written,
        last_write_at: last,
        first_write_at: first,
    }
}

#[test]
fn part_limit_is_always_present() {
    // the hard ceiling fires even though nothing else is configured
    let p = RollingPolicy::from_file_settings(&settings(None, None, None, None));
    assert!(p.should_roll(&stats(0, 1000, 0, 0), 0));
    assert!(!p.should_roll(&stats(0, 999, 0, 0), 0));
}

#[test]
fn size_limit_fires_at_target() {
    let p = RollingPolicy::from_file_settings(&settings(Some(512 * 1024), None, None, Some(3600)));
    assert!(p.should_roll(&stats(512 * 1024, 0, 0, 0), 0));
    assert!(!p.should_roll(&stats(512 * 1024 - 1, 0, 0, 0), 0));
}

#[test]
fn inactivity_fires_after_quiet_period() {
    let p = RollingPolicy::from_file_settings(&settings(None, None, Some(1), Some(3600)));
    assert!(!p.should_roll(&stats(0, 0, 0, 500), 1_000));
    assert!(p.should_roll(&stats(0, 0, 0, 500), 1_500));
}

#[test]
fn rollover_defaults_to_thirty_seconds() {
    let p = RollingPolicy::from_file_settings(&settings(None, None, None, None));
    assert!(!p.should_roll(&stats(0, 0, 0, 29_999), 29_999));
    assert!(p.should_roll(&stats(0, 0, 0, 30_000), 30_000));
}

#[test]
fn file_names_are_zero_padded() {
    assert_eq!(format_padded(0, 5), "00000");
    assert_eq!(format_padded(42, 5), "00042");
    assert_eq!(format_padded(123456, 5), "123456");
    assert_eq!(
        format_file_name(&"/data/out".to_string(), 3, 1),
        "/data/out/00003-001"
    );
}

#[test]
fn init_message_aggregates_recoveries() {
    let recs = vec![
        FileSystemDataRecovery {
            next_file_index: 3,
            active_files: vec![],
        },
        FileSystemDataRecovery {
            next_file_index: 7,
            active_files: vec![],
        },
    ];
    let (max, files) = init_message(0, recs.clone());
    assert_eq!(max, 7);
    assert!(files.is_empty());
    // only subtask zero takes over recovered files
    let (max, files) = init_message(2, recs);
    assert_eq!(max, 7);
    assert!(files.is_empty());
}
