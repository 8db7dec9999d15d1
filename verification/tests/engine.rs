use filesystem_sink::actor::{CheckpointData, MultipartFileSystemWriter};
use filesystem_sink::json::{JsonWriter, PassThrough};
use filesystem_sink::multipart::{
    FileCheckpointData, FileToFinish, InFlightPartCheckpoint, MultipartAction, MultipartCallback,
    UploadedPart,
};
use filesystem_sink::recovery::{finish_recovery, plan_recovery, RecoverySlot};
use filesystem_sink::sink::partition_checkpoint_data;
use filesystem_sink::table::{Destination, FileSettings, FileSystemTable};

type Actor = MultipartFileSystemWriter<PassThrough, JsonWriter>;

fn table(
    target_part_size: Option<usize>,
    target_file_size: Option<usize>,
    inactivity_rollover_seconds: Option<u64>,
    rollover_seconds: Option<u64>,
) -> FileSystemTable {
    FileSystemTable {
        write_target: Destination::LocalFilesystem {
            local_directory: "/data/out".to_string(),
        },
        file_settings: Some(FileSettings {
            target_part_size,
            target_file_size,
            max_parts: None,
            inactivity_rollover_seconds,
            rollover_seconds,
        }),
    }
}

/// A simulated object store: hands out upload ids and content ids, and
/// remembers every uploaded part.
#[derive(Default)]
struct SimStore {
    next_multipart: usize,
    uploads: Vec<(String, usize, Vec<u8>)>,
}

impl SimStore {
    fn answer(&mut self, action: MultipartAction) -> (String, MultipartCallback) {
        match action {
            MultipartAction::StartMultipart { name } => {
                let id = format!("mp-{}", self.next_multipart);
                self.next_multipart += 1;
                (
                    name,
                    MultipartCallback::InitializedMultipart { multipart_id: id },
                )
            }
            MultipartAction::UploadPart {
                name,
                multipart_id: _,
                part_index,
                byte_data,
            } => {
                self.uploads.push((name.clone(), part_index, byte_data));
                (
                    name,
                    MultipartCallback::CompletedPart {
                        part_idx: part_index,
                        upload_part: UploadedPart {
                            content_id: format!("etag-{}", part_index),
                        },
                    },
                )
            }
            MultipartAction::FinishedImmediately { name } => (name, MultipartCallback::UploadsFinished),
        }
    }
}

/// Performs every pending store action and feeds the callbacks back,
/// until the actor is quiescent.
fn drive(actor: &mut Actor, mut pending: Vec<MultipartAction>, store: &mut SimStore) {
    while let Some(action) = pending.pop() {
        let (name, callback) = store.answer(action);
        let more = actor.process_callback(name, callback).unwrap();
        pending.extend(more);
    }
}

fn record(size: usize) -> Vec<u8> {
    vec![b'a'; size]
}

#[test]
fn happy_path_one_file() {
    let mut actor = Actor::new("/data/out".to_string(), table(Some(100 * 1024), None, None, Some(3600)));
    let mut store = SimStore::default();
    actor.handle_init(0, 0, vec![], 0).unwrap();

    for _ in 0..1000 {
        if let Some(a) = actor.handle_data(record(1023), 10).unwrap() {
            drive(&mut actor, vec![a], &mut store);
        }
    }
    // a stopping checkpoint closes the current writer and drains
    let acts = actor.close_current();
    drive(&mut actor, acts, &mut store);
    let artifacts = actor.take_checkpoint();
    let (recovery, precommits) = partition_checkpoint_data(artifacts).unwrap();

    assert_eq!(recovery.next_file_index, 1);
    assert_eq!(recovery.active_files.len(), 0);
    assert_eq!(precommits.len(), 1);
    let (name, f) = &precommits[0];
    assert_eq!(name, "/data/out/00000-000.json");
    assert_eq!(f.filename, "/data/out/00000-000.json");
    assert_eq!(f.completed_parts.len(), 10);
    for (i, id) in f.completed_parts.iter().enumerate() {
        assert_eq!(id, &format!("etag-{}", i));
    }

    // commit: the file has parts, so it is finalized exactly once
    let to_close = actor.handle_files_to_finish(vec![f.clone()]).unwrap();
    assert_eq!(to_close.len(), 1);
    assert_eq!(to_close[0].completed_parts.len(), 10);

    // no byte was lost or duplicated: the uploaded parts, joined in
    // order, spell the serialization of the records
    let mut all = Vec::new();
    for (_, _, bytes) in &store.uploads {
        all.extend_from_slice(bytes);
    }
    let mut expect = Vec::new();
    for _ in 0..1000 {
        expect.extend_from_slice(&record(1023));
        expect.push(b'\n');
    }
    assert_eq!(all, expect);
}

#[test]
fn size_based_rollover() {
    let mut actor = Actor::new(
        "/data/out".to_string(),
        table(Some(128 * 1024), Some(512 * 1024), None, Some(3600)),
    );
    let mut store = SimStore::default();
    actor.handle_init(0, 0, vec![], 0).unwrap();

    for i in 0..2048 {
        if i > 0 {
            let acts = actor.handle_tick(100);
            drive(&mut actor, acts, &mut store);
        }
        if let Some(a) = actor.handle_data(record(1023), 100).unwrap() {
            drive(&mut actor, vec![a], &mut store);
        }
    }
    let acts = actor.close_current();
    drive(&mut actor, acts, &mut store);
    let artifacts = actor.take_checkpoint();
    let (recovery, precommits) = partition_checkpoint_data(artifacts).unwrap();

    assert_eq!(recovery.next_file_index, 4);
    assert_eq!(precommits.len(), 4);
    let mut names: Vec<&str> = precommits.iter().map(|(n, _)| n.as_str()).collect();
    names.sort();
    assert_eq!(
        names,
        vec![
            "/data/out/00000-000.json",
            "/data/out/00001-000.json",
            "/data/out/00002-000.json",
            "/data/out/00003-000.json",
        ]
    );
}

#[test]
fn checkpoint_mid_upload() {
    let mut actor = Actor::new("/data/out".to_string(), table(Some(100 * 1024), None, None, Some(3600)));
    let mut store = SimStore::default();
    actor.handle_init(0, 0, vec![], 0).unwrap();

    for _ in 0..3 {
        if let Some(a) = actor.handle_data(record(100), 10).unwrap() {
            drive(&mut actor, vec![a], &mut store);
        }
    }
    let artifacts = actor.take_checkpoint();
    let (recovery, precommits) = partition_checkpoint_data(artifacts).unwrap();

    assert_eq!(precommits.len(), 0);
    assert_eq!(recovery.active_files.len(), 1);
    match &recovery.active_files[0].data {
        FileCheckpointData::MultiPartNotCreated {
            parts_to_add,
            trailing_bytes,
        } => {
            assert!(parts_to_add.is_empty());
            let trailing = trailing_bytes.as_ref().expect("unflushed bytes must be snapshotted");
            assert_eq!(trailing.len(), 3 * 101);
        }
        other => panic!("unexpected checkpoint variant: {:?}", other),
    }

    // commit of an empty pre-commit set is a no-op
    let to_close = actor.handle_files_to_finish(vec![]).unwrap();
    assert!(to_close.is_empty());
}

#[test]
fn recovery_round_trip() {
    // the checkpoint of `checkpoint_mid_upload`, replayed into a fresh
    // process
    let mut expect = Vec::new();
    for _ in 0..3 {
        expect.extend_from_slice(&record(100));
        expect.push(b'\n');
    }
    let data = FileCheckpointData::MultiPartNotCreated {
        parts_to_add: vec![],
        trailing_bytes: Some(expect.clone()),
    };
    let plan = plan_recovery("/data/out/00000-000.json".to_string(), data).unwrap();
    assert!(plan.needs_start);
    assert_eq!(plan.uploads.len(), 1);
    assert_eq!(plan.uploads[0].part_index, 0);
    // the re-driven upload is byte-identical to what the crashed
    // writer would have produced
    assert_eq!(plan.uploads[0].byte_data, expect);

    let f = finish_recovery(
        &plan,
        Some("mp-r".to_string()),
        &vec!["etag-r0".to_string()],
    );
    assert_eq!(f.filename, "/data/out/00000-000.json");
    assert_eq!(f.multi_part_upload_id, "mp-r");
    assert_eq!(f.completed_parts, vec!["etag-r0".to_string()]);
}

#[test]
fn resume_after_part_upload_before_close() {
    // 5 of 10 parts acknowledged, the rest still in flight, plus
    // trailing bytes
    let mut in_flight_parts = Vec::new();
    for i in 0..10usize {
        if i % 2 == 0 {
            in_flight_parts.push(InFlightPartCheckpoint::FinishedPart {
                part: i,
                content_id: format!("etag-{}", i),
            });
        } else {
            in_flight_parts.push(InFlightPartCheckpoint::InProgressPart {
                part: i,
                data: vec![i as u8; 8],
            });
        }
    }
    let data = FileCheckpointData::MultiPartInFlight {
        multi_part_upload_id: "mp-0".to_string(),
        in_flight_parts,
        trailing_bytes: Some(vec![0xEE; 4]),
    };
    let plan = plan_recovery("/data/out/00000-000.json".to_string(), data).unwrap();
    assert!(!plan.needs_start);
    assert_eq!(plan.multipart_id.as_deref(), Some("mp-0"));
    // the in-flight parts are re-uploaded at their recorded indices;
    // the trailing bytes become the next part
    let indices: Vec<usize> = plan.uploads.iter().map(|u| u.part_index).collect();
    assert_eq!(indices, vec![1, 3, 5, 7, 9, 10]);
    assert_eq!(plan.uploads[5].byte_data, vec![0xEE; 4]);

    let uploaded: Vec<String> = indices.iter().map(|i| format!("new-{}", i)).collect();
    let f = finish_recovery(&plan, None, &uploaded);
    // part-index contiguity: the completed parts cover 0..=10 in order
    assert_eq!(f.completed_parts.len(), 11);
    assert_eq!(
        f.completed_parts,
        vec![
            "etag-0", "new-1", "etag-2", "new-3", "etag-4", "new-5", "etag-6", "new-7", "etag-8",
            "new-9", "new-10",
        ]
    );
}

#[test]
fn recovery_is_idempotent() {
    // the plan is a function of the checkpoint alone: planning it twice
    // finalizes the same file with the same parts
    let data = FileCheckpointData::MultiPartWriterUploadCompleted {
        multi_part_upload_id: "mp-9".to_string(),
        completed_parts: vec!["a".to_string(), "b".to_string()],
    };
    let once = plan_recovery("f".to_string(), data.clone()).unwrap();
    let twice = plan_recovery("f".to_string(), data).unwrap();
    assert_eq!(once.filename, twice.filename);
    assert_eq!(once.uploads.len(), 0);
    assert_eq!(twice.uploads.len(), 0);
    assert_eq!(once.slots.len(), twice.slots.len());
    for (a, b) in once.slots.iter().zip(twice.slots.iter()) {
        match (a, b) {
            (RecoverySlot::Known(x), RecoverySlot::Known(y)) => assert_eq!(x, y),
            _ => panic!("recovery of a completed upload re-uploads nothing"),
        }
    }
    let f1 = finish_recovery(&once, None, &vec![]);
    let f2 = finish_recovery(&twice, None, &vec![]);
    assert_eq!(f1.completed_parts, f2.completed_parts);
    assert_eq!(f1.filename, f2.filename);
}

#[test]
fn inactivity_rollover() {
    let mut actor = Actor::new("/data/out".to_string(), table(Some(100 * 1024), None, Some(1), Some(3600)));
    let mut store = SimStore::default();
    actor.handle_init(0, 0, vec![], 0).unwrap();

    if let Some(a) = actor.handle_data(record(50), 0).unwrap() {
        drive(&mut actor, vec![a], &mut store);
    }
    // longer than the inactivity bound passes; a tick closes the file
    let acts = actor.handle_tick(5_000);
    drive(&mut actor, acts, &mut store);

    let artifacts = actor.take_checkpoint();
    let (_, precommits) = partition_checkpoint_data(artifacts).unwrap();
    assert_eq!(precommits.len(), 1);
    assert_eq!(precommits[0].1.completed_parts.len(), 1);

    let to_close = actor.handle_files_to_finish(vec![precommits[0].1.clone()]).unwrap();
    assert_eq!(to_close.len(), 1);
}

#[test]
fn empty_commit_token_is_skipped() {
    let mut actor = Actor::new("/data/out".to_string(), table(None, None, None, None));
    let f = FileToFinish {
        filename: "/data/out/00007-000.json".to_string(),
        multi_part_upload_id: "mp-7".to_string(),
        completed_parts: vec![],
    };
    let to_close = actor.handle_files_to_finish(vec![f]).unwrap();
    assert!(to_close.is_empty());
}

#[test]
fn commit_of_active_file_is_rejected() {
    let mut actor = Actor::new("/data/out".to_string(), table(None, None, None, None));
    let mut store = SimStore::default();
    actor.handle_init(0, 0, vec![], 0).unwrap();
    if let Some(a) = actor.handle_data(record(10), 0).unwrap() {
        drive(&mut actor, vec![a], &mut store);
    }
    let f = FileToFinish {
        filename: "/data/out/00000-000.json".to_string(),
        multi_part_upload_id: "mp-0".to_string(),
        completed_parts: vec!["etag-0".to_string()],
    };
    assert!(actor.handle_files_to_finish(vec![f]).is_err());
}

#[test]
fn data_before_init_is_rejected() {
    let mut actor = Actor::new("/data/out".to_string(), table(None, None, None, None));
    assert!(actor.handle_data(record(10), 0).is_err());
}

#[test]
fn recovered_buffered_records_are_refed() {
    let mut actor = Actor::new("/data/out".to_string(), table(Some(100 * 1024), None, None, Some(3600)));
    let mut store = SimStore::default();
    // a recovered file whose records never became bytes: they are re-fed
    // into the new current writer
    let recovered = filesystem_sink::actor::InProgressFileCheckpoint {
        filename: "/old/00000-000.json".to_string(),
        data: FileCheckpointData::Empty,
        buffered_data: vec![record(10), record(10)],
    };
    let (actions, plans) = actor.handle_init(5, 0, vec![recovered], 0).unwrap();
    assert!(plans.is_empty());
    drive(&mut actor, actions, &mut store);

    let acts = actor.close_current();
    drive(&mut actor, acts, &mut store);
    let artifacts = actor.take_checkpoint();
    let (recovery, precommits) = partition_checkpoint_data(artifacts).unwrap();
    // the new writer continues from the recovered file index
    assert_eq!(recovery.next_file_index, 6);
    assert_eq!(precommits.len(), 1);
    assert_eq!(precommits[0].0, "/data/out/00005-000.json");
    let mut all = Vec::new();
    for (_, _, bytes) in &store.uploads {
        all.extend_from_slice(bytes);
    }
    let mut expect = Vec::new();
    for _ in 0..2 {
        expect.extend_from_slice(&record(10));
        expect.push(b'\n');
    }
    assert_eq!(all, expect);
}

#[test]
fn second_init_is_rejected() {
    let mut actor = Actor::new("/data/out".to_string(), table(None, None, None, None));
    actor.handle_init(0, 0, vec![], 0).unwrap();
    match actor.handle_init(1, 0, vec![], 0) {
        Err(filesystem_sink::actor::ActorError::AlreadyInitialized) => {}
        other => panic!("expected rejection of a second init, got {:?}", other),
    }
}

#[test]
fn callback_for_unknown_writer_is_rejected() {
    let mut actor = Actor::new("/data/out".to_string(), table(None, None, None, None));
    actor.handle_init(0, 0, vec![], 0).unwrap();
    match actor.process_callback(
        "/data/out/99999-000.json".to_string(),
        MultipartCallback::UploadsFinished,
    ) {
        Err(filesystem_sink::actor::ActorError::MissingWriter { name }) => {
            assert_eq!(name, "/data/out/99999-000.json");
        }
        other => panic!("expected a missing-writer error, got {:?}", other),
    }
}

#[test]
fn mismatched_callback_is_rejected() {
    let mut actor = Actor::new("/data/out".to_string(), table(None, None, None, None));
    actor.handle_init(0, 0, vec![], 0).unwrap();
    // no part was ever pushed, so an acknowledgement cannot fit
    match actor.process_callback(
        "/data/out/00000-000.json".to_string(),
        MultipartCallback::CompletedPart {
            part_idx: 0,
            upload_part: UploadedPart {
                content_id: "etag-0".to_string(),
            },
        },
    ) {
        Err(filesystem_sink::actor::ActorError::UnexpectedCallback { .. }) => {}
        other => panic!("expected an unexpected-callback error, got {:?}", other),
    }
}

#[test]
fn artifact_stream_without_finished_marker_is_rejected() {
    match partition_checkpoint_data(vec![]) {
        Err(filesystem_sink::sink::SinkError::MissingFinished) => {}
        other => panic!("expected a missing-finished error, got {:?}", other),
    }
    match partition_checkpoint_data(vec![CheckpointData::Finished {
        max_file_index: usize::MAX,
    }]) {
        Err(filesystem_sink::sink::SinkError::IndexOverflow) => {}
        other => panic!("expected an index-overflow error, got {:?}", other),
    }
}
