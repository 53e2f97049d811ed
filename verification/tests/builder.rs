//! Tests of validated task construction.
use backdrop::builder::{MediaKind, MediaType, RenderTaskBuilder, SaveFileError};
use backdrop::store::StoreModel;
use backdrop::task::decode_task;

fn image_type() -> MediaType {
    MediaType { kind: MediaKind::Image, essence: "image/png".to_string() }
}

fn audio_type() -> MediaType {
    MediaType { kind: MediaKind::Audio, essence: "audio/mpeg".to_string() }
}

#[test]
fn new_builder_records_the_pending_marker() {
    let mut store = StoreModel::new();
    let builder = RenderTaskBuilder::new(&mut store);
    let missing = match builder.build() {
        Err(e) => e,
        Ok(_) => panic!("an empty builder must not yield a task"),
    };
    assert!(matches!(missing, SaveFileError::MissingFile("audio")));
    // Exactly one marker entry was written, holding the pending sentinel.
    let mut another = StoreModel::new();
    let mut b2 = RenderTaskBuilder::new(&mut another);
    let id = b2.validate_type(None);
    assert!(matches!(id, Err(SaveFileError::MissingMime)));
}

#[test]
fn build_needs_exactly_one_audio_and_one_image() {
    let mut store = StoreModel::new();
    let mut builder = RenderTaskBuilder::new(&mut store);
    let audio_id = builder.validate_type(Some(&audio_type())).unwrap();
    // A second audio part is refused.
    assert!(matches!(
        builder.validate_type(Some(&audio_type())),
        Err(SaveFileError::UnexpectedMime(_))
    ));
    // Image still missing.
    let mut probe = RenderTaskBuilder::new(&mut store);
    probe.validate_type(Some(&audio_type())).unwrap();
    assert!(matches!(
        probe.build(),
        Err(SaveFileError::MissingFile("image"))
    ));
    // With both parts the task comes out, naming the handed-out keys.
    let image_id = builder.validate_type(Some(&image_type())).unwrap();
    let task = builder.build().unwrap();
    assert_eq!(task.audio, audio_id);
    assert_eq!(task.image, image_id);
}

#[test]
fn unsupported_media_type_is_reported_by_name() {
    let mut store = StoreModel::new();
    let mut builder = RenderTaskBuilder::new(&mut store);
    let other = MediaType { kind: MediaKind::Other, essence: "application/pdf".to_string() };
    match builder.validate_type(Some(&other)) {
        Err(SaveFileError::UnexpectedMime(name)) => assert_eq!(name, "application/pdf"),
        _ => panic!("a pdf part must be refused"),
    }
}

#[test]
fn queue_round_trips_the_task_and_marks_it_pending() {
    let mut store = StoreModel::new();
    let mut builder = RenderTaskBuilder::new(&mut store);
    builder.validate_type(Some(&audio_type())).unwrap();
    builder.validate_type(Some(&image_type())).unwrap();
    let task = builder.build().unwrap();
    let target = task.queue(&mut store);
    assert_eq!(target, task.target);
    assert_eq!(store.get(target), Some(b"pending".to_vec()));
    let payload = store.pop_task().expect("the task must be queued");
    assert_eq!(decode_task(&payload), Some(task));
}

#[test]
fn save_file_errors_map_to_the_right_status_codes() {
    assert_eq!(
        SaveFileError::UnexpectedMime("application/pdf".to_string()).status_code(),
        415
    );
    assert_eq!(SaveFileError::MissingMime.status_code(), 400);
    assert_eq!(SaveFileError::MissingFile("audio").status_code(), 400);
}
