use ncm_importer::{
    DecodeResult, DecodeResultRaw, FileInfo, Fraction, SyncError, ThreadProgress,
    decode_result_from_raw, task_failure_kind, validate_decode_paths,
};

#[test]
fn paths_with_nul_are_rejected_before_the_call() {
    let r = validate_decode_paths("/in/a\0b.ncm", "/out");
    assert!(matches!(r, Err(SyncError::PathEncodingError)));
    let r2 = validate_decode_paths("/in/a.ncm", "/out\0");
    assert!(matches!(r2, Err(SyncError::PathEncodingError)));
}

#[test]
fn clean_paths_pass_validation() {
    assert!(validate_decode_paths("/in/a.ncm", "/out/dir").is_ok());
    assert!(validate_decode_paths("", "").is_ok());
}

#[test]
fn raw_results_map_one_to_one() {
    assert_eq!(decode_result_from_raw(DecodeResultRaw { success: true }), DecodeResult {
        success: true,
    });
    assert_eq!(decode_result_from_raw(DecodeResultRaw { success: false }), DecodeResult {
        success: false,
    });
}

#[test]
fn failure_kinds_follow_the_task_class() {
    assert_eq!(task_failure_kind(true), SyncError::DecodeFailure);
    assert_eq!(task_failure_kind(false), SyncError::IOFailure);
}

#[test]
fn decode_outcome_fills_or_zeroes_the_slot() {
    let mut slot = ThreadProgress {
        thread_id: 0,
        current_file: Some("/in/a.ncm".to_string()),
        current_size: 700,
        processed_size: 0,
        progress: Fraction::zero(),
    };
    slot.apply_decode_outcome(true);
    assert_eq!(slot.progress, Fraction::one());
    assert_eq!(slot.processed_size, 700);
    let mut slot2 = ThreadProgress {
        thread_id: 1,
        current_file: Some("/in/b.ncm".to_string()),
        current_size: 700,
        processed_size: 3,
        progress: Fraction::zero(),
    };
    slot2.apply_decode_outcome(false);
    assert_eq!(slot2.progress, Fraction::zero());
    // A failed decode leaves the processed bytes where they were.
    assert_eq!(slot2.processed_size, 3);
}

#[test]
fn file_info_carries_the_listing_entry() {
    let info = FileInfo {
        path: "/music/a.mp3".to_string(),
        name: "a.mp3".to_string(),
        size: 123,
        artist: Some("Artist".to_string()),
        album: None,
        duration: Some(61),
    };
    assert_eq!(info.path, "/music/a.mp3");
    assert_eq!(info.name, "a.mp3");
    assert_eq!(info.size, 123);
    assert_eq!(info.artist.as_deref(), Some("Artist"));
    assert!(info.album.is_none());
    assert_eq!(info.duration, Some(61));
}
