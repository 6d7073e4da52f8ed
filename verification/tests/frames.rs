use resyn::frames::{batch_voiced, split_frames, FrameVerdict};

#[test]
fn splits_a_batch_into_whole_frames() {
    let batch: Vec<i16> = vec![1, 2, 3, 4, 5, 6, 7];
    assert_eq!(split_frames(&batch, 3), vec![vec![1, 2, 3], vec![4, 5, 6]]);
    assert_eq!(split_frames(&batch, 7), vec![vec![1, 2, 3, 4, 5, 6, 7]]);
    assert_eq!(split_frames(&batch, 1).len(), 7);
}

#[test]
fn batch_shorter_than_a_frame_has_no_frames() {
    let batch: Vec<i16> = vec![1, 2, 3];
    assert!(split_frames(&batch, 4).is_empty());
    assert!(split_frames(&[], 160).is_empty());
    assert!(split_frames(&batch, 0).is_empty());
}

#[test]
fn splits_400_samples_into_two_frames_of_160() {
    let mut batch: Vec<i16> = Vec::new();
    let mut i: i16 = 0;
    while i < 400 {
        batch.push(i);
        i += 1;
    }
    let frames = split_frames(&batch, 160);
    assert_eq!(frames.len(), 2);
    assert_eq!(frames[0][0], 0);
    assert_eq!(frames[0][159], 159);
    assert_eq!(frames[1][0], 160);
    assert_eq!(frames[1][159], 319);
}

#[test]
fn batch_is_voiced_if_one_frame_is() {
    assert!(batch_voiced(&[FrameVerdict::Unvoiced, FrameVerdict::Voiced, FrameVerdict::Unvoiced]));
    assert!(batch_voiced(&[FrameVerdict::Voiced]));
    assert!(batch_voiced(&[FrameVerdict::Failed, FrameVerdict::Unvoiced, FrameVerdict::Voiced]));
}

#[test]
fn batch_without_a_voiced_frame_is_not_voiced() {
    assert!(!batch_voiced(&[]));
    assert!(!batch_voiced(&[FrameVerdict::Unvoiced, FrameVerdict::Unvoiced]));
}

#[test]
fn failed_classification_counts_as_not_voiced() {
    assert!(!batch_voiced(&[FrameVerdict::Failed]));
    assert!(!batch_voiced(&[FrameVerdict::Failed, FrameVerdict::Unvoiced, FrameVerdict::Failed]));
}
