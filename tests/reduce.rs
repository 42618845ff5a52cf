use frame_blend::error::BlendError;
use frame_blend::frame::Frame;
use frame_blend::reduce::{average, is_uniform};

fn frame(h: usize, w: usize, c: usize, samples: Vec<u8>) -> Frame {
    Frame::new(h, w, c, samples).unwrap()
}

fn filled(h: usize, w: usize, c: usize, v: u8) -> Frame {
    frame(h, w, c, vec![v; h * w * c])
}

#[test]
fn frame_new_accepts_matching_buffer() {
    let f = frame(2, 3, 1, vec![1, 2, 3, 4, 5, 6]);
    assert_eq!(f.dims(), (2, 3, 1));
    assert_eq!(f.height(), 2);
    assert_eq!(f.width(), 3);
    assert_eq!(f.channels(), 1);
    assert_eq!(f.samples(), &[1, 2, 3, 4, 5, 6]);
}

#[test]
fn frame_new_rejects_wrong_length() {
    assert!(matches!(Frame::new(2, 2, 3, vec![0; 11]), Err(BlendError::ShapeMismatch)));
    assert!(matches!(Frame::new(2, 2, 3, vec![0; 13]), Err(BlendError::ShapeMismatch)));
}

#[test]
fn frame_new_zero_dimension_needs_empty_buffer() {
    assert!(Frame::new(0, 5, 3, vec![]).is_ok());
    assert!(Frame::new(usize::MAX, usize::MAX, 0, vec![]).is_ok());
    assert!(matches!(Frame::new(0, 5, 3, vec![1]), Err(BlendError::ShapeMismatch)));
}

#[test]
fn frame_new_rejects_overflowing_shape() {
    assert!(matches!(Frame::new(usize::MAX, 2, 1, vec![0; 4]), Err(BlendError::ShapeMismatch)));
}

#[test]
fn average_output_shape_matches_inputs() {
    let frames = vec![filled(4, 5, 3, 10), filled(4, 5, 3, 20), filled(4, 5, 3, 40)];
    let avg = average(&frames).unwrap();
    assert_eq!(avg.dims(), (4, 5, 3));
    assert_eq!(avg.samples().len(), 60);
}

#[test]
fn average_of_identical_frames_is_that_frame() {
    let base = frame(1, 2, 3, vec![0, 1, 127, 128, 254, 255]);
    for k in [1usize, 2, 3, 7, 10] {
        let frames: Vec<Frame> = (0..k).map(|_| frame(1, 2, 3, vec![0, 1, 127, 128, 254, 255])).collect();
        let avg = average(&frames).unwrap();
        assert_eq!(avg.samples(), base.samples());
        assert_eq!(avg.dims(), base.dims());
    }
}

#[test]
fn average_truncates_toward_zero() {
    let frames = vec![frame(1, 1, 2, vec![1, 0]), frame(1, 1, 2, vec![2, 255])];
    let avg = average(&frames).unwrap();
    assert_eq!(avg.samples(), &[1, 127]);
}

#[test]
fn average_divides_by_true_count() {
    let frames = vec![filled(1, 1, 1, 30), filled(1, 1, 1, 60), filled(1, 1, 1, 90)];
    assert_eq!(average(&frames).unwrap().samples(), &[60]);
    let frames = vec![filled(1, 1, 1, 10), filled(1, 1, 1, 20)];
    assert_eq!(average(&frames).unwrap().samples(), &[15]);
}

#[test]
fn average_does_not_overflow_on_saturated_samples() {
    let frames: Vec<Frame> = (0..300).map(|_| filled(2, 2, 1, 255)).collect();
    assert_eq!(average(&frames).unwrap().samples(), &[255, 255, 255, 255]);
}

#[test]
fn average_is_independent_of_frame_order() {
    let a = frame(1, 1, 3, vec![3, 200, 17]);
    let b = frame(1, 1, 3, vec![250, 1, 90]);
    let c = frame(1, 1, 3, vec![8, 99, 255]);
    let abc = average(&[a, b, c]).unwrap();
    let a = frame(1, 1, 3, vec![3, 200, 17]);
    let b = frame(1, 1, 3, vec![250, 1, 90]);
    let c = frame(1, 1, 3, vec![8, 99, 255]);
    let cab = average(&[c, a, b]).unwrap();
    assert_eq!(abc.samples(), cab.samples());
    assert_eq!(abc.samples(), &[87, 100, 120]);
}

#[test]
fn average_of_nothing_is_empty_input() {
    let frames: Vec<Frame> = Vec::new();
    assert!(matches!(average(&frames), Err(BlendError::EmptyInput)));
}

#[test]
fn average_of_mismatched_shapes_fails() {
    let frames = vec![filled(2, 2, 3, 1), filled(2, 2, 3, 2), filled(2, 3, 2, 3)];
    assert!(matches!(average(&frames), Err(BlendError::ShapeMismatch)));
    let frames = vec![filled(1, 4, 1, 1), filled(4, 1, 1, 1)];
    assert!(matches!(average(&frames), Err(BlendError::ShapeMismatch)));
}

#[test]
fn uniform_check() {
    assert!(is_uniform(&[filled(1, 2, 3, 0), filled(1, 2, 3, 9)]));
    assert!(!is_uniform(&[filled(1, 2, 3, 0), filled(1, 2, 1, 9)]));
}

#[test]
fn error_messages_are_distinct() {
    let all = [
        BlendError::EmptyInput,
        BlendError::InvalidCapacity,
        BlendError::InvalidCadence,
        BlendError::ShapeMismatch,
    ];
    for (i, a) in all.iter().enumerate() {
        for (j, b) in all.iter().enumerate() {
            assert_eq!(i == j, a.message() == b.message());
        }
    }
    assert_eq!(BlendError::InvalidCadence.message(), "cadence must be at least 1");
}
