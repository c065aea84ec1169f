use soundtouch::aligned_buffer::AlignedSampleVec;
use soundtouch::fifo_buffer::FIFOSampleBuffer;
use soundtouch::td_stretch::emit_sequence;

#[test]
fn test_emit_sequence_mono() {
    let mut input = FIFOSampleBuffer::<f32>::new(1).unwrap();
    let frames: Vec<f32> = (0..20).map(|i| i as f32).collect();
    input.put_samples(&frames, 20);
    let mut output = FIFOSampleBuffer::<f32>::new(1).unwrap();
    output.put_samples(&[-1.0], 1);
    let mut mid = AlignedSampleVec::<f32>::new(4);
    mid.resize(4, 0.5);

    // sequence of 10 frames with overlaps of 2: 6 frames go out from frame 3
    emit_sequence(10, 2, &input, &mut output, &mut mid, 3);

    assert_eq!(output.num_samples(), 7);
    let mut out = vec![0.0; 7];
    output.receive_samples(&mut out, 7);
    assert_eq!(out, vec![-1.0, 3.0, 4.0, 5.0, 6.0, 7.0, 8.0]);
    // the next two frames are kept for the overlap; the rest of mid is untouched
    assert_eq!(mid.as_slice(), &[9.0, 10.0, 0.5, 0.5]);
    // the input is only read
    assert_eq!(input.num_samples(), 20);
}

#[test]
fn test_emit_sequence_stereo_grows_mid() {
    let mut input = FIFOSampleBuffer::<f32>::new(2).unwrap();
    let frames: Vec<f32> = (0..40).map(|i| i as f32).collect();
    input.put_samples(&frames, 20);
    let mut output = FIFOSampleBuffer::<f32>::new(2).unwrap();
    let mut mid = AlignedSampleVec::<f32>::new(0);

    emit_sequence(8, 3, &input, &mut output, &mut mid, 0);

    assert_eq!(output.num_samples(), 2);
    assert_eq!(output.ptr_begin(), &[0.0, 1.0, 2.0, 3.0]);
    assert_eq!(mid.as_slice(), &[4.0, 5.0, 6.0, 7.0, 8.0, 9.0]);
}
