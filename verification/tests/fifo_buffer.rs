use soundtouch::fifo_buffer::FIFOSampleBuffer;
use soundtouch::SoundTouchError;

type Sample = f32;

#[test]
fn test_create_buffer() {
    let buf = FIFOSampleBuffer::<Sample>::new(2).unwrap();
    assert_eq!(buf.num_samples(), 0);
    assert!(buf.is_empty());
}

#[test]
fn test_put_and_receive() {
    let mut buf = FIFOSampleBuffer::<Sample>::new(2).unwrap();
    let input: Vec<Sample> = vec![1.0, 2.0, 3.0, 4.0];
    buf.put_samples(&input, 2);

    assert_eq!(buf.num_samples(), 2);

    let mut output = vec![0.0; 4];
    let received = buf.receive_samples(&mut output, 2);

    assert_eq!(received, 2);
    assert_eq!(output, vec![1.0, 2.0, 3.0, 4.0]);
    assert_eq!(buf.num_samples(), 0);
}

#[test]
fn test_invalid_channel_counts_are_refused() {
    assert!(matches!(
        FIFOSampleBuffer::<Sample>::new(0),
        Err(SoundTouchError::InvalidChannels(0))
    ));
    assert!(matches!(
        FIFOSampleBuffer::<Sample>::new(33),
        Err(SoundTouchError::InvalidChannels(33))
    ));
    let mut buf = FIFOSampleBuffer::<Sample>::new(32).unwrap();
    assert!(matches!(buf.set_channels(40), Err(SoundTouchError::InvalidChannels(40))));
    assert_eq!(buf.get_channels(), 32);
}

#[test]
fn test_first_in_first_out_across_puts() {
    let mut buf = FIFOSampleBuffer::<Sample>::new(1).unwrap();
    buf.put_samples(&[1.0, 2.0, 3.0], 3);
    buf.put_samples(&[4.0, 5.0, 9.0], 2);
    let mut out = vec![0.0; 3];
    assert_eq!(buf.receive_samples(&mut out, 3), 3);
    assert_eq!(out, vec![1.0, 2.0, 3.0]);
    let mut out = vec![0.0; 3];
    assert_eq!(buf.receive_samples(&mut out, 10), 2);
    assert_eq!(out, vec![4.0, 5.0, 0.0]);
    assert!(buf.is_empty());
}

#[test]
fn test_receive_stops_at_what_is_buffered() {
    let mut buf = FIFOSampleBuffer::<Sample>::new(2).unwrap();
    buf.put_samples(&[1.0, 2.0], 1);
    let mut out = vec![7.0; 6];
    assert_eq!(buf.receive_samples(&mut out, 3), 1);
    assert_eq!(out, vec![1.0, 2.0, 7.0, 7.0, 7.0, 7.0]);
    assert_eq!(buf.receive_samples(&mut out, 3), 0);
}

#[test]
fn test_growth_keeps_samples() {
    let mut buf = FIFOSampleBuffer::<Sample>::new(2).unwrap();
    let input: Vec<Sample> = (0..10000).map(|i| i as Sample).collect();
    buf.put_samples(&input, 5000);
    assert_eq!(buf.num_samples(), 5000);
    assert_eq!(buf.ptr_begin(), &input[..]);
}

#[test]
fn test_receive_no_copy_then_rewind_on_put() {
    let mut buf = FIFOSampleBuffer::<Sample>::new(1).unwrap();
    let input: Vec<Sample> = (0..1024).map(|i| i as Sample).collect();
    buf.put_samples(&input, 1024);
    assert_eq!(buf.receive_samples_no_copy(1000), 1000);
    buf.put_samples(&[5000.0, 5001.0], 2);
    let expected: Vec<Sample> = (1000..1024).map(|i| i as Sample).chain([5000.0, 5001.0]).collect();
    assert_eq!(buf.ptr_begin(), &expected[..]);
}

#[test]
fn test_clear_empties() {
    let mut buf = FIFOSampleBuffer::<Sample>::new(2).unwrap();
    buf.put_samples(&[1.0, 2.0, 3.0, 4.0], 2);
    buf.clear();
    assert_eq!(buf.num_samples(), 0);
    assert!(buf.ptr_begin().is_empty());
}

#[test]
fn test_adjust_only_trims() {
    let mut buf = FIFOSampleBuffer::<Sample>::new(1).unwrap();
    buf.put_samples(&[1.0, 2.0, 3.0, 4.0], 4);
    assert_eq!(buf.adjust_amount_of_samples(10), 4);
    assert_eq!(buf.adjust_amount_of_samples(2), 2);
    assert_eq!(buf.ptr_begin(), &[1.0, 2.0]);
}

#[test]
fn test_add_silent_appends_zeros() {
    let mut buf = FIFOSampleBuffer::<Sample>::new(2).unwrap();
    buf.put_samples(&[1.0, 2.0], 1);
    buf.add_silent(2);
    assert_eq!(buf.ptr_begin(), &[1.0, 2.0, 0.0, 0.0, 0.0, 0.0]);
}

#[test]
fn test_move_samples_keeps_every_sample() {
    let mut a = FIFOSampleBuffer::<Sample>::new(2).unwrap();
    let mut b = FIFOSampleBuffer::<Sample>::new(2).unwrap();
    a.put_samples(&[1.0, 2.0], 1);
    b.put_samples(&[3.0, 4.0, 5.0, 6.0], 2);
    a.move_samples(&mut b);
    assert_eq!(a.ptr_begin(), &[1.0, 2.0, 3.0, 4.0, 5.0, 6.0]);
    assert_eq!(a.num_samples(), 3);
    assert!(b.is_empty());
}

#[test]
fn test_set_channels_reinterprets_samples() {
    let mut buf = FIFOSampleBuffer::<Sample>::new(1).unwrap();
    buf.put_samples(&[1.0, 2.0, 3.0, 4.0, 5.0], 5);
    assert!(buf.set_channels(2).is_ok());
    assert_eq!(buf.get_channels(), 2);
    assert_eq!(buf.num_samples(), 2);
    assert_eq!(buf.ptr_begin(), &[1.0, 2.0, 3.0, 4.0]);
}

#[test]
fn test_set_channels_after_receive_reads_from_frame_position() {
    let mut buf = FIFOSampleBuffer::<Sample>::new(1).unwrap();
    buf.put_samples(&[1.0, 2.0, 3.0, 4.0, 5.0, 6.0], 6);
    buf.receive_samples_no_copy(2);
    assert!(buf.set_channels(2).is_ok());
    // four buffered samples make two stereo frames, read from frame 2 of
    // the storage, that is from sample 4 on
    assert_eq!(buf.num_samples(), 2);
    assert_eq!(&buf.ptr_begin()[..2], &[5.0, 6.0]);
}

#[test]
fn test_written_slack_is_appended() {
    let mut buf = FIFOSampleBuffer::<Sample>::new(2).unwrap();
    buf.put_samples(&[1.0, 2.0], 1);
    {
        let slack = buf.ptr_end(3);
        assert_eq!(slack.len(), 6);
        slack[0] = 7.0;
        slack[1] = 8.0;
        slack[2] = 9.0;
        slack[3] = 10.0;
    }
    buf.put_samples_no_copy(2);
    assert_eq!(buf.ptr_begin(), &[1.0, 2.0, 7.0, 8.0, 9.0, 10.0]);
}
