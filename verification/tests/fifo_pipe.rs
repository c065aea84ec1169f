use soundtouch::FIFOSamplePipe;

/// A mono stage that passes samples through unchanged.
struct PassThrough {
    frames: Vec<f32>,
}

impl FIFOSamplePipe<f32> for PassThrough {
    fn put_samples(&mut self, samples: &[f32], num_samples: usize) {
        self.frames.extend_from_slice(&samples[..num_samples]);
    }

    fn receive_samples(&mut self, output: &mut [f32], max_samples: usize) -> usize {
        let n = max_samples.min(self.frames.len());
        output[..n].copy_from_slice(&self.frames[..n]);
        self.frames.drain(..n);
        n
    }

    fn num_samples(&self) -> usize {
        self.frames.len()
    }

    fn clear(&mut self) {
        self.frames.clear();
    }

    fn adjust_amount_of_samples(&mut self, num_samples: usize) -> usize {
        self.frames.truncate(num_samples);
        self.frames.len()
    }
}

#[test]
fn test_default_is_empty_follows_num_samples() {
    let mut stage = PassThrough { frames: Vec::new() };
    assert!(stage.is_empty());
    stage.put_samples(&[1.0, 2.0, 3.0], 3);
    assert!(!stage.is_empty());
    let mut out = [0.0; 3];
    assert_eq!(stage.receive_samples(&mut out, 3), 3);
    assert!(stage.is_empty());
}
