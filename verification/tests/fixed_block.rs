use bevy_steam_audio::nodes::{FixedProcessBlock, ProcessStatus};

fn copy_effect(inputs: &Vec<Vec<f32>>, mut outputs: Vec<Vec<f32>>) -> Vec<Vec<f32>> {
    for (dst, src) in outputs.iter_mut().zip(inputs.iter()) {
        dst.copy_from_slice(src);
    }
    outputs
}

fn ramp(channels: usize, from: usize, len: usize) -> Vec<Vec<f32>> {
    (0..channels)
        .map(|c| (from..from + len).map(|i| (c * 100_000 + i) as f32).collect())
        .collect()
}

#[test]
fn new_block_is_empty() {
    let block = FixedProcessBlock::<f32>::new(256, 512, 2, 2, 0.0);
    assert_eq!(block.frame_size(), 256);
    assert_eq!(block.max_block_frames(), 512);
    assert!(block.inputs_clear());
    assert_eq!(block.queued_frames(), 0);
    assert!(!block.started_draining());
    assert!(!block.outgrew_reserve());
}

#[test]
fn output_is_held_back_below_one_and_a_half_blocks() {
    // frame 4, largest block 8: the queue must reach 12 before anything leaves
    let mut block = FixedProcessBlock::<f32>::new(4, 8, 1, 1, 0.0);
    let mut out = vec![vec![-1.0f32; 8]];
    let status = block.process(&ramp(1, 0, 8), 8, &mut out, 8, copy_effect);
    assert_eq!(status, ProcessStatus::ClearAllOutputs);
    assert_eq!(block.queued_frames(), 8);
    assert!(!block.started_draining());
    assert_eq!(out, vec![vec![-1.0f32; 8]]);

    let status = block.process(&ramp(1, 8, 3), 3, &mut out, 3, copy_effect);
    assert_eq!(status, ProcessStatus::ClearAllOutputs);
    assert_eq!(block.queued_frames(), 8);
    assert!(!block.inputs_clear());

    let status = block.process(&ramp(1, 11, 1), 1, &mut out, 1, copy_effect);
    assert_eq!(status, ProcessStatus::OutputsModified);
    assert!(block.started_draining());
    assert_eq!(block.queued_frames(), 11);
    assert!(block.inputs_clear());
    assert_eq!(out[0][0], 0.0);
    assert_eq!(&out[0][1..], &[-1.0f32; 7][..]);
}

#[test]
fn reassembles_the_stream_for_any_block_sizes() {
    let sizes = [3usize, 5, 1, 7, 2, 8, 8, 4, 6, 1, 1, 9, 3, 7, 5, 2, 8, 8, 8, 8];
    let mut block = FixedProcessBlock::<f32>::new(4, 9, 2, 2, 0.0);
    let mut fed = 0usize;
    let mut released: Vec<Vec<f32>> = vec![Vec::new(), Vec::new()];
    for n in sizes {
        let input = ramp(2, fed, n);
        fed += n;
        let mut out = vec![vec![0.0f32; n]; 2];
        let status = block.process(&input, n, &mut out, n, copy_effect);
        if status == ProcessStatus::OutputsModified {
            for c in 0..2 {
                released[c].extend_from_slice(&out[c]);
            }
        }
    }
    let expected = ramp(2, 0, released[0].len());
    assert!(released[0].len() > 40);
    assert_eq!(released, expected);
    // nothing is lost: what is inside the accumulator is the rest of the stream
    assert_eq!(released[0].len() + block.queued_frames() + fed % 4, fed);
}

#[test]
fn effect_sees_whole_frames_in_order() {
    let seen = std::cell::RefCell::new(Vec::<Vec<f32>>::new());
    let mut block = FixedProcessBlock::<f32>::new(3, 4, 1, 1, 0.0);
    let mut fed = 0usize;
    for n in [1usize, 1, 2, 4, 3, 1] {
        let mut out = vec![vec![0.0f32; n]];
        block.process(&ramp(1, fed, n), n, &mut out, n, |inputs, outputs| {
            assert_eq!(outputs, vec![vec![0.0f32; 3]]);
            seen.borrow_mut().push(inputs[0].clone());
            outputs
        });
        fed += n;
    }
    let seen = seen.into_inner();
    assert_eq!(
        seen,
        vec![
            vec![0.0, 1.0, 2.0],
            vec![3.0, 4.0, 5.0],
            vec![6.0, 7.0, 8.0],
            vec![9.0, 10.0, 11.0],
        ]
    );
}

#[test]
fn request_larger_than_queue_is_not_served() {
    let mut block = FixedProcessBlock::<f32>::new(2, 2, 1, 1, 0.0);
    let mut out = vec![vec![9.0f32; 8]];
    // 4 queued reaches 1.5 x 2, the request for 4 is served and empties the queue
    assert_eq!(
        block.process(&ramp(1, 0, 4), 4, &mut out, 4, copy_effect),
        ProcessStatus::OutputsModified
    );
    assert_eq!(block.queued_frames(), 0);
    // one sample comes in, no frame completes, one sample is asked for
    assert_eq!(
        block.process(&ramp(1, 4, 1), 1, &mut out, 1, copy_effect),
        ProcessStatus::ClearAllOutputs
    );
    assert!(block.started_draining());
    assert_eq!(out[0][..4], [0.0, 1.0, 2.0, 3.0]);
}

#[test]
fn steady_stream_stays_inside_the_reserve() {
    let mut block = FixedProcessBlock::<f32>::new(256, 512, 2, 2, 0.0);
    let input = vec![vec![0.25f32; 512]; 2];
    let mut out = vec![vec![0.0f32; 512]; 2];
    // priming: the first block only fills the queue, the second is served
    assert!(!block.is_steady());
    assert_eq!(
        block.process(&input, 512, &mut out, 512, copy_effect),
        ProcessStatus::ClearAllOutputs
    );
    assert!(!block.is_steady());
    assert_eq!(
        block.process(&input, 512, &mut out, 512, copy_effect),
        ProcessStatus::OutputsModified
    );
    assert!(block.is_steady());
    assert_eq!(block.backlog(), 512);
    for _ in 0..1000 {
        assert_eq!(
            block.process(&input, 512, &mut out, 512, copy_effect),
            ProcessStatus::OutputsModified
        );
        assert!(block.queued_frames() <= 1024);
        assert!(block.is_steady());
        assert_eq!(block.backlog(), 512);
    }
    assert!(!block.outgrew_reserve());
    assert_eq!(block.queued_frames(), 512);
}

#[test]
fn steady_stream_with_blocks_of_any_size() {
    let mut block = FixedProcessBlock::<f32>::new(256, 512, 2, 2, 0.0);
    let input = vec![vec![0.5f32; 512]; 2];
    let mut out = vec![vec![0.0f32; 512]; 2];
    block.process(&input, 512, &mut out, 512, copy_effect);
    block.process(&input, 512, &mut out, 512, copy_effect);
    assert!(block.is_steady());
    let mut n = 1usize;
    for _ in 0..2000 {
        n = (n * 37 + 11) % 513;
        assert_eq!(
            block.process(&input, n, &mut out, n, copy_effect),
            ProcessStatus::OutputsModified
        );
        assert!(block.is_steady());
        assert_eq!(block.backlog(), 512);
    }
    assert!(!block.outgrew_reserve());
}

#[test]
fn uneven_priming_can_outgrow_the_reserve() {
    let mut block = FixedProcessBlock::<f32>::new(256, 512, 1, 1, 0.0);
    let mut out = vec![vec![0.0f32; 512]];
    // blocks of one sample: after 767 of them two frames are queued and 255 samples wait
    for _ in 0..767 {
        assert_eq!(
            block.process(&vec![vec![0.0f32]], 1, &mut out, 1, copy_effect),
            ProcessStatus::ClearAllOutputs
        );
    }
    assert_eq!(block.queued_frames(), 512);
    assert!(!block.started_draining());
    // the next sample completes the third frame: 768 are queued, output starts
    assert_eq!(
        block.process(&vec![vec![0.0f32]], 1, &mut out, 1, copy_effect),
        ProcessStatus::OutputsModified
    );
    assert!(block.started_draining());
    assert_eq!(block.backlog(), 767);
    assert!(!block.is_steady());
    assert!(!block.outgrew_reserve());
    // a full block now brings the queue to 767 + 512 = 1279 > 1024
    assert_eq!(
        block.process(&vec![vec![0.0f32; 512]], 512, &mut out, 512, copy_effect),
        ProcessStatus::OutputsModified
    );
    assert_eq!(block.queued_frames(), 767);
    assert!(block.outgrew_reserve());
}

#[test]
fn resize_keeps_what_is_queued() {
    let mut block = FixedProcessBlock::<f32>::new(4, 4, 1, 1, 0.0);
    let mut out = vec![vec![0.0f32; 16]];
    block.process(&ramp(1, 0, 5), 5, &mut out, 0, copy_effect);
    assert_eq!(block.queued_frames(), 4);
    assert!(!block.inputs_clear());
    block.resize(2, 16);
    assert_eq!(block.frame_size(), 2);
    assert_eq!(block.max_block_frames(), 16);
    assert_eq!(block.queued_frames(), 4);
    // one sample was waiting and still is: the next sample completes a frame of 2
    assert!(!block.inputs_clear());
    block.process(&ramp(1, 5, 1), 1, &mut out, 0, copy_effect);
    assert!(block.inputs_clear());
    assert_eq!(block.queued_frames(), 6);
    // a frame size that the waiting input would already fill drops the waiting input
    block.process(&ramp(1, 6, 1), 1, &mut out, 0, copy_effect);
    block.resize(1, 16);
    assert!(block.inputs_clear());
    assert_eq!(block.queued_frames(), 6);
}

#[test]
fn clear_drops_input_and_output() {
    let mut block = FixedProcessBlock::<f32>::new(4, 2, 2, 2, 0.0);
    let mut out = vec![vec![0.0f32; 4]; 2];
    block.process(&ramp(2, 0, 6), 6, &mut out, 2, copy_effect);
    assert!(block.started_draining());
    assert_eq!(block.queued_frames(), 2);
    assert!(!block.inputs_clear());
    block.clear();
    assert!(block.inputs_clear());
    assert_eq!(block.queued_frames(), 0);
    assert_eq!(block.frame_size(), 4);
}

#[test]
fn block_without_output_channels_never_serves() {
    let mut block = FixedProcessBlock::<f32>::new(2, 0, 1, 0, 0.0);
    let mut out: Vec<Vec<f32>> = Vec::new();
    let status = block.process(&ramp(1, 0, 4), 4, &mut out, 4, |_, outputs| outputs);
    assert_eq!(status, ProcessStatus::ClearAllOutputs);
    assert_eq!(block.queued_frames(), 0);
}
