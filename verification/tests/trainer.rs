use sketchnet::trainer::{TrainerSchedule, FLUSH_INTERVAL};

#[test]
fn schedule_flushes_every_interval() {
    let mut sched = TrainerSchedule::new();
    let mut flushes = Vec::new();
    for i in 1u64..=450 {
        let flush = sched.begin_iteration();
        assert_eq!(flush, i % FLUSH_INTERVAL == 0);
        if flush {
            flushes.push(i);
        }
    }
    assert_eq!(flushes, vec![200, 400]);
}

#[test]
fn schedule_batches_samples_in_order() {
    let mut sched = TrainerSchedule::new();
    sched.record_error(1.5f32.to_bits());
    sched.record_error(0.25f32.to_bits());
    let batch = sched.take_pending();
    let vals: Vec<f32> = batch.iter().map(|c| f32::from_bits(*c)).collect();
    assert_eq!(vals, vec![1.5, 0.25]);
    assert!(sched.take_pending().is_empty());
    sched.record_error(2.0f32.to_bits());
    assert_eq!(sched.take_pending().len(), 1);
}
