use plugin_core::interfaces::{DataBuffer, PluginFactory, PluginLoader, PluginWorker};
use plugin_core::stats::Loader;

fn feed<W: PluginWorker>(worker: &mut W, values: &[i64]) {
    for &v in values {
        worker.consume_inputs(DataBuffer { data: v }).unwrap();
    }
}

#[test]
fn mean_and_variance_of_zero_through_nine() {
    let bytes = vec![0u8; 32];
    let factory = Loader {}.load_factory_from_bytes(&bytes);
    let mut worker = factory.new_worker();
    feed(&mut worker, &[0, 1, 2, 3, 4, 5, 6, 7, 8, 9]);
    assert_eq!(worker.render(), "(4.5, 8.25)");
}

#[test]
fn reversed_inputs_give_the_same_report() {
    let bytes = vec![0u8; 32];
    let factory = Loader {}.load_factory_from_bytes(&bytes);
    let mut forward = factory.new_worker();
    let mut backward = factory.new_worker();
    feed(&mut forward, &[0, 1, 2, 3, 4, 5, 6, 7, 8, 9]);
    feed(&mut backward, &[9, 8, 7, 6, 5, 4, 3, 2, 1, 0]);
    assert_eq!(forward.render(), backward.render());
    assert_eq!(forward.render(), "(4.5, 8.25)");
}

#[test]
fn workers_from_one_factory_accumulate_independently() {
    let bytes = vec![0u8; 32];
    let factory = Loader {}.load_factory_from_bytes(&bytes);
    let mut first = factory.new_worker();
    let mut second = factory.new_worker();
    feed(&mut first, &[0, 1, 2, 3, 4, 5, 6, 7, 8, 9]);
    feed(&mut second, &[100]);
    assert_eq!(first.render(), "(4.5, 8.25)");
    assert_eq!(second.render(), "(100, 0)");
}

#[test]
fn fresh_worker_renders_zeros() {
    let bytes = vec![0u8; 32];
    let factory = Loader {}.load_factory_from_bytes(&bytes);
    let worker = factory.new_worker();
    assert_eq!(worker.render(), "(0, 0)");
}

#[test]
fn single_input_has_zero_variance() {
    let bytes = vec![0u8; 32];
    let factory = Loader {}.load_factory_from_bytes(&bytes);
    let mut worker = factory.new_worker();
    feed(&mut worker, &[5]);
    assert_eq!(worker.render(), "(5, 0)");
}

#[test]
fn negative_inputs_render_a_signed_mean() {
    let bytes = vec![0u8; 32];
    let factory = Loader {}.load_factory_from_bytes(&bytes);
    let mut worker = factory.new_worker();
    feed(&mut worker, &[-1, -2]);
    assert_eq!(worker.render(), "(-1.5, 0.25)");
}

#[test]
fn repeated_value_has_whole_mean_and_zero_variance() {
    let bytes = vec![0u8; 32];
    let factory = Loader {}.load_factory_from_bytes(&bytes);
    let mut worker = factory.new_worker();
    feed(&mut worker, &[2, 2]);
    assert_eq!(worker.render(), "(2, 0)");
}

#[test]
fn non_terminating_fractions_are_truncated_to_two_places() {
    let bytes = vec![0u8; 32];
    let factory = Loader {}.load_factory_from_bytes(&bytes);
    let mut worker = factory.new_worker();
    feed(&mut worker, &[1, 0, 0]);
    // mean 1/3 and variance 2/9, truncated toward zero at two places
    assert_eq!(worker.render(), "(0.33, 0.22)");
}

#[test]
fn out_of_range_input_is_rejected_and_state_is_kept() {
    let bytes = vec![0u8; 32];
    let factory = Loader {}.load_factory_from_bytes(&bytes);
    let mut worker = factory.new_worker();
    feed(&mut worker, &[1, 2]);
    let before = worker.render();
    let r = worker.consume_inputs(DataBuffer { data: 1_000_001 });
    assert!(r.is_err());
    let r = worker.consume_inputs(DataBuffer { data: -1_000_001 });
    assert!(r.is_err());
    assert_eq!(worker.render(), before);
}

#[test]
fn largest_accepted_magnitude_is_consumed() {
    let bytes = vec![0u8; 32];
    let factory = Loader {}.load_factory_from_bytes(&bytes);
    let mut worker = factory.new_worker();
    worker
        .consume_inputs(DataBuffer { data: 1_000_000 })
        .unwrap();
    worker
        .consume_inputs(DataBuffer { data: -1_000_000 })
        .unwrap();
    assert_eq!(worker.render(), "(0, 1000000000000)");
}

#[test]
fn factories_from_empty_bytes_still_work() {
    let bytes: Vec<u8> = Vec::new();
    let factory = Loader {}.load_factory_from_bytes(&bytes);
    let mut worker = factory.new_worker();
    feed(&mut worker, &[7]);
    assert_eq!(worker.render(), "(7, 0)");
}
