use module_live_telemetry::dashboard::SendError;
use module_live_telemetry::distributor::TelemetryDistributor;
use module_live_telemetry::latest_value::{ChannelSink, ValuesFrame};
use std::sync::Arc;

struct Frame {
    sample_tick: u64,
}

fn make_frame(tick: u64) -> Frame {
    Frame { sample_tick: tick }
}

#[test]
fn test_single_consumer() {
    let mut distributor = TelemetryDistributor::new(10);
    let rx = distributor.add_consumer();

    distributor.distribute(Arc::new(make_frame(1)));
    distributor.distribute(Arc::new(make_frame(2)));

    let f1 = rx.try_recv().unwrap();
    let f2 = rx.try_recv().unwrap();

    assert_eq!(f1.sample_tick, 1);
    assert_eq!(f2.sample_tick, 2);
}

#[test]
fn test_multiple_consumers() {
    let mut distributor = TelemetryDistributor::new(10);
    let rx1 = distributor.add_consumer();
    let rx2 = distributor.add_consumer();

    distributor.distribute(Arc::new(make_frame(42)));

    let f1 = rx1.try_recv().unwrap();
    let f2 = rx2.try_recv().unwrap();

    assert_eq!(f1.sample_tick, 42);
    assert_eq!(f2.sample_tick, 42);
}

#[test]
fn test_arc_shared_data() {
    let mut distributor = TelemetryDistributor::new(10);
    let rx1 = distributor.add_consumer();
    let rx2 = distributor.add_consumer();

    distributor.distribute(Arc::new(make_frame(100)));

    let f1 = rx1.try_recv().unwrap();
    assert_eq!(f1.sample_tick, 100);
    let f2 = rx2.try_recv().unwrap();
    assert!(Arc::ptr_eq(&f1, &f2));
    drop(f1);
}

#[test]
fn test_overflow_drops_new() {
    let mut distributor = TelemetryDistributor::new(2);
    let rx = distributor.add_consumer();

    distributor.distribute(Arc::new(make_frame(1)));
    distributor.distribute(Arc::new(make_frame(2)));
    distributor.distribute(Arc::new(make_frame(3)));

    let f1 = rx.try_recv().unwrap();
    let f2 = rx.try_recv().unwrap();

    assert_eq!(f1.sample_tick, 1);
    assert_eq!(f2.sample_tick, 2);
    assert!(rx.try_recv().is_err());
}

#[test]
fn test_consumer_count() {
    let mut distributor: TelemetryDistributor<Frame> = TelemetryDistributor::new(10);
    assert_eq!(distributor.consumer_count(), 0);

    distributor.add_consumer();
    assert_eq!(distributor.consumer_count(), 1);

    distributor.add_consumer();
    assert_eq!(distributor.consumer_count(), 2);
}

fn values_frame(values: &[(&str, f64)]) -> ValuesFrame {
    ValuesFrame {
        subscription_generation: 0,
        sample_tick: 7,
        timestamp_ns: 99,
        values: values.iter().map(|(k, v)| (k.to_string(), v.to_bits())).collect(),
    }
}

#[test]
fn test_channel_sink_sends_data() {
    let (tx, rx) = crossbeam_channel::bounded::<ValuesFrame>(10);
    let sink = ChannelSink::new(tx);
    sink.send(values_frame(&[("speed_mps", 27.78)])).unwrap();

    let received = rx.try_recv().unwrap();
    assert_eq!(received.sample_tick, 7);
    assert_eq!(received.timestamp_ns, 99);
    assert_eq!(received.values, vec![("speed_mps".to_string(), 27.78f64.to_bits())]);
}

#[test]
fn test_channel_sink_overflow() {
    let (tx, rx) = crossbeam_channel::bounded::<ValuesFrame>(1);
    let sink = ChannelSink::new(tx);
    sink.send(values_frame(&[("a", 1.0)])).unwrap();
    assert_eq!(sink.send(values_frame(&[("b", 2.0)])).unwrap_err(), SendError::ChannelFull);

    let received = rx.try_recv().unwrap();
    assert_eq!(received.values[0].0, "a");
    assert!(rx.try_recv().is_err());
    drop(rx);
    assert_eq!(sink.send(values_frame(&[("c", 3.0)])).unwrap_err(), SendError::Disconnected);
}
