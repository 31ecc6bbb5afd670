use ringbuf::RingBuffer;
use rusty_daw_engine::host::{HostInfo, HostRequest, HostRequestType, RtHostQueue};
use rusty_daw_engine::plugin_instance_pool::{
    UniquePluginInstanceID, UniqueProcessorID, UniqueProcessorType,
};

fn info() -> HostInfo {
    HostInfo { name: "Test host", version: "1.0.0", vendor: None, url: Some("https://example.org") }
}

fn ids() -> (UniqueProcessorID, UniquePluginInstanceID) {
    (
        UniqueProcessorID { node_type: UniqueProcessorType::Internal, index: 5, name: "synth" },
        UniquePluginInstanceID(9),
    )
}

#[test]
fn host_queue_sends_nothing_without_a_processor() {
    let (tx, mut rx) = RingBuffer::<HostRequest>::new(4).split();
    let mut q = RtHostQueue::new(info(), tx);
    assert!(q.pending_request(HostRequestType::Restart).is_none());
    q.request_restart();
    q.request_process();
    q.request_callback();
    assert!(rx.pop().is_none());
    assert_eq!(q.info().name, "Test host");
    assert_eq!(q.info().url, Some("https://example.org"));
}

#[test]
fn host_queue_sends_requests_of_the_current_processor() {
    let (tx, mut rx) = RingBuffer::<HostRequest>::new(4).split();
    let mut q = RtHostQueue::new(info(), tx);
    q.prepare_for_processor(Some(ids()));
    let pending = q.pending_request(HostRequestType::Callback).unwrap();
    assert_eq!(pending.plugin_instance_id, UniquePluginInstanceID(9));
    assert_eq!(pending.request_type, HostRequestType::Callback);

    q.request_restart();
    q.request_process();
    q.request_callback();
    let kinds: Vec<HostRequestType> =
        std::iter::from_fn(|| rx.pop()).map(|r| r.request_type).collect();
    assert_eq!(
        kinds,
        vec![HostRequestType::Restart, HostRequestType::Process, HostRequestType::Callback]
    );

    q.prepare_for_processor(None);
    q.request_restart();
    assert!(rx.pop().is_none());
}

#[test]
fn host_queue_drops_requests_when_full() {
    let (tx, mut rx) = RingBuffer::<HostRequest>::new(1).split();
    let mut q = RtHostQueue::new(info(), tx);
    q.prepare_for_processor(Some(ids()));
    q.request_restart();
    q.request_callback();
    let first = rx.pop().unwrap();
    assert_eq!(first.request_type, HostRequestType::Restart);
    assert_eq!(first.process_id.index, 5);
    assert!(rx.pop().is_none());
}

#[test]
fn host_queue_switches_to_a_new_request_buffer() {
    let (tx, mut old_rx) = RingBuffer::<HostRequest>::new(1).split();
    let mut q = RtHostQueue::new(info(), tx);
    q.prepare_for_processor(Some(ids()));
    let (new_tx, mut new_rx) = RingBuffer::<HostRequest>::new(8).split();
    q.use_new_request_buffer(new_tx);
    q.request_process();
    assert!(old_rx.pop().is_none());
    assert_eq!(new_rx.pop().unwrap().request_type, HostRequestType::Process);
}
