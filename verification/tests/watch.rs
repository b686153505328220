use futures::channel::mpsc;
use slayerfs::xline::benchmark::{requested, sorted, summary, Figures};
use slayerfs::xline::error::XlineClientError;
use slayerfs::xline::lease::{LeaseKeepAliveRequest, LeaseKeeper, LeaseStreaming};
use slayerfs::xline::range_end::{get_prefix, RangeOption};
use slayerfs::xline::streaming::message;
use slayerfs::xline::watch::{
    WatchCreateRequest, WatchFilterType, WatchOptions, WatchRequest, WatchStreaming, Watcher,
};

fn make_pair() -> (Watcher, WatchStreaming<()>, mpsc::Receiver<WatchRequest>) {
    let (tx, rx) = mpsc::channel::<WatchRequest>(128);
    let watcher = Watcher::new(1, tx.clone());
    let streaming = WatchStreaming::new((), tx);
    (watcher, streaming, rx)
}

#[test]
fn test_watch_request_build_from_watch_options() {
    let options = WatchOptions::default().with_prev_kv().with_key(b"key".to_vec());
    let request = WatchCreateRequest::from(options.clone());
    assert!(request.prev_kv);
    assert!(request.range_end.is_empty());

    let options2 = options.clone().with_prefix();
    let request = WatchCreateRequest::from(options2.clone());
    assert_eq!(request.range_end, get_prefix(&b"key".to_vec()));
}

#[test]
fn watcher_close_marks_both_closed() {
    let (mut watcher, streaming, _rx) = make_pair();
    assert!(!watcher.is_closed());
    assert!(!streaming.is_closed());
    watcher.close();
    assert!(watcher.is_closed());
    assert!(streaming.is_closed());
}

#[test]
fn watch_streaming_close_marks_both_closed() {
    let (watcher, mut streaming, _rx) = make_pair();
    assert!(!watcher.is_closed());
    assert!(!streaming.is_closed());
    streaming.close();
    assert!(watcher.is_closed());
    assert!(streaming.is_closed());
}

#[test]
fn watcher_close_idempotent() {
    let (mut watcher, _streaming, _rx) = make_pair();
    watcher.close();
    watcher.close();
    watcher.close();
    assert!(watcher.is_closed());
}

#[test]
fn watch_streaming_close_idempotent() {
    let (_watcher, mut streaming, _rx) = make_pair();
    streaming.close();
    streaming.close();
    streaming.close();
    assert!(streaming.is_closed());
}

#[test]
fn drop_watcher_alone_does_not_close_channel() {
    let (tx, rx) = mpsc::channel::<WatchRequest>(128);
    let watcher = Watcher::new(1, tx.clone());
    let streaming = WatchStreaming::new((), tx);
    drop(watcher);
    let _rx = rx;
    assert!(!streaming.is_closed());
}

#[test]
fn drop_streaming_then_watcher_closes_channel() {
    let (tx, rx) = mpsc::channel::<WatchRequest>(128);
    let watcher = Watcher::new(1, tx.clone());
    let streaming = WatchStreaming::new((), tx);
    let _rx = rx;
    drop(streaming);
    assert!(!watcher.is_closed());
    drop(watcher);
}

#[test]
fn watcher_send_after_close_errors() {
    let (mut watcher, _streaming, _rx) = make_pair();
    watcher.close();
    match watcher.watch(WatchOptions::default().with_key(b"k".to_vec())) {
        Err(XlineClientError::WatchError(msg)) => assert!(
            msg.contains("closed")
                || msg.contains("disconnected")
                || msg.contains("full")
                || msg.contains("gone")
        ),
        other => panic!("unexpected: {other:?}"),
    }
    assert!(watcher.cancel().is_err());
    assert!(watcher.request_progress().is_err());
}

#[test]
fn requests_arrive_in_their_order() {
    let (mut watcher, _streaming, mut rx) = make_pair();
    assert_eq!(watcher.watch_id(), 1);
    watcher
        .watch(WatchOptions::default().with_key(b"a".to_vec()).with_prefix())
        .unwrap();
    watcher.cancel().unwrap();
    watcher.cancel_by_id(9).unwrap();
    watcher.request_progress().unwrap();
    match rx.try_recv().unwrap() {
        WatchRequest::Create(request) => {
            assert_eq!(request.key, b"a".to_vec());
            assert_eq!(request.range_end, b"b".to_vec());
        }
        other => panic!("unexpected: {other:?}"),
    }
    assert_eq!(rx.try_recv().unwrap(), WatchRequest::Cancel { watch_id: 1 });
    assert_eq!(rx.try_recv().unwrap(), WatchRequest::Cancel { watch_id: 9 });
    assert_eq!(rx.try_recv().unwrap(), WatchRequest::Progress);
}

#[test]
fn a_full_channel_is_told() {
    let (tx, _rx) = mpsc::channel::<WatchRequest>(0);
    let mut watcher = Watcher::new(1, tx);
    watcher.request_progress().unwrap();
    match watcher.request_progress() {
        Err(XlineClientError::WatchError(msg)) => {
            assert_eq!(msg, "send failed because channel is full")
        }
        other => panic!("unexpected: {other:?}"),
    }
}

#[test]
fn keep_alives_are_sent_for_the_lease() {
    let (tx, mut rx) = mpsc::channel::<LeaseKeepAliveRequest>(8);
    let mut keeper = LeaseKeeper::new(42, tx.clone());
    let streaming = LeaseStreaming::new("replies", tx);
    assert_eq!(keeper.id(), 42);
    assert_eq!(streaming.inner, "replies");
    keeper.keep_alive().unwrap();
    assert_eq!(rx.try_recv().unwrap(), LeaseKeepAliveRequest { id: 42 });
    drop(rx);
    match keeper.keep_alive() {
        Err(XlineClientError::LeaseError(msg)) => {
            assert_eq!(msg, "send failed because receiver is gone")
        }
        other => panic!("unexpected: {other:?}"),
    }
}

#[test]
fn options_become_a_request() {
    let options = WatchOptions::default()
        .with_key(b"k".to_vec())
        .with_range_end(b"z".to_vec())
        .with_start_revision(7)
        .with_progress_notify()
        .with_filters(vec![WatchFilterType::NoDelete, WatchFilterType::NoPut])
        .with_watch_id(3)
        .with_fragment();
    let request = WatchCreateRequest::from(options);
    assert_eq!(
        request,
        WatchCreateRequest {
            key: b"k".to_vec(),
            range_end: b"z".to_vec(),
            start_revision: 7,
            progress_notify: true,
            filters: vec![1, 0],
            prev_kv: false,
            watch_id: 3,
            fragment: true,
        }
    );
    assert_eq!(i32::from(WatchFilterType::NoPut), 0);
    assert_eq!(i32::from(WatchFilterType::NoDelete), 1);
}

#[test]
fn ranges_end_behind_their_last_key() {
    let end = |option: RangeOption, key: &[u8]| {
        let mut k = key.to_vec();
        let e = option.get_range_end(&mut k);
        (k, e)
    };
    assert_eq!(end(RangeOption::SingleKey, b"a"), (b"a".to_vec(), vec![]));
    assert_eq!(end(RangeOption::Prefix, b"ab"), (b"ab".to_vec(), b"ac".to_vec()));
    assert_eq!(end(RangeOption::Prefix, &[1, 0xff]), (vec![1, 0xff], vec![2]));
    assert_eq!(end(RangeOption::Prefix, &[0xff, 0xff]), (vec![0xff, 0xff], vec![0]));
    assert_eq!(end(RangeOption::Prefix, b""), (vec![0], vec![0]));
    assert_eq!(end(RangeOption::FromKey, b"a"), (b"a".to_vec(), vec![0]));
    assert_eq!(end(RangeOption::FromKey, b""), (vec![0], vec![0]));
    assert_eq!(
        end(RangeOption::RangeEnd(b"q".to_vec()), b"a"),
        (b"a".to_vec(), b"q".to_vec())
    );
}

#[test]
fn a_stream_yields_messages_failures_and_its_end() {
    assert_eq!(message::<u8, &str>(Some(Ok(1))), Ok(Some(1)));
    assert_eq!(message::<u8, &str>(Some(Err("lost"))), Err("lost"));
    assert_eq!(message::<u8, &str>(None), Ok(None));
}

#[test]
fn benchmark_figures() {
    let args = |list: &[&str]| list.iter().map(|s| s.to_string()).collect::<Vec<String>>();
    assert_eq!(requested(&args(&["bench"])), 100);
    assert_eq!(requested(&args(&["bench", "--requests", "250"])), 250);
    assert_eq!(requested(&args(&["bench", "--requests", "many"])), 100);
    assert_eq!(requested(&args(&["bench", "--requests"])), 100);

    let times = sorted(&vec![30, 10, 20, 40]);
    assert_eq!(times, vec![10, 20, 30, 40]);
    assert_eq!(
        summary(&times),
        Figures { total: 100, avg: 25, p50: 30, p95: 40, p99: 40, min: 10, max: 40 }
    );
}

#[test]
fn watch_from_a_key_on() {
    let options = WatchOptions::default().with_key(b"key".to_vec()).with_from_key();
    let request = WatchCreateRequest::from(options);
    assert_eq!(request.key, b"key".to_vec());
    assert_eq!(request.range_end, vec![0u8]);
}
