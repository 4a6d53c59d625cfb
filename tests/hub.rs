use blah::{Hub, IdAllocator};
use futures::sync::mpsc::{unbounded, UnboundedReceiver};
use futures::Stream;

fn drain(rx: UnboundedReceiver<String>) -> Vec<String> {
    rx.wait().map(|m| m.unwrap()).collect()
}

#[test]
fn three_peers_chat_and_one_leaves() {
    let mut hub = Hub::new();
    let (txa, rxa) = unbounded();
    let (txb, rxb) = unbounded();
    let (txc, rxc) = unbounded();
    let a = hub.connect_user(txa);
    let b = hub.connect_user(txb);
    let c = hub.connect_user(txc);
    assert!(a < b && b < c);

    hub.user_message(a, Some("hello"));
    hub.user_message(a, Some("http://img.test/pic.png"));

    hub.user_disconnected(b);
    let b_seen = drain(rxb);
    hub.user_message(a, Some("bye"));
    drop(hub);

    let welcome = |id: usize| format!("{{\"userId\":{},\"initial\":true}}", id);
    let hello = format!("{{\"userId\":{},\"text\":\"hello\"}}", a);
    let img = format!(
        "{{\"userId\":{},\"text\":\"<img src=\\\"http://img.test/pic.png\\\" alt=\\\"inline image\\\" />\"}}",
        a
    );
    let bye = format!("{{\"userId\":{},\"text\":\"bye\"}}", a);

    assert_eq!(drain(rxa), vec![welcome(a)]);
    assert_eq!(b_seen, vec![welcome(b), hello.clone(), img.clone()]);
    assert_eq!(drain(rxc), vec![welcome(c), hello, img, bye]);
}

#[test]
fn first_connection_gets_id_one() {
    let mut hub = Hub::new();
    assert!(hub.can_connect());
    let (tx, rx) = unbounded();
    assert_eq!(hub.connect_user(tx), 1);
    drop(hub);
    assert_eq!(drain(rx), vec!["{\"userId\":1,\"initial\":true}".to_string()]);
}

#[test]
fn frames_that_are_not_text_are_ignored() {
    let mut hub = Hub::new();
    let (txa, rxa) = unbounded();
    let (txb, rxb) = unbounded();
    let a = hub.connect_user(txa);
    let _b = hub.connect_user(txb);
    hub.user_message(a, None);
    drop(hub);
    assert_eq!(drain(rxa).len(), 1);
    assert_eq!(drain(rxb).len(), 1);
}

#[test]
fn disconnect_twice_is_harmless() {
    let mut hub = Hub::new();
    let (txa, rxa) = unbounded();
    let (txb, _rxb) = unbounded();
    let a = hub.connect_user(txa);
    let b = hub.connect_user(txb);
    hub.user_disconnected(b);
    hub.user_disconnected(b);
    hub.user_disconnected(99);
    hub.user_message(b, Some(" late "));
    drop(hub);
    assert_eq!(
        drain(rxa),
        vec![
            format!("{{\"userId\":{},\"initial\":true}}", a),
            format!("{{\"userId\":{},\"text\":\"late\"}}", b),
        ]
    );
}

#[test]
fn ids_are_never_reused() {
    let mut hub = Hub::new();
    let mut seen = Vec::new();
    for _ in 0..5 {
        let (tx, _rx) = unbounded();
        let id = hub.connect_user(tx);
        hub.user_disconnected(id);
        seen.push(id);
    }
    assert_eq!(seen, vec![1, 2, 3, 4, 5]);
    let mut alloc = IdAllocator::new();
    assert_eq!(alloc.next_id(), 1);
}

#[test]
fn closed_peer_queue_is_invisible_to_others() {
    let mut hub = Hub::new();
    let (txa, rxa) = unbounded();
    let (txb, rxb) = unbounded::<String>();
    let (txc, rxc) = unbounded();
    let a = hub.connect_user(txa);
    let _b = hub.connect_user(txb);
    let c = hub.connect_user(txc);
    drop(rxb);
    hub.user_message(a, Some("hi"));
    drop(hub);
    assert_eq!(drain(rxa).len(), 1);
    assert_eq!(
        drain(rxc),
        vec![
            format!("{{\"userId\":{},\"initial\":true}}", c),
            format!("{{\"userId\":{},\"text\":\"hi\"}}", a),
        ]
    );
}

#[test]
fn text_after_ignored_frame_is_relayed_in_order() {
    let mut hub = Hub::new();
    let (txa, _rxa) = unbounded();
    let (txb, rxb) = unbounded();
    let a = hub.connect_user(txa);
    let b = hub.connect_user(txb);
    hub.user_message(a, None);
    hub.user_message(a, Some("one"));
    hub.user_message(a, Some("two"));
    drop(hub);
    assert_eq!(
        drain(rxb),
        vec![
            format!("{{\"userId\":{},\"initial\":true}}", b),
            format!("{{\"userId\":{},\"text\":\"one\"}}", a),
            format!("{{\"userId\":{},\"text\":\"two\"}}", a),
        ]
    );
}
