use turbine::websocket::{compute_accept, is_upgrade_headers, WsConfig};

#[test]
fn accept_key_matches_rfc_example() {
    assert_eq!(compute_accept("dGhlIHNhbXBsZSBub25jZQ=="), "s3pPLMBiTxaQ9kYGzzhZRbK+xOo=");
}

#[test]
fn upgrade_header_detection() {
    assert!(is_upgrade_headers(Some("WebSocket"), Some("keep-alive, Upgrade")));
    assert!(!is_upgrade_headers(Some("websocket"), Some("keep-alive")));
    assert!(!is_upgrade_headers(None, Some("upgrade")));
    assert!(!is_upgrade_headers(Some("h2c"), Some("upgrade")));
}

#[test]
fn ws_config_defaults() {
    let c = WsConfig::default();
    assert_eq!(c.max_channels, 128);
    assert_eq!(c.channel_capacity, 256);
    assert_eq!(c.max_frame_size, 65_536);
    assert_eq!(c.idle_timeout_secs, 300);
}

#[test]
fn publish_to_absent_channel_creates_it() {
    let mut hub = turbine::websocket::WsHub::new(turbine::websocket::WsConfig::default());
    let n = hub.publish("c", b"hello".to_vec()).unwrap();
    // No subscribers yet — 0 receivers.
    assert_eq!(n, 0);
    assert_eq!(hub.stats().channels, 1);
    assert_eq!(hub.stats().published, 1);
}

#[test]
fn publish_rejects_past_channel_cap() {
    let mut hub = turbine::websocket::WsHub::new(turbine::websocket::WsConfig {
        max_channels: 1,
        ..Default::default()
    });
    hub.publish("a", b"x".to_vec()).unwrap();
    assert!(hub.publish("b", b"y".to_vec()).is_none());
    assert_eq!(hub.stats().rejected, 1);
}

#[test]
fn subscriber_gets_published_frame() {
    let mut hub = turbine::websocket::WsHub::new(turbine::websocket::WsConfig::default());
    let mut rx = hub.subscribe("c").unwrap();
    assert_eq!(hub.subscriber_count("c"), 1);
    assert_eq!(hub.subscriber_count("other"), 0);
    assert_eq!(hub.publish("c", b"hello".to_vec()), Some(1));
    let frame = rx.try_recv().unwrap();
    assert_eq!(frame.as_ref(), b"hello");
    let s = hub.stats();
    assert_eq!((s.channels, s.published, s.subscribed, s.rejected), (1, 1, 1, 0));
    drop(rx);
    assert_eq!(hub.subscriber_count("c"), 0);
}

#[test]
fn subscribe_rejected_past_channel_cap() {
    let mut hub = turbine::websocket::WsHub::new(turbine::websocket::WsConfig {
        max_channels: 0,
        ..Default::default()
    });
    assert!(hub.subscribe("a").is_none());
    assert_eq!(hub.stats().rejected, 1);
    assert_eq!(hub.stats().channels, 0);
}

#[test]
fn subscriber_receives_publish() {
    let mut hub = turbine::websocket::WsHub::new(WsConfig::default());
    let mut rx = hub.subscribe("c").unwrap();
    hub.publish("c", b"hello".to_vec()).unwrap();
    let frame = rx.try_recv().unwrap();
    assert_eq!(frame.as_ref(), b"hello");
}
