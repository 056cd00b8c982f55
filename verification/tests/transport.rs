use xoq::address::{
    first_relay, is_relay_path, locate_camera, parse_url, quic_relay, relay_and_path, AddressError,
};
use xoq::chat::{
    channel_url, new_session, path_in_session, ChatMessage, Discovery, DiscoveryEvent,
    DiscoveryStep,
};
use xoq::iroh::{
    identity_from_file, key_from_bytes, low_latency_transport_config, Identity, IrohClientBuilder,
    IrohServerBuilder, KeyError, KeySource, NoopController, TransportSettings,
};
use xoq::moq::{
    after_attempt, await_broadcast, Announcement, Attempt, Awaited, Group, MoqBuilder, Next, Side,
    TrackEvent, TrackReader, TrackStep, TrackWriter,
};
use xoq::serial::{baud, DataBits, Parity, SerialConfig, StopBits};

#[test]
fn urls_are_taken_apart() {
    let parts = parse_url("HTTPS://Relay.example:8443/a/b?token=x").unwrap();
    assert_eq!(parts.text, "https://relay.example:8443/a/b?token=x");
    assert_eq!((parts.scheme.as_str(), parts.host.as_deref()), ("https", Some("relay.example")));
    assert_eq!((parts.port, parts.path.as_str()), (Some(8443), "/a/b"));
    assert_eq!(parse_url("https://r:443/").unwrap().port, None);
    assert_eq!(parse_url("anon/x").unwrap_err(), AddressError::NotAUrl);
    assert_eq!(relay_and_path(&parts, "given"), ("https://relay.example:8443".to_string(), "a/b".to_string()));
    assert_eq!(quic_relay(&parts, "given"), "given");
}

#[test]
fn cameras_are_located() {
    let located = |s: &str| locate_camera(s).unwrap();
    let pair = |a: &str, b: &str| (a.to_string(), b.to_string());
    assert_eq!(located("anon/realsense"), pair("https://cdn.1ms.ai:443", "anon/realsense"));
    assert_eq!(located("https://r:1/x/y"), pair("https://r:1", "x/y"));
    assert_eq!(located("https://r"), pair("https://r:443", "https://r"));
    assert_eq!(locate_camera("http://[").unwrap_err(), AddressError::NotAUrl);
    assert_eq!(first_relay("https://r/p").unwrap(), "https://r:4443/p");
    assert_eq!(first_relay("https://r:5/p").unwrap(), "https://r:5/p");
    assert_eq!(first_relay("r").unwrap_err(), AddressError::NotAUrl);
    assert!(is_relay_path("anon/x") && !is_relay_path("abcdef"));
}

#[test]
fn relay_addresses() {
    let builder = MoqBuilder::new();
    assert_eq!(builder.address(), "https://cdn.moq.dev/anon/xoq");
    let builder = builder.relay("https://r").path("p").token("t").disable_tls_verify();
    assert_eq!(builder.address(), "https://r/p?token=t");
    assert!(builder.disable_tls_verify);
    assert_eq!(builder.build_url().unwrap().path, "/p");
    assert_eq!(MoqBuilder::default().relay("no").build_url().unwrap_err(), AddressError::NotAUrl);
}

#[test]
fn sides_of_a_stream_meet() {
    let (out, back) = Side::Client.builders("https://r", "p", false);
    let (peer_out, peer_back) = Side::Server.builders("https://r", "p", true);
    assert_eq!(out.address(), "https://r/p/c2s");
    assert_eq!(out.address(), peer_back.address());
    assert_eq!(back.address(), peer_out.address());
    assert!(!out.disable_tls_verify && peer_out.disable_tls_verify && peer_back.disable_tls_verify);
}

#[test]
fn subscriptions() {
    assert_eq!(await_broadcast(Announcement::Begins), Awaited::Subscribe);
    assert_eq!(await_broadcast(Announcement::Ends), Awaited::Wait);
    assert_eq!(await_broadcast(Announcement::Closed), Awaited::Absent);
    assert_eq!(await_broadcast(Announcement::TimedOut), Awaited::Fail);
    assert_eq!(after_attempt(Attempt::NoConnection), Next::Fail);
    assert_eq!(after_attempt(Attempt::Subscribed), Next::Done);
    assert_eq!(after_attempt(Attempt::NotYet), Next::RetryAfter(500));
}

#[test]
fn tracks_are_read_group_by_group() {
    let mut reader = TrackReader::new();
    assert!(matches!(reader.begin(), TrackStep::NextGroup));
    assert!(matches!(reader.step(TrackEvent::GroupBegan), TrackStep::ReadFrame));
    assert!(matches!(reader.step(TrackEvent::Frame(vec![1])), TrackStep::Deliver(d) if d == vec![1]));
    assert!(matches!(reader.begin(), TrackStep::ReadFrame));
    assert!(matches!(reader.step(TrackEvent::GroupEnded), TrackStep::NextGroup));
    assert!(matches!(reader.step(TrackEvent::TrackEnded), TrackStep::End));
    assert!(matches!(reader.step(TrackEvent::GroupFailed), TrackStep::Fail));
    let mut writer = TrackWriter::new();
    assert_eq!(writer.write(), Group::Own);
    assert_eq!(writer.write_stream(), Group::OpenShared);
    assert_eq!(writer.write_stream(), Group::Shared);
    assert_eq!(writer.write(), Group::Own);
}

#[test]
fn identities() {
    let key = [7u8; 32];
    assert_eq!(key_from_bytes(&key), Ok(key));
    assert_eq!(key_from_bytes(&key[..31]), Err(KeyError::InvalidKeyFile));
    assert_eq!(identity_from_file(Some(&key)), Ok(Identity::Use(key)));
    assert_eq!(identity_from_file(Some(&[])), Err(KeyError::InvalidKeyFile));
    assert_eq!(identity_from_file(None), Ok(Identity::GenerateAndSave));
    let builder = IrohServerBuilder::new();
    assert_eq!(builder.alpn, b"xoq/p2p/0".to_vec());
    assert!(matches!(builder.key_source(), KeySource::Generate));
    let builder = IrohServerBuilder::default().identity_path("f").alpn(b"x");
    assert_eq!(builder.alpn, b"x".to_vec());
    assert!(matches!(builder.key_source(), KeySource::File(p) if p == "f"));
    let builder = IrohServerBuilder::new().identity_path("f").secret_key(key);
    assert!(matches!(builder.key_source(), KeySource::Given(k) if k == key));
    assert_eq!(IrohClientBuilder::new().alpn, b"xoq/p2p/0".to_vec());
    assert_eq!(IrohClientBuilder::default().alpn(b"y").alpn, b"y".to_vec());
}

#[test]
fn sending_is_never_limited() {
    let mut controller = NoopController::new(1200);
    controller.on_congestion_event();
    assert_eq!((controller.mtu, controller.window()), (1200, u64::MAX));
    controller.on_mtu_update(1400);
    assert_eq!((controller.mtu, controller.initial_window()), (1400, u64::MAX));
    assert_eq!(
        low_latency_transport_config(),
        TransportSettings {
            initial_rtt_ms: 10,
            keep_alive_interval_ms: 1000,
            ack_eliciting_threshold: 0,
            max_ack_delay_ms: 1,
            segmentation_offload: false,
        }
    );
}

#[test]
fn serial_defaults() {
    let config = SerialConfig::new("/dev/ttyUSB0", baud::B115200);
    assert_eq!((config.port.as_str(), config.baud_rate), ("/dev/ttyUSB0", 115200));
    assert_eq!(config.data_bits, DataBits::Eight);
    assert_eq!((config.parity, config.stop_bits), (Parity::NoParity, StopBits::One));
}

#[test]
fn messages_read_back() {
    let name = "Zoë \"z\"";
    let text = "line\n\u{1F916} \\";
    let bytes = ChatMessage::encode(name, text, u64::MAX);
    let message = ChatMessage::decode(&bytes).unwrap();
    assert_eq!((message.name.as_str(), message.text.as_str(), message.ts), (name, text, u64::MAX));
    assert_eq!(
        ChatMessage::encode("a", "b", 3),
        b"{\"name\":\"a\",\"text\":\"b\",\"ts\":3}".to_vec()
    );
}

#[test]
fn messages_with_missing_fields() {
    let message = ChatMessage::decode(b"{\"text\": \"hi\", \"ts\": -1, \"name\": 5}").unwrap();
    assert_eq!((message.name.as_str(), message.text.as_str(), message.ts), ("", "hi", 0));
    assert_eq!(ChatMessage::decode(b"[]").unwrap().text, "");
    assert!(ChatMessage::decode(b"{").is_none());
    assert!(ChatMessage::decode(&[0x22, 0xFF, 0x22]).is_none());
    let message = ChatMessage::from_fields(Some("n".to_string()), None, Some(4));
    assert_eq!((message.name.as_str(), message.text.as_str(), message.ts), ("n", "", 4));
}

#[test]
fn sessions_have_six_digits() {
    assert_eq!(path_in_session("ann", 0xAB), "ann_0000ab");
    assert_eq!(path_in_session("ann", 0xFF_FFFF), "ann_ffffff");
    let path = new_session("ann");
    assert!(path.starts_with("ann_") && path.len() == 10);
    assert!(path[4..].chars().all(|c| c.is_ascii_hexdigit() && !c.is_ascii_uppercase()));
    let others: Vec<String> = (0..8).map(|_| new_session("ann")).collect();
    assert!(others.iter().any(|p| *p != path));
    assert_eq!(channel_url("https://r", "room").unwrap().path, "/room");
    assert_eq!(channel_url("r", "room").unwrap_err(), AddressError::NotAUrl);
}

#[test]
fn users_are_discovered_once() {
    let announced = |p: &str| DiscoveryEvent::Announced(p.to_string());
    let discovery = Discovery::new("me");
    let (discovery, step) = discovery.step(announced("me"));
    assert_eq!(step, DiscoveryStep::Wait);
    let (discovery, step) = discovery.step(announced("ann"));
    assert_eq!(step, DiscoveryStep::Subscribe);
    let (discovery, step) = discovery.step(announced("ann"));
    assert_eq!(step, DiscoveryStep::Wait);
    let (discovery, step) = discovery.step(DiscoveryEvent::SubscriptionFailed("ann".to_string()));
    assert_eq!(step, DiscoveryStep::Wait);
    let (discovery, step) = discovery.step(announced("ann"));
    assert_eq!(step, DiscoveryStep::Subscribe);
    let (discovery, step) = discovery.step(DiscoveryEvent::Unannounced);
    assert_eq!(step, DiscoveryStep::Wait);
    assert_eq!(discovery.step(DiscoveryEvent::Closed).1, DiscoveryStep::Stop);
}
