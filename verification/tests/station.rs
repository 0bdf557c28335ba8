use robo_radio::media_player::{CurrentTrack, MediaPlayer};
use robo_radio::radio::Station;
use robo_radio::soundcloud::ApiClient;
use robo_radio::ws::{Client, Listeners};
use tokio::sync::mpsc::error::TryRecvError;
use tokio::sync::mpsc::{unbounded_channel, UnboundedReceiver};

fn snapshot_206() -> CurrentTrack {
    CurrentTrack {
        started_at: 1700000000000,
        id: 206,
        permalink_url: "https://example.com/t/206".to_string(),
        duration: 185000,
        title: "Night Drive".to_string(),
        artist: "Neon".to_string(),
        artist_permalink: "https://example.com/neon".to_string(),
        url: "https://cdn.example.com/stream/206".to_string(),
        token: "tok-206".to_string(),
    }
}

fn live_station() -> Station {
    let mut mp = MediaPlayer::new("cid".to_string(), 0);
    mp.current_track = Some(snapshot_206());
    Station::new(mp)
}

fn drain(rx: &mut UnboundedReceiver<String>) -> Vec<String> {
    let mut out = Vec::new();
    loop {
        match rx.try_recv() {
            Ok(m) => out.push(m),
            Err(TryRecvError::Empty) => return out,
            Err(TryRecvError::Disconnected) => return out,
        }
    }
}

#[test]
fn connect_sends_snapshot_then_listener_count() {
    // A listener connecting while track 206 plays immediately receives the
    // track event, then the grown listener count as a broadcast.
    let mut st = live_station();
    let (tx, mut rx) = unbounded_channel::<String>();
    let _id = st.on_connect(tx);
    let got = drain(&mut rx);
    assert_eq!(got.len(), 2);
    assert!(got[0].starts_with("{\"event\":\"track\",\"data\":{"));
    assert!(got[0].contains("\"id\":206"));
    assert_eq!(got[1], "{\"event\":\"listeners\",\"data\":1}");
}

#[test]
fn second_connect_broadcasts_count_to_everyone() {
    let mut st = live_station();
    let (tx_a, mut rx_a) = unbounded_channel::<String>();
    let (tx_b, mut rx_b) = unbounded_channel::<String>();
    let id_a = st.on_connect(tx_a);
    let id_b = st.on_connect(tx_b);
    assert_ne!(id_a, id_b);
    let got_a = drain(&mut rx_a);
    // The first listener saw its own snapshot and count 1, then the second
    // listener's count 2 broadcast.
    assert_eq!(got_a.len(), 3);
    assert_eq!(got_a[2], "{\"event\":\"listeners\",\"data\":2}");
    let got_b = drain(&mut rx_b);
    assert_eq!(got_b.len(), 2);
    assert!(got_b[0].contains("\"id\":206"));
    assert_eq!(got_b[1], "{\"event\":\"listeners\",\"data\":2}");
}

#[test]
fn ping_gets_exactly_one_private_pong() {
    let mut st = live_station();
    let (tx_a, mut rx_a) = unbounded_channel::<String>();
    let (tx_b, mut rx_b) = unbounded_channel::<String>();
    let id_a = st.on_connect(tx_a);
    let _id_b = st.on_connect(tx_b);
    drain(&mut rx_a);
    drain(&mut rx_b);

    for frame in ["ping", "PING\n", " ping "] {
        assert!(st.on_message(id_a, frame));
        assert_eq!(drain(&mut rx_a), vec!["PONG".to_string()]);
        // No broadcast: the other listener hears nothing.
        assert_eq!(drain(&mut rx_b), Vec::<String>::new());
    }
}

#[test]
fn other_messages_are_ignored() {
    let mut st = live_station();
    let (tx, mut rx) = unbounded_channel::<String>();
    let id = st.on_connect(tx);
    drain(&mut rx);
    assert!(!st.on_message(id, "hello"));
    assert!(!st.on_message(id, "pong"));
    assert_eq!(drain(&mut rx), Vec::<String>::new());
}

#[test]
fn disconnect_broadcasts_shrunk_count() {
    let mut st = live_station();
    let (tx_a, mut rx_a) = unbounded_channel::<String>();
    let (tx_b, mut rx_b) = unbounded_channel::<String>();
    let id_a = st.on_connect(tx_a);
    let _id_b = st.on_connect(tx_b);
    drain(&mut rx_a);
    drain(&mut rx_b);
    st.on_disconnect(id_a);
    assert_eq!(drain(&mut rx_b), vec!["{\"event\":\"listeners\",\"data\":1}".to_string()]);
    assert_eq!(st.listeners.count(), 1);
}

#[test]
fn tick_broadcasts_one_track_event_and_waits_its_duration() {
    let mut st = live_station();
    let (tx, mut rx) = unbounded_channel::<String>();
    let _id = st.on_connect(tx);
    drain(&mut rx);
    let wait_ms = st.go_live_tick();
    assert_eq!(wait_ms, 185000);
    let got = drain(&mut rx);
    assert_eq!(got.len(), 1);
    assert!(got[0].starts_with("{\"event\":\"track\",\"data\":{"));
    assert!(got[0].contains("\"duration\":185000"));
}

#[test]
fn current_track_returns_a_copy() {
    let st = live_station();
    let t = st.current_track();
    assert_eq!(t.id, 206);
    assert_eq!(t.duration, 185000);
}

#[test]
fn registry_counts_and_removes() {
    let mut reg = Listeners::new();
    assert_eq!(reg.count(), 0);
    let (tx_a, _rx_a) = unbounded_channel::<String>();
    let (tx_b, _rx_b) = unbounded_channel::<String>();
    let a = reg.add(tx_a);
    let b = reg.add(tx_b);
    assert_eq!(reg.count(), 2);
    assert!(reg.remove(a));
    assert!(!reg.remove(a));
    assert_eq!(reg.count(), 1);
    assert!(reg.remove(b));
    assert_eq!(reg.count(), 0);
}

#[test]
fn client_send_message_reaches_the_channel() {
    let (tx, mut rx) = unbounded_channel::<String>();
    let c = Client::new(9, tx);
    assert_eq!(c.id, 9);
    assert!(c.send_message(&"hello".to_string()));
    assert_eq!(rx.try_recv().unwrap(), "hello");
    drop(rx);
    assert!(!c.send_message(&"gone".to_string()));
}

#[test]
fn api_client_constructs() {
    let _c = ApiClient::new();
}
