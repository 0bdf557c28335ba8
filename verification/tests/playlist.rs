use robo_radio::error::Error;
use robo_radio::media_player::{Action, MediaPlayer, ProviderEvent};
use robo_radio::soundcloud::Track;

fn mk_track(id: u64) -> Track {
    Track {
        id,
        permalink_url: format!("https://example.com/t/{}", id),
        duration: 1000 * id,
        title: format!("track {}", id),
        artist: "artist".to_string(),
        artist_permalink: "https://example.com/artist".to_string(),
        url: format!("https://cdn.example.com/{}", id),
        token: "tok".to_string(),
    }
}

fn net_err() -> Error {
    Error::SoundcloudResponseError(503)
}

#[test]
fn refill_then_drain_yields_each_id_once() {
    let mut mp = MediaPlayer::new("cid".to_string(), 0);
    mp.load_playlist("pl-1", vec![11, 22, 33, 44, 55]);
    assert!(matches!(&mp.playlist_id, Some(p) if p == "pl-1"));
    let mut popped = Vec::new();
    while let Some(id) = mp.pop_next() {
        popped.push(id);
    }
    assert_eq!(popped.len(), 5);
    popped.sort();
    assert_eq!(popped, vec![11, 22, 33, 44, 55]);
    assert_eq!(mp.pop_next(), None);
}

#[test]
fn refill_replaces_queue_wholesale() {
    let mut mp = MediaPlayer::new("cid".to_string(), 0);
    mp.load_playlist("pl-1", vec![1, 2, 3]);
    mp.load_playlist("pl-1", vec![7, 8]);
    let mut popped = Vec::new();
    while let Some(id) = mp.pop_next() {
        popped.push(id);
    }
    popped.sort();
    assert_eq!(popped, vec![7, 8]);
}

#[test]
fn advance_walks_shuffled_order_then_refills() {
    // Playlist [101, 102, 103], landed in the queue as [103, 101, 102]:
    // successive advances play 102, then 101, then 103, and the fourth
    // advance refetches the playlist and starts a new order.
    let mut mp = MediaPlayer::new("cid".to_string(), 0);
    mp.load_playlist("pl-1", vec![101, 102, 103]);
    mp.tracks_ids = vec![103, 101, 102];
    let now = 10;

    for expect in [102u64, 101, 103] {
        let act = mp.begin_advance(now);
        match act {
            Action::FetchTrack { track_id, .. } => assert_eq!(track_id, expect),
            other => panic!("expected a track fetch, got {:?}", other),
        }
        let act = mp.advance_event(ProviderEvent::Track(Ok(mk_track(expect))), now);
        assert!(matches!(act, Action::Done));
        assert_eq!(mp.current_track.as_ref().unwrap().id, expect);
    }

    let act = mp.begin_advance(now);
    match act {
        Action::FetchPlaylist { playlist_id, client_id } => {
            assert_eq!(playlist_id, "pl-1");
            assert_eq!(client_id, "cid");
        },
        other => panic!("expected a playlist refill, got {:?}", other),
    }
    let act = mp.advance_event(ProviderEvent::Playlist(Ok(vec![201, 202])), now);
    match act {
        Action::FetchTrack { track_id, .. } => {
            assert!(track_id == 201 || track_id == 202);
            assert_eq!(mp.tracks_ids.len(), 1);
        },
        other => panic!("expected a track fetch after refill, got {:?}", other),
    }
}

#[test]
fn advance_skips_failing_tracks_and_succeeds() {
    // Tracks 204 and 205 fail to fetch; 206 succeeds: the advance skips
    // the failures and ends in success, never surfacing an error.
    let mut mp = MediaPlayer::new("cid".to_string(), 0);
    mp.load_playlist("pl-1", vec![206, 205, 204]);
    mp.tracks_ids = vec![206, 205, 204];
    let now = 10;

    let act = mp.begin_advance(now);
    assert!(matches!(act, Action::FetchTrack { track_id: 204, .. }));
    let act = mp.advance_event(ProviderEvent::Track(Err(net_err())), now);
    assert!(matches!(act, Action::FetchTrack { track_id: 205, .. }));
    let act = mp.advance_event(ProviderEvent::Track(Err(net_err())), now);
    assert!(matches!(act, Action::FetchTrack { track_id: 206, .. }));
    let act = mp.advance_event(ProviderEvent::Track(Ok(mk_track(206))), now);
    assert!(matches!(act, Action::Done));
    assert_eq!(mp.current_track.as_ref().unwrap().id, 206);
}

#[test]
fn refill_failure_aborts_the_advance() {
    let mut mp = MediaPlayer::new("cid".to_string(), 0);
    mp.load_playlist("pl-1", Vec::new());
    let act = mp.begin_advance(5);
    assert!(matches!(act, Action::FetchPlaylist { .. }));
    let act = mp.advance_event(ProviderEvent::Playlist(Err(net_err())), 5);
    assert!(matches!(act, Action::Failed(Error::SoundcloudResponseError(503))));
}

#[test]
fn empty_queue_mid_walk_triggers_refill() {
    let mut mp = MediaPlayer::new("cid".to_string(), 0);
    mp.load_playlist("pl-1", vec![301]);
    let now = 10;
    let act = mp.begin_advance(now);
    assert!(matches!(act, Action::FetchTrack { track_id: 301, .. }));
    // The only queued identifier fails, so the machine must refill.
    let act = mp.advance_event(ProviderEvent::Track(Err(net_err())), now);
    assert!(matches!(act, Action::FetchPlaylist { .. }));
}
