use robo_radio::error::Error;
use robo_radio::soundcloud::{
    resolve_stream, track_from_response, Badges, Format, Media, Playlist, PlaylistResponse, Track,
    TrackResponse, TrackStreamResponse, User,
};

fn transcoding(protocol: &str, url: &str) -> robo_radio::soundcloud::Transcoding {
    robo_radio::soundcloud::Transcoding {
        url: url.to_string(),
        preset: "mp3_standard".to_string(),
        duration: 185000,
        snipped: false,
        format: Format { protocol: protocol.to_string(), mime_type: "audio/mpeg".to_string() },
        quality: "sq".to_string(),
    }
}

fn complete_response() -> TrackResponse {
    TrackResponse {
        id: 206,
        permalink_url: Some("https://example.com/t/206".to_string()),
        duration: Some(185000),
        title: Some("Night Drive".to_string()),
        media: Some(Media {
            transcodings: vec![
                transcoding("hls", "https://api.example.com/hls/206"),
                transcoding("progressive", "https://api.example.com/prog/206"),
                transcoding("progressive", "https://api.example.com/prog2/206"),
            ],
        }),
        track_authorization: Some("tok-206".to_string()),
        user: Some(User {
            username: "Neon".to_string(),
            permalink_url: "https://example.com/neon".to_string(),
            badges: Badges { pro: false, pro_unlimited: true, verified: false },
        }),
    }
}

#[test]
fn complete_response_maps_every_field() {
    let t = track_from_response(&complete_response()).unwrap();
    assert_eq!(t.id, 206);
    assert_eq!(t.permalink_url, "https://example.com/t/206");
    assert_eq!(t.duration, 185000);
    assert_eq!(t.title, "Night Drive");
    assert_eq!(t.artist, "Neon");
    assert_eq!(t.artist_permalink, "https://example.com/neon");
    assert_eq!(t.token, "tok-206");
}

#[test]
fn first_streamable_transcoding_wins() {
    let t = track_from_response(&complete_response()).unwrap();
    assert_eq!(t.url, "https://api.example.com/prog/206");
}

#[test]
fn missing_field_is_a_parse_error() {
    let mut resp = complete_response();
    resp.title = None;
    match track_from_response(&resp) {
        Err(Error::SoundcloudJsonParseError(s)) => assert_eq!(s, "TrackResponse"),
        other => panic!("expected a parse error, got {:?}", other),
    }
    let mut resp = complete_response();
    resp.user = None;
    assert!(matches!(track_from_response(&resp), Err(Error::SoundcloudJsonParseError(_))));
}

#[test]
fn no_streamable_transcoding_is_an_incomplete_track() {
    let mut resp = complete_response();
    resp.media = Some(Media { transcodings: vec![transcoding("hls", "https://x")] });
    match track_from_response(&resp) {
        Err(Error::SoundcloudIncompleteTrack(title)) => assert_eq!(title, "Night Drive"),
        other => panic!("expected an incomplete track, got {:?}", other),
    }
}

#[test]
fn empty_transcodings_is_an_incomplete_track() {
    let mut resp = complete_response();
    resp.media = Some(Media { transcodings: Vec::new() });
    assert!(matches!(track_from_response(&resp), Err(Error::SoundcloudIncompleteTrack(_))));
}

#[test]
fn stream_resolution_replaces_the_url() {
    let t = track_from_response(&complete_response()).unwrap();
    let resolved = resolve_stream(
        t,
        TrackStreamResponse { url: Some("https://cdn.example.com/stream/206".to_string()) },
    )
    .unwrap();
    assert_eq!(resolved.url, "https://cdn.example.com/stream/206");
    assert_eq!(resolved.id, 206);
    assert_eq!(resolved.title, "Night Drive");
}

#[test]
fn missing_stream_url_is_an_incomplete_track() {
    let t = track_from_response(&complete_response()).unwrap();
    match resolve_stream(t, TrackStreamResponse { url: None }) {
        Err(Error::SoundcloudIncompleteTrack(title)) => assert_eq!(title, "Night Drive"),
        other => panic!("expected an incomplete track, got {:?}", other),
    }
}

#[test]
fn playlist_keeps_track_order() {
    let mut a = complete_response();
    a.id = 101;
    let mut b = complete_response();
    b.id = 102;
    let mut c = complete_response();
    c.id = 103;
    let p = Playlist::from_response(&PlaylistResponse { tracks: vec![a, b, c] });
    assert_eq!(p.tracks_ids, vec![101, 102, 103]);
}

#[test]
fn playback_snapshot_copies_the_track() {
    let resp = complete_response();
    let t: Track = track_from_response(&resp).unwrap();
    let snap = robo_radio::media_player::CurrentTrack::new_at(&t, 1234);
    assert_eq!(snap.started_at, 1234);
    assert_eq!(snap.id, t.id);
    assert_eq!(snap.title, t.title);
    assert_eq!(snap.url, t.url);
    assert_eq!(snap.token, t.token);
    let wall = robo_radio::media_player::CurrentTrack::new(&t);
    assert_eq!(wall.id, t.id);
    assert_eq!(wall.title, t.title);
}
