//! The station: the single aggregate a server task locks and drives.
//!
//! It owns the playback core and the listener registry, and its methods
//! are the serialization points of the design: connection handlers call
//! [`Station::on_connect`], [`Station::on_message`] and
//! [`Station::on_disconnect`]; the live scheduler calls
//! [`Station::go_live_tick`] and then drives one advance through
//! [`Station::begin_advance`] / [`Station::advance_event`]. Each contract
//! states, over the registry's ghost history, exactly which frames the
//! call hands out.

use crate::codec::{build_listeners_event, build_track_event, listeners_event, track_event};
use crate::media_player::{Action, CurrentTrack, MediaPlayer, Phase, ProviderEvent};
use crate::ws::{is_ping, is_ping_text, Listeners, SendEvent, Sender};
use vstd::prelude::*;

verus! {

/// The station: playback core plus listener registry.
pub struct Station {
    pub media_player: MediaPlayer,
    pub listeners: Listeners,
}

impl Station {
    /// The station is ready to serve: registry well-formed and one
    /// playback current.
    pub open spec fn wf(self) -> bool {
        &&& self.listeners.wf()
        &&& self.media_player.current_track is Some
    }

    /// The current playback snapshot.
    pub open spec fn snapshot(self) -> CurrentTrack
        recommends
            self.media_player.current_track is Some,
    {
        self.media_player.current_track->Some_0
    }

    /// A station around a playback core that has advanced at least once,
    /// with no listeners yet.
    pub fn new(media_player: MediaPlayer) -> (r: Station)
        requires
            media_player.current_track is Some,
        ensures
            r.wf(),
            r.media_player == media_player,
            r.listeners.count_spec() == 0,
            r.listeners.history() == Seq::<SendEvent>::empty(),
    {
        Station { media_player, listeners: Listeners::new() }
    }

    /// A copy of the current playback snapshot.
    pub fn current_track(&self) -> (t: CurrentTrack)
        requires
            self.media_player.current_track is Some,
        ensures
            t == self.snapshot(),
    {
        match &self.media_player.current_track {
            Some(t) => t.duplicate(),
            None => {
                proof {
                    assert(false);
                }
                unreached()
            },
        }
    }

    /// The `"track"` frame for the current playback snapshot.
    pub fn build_current_track_msg(&self) -> (m: String)
        requires
            self.media_player.current_track is Some,
        ensures
            m@ == track_event(self.snapshot()),
    {
        let t = self.current_track();
        build_track_event(&t)
    }

    /// Broadcasts the `"listeners"` frame carrying the registry's count
    /// at this moment.
    fn notify_listeners_count(&mut self)
        requires
            old(self).listeners.wf(),
        ensures
            final(self).media_player == old(self).media_player,
            final(self).listeners.wf(),
            Listeners::same_clients(old(self).listeners, final(self).listeners),
            final(self).listeners.history() == old(self).listeners.history().push(
                SendEvent::ToAll {
                    recipients: old(self).listeners.ids(),
                    msg: listeners_event(old(self).listeners.count_spec()),
                },
            ),
    {
        let n = self.listeners.count();
        let msg = build_listeners_event(n);
        self.listeners.broadcast(&msg);
    }

    /// Accepts one connection: registers it under a fresh identifier,
    /// sends the new listener the current snapshot privately, then
    /// broadcasts the grown listener count to every listener, the new one
    /// included.
    pub fn on_connect(&mut self, sender: Sender) -> (id: u64)
        requires
            old(self).wf(),
            old(self).listeners.next_id < u64::MAX,
        ensures
            final(self).wf(),
            final(self).media_player == old(self).media_player,
            !old(self).listeners.ids().contains(id),
            final(self).listeners.ids() == old(self).listeners.ids().insert(id),
            final(self).listeners.count_spec() == old(self).listeners.count_spec() + 1,
            final(self).listeners.history() == old(self).listeners.history().push(
                SendEvent::ToOne { id, msg: track_event(old(self).snapshot()) },
            ).push(
                SendEvent::ToAll {
                    recipients: final(self).listeners.ids(),
                    msg: listeners_event(final(self).listeners.count_spec()),
                },
            ),
    {
        let id = self.listeners.add(sender);
        let track_msg = self.build_current_track_msg();
        let _ = self.listeners.send_to(id, &track_msg);
        proof {
            assert(self.listeners.ids().contains(id));
        }
        self.notify_listeners_count();
        id
    }

    /// Ends one connection: deregisters it and broadcasts the shrunk
    /// listener count to the remaining listeners.
    pub fn on_disconnect(&mut self, id: u64)
        requires
            old(self).wf(),
        ensures
            final(self).wf(),
            final(self).media_player == old(self).media_player,
            final(self).listeners.ids() == old(self).listeners.ids().remove(id),
            final(self).listeners.history() == old(self).listeners.history().push(
                SendEvent::ToAll {
                    recipients: final(self).listeners.ids(),
                    msg: listeners_event(final(self).listeners.count_spec()),
                },
            ),
    {
        let _ = self.listeners.remove(id);
        self.notify_listeners_count();
    }

    /// Handles one inbound text frame: a heartbeat — the case- and
    /// whitespace-insensitive word `ping` — is answered with exactly one
    /// private `PONG` to the sender and nothing is broadcast; every other
    /// frame is ignored. Returns whether the frame was a heartbeat.
    pub fn on_message(&mut self, id: u64, text: &str) -> (ponged: bool)
        requires
            old(self).wf(),
        ensures
            final(self).wf(),
            final(self).media_player == old(self).media_player,
            Listeners::same_clients(old(self).listeners, final(self).listeners),
            ponged == is_ping_text(text@),
            final(self).listeners.history() == if ponged && old(self).listeners.ids().contains(id) {
                old(self).listeners.history().push(SendEvent::ToOne { id, msg: "PONG"@ })
            } else {
                old(self).listeners.history()
            },
    {
        if is_ping(text) {
            let pong: String = "PONG".to_owned();
            let _ = self.listeners.send_to(id, &pong);
            true
        } else {
            false
        }
    }

    /// One scheduler tick's outward half: broadcasts the current snapshot
    /// as a `"track"` frame — exactly one broadcast — and returns the
    /// snapshot's duration in milliseconds, which is how long the
    /// scheduler must now wait before advancing.
    pub fn go_live_tick(&mut self) -> (wait_ms: u64)
        requires
            old(self).wf(),
        ensures
            final(self).wf(),
            final(self).media_player == old(self).media_player,
            Listeners::same_clients(old(self).listeners, final(self).listeners),
            wait_ms == old(self).snapshot().duration,
            final(self).listeners.history() == old(self).listeners.history().push(
                SendEvent::ToAll {
                    recipients: old(self).listeners.ids(),
                    msg: track_event(old(self).snapshot()),
                },
            ),
    {
        let msg = self.build_current_track_msg();
        self.listeners.broadcast(&msg);
        let t = self.current_track();
        t.duration
    }

    /// Starts one advance of the playback core; see
    /// [`MediaPlayer::begin_advance`].
    pub fn begin_advance(&mut self, now: u64) -> (r: Action)
        requires
            old(self).media_player.phase == Phase::Idle,
            old(self).media_player.client_id_timestamp <= now,
            old(self).media_player.tracks_ids@.len() == 0 ==> old(self).media_player.playlist_id is Some,
        ensures
            MediaPlayer::fetch_step_spec(
                old(self).media_player,
                final(self).media_player,
                r,
                now,
            ),
            old(self).media_player.stale(now) <==> r is FetchCredential,
            final(self).listeners == old(self).listeners,
    {
        self.media_player.begin_advance(now)
    }

    /// Feeds one provider outcome into the advance in flight; see
    /// [`MediaPlayer::advance_event`].
    pub fn advance_event(&mut self, ev: ProviderEvent, now: u64) -> (r: Action)
        requires
            crate::media_player::event_matches_phase(old(self).media_player.phase, ev),
            old(self).media_player.client_id_timestamp <= now,
            old(self).media_player.tracks_ids@.len() == 0 ==> old(self).media_player.playlist_id is Some,
            ev matches ProviderEvent::Playlist(Ok(ids)) ==> ids@.len() > 0,
        ensures
            final(self).listeners == old(self).listeners,
            match ev {
                ProviderEvent::Credential(res) => match res {
                    Ok(id) => MediaPlayer::fetch_step_spec(
                        MediaPlayer::refreshed(old(self).media_player, id, now),
                        final(self).media_player,
                        r,
                        now,
                    ) && !(r is FetchCredential),
                    Err(e) => (r matches Action::Failed(e2) && e2 == e) && final(self).media_player == (MediaPlayer {
                        phase: Phase::Idle,
                        ..old(self).media_player
                    }),
                },
                ProviderEvent::Playlist(res) => match res {
                    Ok(ids) => (r matches Action::FetchTrack { client_id, track_id } && client_id
                        == old(self).media_player.client_id && ids@.to_multiset().contains(
                        track_id,
                    ) && final(self).media_player.tracks_ids@.to_multiset()
                        == ids@.to_multiset().remove(track_id) && final(self).media_player.phase
                        == Phase::AwaitTrack(track_id)) && MediaPlayer::same_credential(
                        old(self).media_player,
                        final(self).media_player,
                    ) && MediaPlayer::same_core(old(self).media_player, final(self).media_player),
                    Err(e) => (r matches Action::Failed(e2) && e2 == e) && final(self).media_player == (MediaPlayer {
                        phase: Phase::Idle,
                        ..old(self).media_player
                    }),
                },
                ProviderEvent::Track(res) => match res {
                    Ok(track) => r is Done && final(self).media_player.current_track == Some(
                        CurrentTrack::from_track(track, now),
                    ) && final(self).media_player.phase == Phase::Idle && final(self).media_player.tracks_ids@ == old(self).media_player.tracks_ids@
                        && MediaPlayer::same_credential(
                        old(self).media_player,
                        final(self).media_player,
                    ) && final(self).media_player.playlist_id == old(self).media_player.playlist_id,
                    Err(_) => MediaPlayer::fetch_step_spec(
                        old(self).media_player,
                        final(self).media_player,
                        r,
                        now,
                    ) && !(r is Done) && !(r is Failed),
                },
            },
    {
        self.media_player.advance_event(ev, now)
    }
}

} // verus!
