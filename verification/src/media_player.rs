//! The station's playback core: the credential holder, the shuffled
//! playlist queue, and the advance state machine that selects the next
//! track.
//!
//! Talking to the provider needs the network, so advancing is event
//! driven: [`MediaPlayer::begin_advance`] and [`MediaPlayer::advance_event`]
//! each return the one [`Action`] the caller must perform next, and the
//! caller feeds the outcome back in as a [`ProviderEvent`]. Every decision
//! — when the credential is refreshed, when the queue is refilled, which
//! identifier is fetched, what becomes the current playback — is taken
//! here, under contract.

use crate::error::Error;
use crate::soundcloud::Track;
use rand::seq::SliceRandom;
use vstd::prelude::*;
use vstd::seq_lib::group_to_multiset_ensures;

verus! {

/// The freshness window of an access credential, in milliseconds: a
/// credential this old or older must be refreshed before its next use.
pub const DAY_MS: u64 = 86400000;

/// The immutable snapshot of the currently playing track.
#[derive(Debug, Clone)]
pub struct CurrentTrack {
    pub started_at: u64,
    pub id: u64,
    pub permalink_url: String,
    pub duration: u64,
    pub title: String,
    pub artist: String,
    pub artist_permalink: String,
    pub url: String,
    pub token: String,
}

impl CurrentTrack {
    /// The snapshot a track maps to when it becomes current at `started_at`.
    pub open spec fn from_track(track: Track, started_at: u64) -> CurrentTrack {
        CurrentTrack {
            started_at,
            id: track.id,
            permalink_url: track.permalink_url,
            duration: track.duration,
            title: track.title,
            artist: track.artist,
            artist_permalink: track.artist_permalink,
            url: track.url,
            token: track.token,
        }
    }

    /// Takes a snapshot of `track` started at the given instant.
    pub fn new_at(track: &Track, started_at: u64) -> (r: CurrentTrack)
        ensures
            r == CurrentTrack::from_track(*track, started_at),
    {
        CurrentTrack {
            started_at,
            id: track.id,
            permalink_url: track.permalink_url.clone(),
            duration: track.duration,
            title: track.title.clone(),
            artist: track.artist.clone(),
            artist_permalink: track.artist_permalink.clone(),
            url: track.url.clone(),
            token: track.token.clone(),
        }
    }

    /// A copy equal to `self`, field by field.
    pub fn duplicate(&self) -> (r: CurrentTrack)
        ensures
            r == *self,
    {
        CurrentTrack {
            started_at: self.started_at,
            id: self.id,
            permalink_url: self.permalink_url.clone(),
            duration: self.duration,
            title: self.title.clone(),
            artist: self.artist.clone(),
            artist_permalink: self.artist_permalink.clone(),
            url: self.url.clone(),
            token: self.token.clone(),
        }
    }

    /// Takes a snapshot of `track` started now, by the wall clock.
    pub fn new(track: &Track) -> (r: CurrentTrack)
        ensures
            r == CurrentTrack::from_track(*track, r.started_at),
    {
        let started_at = now_millis();
        CurrentTrack::new_at(track, started_at)
    }
}

/// Relies on `chrono::Utc::now`: the wall clock read at call time, as
/// milliseconds since the epoch; nothing can be promised of the value.
#[verifier::external_body]
fn now_millis() -> u64 {
    chrono::Utc::now().timestamp_millis() as u64
}

/// Relies on `rand`'s `SliceRandom::shuffle`: an in-place Fisher-Yates
/// permutation driven by the thread's generator; elements are only
/// rearranged, none added or removed.
#[verifier::external_body]
fn shuffle_in_place(ids: &mut Vec<u64>)
    ensures
        final(ids)@.to_multiset() == old(ids)@.to_multiset(),
        final(ids)@.len() == old(ids)@.len(),
{
    ids.as_mut_slice().shuffle(&mut rand::rng());
}

/// What the advance machine is waiting for.
#[derive(Debug, Clone, Copy, PartialEq, Eq, Structural)]
pub enum Phase {
    /// No advance in flight.
    Idle,
    /// A fresh credential was requested.
    AwaitCredential,
    /// A playlist refill was requested.
    AwaitPlaylist,
    /// The named track was requested.
    AwaitTrack(u64),
}

/// What the caller of the advance machine must do next.
#[derive(Debug, Clone)]
pub enum Action {
    /// Obtain a fresh credential from the provider and feed the outcome
    /// back as [`ProviderEvent::Credential`].
    FetchCredential,
    /// Fetch the playlist's track identifiers and feed the outcome back as
    /// [`ProviderEvent::Playlist`].
    FetchPlaylist { client_id: String, playlist_id: String },
    /// Fetch and validate the named track and feed the outcome back as
    /// [`ProviderEvent::Track`].
    FetchTrack { client_id: String, track_id: u64 },
    /// The advance committed a new current playback.
    Done,
    /// The advance aborted; the error is the caller's to report.
    Failed(Error),
}

/// The outcome of the action the caller performed.
#[derive(Debug)]
pub enum ProviderEvent {
    Credential(Result<String, Error>),
    Playlist(Result<Vec<u64>, Error>),
    Track(Result<Track, Error>),
}

/// The playback core: credential, shuffled queue, current playback, and
/// the advance machine's phase.
#[derive(Debug)]
pub struct MediaPlayer {
    pub playlist_id: Option<String>,
    pub client_id: String,
    pub client_id_timestamp: u64,
    pub tracks_ids: Vec<u64>,
    pub current_track: Option<CurrentTrack>,
    pub phase: Phase,
}

/// Which event answers which phase.
pub open spec fn event_matches_phase(phase: Phase, ev: ProviderEvent) -> bool {
    match ev {
        ProviderEvent::Credential(_) => phase is AwaitCredential,
        ProviderEvent::Playlist(_) => phase is AwaitPlaylist,
        ProviderEvent::Track(_) => phase is AwaitTrack,
    }
}

impl MediaPlayer {
    /// Whether the credential is too old to use at instant `now`.
    pub open spec fn stale(self, now: u64) -> bool {
        now - self.client_id_timestamp >= DAY_MS
    }

    /// The credential is untouched between `pre` and `post`.
    pub open spec fn same_credential(pre: MediaPlayer, post: MediaPlayer) -> bool {
        post.client_id == pre.client_id && post.client_id_timestamp == pre.client_id_timestamp
    }

    /// Playlist identifier and current playback are untouched between
    /// `pre` and `post`.
    pub open spec fn same_core(pre: MediaPlayer, post: MediaPlayer) -> bool {
        post.playlist_id == pre.playlist_id && post.current_track == pre.current_track
    }

    /// `pre` after a successful credential refresh at instant `now`.
    pub open spec fn refreshed(pre: MediaPlayer, id: String, now: u64) -> MediaPlayer {
        MediaPlayer { client_id: id, client_id_timestamp: now, phase: Phase::Idle, ..pre }
    }

    /// The one next fetch the machine asks for, from state `pre` at
    /// instant `now`: a credential refresh exactly when the credential is
    /// stale; otherwise a playlist refill exactly when the queue is empty;
    /// otherwise the fetch of the queue's next identifier, which is popped.
    pub open spec fn fetch_step_spec(
        pre: MediaPlayer,
        post: MediaPlayer,
        r: Action,
        now: u64,
    ) -> bool {
        &&& Self::same_credential(pre, post)
        &&& Self::same_core(pre, post)
        &&& if pre.stale(now) {
            &&& r is FetchCredential
            &&& post.phase == Phase::AwaitCredential
            &&& post.tracks_ids@ == pre.tracks_ids@
        } else if pre.tracks_ids@.len() == 0 {
            &&& (r matches Action::FetchPlaylist { client_id, playlist_id } && client_id
                == pre.client_id && Some(playlist_id) == pre.playlist_id)
            &&& post.phase == Phase::AwaitPlaylist
            &&& post.tracks_ids@ == pre.tracks_ids@
        } else {
            &&& (r matches Action::FetchTrack { client_id, track_id } && client_id == pre.client_id
                && track_id == pre.tracks_ids@.last())
            &&& post.phase == Phase::AwaitTrack(pre.tracks_ids@.last())
            &&& post.tracks_ids@ == pre.tracks_ids@.drop_last()
        }
    }

    /// A new playback core holding the given credential, obtained at
    /// instant `now`, with nothing loaded yet.
    pub fn new(client_id: String, now: u64) -> (r: MediaPlayer)
        ensures
            r.client_id == client_id,
            r.client_id_timestamp == now,
            r.playlist_id is None,
            r.tracks_ids@.len() == 0,
            r.current_track is None,
            r.phase == Phase::Idle,
    {
        MediaPlayer {
            playlist_id: None,
            client_id,
            client_id_timestamp: now,
            tracks_ids: Vec::new(),
            current_track: None,
            phase: Phase::Idle,
        }
    }

    /// Replaces the held credential with one obtained at instant `now`.
    pub fn refresh_client_id(&mut self, client_id: String, now: u64)
        ensures
            *final(self) == (MediaPlayer {
                client_id,
                client_id_timestamp: now,
                ..*old(self)
            }),
    {
        self.client_id = client_id;
        self.client_id_timestamp = now;
    }

    /// Installs the fetched playlist: remembers its identifier and
    /// replaces the queue wholesale with a shuffle of `ids` — the same
    /// identifiers, each kept exactly as often as fetched, in some order.
    pub fn load_playlist(&mut self, playlist_id: &str, ids: Vec<u64>)
        ensures
            final(self).playlist_id matches Some(p) && p@ == playlist_id@,
            final(self).tracks_ids@.to_multiset() == ids@.to_multiset(),
            final(self).tracks_ids@.len() == ids@.len(),
            Self::same_credential(*old(self), *final(self)),
            final(self).current_track == old(self).current_track,
            final(self).phase == old(self).phase,
    {
        let mut queue = ids;
        shuffle_in_place(&mut queue);
        self.playlist_id = Some(playlist_id.to_owned());
        self.tracks_ids = queue;
    }

    /// Removes and returns the next identifier from the shuffled order,
    /// or `None` if the queue is empty.
    pub fn pop_next(&mut self) -> (r: Option<u64>)
        ensures
            match r {
                Some(id) => {
                    &&& old(self).tracks_ids@.len() > 0
                    &&& id == old(self).tracks_ids@.last()
                    &&& final(self).tracks_ids@ == old(self).tracks_ids@.drop_last()
                },
                None => old(self).tracks_ids@.len() == 0 && final(self).tracks_ids@ == old(
                    self,
                ).tracks_ids@,
            },
            Self::same_credential(*old(self), *final(self)),
            Self::same_core(*old(self), *final(self)),
            final(self).phase == old(self).phase,
    {
        self.tracks_ids.pop()
    }

    /// Starts one advance: decides the first fetch as
    /// [`fetch_step_spec`](Self::fetch_step_spec) says. A credential
    /// refresh is requested if and only if the credential is stale.
    pub fn begin_advance(&mut self, now: u64) -> (r: Action)
        requires
            old(self).phase == Phase::Idle,
            old(self).client_id_timestamp <= now,
            old(self).tracks_ids@.len() == 0 ==> old(self).playlist_id is Some,
        ensures
            Self::fetch_step_spec(*old(self), *final(self), r, now),
            old(self).stale(now) <==> r is FetchCredential,
    {
        self.next_fetch(now)
    }

    /// Feeds back the outcome of the requested action and decides what
    /// happens next.
    ///
    /// A failed credential or playlist fetch aborts the advance with that
    /// error. A failed track fetch is recovered locally: the identifier is
    /// skipped and the machine asks for the next fetch. A successful track
    /// fetch commits the track as the current playback, started at `now`.
    /// After a successful credential refresh the machine never asks for
    /// another refresh in the same advance step.
    pub fn advance_event(&mut self, ev: ProviderEvent, now: u64) -> (r: Action)
        requires
            event_matches_phase(old(self).phase, ev),
            old(self).client_id_timestamp <= now,
            old(self).tracks_ids@.len() == 0 ==> old(self).playlist_id is Some,
            ev matches ProviderEvent::Playlist(Ok(ids)) ==> ids@.len() > 0,
        ensures
            match ev {
                ProviderEvent::Credential(res) => match res {
                    Ok(id) => {
                        &&& Self::fetch_step_spec(
                            Self::refreshed(*old(self), id, now),
                            *final(self),
                            r,
                            now,
                        )
                        &&& !(r is FetchCredential)
                    },
                    Err(e) => {
                        &&& r matches Action::Failed(e2) && e2 == e
                        &&& *final(self) == (MediaPlayer { phase: Phase::Idle, ..*old(self) })
                    },
                },
                ProviderEvent::Playlist(res) => match res {
                    Ok(ids) => {
                        &&& (r matches Action::FetchTrack { client_id, track_id } && client_id
                            == old(self).client_id && ids@.to_multiset().contains(track_id)
                            && final(self).tracks_ids@.to_multiset() == ids@.to_multiset().remove(
                            track_id,
                        ) && final(self).phase == Phase::AwaitTrack(track_id))
                        &&& final(self).tracks_ids@.len() == ids@.len() - 1
                        &&& Self::same_credential(*old(self), *final(self))
                        &&& final(self).playlist_id == old(self).playlist_id
                        &&& final(self).current_track == old(self).current_track
                    },
                    Err(e) => {
                        &&& r matches Action::Failed(e2) && e2 == e
                        &&& *final(self) == (MediaPlayer { phase: Phase::Idle, ..*old(self) })
                    },
                },
                ProviderEvent::Track(res) => match res {
                    Ok(track) => {
                        &&& r is Done
                        &&& final(self).current_track == Some(
                            CurrentTrack::from_track(track, now),
                        )
                        &&& final(self).phase == Phase::Idle
                        &&& final(self).tracks_ids@ == old(self).tracks_ids@
                        &&& Self::same_credential(*old(self), *final(self))
                        &&& final(self).playlist_id == old(self).playlist_id
                    },
                    Err(_) => {
                        &&& Self::fetch_step_spec(*old(self), *final(self), r, now)
                        &&& !(r is Done)
                        &&& !(r is Failed)
                    },
                },
            },
    {
        match ev {
            ProviderEvent::Credential(result) => match result {
                Ok(id) => {
                    self.client_id = id;
                    self.client_id_timestamp = now;
                    self.phase = Phase::Idle;
                    self.next_fetch(now)
                },
                Err(e) => {
                    self.phase = Phase::Idle;
                    Action::Failed(e)
                },
            },
            ProviderEvent::Playlist(result) => match result {
                Ok(ids) => {
                    let mut queue = ids;
                    let ghost fetched = queue@;
                    shuffle_in_place(&mut queue);
                    let ghost shuffled = queue@;
                    let id = match queue.pop() {
                        Some(id) => id,
                        None => {
                            proof {
                                assert(false);
                            }
                            unreached()
                        },
                    };
                    self.tracks_ids = queue;
                    self.phase = Phase::AwaitTrack(id);
                    proof {
                        broadcast use group_to_multiset_ensures;

                        assert(shuffled.drop_last() =~= shuffled.remove(shuffled.len() - 1));
                        assert(shuffled.contains(shuffled.last()));
                    }
                    Action::FetchTrack { client_id: self.client_id.clone(), track_id: id }
                },
                Err(e) => {
                    self.phase = Phase::Idle;
                    Action::Failed(e)
                },
            },
            ProviderEvent::Track(result) => match result {
                Ok(track) => {
                    self.current_track = Some(CurrentTrack::new_at(&track, now));
                    self.phase = Phase::Idle;
                    Action::Done
                },
                Err(_) => {
                    self.phase = Phase::Idle;
                    self.next_fetch(now)
                },
            },
        }
    }

    /// Decides and requests the next fetch, as
    /// [`fetch_step_spec`](Self::fetch_step_spec) says.
    fn next_fetch(&mut self, now: u64) -> (r: Action)
        requires
            old(self).client_id_timestamp <= now,
            old(self).tracks_ids@.len() == 0 ==> old(self).playlist_id is Some,
        ensures
            Self::fetch_step_spec(*old(self), *final(self), r, now),
    {
        if now - self.client_id_timestamp >= DAY_MS {
            self.phase = Phase::AwaitCredential;
            Action::FetchCredential
        } else if self.tracks_ids.len() == 0 {
            self.phase = Phase::AwaitPlaylist;
            let playlist_id = match &self.playlist_id {
                Some(p) => p.clone(),
                None => {
                    proof {
                        assert(false);
                    }
                    unreached()
                },
            };
            Action::FetchPlaylist { client_id: self.client_id.clone(), playlist_id }
        } else {
            let id = match self.tracks_ids.pop() {
                Some(id) => id,
                None => {
                    proof {
                        assert(false);
                    }
                    unreached()
                },
            };
            self.phase = Phase::AwaitTrack(id);
            Action::FetchTrack { client_id: self.client_id.clone(), track_id: id }
        }
    }
}

/// Draining a refilled queue yields exactly the fetched identifiers.
///
/// [`MediaPlayer::load_playlist`] leaves a queue whose multiset equals the
/// fetched `ids`, and [`MediaPlayer::pop_next`] consumes the queue from its
/// end, so `queue.reverse()` is the sequence of popped identifiers, with
/// `None` after them. That drained sequence is as long as `ids`, holds the
/// same multiset, holds the same identifiers — and when the fetched
/// identifiers are distinct, each is popped exactly once.
pub proof fn lemma_refill_then_drain(ids: Seq<u64>, queue: Seq<u64>)
    requires
        queue.to_multiset() == ids.to_multiset(),
    ensures
        queue.reverse().len() == ids.len(),
        queue.reverse().to_multiset() == ids.to_multiset(),
        forall|x: u64| queue.reverse().contains(x) <==> ids.contains(x),
        ids.no_duplicates() ==> queue.reverse().no_duplicates(),
{
    broadcast use group_to_multiset_ensures;

    queue.lemma_reverse_to_multiset();
    assert(queue.to_multiset().len() == queue.len());
    assert(ids.to_multiset().len() == ids.len());
    assert(queue.reverse().len() == queue.len());
    assert forall|x: u64| queue.reverse().contains(x) <==> ids.contains(x) by {
        assert(queue.reverse().contains(x) <==> queue.reverse().to_multiset().count(x) > 0);
        assert(ids.contains(x) <==> ids.to_multiset().count(x) > 0);
    }
    if ids.no_duplicates() {
        ids.lemma_multiset_has_no_duplicates();
        queue.reverse().lemma_multiset_has_no_duplicates_conv();
    }
}

/// A fresh credential is never refetched: if the credential is not stale
/// at `now`, the machine's next fetch is not a credential refresh.
pub proof fn lemma_fresh_credential_not_refetched(
    pre: MediaPlayer,
    post: MediaPlayer,
    r: Action,
    now: u64,
)
    requires
        !pre.stale(now),
        MediaPlayer::fetch_step_spec(pre, post, r, now),
    ensures
        !(r is FetchCredential),
{
}

/// A stale credential triggers exactly one refresh: right after a refresh
/// at `now`, the machine's next fetch is never another refresh.
pub proof fn lemma_refresh_at_most_once(
    pre: MediaPlayer,
    id: String,
    post: MediaPlayer,
    r: Action,
    now: u64,
)
    requires
        MediaPlayer::fetch_step_spec(MediaPlayer::refreshed(pre, id, now), post, r, now),
    ensures
        !(r is FetchCredential),
{
}

} // verus!
