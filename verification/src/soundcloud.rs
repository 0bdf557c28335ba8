//! The provider-facing data model: the parts of the provider's responses
//! that the engine reads, the validation boundary that turns a raw response
//! into a fully-populated [`Track`], and the extraction of an access
//! credential from the provider's script pages.
//!
//! Fetching over the network is not done here; callers hand the already
//! fetched values in, and every rule about them is checked.

use crate::error::Error;
use vstd::prelude::*;

verus! {

/// How one transcoding of a track is delivered.
#[derive(Debug, Clone)]
pub struct Format {
    pub protocol: String,
    pub mime_type: String,
}

/// One transcoding of a track offered by the provider.
#[derive(Debug, Clone)]
pub struct Transcoding {
    pub url: String,
    pub preset: String,
    pub duration: u64,
    pub snipped: bool,
    pub format: Format,
    pub quality: String,
}

/// The transcodings offered for a track.
#[derive(Debug, Clone)]
pub struct Media {
    pub transcodings: Vec<Transcoding>,
}

/// The badge flags of a provider account.
#[derive(Debug, Clone)]
pub struct Badges {
    pub pro: bool,
    pub pro_unlimited: bool,
    pub verified: bool,
}

/// The parts of a provider account that the engine reads: the artist name
/// and page of a track's uploader.
#[derive(Debug, Clone)]
pub struct User {
    pub username: String,
    pub permalink_url: String,
    pub badges: Badges,
}

/// The parts of the provider's track response that the engine reads.
/// Every field but the identifier may be missing from the response body.
#[derive(Debug, Clone)]
pub struct TrackResponse {
    pub id: u64,
    pub permalink_url: Option<String>,
    pub duration: Option<u64>,
    pub title: Option<String>,
    pub media: Option<Media>,
    pub track_authorization: Option<String>,
    pub user: Option<User>,
}

/// The parts of the provider's playlist response that the engine reads.
#[derive(Debug, Clone)]
pub struct PlaylistResponse {
    pub tracks: Vec<TrackResponse>,
}

/// The provider's answer when asked to resolve a transcoding into a
/// streamable location.
#[derive(Debug, Clone)]
pub struct TrackStreamResponse {
    pub url: Option<String>,
}

/// A playlist reduced to its ordered list of track identifiers.
#[derive(Debug, Clone)]
pub struct Playlist {
    pub tracks_ids: Vec<u64>,
}

/// A fully-populated track: every field the station needs is present.
/// Values of this type exist only past the validation boundary
/// ([`track_from_response`], [`resolve_stream`]), so nothing downstream
/// handles a missing field.
#[derive(Debug, Clone)]
pub struct Track {
    pub id: u64,
    pub permalink_url: String,
    pub duration: u64,
    pub title: String,
    pub artist: String,
    pub artist_permalink: String,
    pub url: String,
    pub token: String,
}

/// The handle for talking to the provider. The network side lives with the
/// caller; the handle only groups the provider's protocol constants.
#[derive(Debug, Clone)]
pub struct ApiClient {}

impl ApiClient {
    pub fn new() -> (r: Self) {
        ApiClient {}
    }
}

/// Whether a transcoding is delivered over the `progressive` protocol,
/// the one kind the station can stream.
pub open spec fn is_progressive(t: Transcoding) -> bool {
    t.format.protocol@ == "progressive"@
}

/// Whether any offered transcoding is streamable.
pub open spec fn has_progressive(ts: Seq<Transcoding>) -> bool {
    exists|i: int| 0 <= i < ts.len() && is_progressive(ts[i])
}

/// The index of the first streamable transcoding.
pub open spec fn first_progressive(ts: Seq<Transcoding>) -> int
    decreases ts.len(),
{
    if ts.len() == 0 {
        0
    } else if is_progressive(ts[0]) {
        0
    } else {
        1 + first_progressive(ts.drop_first())
    }
}

/// Whether a track response carries every field the station needs.
pub open spec fn response_complete(r: TrackResponse) -> bool {
    &&& r.permalink_url is Some
    &&& r.duration is Some
    &&& r.title is Some
    &&& r.media is Some
    &&& r.track_authorization is Some
    &&& r.user is Some
}

/// The track that a complete response with a streamable transcoding maps to.
pub open spec fn track_of_response(r: TrackResponse) -> Track
    recommends
        response_complete(r),
{
    Track {
        id: r.id,
        permalink_url: r.permalink_url->Some_0,
        duration: r.duration->Some_0,
        title: r.title->Some_0,
        artist: r.user->Some_0.username,
        artist_permalink: r.user->Some_0.permalink_url,
        url: r.media->Some_0.transcodings@[first_progressive(
            r.media->Some_0.transcodings@,
        )].url,
        token: r.track_authorization->Some_0,
    }
}

/// Finds the first streamable transcoding among `ts`.
fn find_progressive(ts: &Vec<Transcoding>) -> (r: Option<usize>)
    ensures
        match r {
            Some(i) => has_progressive(ts@) && i == first_progressive(ts@) && i < ts@.len(),
            None => !has_progressive(ts@),
        },
{
    let needle: String = "progressive".to_owned();
    let mut i: usize = 0;
    while i < ts.len()
        invariant
            i <= ts@.len(),
            needle@ == "progressive"@,
            forall|j: int| 0 <= j < i ==> !is_progressive(ts@[j]),
        decreases ts@.len() - i,
    {
        if ts[i].format.protocol == needle {
            proof {
                lemma_first_progressive_prefix(ts@, i as int);
            }
            return Some(i);
        }
        i = i + 1;
    }
    None
}

/// If everything before `i` fails the test and `i` passes it, `i` is the
/// first index that passes.
proof fn lemma_first_progressive_prefix(ts: Seq<Transcoding>, i: int)
    requires
        0 <= i < ts.len(),
        is_progressive(ts[i]),
        forall|j: int| 0 <= j < i ==> !is_progressive(ts[j]),
    ensures
        has_progressive(ts),
        first_progressive(ts) == i,
    decreases i,
{
    if i == 0 {
    } else {
        let rest = ts.drop_first();
        assert(rest[i - 1] == ts[i]);
        assert forall|j: int| 0 <= j < i - 1 implies !is_progressive(rest[j]) by {
            assert(rest[j] == ts[j + 1]);
        }
        lemma_first_progressive_prefix(rest, i - 1);
    }
}

/// The validation boundary for track metadata. A response missing any
/// needed field is a parse error; a complete response without a streamable
/// transcoding is an incomplete track; otherwise every field is carried
/// over into a fully-populated [`Track`] whose `url` is the first
/// streamable transcoding's location.
pub fn track_from_response(resp: &TrackResponse) -> (r: Result<Track, Error>)
    ensures
        match r {
            Ok(track) => {
                &&& response_complete(*resp)
                &&& has_progressive(resp.media->Some_0.transcodings@)
                &&& track == track_of_response(*resp)
            },
            Err(e) => match e {
                Error::SoundcloudJsonParseError(s) => !response_complete(*resp) && s@
                    == "TrackResponse"@,
                Error::SoundcloudIncompleteTrack(t) => {
                    &&& response_complete(*resp)
                    &&& !has_progressive(resp.media->Some_0.transcodings@)
                    &&& t@ == resp.title->Some_0@
                },
                _ => false,
            },
        },
{
    if resp.permalink_url.is_none() || resp.duration.is_none() || resp.title.is_none()
        || resp.media.is_none() || resp.track_authorization.is_none() || resp.user.is_none() {
        return Err(Error::SoundcloudJsonParseError("TrackResponse".to_owned()));
    }
    let media = resp.media.as_ref().unwrap();
    let title = resp.title.as_ref().unwrap();
    match find_progressive(&media.transcodings) {
        Some(i) => {
            let user = resp.user.as_ref().unwrap();
            Ok(
                Track {
                    id: resp.id,
                    permalink_url: resp.permalink_url.as_ref().unwrap().clone(),
                    duration: *resp.duration.as_ref().unwrap(),
                    title: title.clone(),
                    artist: user.username.clone(),
                    artist_permalink: user.permalink_url.clone(),
                    url: media.transcodings[i].url.clone(),
                    token: resp.track_authorization.as_ref().unwrap().clone(),
                },
            )
        },
        None => Err(Error::SoundcloudIncompleteTrack(title.clone())),
    }
}

/// The second half of the validation boundary: commits the provider's
/// resolved stream location into the track, or reports the track
/// incomplete when the provider returned none.
pub fn resolve_stream(track: Track, stream: TrackStreamResponse) -> (r: Result<Track, Error>)
    ensures
        match r {
            Ok(t) => {
                &&& stream.url is Some
                &&& t == (Track { url: stream.url->Some_0, ..track })
            },
            Err(e) => match e {
                Error::SoundcloudIncompleteTrack(s) => stream.url is None && s@ == track.title@,
                _ => false,
            },
        },
{
    match stream.url {
        Some(url) => Ok(Track { url, ..track }),
        None => Err(Error::SoundcloudIncompleteTrack(track.title)),
    }
}

impl Playlist {
    /// Reduces a playlist response to its ordered track identifiers.
    pub fn from_response(resp: &PlaylistResponse) -> (r: Playlist)
        ensures
            r.tracks_ids@ == resp.tracks@.map_values(|t: TrackResponse| t.id),
    {
        let mut ids: Vec<u64> = Vec::new();
        let mut i: usize = 0;
        while i < resp.tracks.len()
            invariant
                i <= resp.tracks@.len(),
                ids@ == resp.tracks@.take(i as int).map_values(|t: TrackResponse| t.id),
            decreases resp.tracks@.len() - i,
        {
            ids.push(resp.tracks[i].id);
            proof {
                assert(resp.tracks@.take(i + 1 as int) =~= resp.tracks@.take(i as int).push(
                    resp.tracks@[i as int],
                ));
                assert(resp.tracks@.take(i + 1 as int).map_values(|t: TrackResponse| t.id)
                    =~= resp.tracks@.take(i as int).map_values(|t: TrackResponse| t.id).push(
                    resp.tracks@[i as int].id,
                ));
            }
            i = i + 1;
        }
        proof {
            assert(resp.tracks@.take(resp.tracks@.len() as int) =~= resp.tracks@);
        }
        Playlist { tracks_ids: ids }
    }
}

/// The addresses of the scripts referenced by the provider's home page, in
/// the order they appear. What counts as a reference is fixed by the
/// extraction pattern; the result depends on the page text alone.
pub uninterp spec fn script_srcs_in(page: Seq<char>) -> Seq<Seq<char>>;

/// The access credential embedded in a script body, if any: the first
/// 32-character alphanumeric token announced as a `client_id`. Depends on
/// the script text alone.
pub uninterp spec fn client_id_in(js: Seq<char>) -> Option<Seq<char>>;

/// The characters a credential token is made of: ASCII digits and letters.
pub open spec fn is_client_id_char(c: char) -> bool {
    ('0' <= c && c <= '9') || ('a' <= c && c <= 'z') || ('A' <= c && c <= 'Z')
}

/// Every character of `id` is a credential character.
pub open spec fn client_id_chars(id: Seq<char>) -> bool {
    forall|k: int| 0 <= k < id.len() ==> #[trigger] is_client_id_char(id[k])
}

/// Relies on `regex::Regex::captures_iter` with the fixed pattern
/// `<script[^>]+src="([^"]+)"`: yields, in order, the quoted `src` of each
/// script tag of the page; deterministic in the page text.
#[verifier::external_body]
fn capture_script_srcs(page: &str) -> (r: Vec<String>)
    ensures
        r.deep_view() == script_srcs_in(page@),
{
    let re = regex::Regex::new(r#"<script[^>]+src="([^"]+)""#).unwrap();
    re.captures_iter(page).map(|c| c[1].to_string()).collect()
}

/// Relies on `regex::Regex::captures` with the fixed pattern
/// `client_id\s*:\s*"([0-9a-zA-Z]{32})"`: finds the first such token, which
/// the pattern fixes at exactly 32 ASCII-alphanumeric characters;
/// deterministic in the text.
#[verifier::external_body]
fn capture_client_id(js: &str) -> (r: Option<String>)
    ensures
        match r {
            Some(id) => client_id_in(js@) == Some(id@) && id@.len() == 32 && client_id_chars(id@),
            None => client_id_in(js@) is None,
        },
{
    let re = regex::Regex::new(r#"client_id\s*:\s*"([0-9a-zA-Z]{32})""#).unwrap();
    re.captures(js).map(|c| c[1].to_string())
}

/// The credential found in the first script body that announces one.
pub open spec fn first_client_id(bodies: Seq<Seq<char>>) -> Option<Seq<char>>
    decreases bodies.len(),
{
    if bodies.len() == 0 {
        None
    } else {
        match client_id_in(bodies[0]) {
            Some(id) => Some(id),
            None => first_client_id(bodies.drop_first()),
        }
    }
}

/// Scanning one more body after only misses finds exactly what that body
/// announces.
proof fn lemma_first_client_id_push(bodies: Seq<Seq<char>>, js: Seq<char>)
    requires
        first_client_id(bodies) is None,
    ensures
        first_client_id(bodies.push(js)) == client_id_in(js),
    decreases bodies.len(),
{
    if bodies.len() == 0 {
        assert(bodies.push(js)[0] == js);
        assert(bodies.push(js).drop_first() =~= Seq::<Seq<char>>::empty());
        assert(first_client_id(Seq::<Seq<char>>::empty()) is None);
    } else {
        assert(client_id_in(bodies[0]) is None);
        assert(bodies.push(js)[0] == bodies[0]);
        assert(bodies.push(js).drop_first() =~= bodies.drop_first().push(js));
        assert(first_client_id(bodies.drop_first()) is None);
        lemma_first_client_id_push(bodies.drop_first(), js);
    }
}

/// The scan for an access credential across the provider's script files.
///
/// Fetching each script is the caller's: [`CredentialScan::next_src`] says
/// which address to fetch next, and [`CredentialScan::feed`] scans the
/// fetched body. The first announced credential is kept — `found` always
/// equals the first hit among the bodies fed so far, in feeding order.
pub struct CredentialScan {
    pub srcs: Vec<String>,
    pub next: usize,
    pub found: Option<String>,
    pub fed: Ghost<Seq<Seq<char>>>,
}

impl CredentialScan {
    /// The scan position is inside the list, and `found` is exactly the
    /// first credential among the fed bodies.
    pub open spec fn wf(self) -> bool {
        &&& self.next <= self.srcs@.len()
        &&& match self.found {
            Some(id) => first_client_id(self.fed@) == Some(id@) && id@.len() == 32
                && client_id_chars(id@),
            None => first_client_id(self.fed@) is None,
        }
    }

    /// Starts a scan over the script addresses of the given page.
    pub fn new(page: &str) -> (r: CredentialScan)
        ensures
            r.wf(),
            r.srcs.deep_view() == script_srcs_in(page@),
            r.next == 0,
            r.found is None,
            r.fed@ == Seq::<Seq<char>>::empty(),
    {
        CredentialScan {
            srcs: capture_script_srcs(page),
            next: 0,
            found: None,
            fed: Ghost(Seq::empty()),
        }
    }

    /// The address of the next script to fetch: each address once, in page
    /// order, and none once a credential was found.
    pub fn next_src(&mut self) -> (r: Option<String>)
        requires
            old(self).wf(),
        ensures
            final(self).wf(),
            final(self).found == old(self).found,
            final(self).fed == old(self).fed,
            final(self).srcs@ == old(self).srcs@,
            match r {
                Some(src) => {
                    &&& old(self).found is None
                    &&& old(self).next < old(self).srcs@.len()
                    &&& src == old(self).srcs@[old(self).next as int]
                    &&& final(self).next == old(self).next + 1
                },
                None => {
                    &&& (old(self).found is Some || old(self).next == old(self).srcs@.len())
                    &&& final(self).next == old(self).next
                },
            },
    {
        if self.found.is_some() {
            return None;
        }
        if self.next < self.srcs.len() {
            let src = self.srcs[self.next].clone();
            self.next = self.next + 1;
            Some(src)
        } else {
            None
        }
    }

    /// Scans one fetched script body. The result is the first announced
    /// credential of this body, a 32-character token; once one is found
    /// the scan keeps it.
    pub fn feed(&mut self, js: &str) -> (r: Option<String>)
        requires
            old(self).wf(),
            old(self).found is None,
        ensures
            final(self).wf(),
            final(self).srcs@ == old(self).srcs@,
            final(self).next == old(self).next,
            final(self).fed@ == old(self).fed@.push(js@),
            match r {
                Some(id) => {
                    &&& client_id_in(js@) == Some(id@)
                    &&& id@.len() == 32
                    &&& client_id_chars(id@)
                    &&& final(self).found == Some(id)
                },
                None => client_id_in(js@) is None && final(self).found is None,
            },
    {
        proof {
            lemma_first_client_id_push(self.fed@, js@);
            self.fed@ = self.fed@.push(js@);
        }
        let r = capture_client_id(js);
        match r {
            Some(id) => {
                self.found = Some(id.clone());
                Some(id)
            },
            None => None,
        }
    }
}

} // verus!
