use vstd::prelude::*;

use crate::text::{
    lemma_precedes_irreflexive, lemma_precedes_total, lemma_precedes_transitive, precedes,
    str_equals, str_precedes,
};

verus! {

/// MPRIS playback status of a media player.
#[derive(Debug, Clone, Copy, PartialEq, Eq, Structural)]
pub enum MediaPlaybackState {
    Playing,
    Paused,
    Stopped,
}

impl Default for MediaPlaybackState {
    fn default() -> (state: Self)
        ensures
            state == MediaPlaybackState::Stopped,
    {
        MediaPlaybackState::Stopped
    }
}

/// Reads an MPRIS `PlaybackStatus` value; anything unknown counts as stopped.
pub fn playback_from_status(status: &str) -> (state: MediaPlaybackState)
    ensures
        state == (if status@ == "Playing"@ {
            MediaPlaybackState::Playing
        } else if status@ == "Paused"@ {
            MediaPlaybackState::Paused
        } else {
            MediaPlaybackState::Stopped
        }),
{
    if str_equals(status, "Playing") {
        MediaPlaybackState::Playing
    } else if str_equals(status, "Paused") {
        MediaPlaybackState::Paused
    } else {
        MediaPlaybackState::Stopped
    }
}

/// One media player found on the session bus, with its track metadata.
#[derive(Debug, Clone, PartialEq, Eq)]
pub struct MediaCandidate {
    pub bus_name: String,
    pub playback: MediaPlaybackState,
    pub title: String,
    pub artist: String,
    pub album_title: String,
    pub album_artist: String,
    pub genres: String,
}

pub open spec fn playback_rank(state: MediaPlaybackState) -> int {
    match state {
        MediaPlaybackState::Playing => 0,
        MediaPlaybackState::Paused => 1,
        MediaPlaybackState::Stopped => 2,
    }
}

fn media_playback_rank(state: MediaPlaybackState) -> (rank: u8)
    ensures
        rank == playback_rank(state),
{
    match state {
        MediaPlaybackState::Playing => 0,
        MediaPlaybackState::Paused => 1,
        MediaPlaybackState::Stopped => 2,
    }
}

/// `a` is preferred over `b`: a better playback state (playing, then paused,
/// then stopped), and on a tie a bus name that sorts first.
pub open spec fn preferred(a: MediaCandidate, b: MediaCandidate) -> bool {
    ||| playback_rank(a.playback) < playback_rank(b.playback)
    ||| playback_rank(a.playback) == playback_rank(b.playback) && precedes(a.bus_name@, b.bus_name@)
}

/// Index `i` holds the candidate that a stable sort by preference puts first:
/// nothing is preferred over it, and it is preferred over every candidate
/// before it.
pub open spec fn is_first_preferred(candidates: Seq<MediaCandidate>, i: int) -> bool {
    &&& 0 <= i < candidates.len()
    &&& forall|j: int| 0 <= j < candidates.len() ==> !preferred(#[trigger] candidates[j], candidates[i])
    &&& forall|j: int| 0 <= j < i ==> preferred(candidates[i], #[trigger] candidates[j])
}

proof fn lemma_preferred_transitive(a: MediaCandidate, b: MediaCandidate, c: MediaCandidate)
    requires
        preferred(a, b),
        preferred(b, c),
    ensures
        preferred(a, c),
{
    if playback_rank(a.playback) == playback_rank(b.playback) && playback_rank(b.playback)
        == playback_rank(c.playback) {
        lemma_precedes_transitive(a.bus_name@, b.bus_name@, c.bus_name@);
    }
}

proof fn lemma_preferred_total(a: MediaCandidate, b: MediaCandidate)
    ensures
        preferred(a, b) || preferred(b, a) || (playback_rank(a.playback) == playback_rank(
            b.playback,
        ) && a.bus_name@ == b.bus_name@),
{
    lemma_precedes_total(a.bus_name@, b.bus_name@);
}

proof fn lemma_preferred_irreflexive(a: MediaCandidate)
    ensures
        !preferred(a, a),
{
    lemma_precedes_irreflexive(a.bus_name@);
}

fn copy_candidate(candidate: &MediaCandidate) -> (copy: MediaCandidate)
    ensures
        copy == *candidate,
{
    MediaCandidate {
        bus_name: candidate.bus_name.clone(),
        playback: candidate.playback,
        title: candidate.title.clone(),
        artist: candidate.artist.clone(),
        album_title: candidate.album_title.clone(),
        album_artist: candidate.album_artist.clone(),
        genres: candidate.genres.clone(),
    }
}

fn is_preferred(a: &MediaCandidate, b: &MediaCandidate) -> (better: bool)
    ensures
        better == preferred(*a, *b),
{
    let ra = media_playback_rank(a.playback);
    let rb = media_playback_rank(b.playback);
    ra < rb || (ra == rb && str_precedes(a.bus_name.as_str(), b.bus_name.as_str()))
}

/// Picks the player to mirror: a playing one before a paused one before a
/// stopped one, and among equals the one whose bus name sorts first.
pub fn choose_media_candidate(candidates: &[MediaCandidate]) -> (chosen: Option<MediaCandidate>)
    ensures
        candidates@.len() == 0 <==> chosen is None,
        chosen matches Some(c) ==> exists|i: int|
            is_first_preferred(candidates@, i) && c == candidates@[i],
{
    let n = candidates.len();
    if n == 0 {
        return None;
    }
    let mut best: usize = 0;
    proof {
        lemma_preferred_irreflexive(candidates@[0]);
    }
    for j in 1..n
        invariant
            n == candidates@.len(),
            best < j,
            forall|m: int| 0 <= m < j ==> !preferred(#[trigger] candidates@[m], candidates@[best as int]),
            forall|m: int| 0 <= m < best ==> preferred(candidates@[best as int], #[trigger] candidates@[m]),
    {
        proof {
            lemma_preferred_irreflexive(candidates@[best as int]);
        }
        if is_preferred(&candidates[j], &candidates[best]) {
            proof {
                let c = candidates@;
                assert forall|m: int| 0 <= m < j + 1 implies !preferred(#[trigger] c[m], c[j as int]) by {
                    if preferred(c[m], c[j as int]) {
                        lemma_preferred_transitive(c[m], c[j as int], c[best as int]);
                    }
                    lemma_preferred_irreflexive(c[j as int]);
                }
                assert forall|m: int| 0 <= m < j implies preferred(c[j as int], #[trigger] c[m]) by {
                    if m < best {
                        lemma_preferred_transitive(c[j as int], c[best as int], c[m]);
                    } else if m == best {
                    } else {
                        lemma_preferred_total(c[m], c[best as int]);
                        if !preferred(c[best as int], c[m]) {
                            assert(playback_rank(c[m].playback) == playback_rank(c[best as int].playback));
                            assert(c[m].bus_name@ == c[best as int].bus_name@);
                        } else {
                            lemma_preferred_transitive(c[j as int], c[best as int], c[m]);
                        }
                    }
                }
            }
            best = j;
        }
    }
    Some(copy_candidate(&candidates[best]))
}

/// Remembers the player mirrored to the renderer.
#[derive(Debug, Clone, PartialEq, Eq)]
pub struct MediaBridgeState {
    current: Option<MediaCandidate>,
}

impl Default for MediaBridgeState {
    fn default() -> (state: Self)
        ensures
            state.spec_current() is None,
    {
        MediaBridgeState { current: None }
    }
}

impl MediaBridgeState {
    pub closed spec fn spec_current(&self) -> Option<MediaCandidate> {
        self.current
    }

    /// Chooses the current player when the bridge is enabled, and forgets any
    /// player when it is not. Returns the new current player.
    pub fn update(&mut self, enabled: bool, candidates: &[MediaCandidate]) -> (current: Option<
        MediaCandidate,
    >)
        ensures
            current == final(self).spec_current(),
            !enabled ==> current is None,
            enabled ==> (candidates@.len() == 0 <==> current is None),
            enabled ==> (current matches Some(c) ==> exists|i: int|
                is_first_preferred(candidates@, i) && c == candidates@[i]),
    {
        self.current = if enabled {
            choose_media_candidate(candidates)
        } else {
            None
        };
        match &self.current {
            Some(c) => Some(copy_candidate(c)),
            None => None,
        }
    }
}

} // verus!

verus! {

/// No two candidates share both playback state and bus name.
pub open spec fn distinct_keys(candidates: Seq<MediaCandidate>) -> bool {
    forall|a: int, b: int|
        0 <= a < candidates.len() && 0 <= b < candidates.len() && a != b ==> !(playback_rank(
            #[trigger] candidates[a].playback,
        ) == playback_rank(#[trigger] candidates[b].playback) && candidates[a].bus_name@
            == candidates[b].bus_name@)
}

/// The choice does not depend on the order in which players were found: two
/// listings of the same players, with no two alike in state and name, yield
/// the same player.
pub proof fn lemma_choice_is_order_independent(
    first: Seq<MediaCandidate>,
    second: Seq<MediaCandidate>,
    i: int,
    j: int,
)
    requires
        distinct_keys(first),
        first.to_set() == second.to_set(),
        is_first_preferred(first, i),
        is_first_preferred(second, j),
    ensures
        first[i] == second[j],
{
    assert(first.to_set().contains(first[i]));
    assert(second.to_set().contains(first[i]));
    let k = choose|k: int| 0 <= k < second.len() && second[k] == first[i];
    assert(!preferred(second[k], second[j]));
    assert(second.to_set().contains(second[j]));
    assert(first.to_set().contains(second[j]));
    let m = choose|m: int| 0 <= m < first.len() && first[m] == second[j];
    assert(!preferred(first[m], first[i]));
    lemma_preferred_total(first[i], second[j]);
    if m != i {
        assert(!(playback_rank(first[m].playback) == playback_rank(first[i].playback)
            && first[m].bus_name@ == first[i].bus_name@));
    }
}

} // verus!
