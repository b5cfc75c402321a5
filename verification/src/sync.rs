//! The sync orchestrator's matching rules.
//!
//! Target playlists flagged for sync carry a marker substring in their
//! name.  A run lists the flagged target playlists, strips the marker from
//! each name, trims it, and looks the result up among the source playlists
//! indexed by trimmed name; a target without a source counterpart is
//! skipped silently.  When two source playlists share a trimmed name the
//! later one wins, as a rebuilt name index would have it.

use vstd::prelude::*;
use crate::amp::AppleMusicPlaylistId;
use crate::text::{contains_sub, occurs_at, remove_all, strip_spec, trim, trim_spec};

verus! {

/// The marker substring flagging a target playlist for sync.
pub const SYNC_MARKER: &'static str = "[amsync]";

/// One unit of work for a run: append the tracks of the source playlist to
/// the target playlist.
pub struct SyncJob {
    pub source_name: String,
    pub source_id: String,
    pub target_name: String,
    pub target_id: AppleMusicPlaylistId,
}

/// The index of the source playlist whose trimmed name is `key`: the last
/// such playlist, or `-1` when there is none.
pub open spec fn source_match(sources: Seq<(String, String)>, key: Seq<char>) -> int
    decreases sources.len(),
{
    if sources.len() == 0 {
        -1
    } else if trim_spec(sources.last().0@) == key {
        sources.len() - 1
    } else {
        source_match(sources.drop_last(), key)
    }
}

/// The key a target playlist is looked up under: its name with the sync
/// marker removed and whitespace trimmed.
pub open spec fn target_key(name: Seq<char>, marker: Seq<char>) -> Seq<char> {
    trim_spec(strip_spec(name, marker))
}

/// The jobs a run performs: one per flagged target playlist whose key names
/// a source playlist, in target order.
pub open spec fn plan_spec(
    sources: Seq<(String, String)>,
    targets: Seq<(String, AppleMusicPlaylistId)>,
    marker: Seq<char>,
) -> Seq<SyncJob>
    decreases targets.len(),
{
    if targets.len() == 0 {
        Seq::empty()
    } else {
        let rest = plan_spec(sources, targets.drop_last(), marker);
        let k = source_match(sources, target_key(targets.last().0@, marker));
        if k == -1 {
            rest
        } else {
            rest.push(
                SyncJob {
                    source_name: sources[k].0,
                    source_id: sources[k].1,
                    target_name: targets.last().0,
                    target_id: targets.last().1,
                },
            )
        }
    }
}

/// A lookup lands on `-1` or on an index of the list.
pub proof fn lemma_source_match_bounds(sources: Seq<(String, String)>, key: Seq<char>)
    ensures
        -1 <= source_match(sources, key) < sources.len(),
    decreases sources.len(),
{
    if sources.len() > 0 {
        lemma_source_match_bounds(sources.drop_last(), key);
    }
}

/// The last source playlist whose trimmed name equals `key`.
fn find_source(sources: &Vec<(String, String)>, key: &String) -> (r: Option<usize>)
    ensures
        r is None <==> source_match(sources@, key@) == -1,
        r matches Some(k) ==> k == source_match(sources@, key@),
{
    let mut j: usize = sources.len();
    proof {
        assert(sources@.subrange(0, sources@.len() as int) =~= sources@);
    }
    while j > 0
        invariant
            j <= sources@.len(),
            source_match(sources@, key@) == source_match(sources@.subrange(0, j as int), key@),
        decreases j,
    {
        proof {
            let sub = sources@.subrange(0, j as int);
            assert(sub.drop_last() =~= sources@.subrange(0, j - 1));
            assert(sub.last() == sources@[j - 1]);
        }
        let name = trim(sources[j - 1].0.as_str()).to_owned();
        if name == *key {
            return Some(j - 1);
        }
        j = j - 1;
    }
    proof {
        assert(sources@.subrange(0, 0).len() == 0);
    }
    None
}

/// Whether a playlist name carries the sync marker.
pub fn is_flagged(name: &str, marker: &str) -> (r: bool)
    ensures
        r <==> exists|i: int| occurs_at(name@, marker@, i),
{
    contains_sub(name, marker)
}

/// Plan a run: match every flagged target playlist to the source playlist
/// its stripped, trimmed name names; targets without a counterpart are
/// skipped without error.
pub fn plan_sync(
    sources: &Vec<(String, String)>,
    targets: &Vec<(String, AppleMusicPlaylistId)>,
    marker: &str,
) -> (r: Vec<SyncJob>)
    requires
        marker@.len() > 0,
    ensures
        r@ == plan_spec(sources@, targets@, marker@),
{
    let mut r: Vec<SyncJob> = Vec::new();
    let mut i: usize = 0;
    while i < targets.len()
        invariant
            i <= targets@.len(),
            marker@.len() > 0,
            r@ == plan_spec(sources@, targets@.subrange(0, i as int), marker@),
        decreases targets@.len() - i,
    {
        proof {
            assert(targets@.subrange(0, i + 1).drop_last() =~= targets@.subrange(0, i as int));
            assert(targets@.subrange(0, i + 1).last() == targets@[i as int]);
        }
        let stripped = remove_all(targets[i].0.as_str(), marker);
        let key = trim(stripped.as_str()).to_owned();
        match find_source(sources, &key) {
            Some(k) => {
                proof {
                    lemma_source_match_bounds(sources@, key@);
                }
                let job = SyncJob {
                    source_name: sources[k].0.clone(),
                    source_id: sources[k].1.clone(),
                    target_name: targets[i].0.clone(),
                    target_id: AppleMusicPlaylistId(targets[i].1.0.clone()),
                };
                r.push(job);
            },
            None => {},
        }
        i = i + 1;
    }
    proof {
        assert(targets@.subrange(0, targets@.len() as int) =~= targets@);
    }
    r
}

} // verus!
