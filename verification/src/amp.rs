//! Data model shared by the two catalog gateways and the identity resolver.
//!
//! Release dates are carried as day numbers in the proleptic Gregorian
//! calendar (January 1 of year 1 is day 1), so that the distance between two
//! dates is a plain subtraction; `crate::dates` turns the catalogs' date
//! strings into such day numbers.

use vstd::prelude::*;
use vstd::string::StringSliceAdditionalSpecFns;
use vstd::utf8::encode_utf8;
use crate::lev::{lev, levenshtein_exec};

verus! {

/// A song in the target catalog, identified by its numeric catalog id.
#[derive(PartialEq, Eq, Structural, Debug, Clone, Copy)]
pub struct AppleMusicCatalogSong(pub u64);

/// A song in the user's target-catalog library, identified by a library id.
#[derive(Debug, Clone)]
pub struct AppleMusicLibrarySong(pub String);

/// A song in the source catalog, identified by its catalog id.
#[derive(PartialEq, Debug, Clone)]
pub struct SpotifySong(pub String);

/// A catalog-independent description of a song.
#[derive(PartialEq, Debug)]
pub struct UnifiedSong {
    pub name: String,
    pub isrc: String,
}

/// A playlist in the target catalog, identified by its library playlist id.
#[derive(PartialEq, Debug, Clone)]
pub struct AppleMusicPlaylistId(pub String);

/// A catalog-independent description of a playlist.
#[derive(PartialEq, Debug)]
pub struct UnifiedPlaylist {
    pub name: String,
    pub songs_state: Vec<UnifiedSong>,
}

/// The tie-breaking metadata attached to a recording code: the album the
/// recording appeared on and, when known, its release date as a proleptic
/// Gregorian day number.
#[derive(Debug, Clone)]
pub struct Metadata {
    pub album_name: String,
    pub release_date: Option<i32>,
}

/// A target-catalog song together with its tie-breaking metadata.
#[derive(Debug, Clone)]
pub struct AppleMusicCatalogSongWithMeta {
    pub song: AppleMusicCatalogSong,
    pub meta: Metadata,
}

/// A recording code from the source catalog together with its tie-breaking
/// metadata.
#[derive(Debug, Clone)]
pub struct IsrcWithMeta {
    pub isrc: String,
    pub meta: Metadata,
}

/// The date component of the distance between two metadata records: the
/// absolute difference in days when both dates are known, and zero when
/// either is missing, so that an absent date never penalizes a candidate.
pub open spec fn date_gap(a: Option<i32>, b: Option<i32>) -> int {
    match (a, b) {
        (Some(x), Some(y)) => if x >= y {
            x - y
        } else {
            y - x
        },
        _ => 0,
    }
}

/// The album-name component of the distance: zero for identical names,
/// otherwise the Levenshtein distance between their UTF-8 encodings.  Names
/// too long for an exact distance (at least 2^32 - 1 bytes) are treated as
/// maximally far apart.
pub open spec fn album_distance(a: Seq<char>, b: Seq<char>) -> int {
    if a == b {
        0
    } else if encode_utf8(a).len() >= 0xFFFF_FFFF || encode_utf8(b).len() >= 0xFFFF_FFFF {
        u64::MAX as int
    } else {
        lev(encode_utf8(a), encode_utf8(b)) as int
    }
}

/// The distance between two metadata records: zero for identical album
/// names regardless of the dates; otherwise the album-name edit distance
/// plus the gap in days between the release dates.
pub open spec fn meta_distance(a: Metadata, b: Metadata) -> int {
    if a.album_name@ == b.album_name@ {
        0
    } else if encode_utf8(a.album_name@).len() >= 0xFFFF_FFFF || encode_utf8(
        b.album_name@,
    ).len() >= 0xFFFF_FFFF {
        u64::MAX as int
    } else {
        lev(encode_utf8(a.album_name@), encode_utf8(b.album_name@)) + date_gap(
            a.release_date,
            b.release_date,
        )
    }
}

/// Exact-match short-circuit: two metadata records with identical album
/// names are at distance zero, whatever their release dates.
pub proof fn lemma_exact_album_zero_distance(a: Metadata, b: Metadata)
    requires
        a.album_name@ == b.album_name@,
    ensures
        meta_distance(a, b) == 0,
{
}

/// Missing-date neutrality: when either release date is absent the date
/// component of the distance is zero, and the distance reduces to the
/// album-name distance alone.
pub proof fn lemma_missing_date_neutral(a: Metadata, b: Metadata)
    requires
        a.release_date is None || b.release_date is None,
    ensures
        date_gap(a.release_date, b.release_date) == 0,
        meta_distance(a, b) == album_distance(a.album_name@, b.album_name@),
{
}

impl AppleMusicCatalogSong {
    /// Parse a catalog song id from the decimal string form the catalog's
    /// responses carry it in.
    pub fn from_id_str(s: &str) -> (r: Option<Self>)
        ensures
            r is Some <==> s@.len() > 0 && crate::text::all_digits(s@) && crate::text::dec_val(s@)
                <= u64::MAX,
            r matches Some(v) ==> v.0 == crate::text::dec_val(s@),
    {
        match crate::text::parse_u64_digits(s) {
            Some(v) => Some(AppleMusicCatalogSong(v)),
            None => None,
        }
    }
}

impl Metadata {
    /// The distance score between this record and another, used to rank the
    /// candidates that share a recording code.  It never fails: the score
    /// only degrades as information is missing.
    pub fn distance(&self, other: &Self) -> (r: u64)
        ensures
            r == meta_distance(*self, *other),
    {
        if self.album_name == other.album_name {
            return 0;
        }
        let a = self.album_name.as_str();
        let b = other.album_name.as_str();
        if (a.as_bytes().len() as u64) >= 0xFFFF_FFFF || (b.as_bytes().len() as u64)
            >= 0xFFFF_FFFF {
            return u64::MAX;
        }
        let name_dist = levenshtein_exec(a, b);
        let gap: u64 = match (self.release_date, other.release_date) {
            (Some(x), Some(y)) => if x >= y {
                (x as i64 - y as i64) as u64
            } else {
                (y as i64 - x as i64) as u64
            },
            _ => 0,
        };
        name_dist as u64 + gap
    }
}

} // verus!
