//! Ingestion of source-catalog playlist entries.
//!
//! A playlist entry may be something other than a track (a podcast episode,
//! say), and a track may lack a recording code; both are skipped without
//! failing the listing.  A kept track has its code upper-cased, so that all
//! later comparisons are exact string equality, and its release date read
//! at whatever precision the source gave it.

use vstd::prelude::*;
use crate::amp::{IsrcWithMeta, Metadata};
use crate::dates::{
    parse_source_date, precision_parts, release_day, release_day_ok, split_dash, DateError,
    DatePrecision,
};
use crate::text::upper_seq;

verus! {

/// One entry of a source playlist, as the listing hands it over: a track
/// with its code, album, and release date string with its precision, or
/// some other kind of playable item.
pub enum SourceItem {
    Track { isrc: Option<String>, album_name: String, precision: DatePrecision, release_date: String },
    Other,
}

/// Turn one playlist entry into a source track.  Non-track items and tracks
/// without a recording code are skipped (`Ok(None)`); a release date whose
/// shape does not agree with its precision, or which names no existing
/// calendar date, fails.
pub fn source_track(item: &SourceItem) -> (r: Result<Option<IsrcWithMeta>, DateError>)
    ensures
        item is Other ==> r == Ok::<Option<IsrcWithMeta>, DateError>(None),
        item matches SourceItem::Track { isrc: None, .. } ==> r == Ok::<
            Option<IsrcWithMeta>,
            DateError,
        >(None),
        item matches SourceItem::Track {
            isrc: Some(code),
            album_name,
            precision,
            release_date,
        } ==> {
            &&& r is Ok <==> release_day_ok(release_date@) && split_dash(release_date@).len()
                == precision_parts(*precision)
            &&& r matches Ok(Some(t)) ==> ({
                &&& t.isrc@ == upper_seq(code@)
                &&& t.meta.album_name == album_name
                &&& t.meta.release_date matches Some(d) && d == release_day(release_date@)
            })
            &&& r is Ok ==> (r matches Ok(v) && v is Some)
        },
{
    match item {
        SourceItem::Other => Ok(None),
        SourceItem::Track { isrc: None, .. } => Ok(None),
        SourceItem::Track { isrc: Some(code), album_name, precision, release_date } => {
            match parse_source_date(*precision, release_date.as_str()) {
                Err(e) => Err(e),
                Ok(day) => Ok(
                    Some(
                        IsrcWithMeta {
                            isrc: crate::text::to_upper_ascii(code.as_str()),
                            meta: Metadata {
                                album_name: album_name.clone(),
                                release_date: Some(day),
                            },
                        },
                    ),
                ),
            }
        },
    }
}

} // verus!
