//! Parsing of target-catalog lookup rows, and the exact wire shapes of the
//! target catalog's bulk requests.
//!
//! A lookup response lists songs under their recording codes; each row
//! carries a numeric id, an album name, and possibly a release date.  A row
//! without a date is kept with no date; a date that does not parse is a
//! fatal, malformed-metadata failure for the whole lookup, since it signals
//! a contract change in the catalog.  The append request's body must be
//! reproduced bit for bit, so it is built here, character by character.

use vstd::prelude::*;
use crate::amp::{AppleMusicCatalogSong, AppleMusicCatalogSongWithMeta, IsrcWithMeta, Metadata};
use crate::dates::{num_ok, parse_release_date, release_day, release_day_ok};
use crate::resolve::CatalogEntry;
use crate::text::{dec_val, push_char};

verus! {

/// Why a lookup row was rejected.
#[derive(PartialEq, Eq, Structural, Debug, Clone, Copy)]
pub enum RowError {
    /// The song id is not a decimal number that fits the id space.
    MalformedId,
    /// The release date is present but names no existing `Y`, `Y-M` or
    /// `Y-M-D` date.
    MalformedDate,
}

/// Turn one row of a lookup response into a catalog entry.  Fails exactly
/// when the id is not a decimal numeral fitting 64 bits, or a present
/// release date does not parse.
pub fn parse_catalog_row(
    id: &str,
    isrc: String,
    album_name: String,
    release_date: Option<&str>,
) -> (r: Result<CatalogEntry, RowError>)
    ensures
        r is Ok <==> num_ok(id@) && dec_val(id@) <= u64::MAX && (match release_date {
            Some(s) => release_day_ok(s@),
            None => true,
        }),
        r matches Ok(row) ==> {
            &&& row.isrc == isrc
            &&& row.entry.song == AppleMusicCatalogSong(dec_val(id@) as u64)
            &&& row.entry.meta.album_name == album_name
            &&& (release_date is None ==> row.entry.meta.release_date is None)
            &&& (release_date matches Some(s) ==> row.entry.meta.release_date matches Some(d)
                && d == release_day(s@))
        },
        r matches Err(e) ==> (e == RowError::MalformedId <==> !(num_ok(id@) && dec_val(id@)
            <= u64::MAX)),
{
    let song = match crate::text::parse_u64_digits(id) {
        None => {
            return Err(RowError::MalformedId);
        },
        Some(v) => AppleMusicCatalogSong(v),
    };
    let day: Option<i32> = match release_date {
        None => None,
        Some(s) => match parse_release_date(s) {
            Err(_) => {
                return Err(RowError::MalformedDate);
            },
            Ok(d) => Some(d),
        },
    };
    Ok(
        CatalogEntry {
            isrc,
            entry: AppleMusicCatalogSongWithMeta {
                song,
                meta: Metadata { album_name, release_date: day },
            },
        },
    )
}

/// The recording codes of `tracks`, each preceded by a comma: the value of
/// the lookup request's code filter, exactly as the catalog expects it.
pub open spec fn filter_join(tracks: Seq<IsrcWithMeta>) -> Seq<char>
    decreases tracks.len(),
{
    if tracks.len() == 0 {
        Seq::empty()
    } else {
        filter_join(tracks.drop_last()) + seq![','] + tracks.last().isrc@
    }
}

/// Build the code-filter value for the batch of `tracks` between `start`
/// (inclusive) and `end` (exclusive).
pub fn isrc_filter_value(tracks: &Vec<IsrcWithMeta>, start: usize, end: usize) -> (r: String)
    requires
        start <= end <= tracks@.len(),
    ensures
        r@ == filter_join(tracks@.subrange(start as int, end as int)),
{
    let mut out = String::new();
    let mut k: usize = start;
    proof {
        assert(tracks@.subrange(start as int, start as int).len() == 0);
        assert(out@ =~= filter_join(tracks@.subrange(start as int, start as int)));
    }
    while k < end
        invariant
            start <= k <= end <= tracks@.len(),
            out@ == filter_join(tracks@.subrange(start as int, k as int)),
        decreases end - k,
    {
        proof {
            assert(tracks@.subrange(start as int, k + 1).drop_last() =~= tracks@.subrange(
                start as int,
                k as int,
            ));
            assert(tracks@.subrange(start as int, k + 1).last() == tracks@[k as int]);
        }
        push_char(&mut out, ',');
        out.append(tracks[k].isrc.as_str());
        proof {
            assert(out@ =~= filter_join(tracks@.subrange(start as int, k + 1)));
        }
        k = k + 1;
    }
    out
}

/// The character for decimal digit `d`.
pub open spec fn digit_char(d: int) -> char {
    if d == 0 {
        '0'
    } else if d == 1 {
        '1'
    } else if d == 2 {
        '2'
    } else if d == 3 {
        '3'
    } else if d == 4 {
        '4'
    } else if d == 5 {
        '5'
    } else if d == 6 {
        '6'
    } else if d == 7 {
        '7'
    } else if d == 8 {
        '8'
    } else {
        '9'
    }
}

/// The decimal numeral of `v`, without sign or leading zeros (`0` for 0).
pub open spec fn dec_str(v: int) -> Seq<char>
    decreases v,
{
    if v < 10 {
        seq![digit_char(v)]
    } else {
        dec_str(v / 10) + seq![digit_char(v % 10)]
    }
}

/// Append the decimal numeral of `v`.
fn push_u64_dec(out: &mut String, v: u64)
    ensures
        final(out)@ == old(out)@ + dec_str(v as int),
    decreases v,
{
    if v < 10 {
        let c: char = match v {
            0 => '0',
            1 => '1',
            2 => '2',
            3 => '3',
            4 => '4',
            5 => '5',
            6 => '6',
            7 => '7',
            8 => '8',
            _ => '9',
        };
        push_char(out, c);
        proof {
            assert(old(out)@.push(c) =~= old(out)@ + dec_str(v as int));
        }
    } else {
        push_u64_dec(out, v / 10);
        let c: char = match v % 10 {
            0 => '0',
            1 => '1',
            2 => '2',
            3 => '3',
            4 => '4',
            5 => '5',
            6 => '6',
            7 => '7',
            8 => '8',
            _ => '9',
        };
        push_char(out, c);
        proof {
            assert((old(out)@ + dec_str(v as int / 10)).push(c) =~= old(out)@ + dec_str(v as int));
        }
    }
}

/// The append request's JSON entry for one song id.
pub open spec fn id_entry_json(song: AppleMusicCatalogSong) -> Seq<char> {
    "{\"id\":\""@ + dec_str(song.0 as int) + "\",\"type\":\"songs\"}"@
}

/// The comma-separated JSON entries of the given song ids.
pub open spec fn ids_json(ids: Seq<AppleMusicCatalogSong>) -> Seq<char>
    decreases ids.len(),
{
    if ids.len() == 0 {
        Seq::empty()
    } else if ids.len() == 1 {
        id_entry_json(ids[0])
    } else {
        ids_json(ids.drop_last()) + seq![','] + id_entry_json(ids.last())
    }
}

/// The full body of an append request for the given song ids.
pub open spec fn append_body_json(ids: Seq<AppleMusicCatalogSong>) -> Seq<char> {
    "{\"data\":["@ + ids_json(ids) + "]}"@
}

/// Build the body of the append request for the batch of `ids` between
/// `start` (inclusive) and `end` (exclusive), exactly as the catalog
/// expects it.
pub fn append_body(ids: &Vec<AppleMusicCatalogSong>, start: usize, end: usize) -> (r: String)
    requires
        start <= end <= ids@.len(),
    ensures
        r@ == append_body_json(ids@.subrange(start as int, end as int)),
{
    let mut out = String::new();
    out.append("{\"data\":[");
    let mut k: usize = start;
    proof {
        assert(ids@.subrange(start as int, start as int).len() == 0);
        assert(out@ =~= "{\"data\":["@ + ids_json(ids@.subrange(start as int, start as int)));
    }
    while k < end
        invariant
            start <= k <= end <= ids@.len(),
            out@ == "{\"data\":["@ + ids_json(ids@.subrange(start as int, k as int)),
        decreases end - k,
    {
        proof {
            assert(ids@.subrange(start as int, k + 1).drop_last() =~= ids@.subrange(
                start as int,
                k as int,
            ));
            assert(ids@.subrange(start as int, k + 1).last() == ids@[k as int]);
        }
        if k > start {
            push_char(&mut out, ',');
        }
        out.append("{\"id\":\"");
        push_u64_dec(&mut out, ids[k].0);
        out.append("\",\"type\":\"songs\"}");
        proof {
            assert(out@ =~= "{\"data\":["@ + ids_json(ids@.subrange(start as int, k + 1)));
        }
        k = k + 1;
    }
    out.append("]}");
    proof {
        assert(out@ =~= append_body_json(ids@.subrange(start as int, end as int)));
    }
    out
}

} // verus!
