use amsync::amp::{AppleMusicCatalogSong, AppleMusicCatalogSongWithMeta, IsrcWithMeta, Metadata};
use amsync::dates::DatePrecision;
use amsync::resolve::{best_candidate, resolve_songs, CatalogEntry};
use amsync::source::{source_track, SourceItem};
use amsync::target::{append_body, parse_catalog_row};

fn meta(album: &str, day: Option<i32>) -> Metadata {
    Metadata {
        album_name: album.to_string(),
        release_date: day,
    }
}

fn cand(id: u64, album: &str, day: Option<i32>) -> AppleMusicCatalogSongWithMeta {
    AppleMusicCatalogSongWithMeta {
        song: AppleMusicCatalogSong(id),
        meta: meta(album, day),
    }
}

#[test]
fn identical_albums_are_distance_zero_whatever_the_dates() {
    let a = meta("Hits", Some(100));
    let b = meta("Hits", Some(100_000));
    assert_eq!(a.distance(&b), 0);
    let c = meta("Hits", None);
    assert_eq!(a.distance(&c), 0);
}

#[test]
fn missing_date_reduces_to_album_edit_distance() {
    let a = meta("abc", None);
    let b = meta("abd", Some(5000));
    assert_eq!(a.distance(&b), 1);
    let c = meta("kitten", Some(1));
    let d = meta("sitting", None);
    assert_eq!(c.distance(&d), 3);
}

#[test]
fn both_dates_add_day_gap_to_album_distance() {
    let a = meta("abc", Some(100));
    let b = meta("abd", Some(110));
    assert_eq!(a.distance(&b), 1 + 10);
    assert_eq!(b.distance(&a), 1 + 10);
}

#[test]
fn best_candidate_picks_minimum_distance() {
    let m = meta("Hits", Some(100));
    let cands = vec![
        cand(7, "Completely Else", None),
        cand(8, "Hits", Some(4000)),
        cand(9, "Hats", Some(100)),
    ];
    // id 8 matches the album exactly: distance 0 beats the one-letter edit.
    assert_eq!(best_candidate(&m, &cands), Some(1));
}

#[test]
fn best_candidate_tie_goes_to_first_listed() {
    let m = meta("AB", None);
    let cands = vec![cand(10, "AC", None), cand(20, "AD", None)];
    // Both candidates are one substitution away: an engineered tie.
    assert_eq!(best_candidate(&m, &cands), Some(0));
}

#[test]
fn best_candidate_of_nothing_is_none() {
    let m = meta("AB", None);
    assert_eq!(best_candidate(&m, &Vec::new()), None);
}

#[test]
fn unresolved_code_is_skipped_and_blocks_nothing() {
    let rows = vec![CatalogEntry {
        isrc: "USAAA1111111".to_string(),
        entry: cand(42, "Hits", None),
    }];
    let inputs = vec![
        IsrcWithMeta {
            isrc: "ZZZZZ0000000".to_string(),
            meta: meta("Hits", None),
        },
        IsrcWithMeta {
            isrc: "USAAA1111111".to_string(),
            meta: meta("Hits", None),
        },
    ];
    let out = resolve_songs(&rows, &inputs);
    assert_eq!(out, vec![AppleMusicCatalogSong(42)]);
}

#[test]
fn road_trip_end_to_end() {
    // The source playlist carries one track; its code is upper-cased on
    // ingestion.
    let item = SourceItem::Track {
        isrc: Some("usabc1234567".to_string()),
        album_name: "Hits".to_string(),
        precision: DatePrecision::Day,
        release_date: "2020-01-01".to_string(),
    };
    let track = source_track(&item).unwrap().unwrap();
    assert_eq!(track.isrc, "USABC1234567");

    // The target catalog lists two candidates under that code.
    let row1 = parse_catalog_row(
        "1",
        "USABC1234567".to_string(),
        "Hits".to_string(),
        Some("2020-01-02"),
    )
    .unwrap();
    let row2 = parse_catalog_row(
        "2",
        "USABC1234567".to_string(),
        "Best Of".to_string(),
        Some("2020-01-01"),
    )
    .unwrap();

    // Same album beats a different album: id 1 wins.
    let d1 = track.meta.distance(&row1.entry.meta);
    let d2 = track.meta.distance(&row2.entry.meta);
    assert!(d1 < d2);

    let out = resolve_songs(&vec![row1, row2], &vec![track]);
    assert_eq!(out, vec![AppleMusicCatalogSong(1)]);

    // The append request carries exactly that id.
    let body = append_body(&out, 0, 1);
    assert_eq!(body, "{\"data\":[{\"id\":\"1\",\"type\":\"songs\"}]}");
}

#[test]
fn resolver_keeps_input_order() {
    let rows = vec![
        CatalogEntry {
            isrc: "A1".to_string(),
            entry: cand(1, "X", None),
        },
        CatalogEntry {
            isrc: "B2".to_string(),
            entry: cand(2, "Y", None),
        },
    ];
    let inputs = vec![
        IsrcWithMeta {
            isrc: "B2".to_string(),
            meta: meta("Y", None),
        },
        IsrcWithMeta {
            isrc: "A1".to_string(),
            meta: meta("X", None),
        },
    ];
    let out = resolve_songs(&rows, &inputs);
    assert_eq!(out, vec![AppleMusicCatalogSong(2), AppleMusicCatalogSong(1)]);
}
