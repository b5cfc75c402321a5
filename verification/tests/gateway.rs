use amsync::amp::{AppleMusicCatalogSong, IsrcWithMeta, Metadata};
use amsync::batch::batch_bounds;
use amsync::dates::{parse_release_date, parse_source_date, DateError, DatePrecision};
use amsync::paging::PageFetch;
use amsync::target::{isrc_filter_value, parse_catalog_row, RowError};

#[test]
fn pagination_stops_on_short_page() {
    let mut fetch: PageFetch<u32> = PageFetch::new(2);
    assert!(!fetch.done);
    assert_eq!(fetch.next_offset, 0);
    fetch.on_page(vec![10, 11]);
    assert!(!fetch.done);
    assert_eq!(fetch.next_offset, 2);
    fetch.on_page(vec![12]);
    assert!(fetch.done);
    assert_eq!(fetch.into_items(), vec![10, 11, 12]);
}

#[test]
fn pagination_stops_even_on_empty_page_without_total_count() {
    let mut fetch: PageFetch<u32> = PageFetch::new(3);
    fetch.on_page(vec![1, 2, 3]);
    assert!(!fetch.done);
    fetch.on_page(Vec::new());
    assert!(fetch.done);
    assert_eq!(fetch.into_items(), vec![1, 2, 3]);
}

#[test]
fn pagination_keeps_partial_results_on_error() {
    let mut fetch: PageFetch<u32> = PageFetch::new(2);
    fetch.on_page(vec![1, 2]);
    fetch.on_error();
    assert!(fetch.done);
    assert_eq!(fetch.into_items(), vec![1, 2]);
}

#[test]
fn one_over_batch_size_makes_two_batches() {
    let bounds = batch_bounds(6, 5);
    assert_eq!(bounds, vec![(0, 5), (5, 6)]);
}

#[test]
fn batch_bounds_cover_the_list() {
    assert_eq!(batch_bounds(0, 5), Vec::<(usize, usize)>::new());
    assert_eq!(batch_bounds(5, 5), vec![(0, 5)]);
    assert_eq!(batch_bounds(12, 5), vec![(0, 5), (5, 10), (10, 12)]);
    assert_eq!(batch_bounds(3, 20), vec![(0, 3)]);
}

#[test]
fn year_only_date_lands_mid_year() {
    // Day-of-year 183 of 2020 is July 1 (2020 is a leap year).
    assert_eq!(
        parse_release_date("2020").unwrap(),
        parse_release_date("2020-07-01").unwrap()
    );
}

#[test]
fn month_only_date_lands_mid_month() {
    assert_eq!(
        parse_release_date("2020-07").unwrap(),
        parse_release_date("2020-07-15").unwrap()
    );
}

#[test]
fn full_dates_differ_by_their_day_gap() {
    let a = parse_release_date("2020-01-01").unwrap();
    let b = parse_release_date("2020-01-02").unwrap();
    assert_eq!(b - a, 1);
    let c = parse_release_date("2019-12-31").unwrap();
    assert_eq!(a - c, 1);
}

#[test]
fn malformed_dates_are_errors() {
    assert_eq!(parse_release_date(""), Err(DateError::Malformed));
    assert_eq!(parse_release_date("2020-"), Err(DateError::Malformed));
    assert_eq!(parse_release_date("20x0"), Err(DateError::Malformed));
    assert_eq!(parse_release_date("2020-02-30"), Err(DateError::Malformed));
    assert_eq!(parse_release_date("2020-13-01"), Err(DateError::Malformed));
    assert_eq!(parse_release_date("2020-01-02-03"), Err(DateError::Malformed));
    assert_eq!(parse_release_date("2021-02-29"), Err(DateError::Malformed));
    assert!(parse_release_date("2020-02-29").is_ok());
}

#[test]
fn source_date_precision_must_match_shape() {
    assert!(parse_source_date(DatePrecision::Year, "1999").is_ok());
    assert_eq!(
        parse_source_date(DatePrecision::Year, "1999-05"),
        Err(DateError::Malformed)
    );
    assert!(parse_source_date(DatePrecision::Month, "1999-05").is_ok());
    assert!(parse_source_date(DatePrecision::Day, "1999-05-20").is_ok());
    assert_eq!(
        parse_source_date(DatePrecision::Day, "1999-05"),
        Err(DateError::Malformed)
    );
}

#[test]
fn catalog_row_without_date_is_kept() {
    let row = parse_catalog_row("77", "USAAA1111111".to_string(), "Hits".to_string(), None)
        .unwrap();
    assert_eq!(row.entry.song, AppleMusicCatalogSong(77));
    assert_eq!(row.entry.meta.release_date, None);
}

#[test]
fn catalog_row_errors() {
    assert_eq!(
        parse_catalog_row("x7", "A".to_string(), "B".to_string(), None).unwrap_err(),
        RowError::MalformedId
    );
    assert_eq!(
        parse_catalog_row("", "A".to_string(), "B".to_string(), None).unwrap_err(),
        RowError::MalformedId
    );
    assert_eq!(
        parse_catalog_row("7", "A".to_string(), "B".to_string(), Some("20-20-20-20"))
            .unwrap_err(),
        RowError::MalformedDate
    );
}

#[test]
fn filter_value_prefixes_each_code_with_a_comma() {
    let tracks = vec![
        IsrcWithMeta {
            isrc: "USAAA1111111".to_string(),
            meta: Metadata {
                album_name: String::new(),
                release_date: None,
            },
        },
        IsrcWithMeta {
            isrc: "GBBBB2222222".to_string(),
            meta: Metadata {
                album_name: String::new(),
                release_date: None,
            },
        },
    ];
    assert_eq!(
        isrc_filter_value(&tracks, 0, 2),
        ",USAAA1111111,GBBBB2222222"
    );
    assert_eq!(isrc_filter_value(&tracks, 1, 2), ",GBBBB2222222");
    assert_eq!(isrc_filter_value(&tracks, 0, 0), "");
}

#[test]
fn catalog_id_parses_from_decimal_string() {
    assert_eq!(
        AppleMusicCatalogSong::from_id_str("1445266095"),
        Some(AppleMusicCatalogSong(1445266095))
    );
    assert_eq!(AppleMusicCatalogSong::from_id_str(""), None);
    assert_eq!(AppleMusicCatalogSong::from_id_str("12a"), None);
    assert_eq!(AppleMusicCatalogSong::from_id_str("99999999999999999999"), None);
}
