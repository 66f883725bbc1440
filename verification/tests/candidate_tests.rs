use reader_next::candidates::{
    candidate_hit, candidate_hits, candidate_record, candidate_records, CandidateRecord,
};
use reader_next::model::SearchBook;
use reader_next::numbers::parse_i64;

#[test]
fn sixty_four_bit_numbers_parse_as_std_does() {
    for s in [
        "0",
        "-1",
        "+42",
        "9223372036854775807",
        "-9223372036854775808",
        "9223372036854775808",
        "-9223372036854775809",
        "99999999999999999999",
        "12x",
        "",
        "+",
    ] {
        assert_eq!(parse_i64(s), s.parse::<i64>().ok(), "{s:?}");
    }
}

#[test]
fn hits_are_stored_with_their_numbers_read() {
    let hit = SearchBook {
        name: "书".to_string(),
        author: "甲".to_string(),
        book_url: "u".to_string(),
        origin: "s".to_string(),
        last_chapter: Some("第九章".to_string()),
        update_time: Some("1700000000".to_string()),
        word_count: Some("12万".to_string()),
        book_source_urls: Some(vec!["s".to_string()]),
        ..SearchBook::default()
    };
    let record = candidate_record(&hit);
    assert_eq!(record.latest_chapter_title, Some("第九章".to_string()));
    assert_eq!(record.update_time, Some(1_700_000_000));
    assert_eq!(record.word_count, None);
    let back = candidate_hit(&record);
    assert_eq!(back.update_time, Some("1700000000".to_string()));
    assert_eq!(back.word_count, None);
    assert_eq!(back.last_chapter, Some("第九章".to_string()));
    assert_eq!(back.book_source_urls, None);
}

#[test]
fn stored_records_read_back_unchanged() {
    let record = CandidateRecord {
        name: "n".to_string(),
        author: "a".to_string(),
        book_url: "u".to_string(),
        origin: "o".to_string(),
        cover_url: None,
        intro: Some("i".to_string()),
        kind: None,
        latest_chapter_title: None,
        update_time: Some(-5),
        word_count: Some(i64::MAX),
    };
    let again = candidate_record(&candidate_hit(&record));
    assert_eq!(again.update_time, Some(-5));
    assert_eq!(again.word_count, Some(i64::MAX));
    assert_eq!(again.intro, Some("i".to_string()));
    let hits = candidate_hits(&[record]);
    let records = candidate_records(&hits);
    assert_eq!(records.len(), 1);
    assert_eq!(records[0].book_url, "u");
}
