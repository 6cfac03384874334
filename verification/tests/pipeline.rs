use anime_ingest::dispatch::{chunk_ids, page_waves, process_chunk};
use anime_ingest::fetch::{run_fetch, AttemptOutcome, FetchResult, FetchSession, FetchStatus};
use anime_ingest::pages::{href_page_segment, last_page_no_from_html, parse_u16};
use anime_ingest::proxy::{
    assemble_pool, ensure_pool_usable, get_random_proxy, parse_proxy_list, Proxy, ProxyPool,
};
use anime_ingest::records::AnimeDetails;
use anime_ingest::store::Store;
use anime_ingest::CustomError;

fn proxies(addresses: &[&str]) -> Vec<Proxy> {
    addresses
        .iter()
        .map(|a| Proxy { address: a.to_string() })
        .collect()
}

fn details_with_id(id: i32) -> AnimeDetails {
    let mut d = AnimeDetails::default();
    d.id = id;
    d.title = Some(format!("title-{}", id));
    d
}

#[test]
fn retry_cap_all_transport_failures() {
    let outcomes = vec![AttemptOutcome::Transport; 8];
    let (result, attempts) = run_fetch(3, 5, &outcomes);
    assert_eq!(
        result,
        FetchResult::Failure(CustomError::FailedToFetchAfterRetries)
    );
    assert_eq!(attempts, 5);
}

#[test]
fn retry_cap_mixed_retriable_failures() {
    let outcomes = vec![
        AttemptOutcome::Transport,
        AttemptOutcome::BadStatus,
        AttemptOutcome::Transport,
    ];
    let (result, attempts) = run_fetch(2, 3, &outcomes);
    assert_eq!(
        result,
        FetchResult::Failure(CustomError::FailedToFetchAfterRetries)
    );
    assert_eq!(attempts, 3);
}

#[test]
fn fetch_succeeds_midway_short_circuits() {
    let outcomes = vec![
        AttemptOutcome::Transport,
        AttemptOutcome::BadStatus,
        AttemptOutcome::Decoded,
        AttemptOutcome::Transport,
    ];
    let (result, attempts) = run_fetch(1, 10, &outcomes);
    assert_eq!(result, FetchResult::Success);
    assert_eq!(attempts, 3);
}

#[test]
fn decode_failure_is_terminal_not_retried() {
    let outcomes = vec![
        AttemptOutcome::Transport,
        AttemptOutcome::DecodeFailed,
        AttemptOutcome::Decoded,
    ];
    let (result, attempts) = run_fetch(1, 10, &outcomes);
    assert_eq!(result, FetchResult::Failure(CustomError::DecodeError));
    assert_eq!(attempts, 2);
}

#[test]
fn fetch_trace_can_end_before_terminal_state() {
    let outcomes = vec![AttemptOutcome::Transport, AttemptOutcome::Transport];
    let (result, attempts) = run_fetch(1, 5, &outcomes);
    assert_eq!(result, FetchResult::Incomplete);
    assert_eq!(attempts, 2);
}

#[test]
fn empty_pool_fails_fetch_without_consuming_attempts() {
    let outcomes = vec![AttemptOutcome::Decoded];
    let (result, attempts) = run_fetch(0, 5, &outcomes);
    assert_eq!(result, FetchResult::Failure(CustomError::NoProxiesAvailable));
    assert_eq!(attempts, 0);
}

#[test]
fn session_counts_attempts_and_exhausts() {
    let mut session = FetchSession::new(2);
    assert!(session.can_attempt());
    let s1 = session.record(AttemptOutcome::Transport);
    assert_eq!(s1, FetchStatus::Continue);
    assert!(session.can_attempt());
    let s2 = session.record(AttemptOutcome::BadStatus);
    assert_eq!(
        s2,
        FetchStatus::Failed(CustomError::FailedToFetchAfterRetries)
    );
    assert!(!session.can_attempt());
    assert_eq!(session.attempts, 2);
}

#[test]
fn select_on_empty_pool_is_no_proxies_available() {
    let pool = ProxyPool { proxies: Vec::new() };
    assert_eq!(pool.select(), Err(CustomError::NoProxiesAvailable));
}

#[test]
fn empty_pool_at_pipeline_start_aborts_the_run() {
    let empty = ProxyPool { proxies: Vec::new() };
    assert_eq!(ensure_pool_usable(&empty), Err(CustomError::NoProxiesAvailable));
    let usable = ProxyPool { proxies: proxies(&["a:1"]) };
    assert_eq!(ensure_pool_usable(&usable), Ok(()));
}

#[test]
fn select_on_singleton_pool_returns_its_endpoint() {
    let pool = ProxyPool {
        proxies: proxies(&["10.0.0.1:1080"]),
    };
    let p = pool.select().unwrap();
    assert_eq!(p.address, "10.0.0.1:1080");
}

#[test]
fn random_proxy_comes_from_the_list() {
    let list = proxies(&["a:1", "b:2", "c:3"]);
    for _ in 0..20 {
        let p = get_random_proxy(&list).unwrap();
        assert!(list.iter().any(|q| q.address == p.address));
    }
}

#[test]
fn random_proxy_of_empty_list_is_none() {
    let list: Vec<Proxy> = Vec::new();
    assert!(get_random_proxy(&list).is_none());
}

#[test]
fn proxy_list_parsing_trims_and_skips_blank_lines() {
    let text = "  1.2.3.4:80  \n\n\t5.6.7.8:1080\r\n   \n9.9.9.9:3128";
    let parsed = parse_proxy_list(text);
    let addresses: Vec<&str> = parsed.iter().map(|p| p.address.as_str()).collect();
    assert_eq!(addresses, vec!["1.2.3.4:80", "5.6.7.8:1080", "9.9.9.9:3128"]);
}

#[test]
fn proxy_list_parsing_strips_unicode_whitespace() {
    // no-break space, ideographic space and narrow no-break space count as
    // whitespace, exactly as str::trim treats them
    let text = "\u{a0}\u{a0}\n \u{a0}1.2.3.4:80\u{a0}\u{3000}\n\u{2003}\u{202f}\n5.6.7.8:1080";
    let parsed = parse_proxy_list(text);
    let addresses: Vec<&str> = parsed.iter().map(|p| p.address.as_str()).collect();
    assert_eq!(addresses, vec!["1.2.3.4:80", "5.6.7.8:1080"]);
    for line in text.lines() {
        let trimmed = line.trim();
        assert_eq!(!trimmed.is_empty(), addresses.contains(&trimmed));
    }
}

#[test]
fn proxy_list_parsing_of_empty_text_is_empty() {
    assert_eq!(parse_proxy_list("").len(), 0);
    assert_eq!(parse_proxy_list(" \n \n ").len(), 0);
    assert_eq!(parse_proxy_list("\u{a0}\n\u{1680}\u{2028}\u{2029}\u{85}").len(), 0);
}

#[test]
fn pool_assembly_concatenates_all_sources_in_order() {
    let pool = assemble_pool(
        Some(proxies(&["s5:1"])),
        Some(proxies(&["s4:1", "s4:2"])),
        Some(proxies(&["h:1"])),
    )
    .unwrap();
    let addresses: Vec<&str> = pool.proxies.iter().map(|p| p.address.as_str()).collect();
    assert_eq!(addresses, vec!["s5:1", "s4:1", "s4:2", "h:1"]);
}

#[test]
fn pool_assembly_fails_when_any_source_is_missing() {
    let r = assemble_pool(Some(proxies(&["s5:1"])), None, Some(proxies(&["h:1"])));
    assert_eq!(r.unwrap_err(), CustomError::SourceUnavailable);
}

#[test]
fn chunking_partitions_without_gaps_or_overlaps() {
    let ids: Vec<String> = (0..250).map(|i| format!("id-{}", i)).collect();
    let chunks = chunk_ids(&ids, 100);
    assert_eq!(chunks.len(), 3);
    assert_eq!(chunks[0].len(), 100);
    assert_eq!(chunks[1].len(), 100);
    assert_eq!(chunks[2].len(), 50);
    let rejoined: Vec<String> = chunks.into_iter().flatten().collect();
    assert_eq!(rejoined, ids);
}

#[test]
fn chunking_five_ids_by_two() {
    let ids: Vec<String> = ["a", "b", "c", "d", "e"].iter().map(|s| s.to_string()).collect();
    let chunks = chunk_ids(&ids, 2);
    assert_eq!(
        chunks,
        vec![
            vec!["a".to_string(), "b".to_string()],
            vec!["c".to_string(), "d".to_string()],
            vec!["e".to_string()],
        ]
    );
}

#[test]
fn end_to_end_five_ids_three_workers_each_id_once() {
    let ids: Vec<String> = ["a", "b", "c", "d", "e"].iter().map(|s| s.to_string()).collect();
    let chunks = chunk_ids(&ids, 2);
    assert_eq!(chunks.len(), 3);
    let mut store = Store::new();
    let mut attempted = 0;
    let mut next_numeric_id = 1;
    for chunk in &chunks {
        let mut outcomes = Vec::new();
        for _id in chunk {
            attempted += 1;
            outcomes.push(Some(details_with_id(next_numeric_id)));
            next_numeric_id += 1;
        }
        process_chunk(&mut store, outcomes).unwrap();
    }
    assert_eq!(attempted, 5);
    assert_eq!(store.anime.len(), 5);
}

#[test]
fn partial_failure_isolation_in_one_chunk() {
    let mut store = Store::new();
    let outcomes = vec![Some(details_with_id(1)), None, Some(details_with_id(3))];
    let r = process_chunk(&mut store, outcomes);
    assert!(r.is_ok());
    assert_eq!(store.anime.len(), 2);
    assert!(store.anime.iter().any(|a| a.id == 1));
    assert!(store.anime.iter().any(|a| a.id == 3));
}

#[test]
fn failed_item_leaves_store_as_if_absent() {
    let mut with_failure = Store::new();
    process_chunk(
        &mut with_failure,
        vec![Some(details_with_id(1)), None, Some(details_with_id(3))],
    )
    .unwrap();
    let mut without = Store::new();
    process_chunk(
        &mut without,
        vec![Some(details_with_id(1)), Some(details_with_id(3))],
    )
    .unwrap();
    assert_eq!(with_failure, without);
}

#[test]
fn page_waves_cover_all_pages_in_tens() {
    let waves = page_waves(25);
    assert_eq!(waves.len(), 3);
    assert_eq!(waves[0].len(), 10);
    assert_eq!(waves[1].len(), 10);
    assert_eq!(waves[2].len(), 5);
    let all: Vec<u16> = waves.into_iter().flatten().collect();
    let expected: Vec<u16> = (1..=25).collect();
    assert_eq!(all, expected);
}

#[test]
fn page_waves_of_zero_pages_is_empty() {
    assert_eq!(page_waves(0).len(), 0);
}

#[test]
fn parse_u16_reads_digits_exactly() {
    assert_eq!(parse_u16("212"), Some(212));
    assert_eq!(parse_u16("0"), Some(0));
    assert_eq!(parse_u16("65535"), Some(65535));
    assert_eq!(parse_u16("65536"), None);
    assert_eq!(parse_u16("99999"), None);
    assert_eq!(parse_u16("12a"), None);
    assert_eq!(parse_u16("-3"), None);
    assert_eq!(parse_u16(""), None);
}

#[test]
fn parse_u16_accepts_one_leading_plus_sign() {
    // the same inputs str::parse::<u16> accepts and rejects
    assert_eq!(parse_u16("+42"), Some(42));
    assert_eq!(parse_u16("+0"), Some(0));
    assert_eq!(parse_u16("+65535"), Some(65535));
    assert_eq!(parse_u16("+65536"), None);
    assert_eq!(parse_u16("+"), None);
    assert_eq!(parse_u16("++42"), None);
    assert_eq!(parse_u16("4+2"), None);
    for text in ["212", "+212", "+", "++1", "65535", "+65536", "", "12a", "-3"] {
        assert_eq!(parse_u16(text), text.parse::<u16>().ok());
    }
}

#[test]
fn href_segment_is_text_after_last_equals_sign() {
    assert_eq!(href_page_segment("/az-list?page=42"), "42");
    assert_eq!(href_page_segment("a=b=17"), "17");
    assert_eq!(href_page_segment("no-parameter"), "no-parameter");
    assert_eq!(href_page_segment("trailing="), "");
}

#[test]
fn last_page_number_is_read_from_pagination_link() {
    let html = "<html><body><div id=\"main-wrapper\"><div><div class=\"page-az-wrap\">\
        <section><div class=\"tab-content\"><div><div class=\"pre-pagination mt-5 mb-5\">\
        <nav><ul>\
        <li><a href=\"/az-list?page=1\">1</a></li>\
        <li><a href=\"/az-list?page=37\">37</a></li>\
        </ul></nav></div></div></div></section></div></div></div></body></html>";
    assert_eq!(last_page_no_from_html(html, 1), 37);
}

#[test]
fn last_page_number_accepts_plus_signed_href_value() {
    let html = "<html><body><div id=\"main-wrapper\"><div><div class=\"page-az-wrap\">\
        <section><div class=\"tab-content\"><div><div class=\"pre-pagination mt-5 mb-5\">\
        <nav><ul>\
        <li><a href=\"/az-list?page=+42\">42</a></li>\
        </ul></nav></div></div></div></section></div></div></div></body></html>";
    assert_eq!(last_page_no_from_html(html, 1), 42);
}

#[test]
fn last_page_number_falls_back_without_pagination_link() {
    assert_eq!(last_page_no_from_html("<html><body></body></html>", 212), 212);
}

#[test]
fn last_page_number_falls_back_on_unparsable_href() {
    let html = "<html><body><div id=\"main-wrapper\"><div><div class=\"page-az-wrap\">\
        <section><div class=\"tab-content\"><div><div class=\"pre-pagination mt-5 mb-5\">\
        <nav><ul>\
        <li><a href=\"/az-list\">all</a></li>\
        </ul></nav></div></div></div></section></div></div></div></body></html>";
    assert_eq!(last_page_no_from_html(html, 198), 198);
}
