use airport_lookup::airport::{airports_from_rows, Airport, AppState, CsvAirport};
use airport_lookup::page::{paginate, MAX_PAGE_LIMIT};
use airport_lookup::search::search;

fn create_test_state() -> AppState {
    let airports = vec![
        Airport::new("KJFK".into(), "John F. Kennedy International Airport".into()),
        Airport::new("KLAX".into(), "Los Angeles International Airport".into()),
        Airport::new("EGLL".into(), "London Heathrow Airport".into()),
    ];
    AppState { airports }
}

fn codes(items: &[&Airport]) -> Vec<String> {
    items.iter().map(|a| a.icao().to_string()).collect()
}

#[test]
fn test_get_airports_no_pagination() {
    let state = create_test_state();
    let resp = paginate(&state.airports, None, None);
    assert_eq!(resp.total, 3);
    assert_eq!(resp.data.len(), 3);
    assert!(!resp.has_more);
    assert_eq!(resp.remaining, 0);
}

#[test]
fn test_get_airports_with_pagination() {
    let state = create_test_state();
    let resp = paginate(&state.airports, Some(1), Some(2));
    assert_eq!(resp.total, 3);
    assert_eq!(resp.data.len(), 2);
    assert_eq!(resp.data[0].icao(), "KLAX");
    assert_eq!(resp.data[1].icao(), "EGLL");
    assert!(!resp.has_more);
    assert_eq!(resp.remaining, 0);
}

#[test]
fn test_search_airports() {
    let state = create_test_state();
    let hits = search(&state.airports, "kjfk");
    let resp = paginate(&hits, None, None);
    assert_eq!(resp.total, 1);
    assert_eq!(resp.data.len(), 1);
    assert_eq!(resp.data[0].icao(), "KJFK");
    assert!(!resp.has_more);
    assert_eq!(resp.remaining, 0);
}

#[test]
fn test_search_airports_no_match() {
    let state = create_test_state();
    let hits = search(&state.airports, "XYZ");
    let resp = paginate(&hits, None, None);
    assert_eq!(resp.total, 0);
    assert_eq!(resp.data.len(), 0);
    assert!(!resp.has_more);
    assert_eq!(resp.remaining, 0);
}

#[test]
fn search_ignores_case_of_query() {
    let state = create_test_state();
    let lower = codes(&search(&state.airports, "kjfk"));
    let upper = codes(&search(&state.airports, "KJFK"));
    assert_eq!(lower, vec!["KJFK".to_string()]);
    assert_eq!(lower, upper);
}

#[test]
fn search_matches_name_substring_in_dataset_order() {
    let state = create_test_state();
    let hits = codes(&search(&state.airports, "International"));
    assert_eq!(hits, vec!["KJFK".to_string(), "KLAX".to_string()]);
    let hits = codes(&search(&state.airports, "LONDON heath"));
    assert_eq!(hits, vec!["EGLL".to_string()]);
}

#[test]
fn search_empty_query_matches_all() {
    let state = create_test_state();
    let hits = codes(&search(&state.airports, ""));
    assert_eq!(hits, vec!["KJFK".to_string(), "KLAX".to_string(), "EGLL".to_string()]);
}

#[test]
fn search_order_is_dataset_order_on_large_dataset() {
    let mut airports = Vec::new();
    for i in 0..2000u32 {
        let code = format!("X{:04}", i);
        let name = if i % 3 == 0 { "Alpha Field".to_string() } else { "Beta Field".to_string() };
        airports.push(Airport::new(code, name));
    }
    let hits = search(&airports, "ALPHA");
    assert_eq!(hits.len(), 667);
    for (k, a) in hits.iter().enumerate() {
        assert_eq!(a.icao(), format!("X{:04}", k * 3));
    }
}

#[test]
fn offset_past_end_gives_empty_page() {
    let state = create_test_state();
    let resp = paginate(&state.airports, Some(10), Some(5));
    assert_eq!(resp.total, 3);
    assert_eq!(resp.data.len(), 0);
    assert!(!resp.has_more);
    assert_eq!(resp.remaining, 0);
}

#[test]
fn offset_equal_to_total_gives_empty_page() {
    let data = [1u8, 2, 3];
    let resp = paginate(&data, Some(3), None);
    assert_eq!(resp.data.len(), 0);
    assert!(!resp.has_more);
    assert_eq!(resp.remaining, 0);
}

#[test]
fn large_limit_is_capped() {
    let data: Vec<u32> = (0..120).collect();
    let resp = paginate(&data, None, Some(1000));
    assert_eq!(MAX_PAGE_LIMIT, 50);
    assert_eq!(resp.data.len(), 50);
    assert_eq!(resp.data[0], 0);
    assert_eq!(resp.data[49], 49);
    assert!(resp.has_more);
    assert_eq!(resp.remaining, 70);
}

#[test]
fn absent_limit_is_capped_too() {
    let data: Vec<u32> = (0..120).collect();
    let resp = paginate(&data, Some(60), None);
    assert_eq!(resp.data.len(), 50);
    assert_eq!(resp.data[0], 60);
    assert!(resp.has_more);
    assert_eq!(resp.remaining, 10);
}

#[test]
fn window_clamped_at_end() {
    let data: Vec<u32> = (0..10).collect();
    let resp = paginate(&data, Some(7), Some(5));
    assert_eq!(resp.data, &[7, 8, 9]);
    assert!(!resp.has_more);
    assert_eq!(resp.remaining, 0);
    let resp = paginate(&data, Some(2), Some(3));
    assert_eq!(resp.data, &[2, 3, 4]);
    assert!(resp.has_more);
    assert_eq!(resp.remaining, 5);
}

#[test]
fn zero_limit_gives_empty_window() {
    let data: Vec<u32> = (0..4).collect();
    let resp = paginate(&data, Some(1), Some(0));
    assert_eq!(resp.data.len(), 0);
    assert!(resp.has_more);
    assert_eq!(resp.remaining, 3);
}

#[test]
fn paginate_twice_gives_same_page() {
    let data: Vec<u32> = (0..30).collect();
    let a = paginate(&data, Some(4), Some(9));
    let b = paginate(&data, Some(4), Some(9));
    assert_eq!(a.data, b.data);
    assert_eq!((a.total, a.has_more, a.remaining), (b.total, b.has_more, b.remaining));
}

#[test]
fn paginate_empty_sequence() {
    let data: Vec<u32> = Vec::new();
    let resp = paginate(&data, None, None);
    assert_eq!(resp.total, 0);
    assert_eq!(resp.data.len(), 0);
    assert!(!resp.has_more);
    assert_eq!(resp.remaining, 0);
}

fn row(ident: &str, name: &str) -> CsvAirport {
    CsvAirport { ident: ident.to_string(), name: name.to_string() }
}

#[test]
fn loader_skips_blank_identifiers_and_keeps_order() {
    let rows = vec![
        row("KJFK", "John F. Kennedy International Airport"),
        row("", "Nowhere"),
        row("   ", "Blank Field"),
        row("EGLL", "London Heathrow Airport"),
    ];
    let airports = airports_from_rows(&rows);
    assert_eq!(airports.len(), 2);
    assert_eq!(airports[0].icao(), "KJFK");
    assert_eq!(airports[0].name(), "John F. Kennedy International Airport");
    assert_eq!(airports[1].icao(), "EGLL");
}

#[test]
fn loader_keeps_display_case_and_matches_lowercase() {
    let rows = vec![row("ESSA", "Stockholm ARLANDA")];
    let airports = airports_from_rows(&rows);
    assert_eq!(airports[0].icao(), "ESSA");
    assert_eq!(airports[0].name(), "Stockholm ARLANDA");
    assert!(airports[0].matches("arlanda"));
    assert!(airports[0].matches("essa"));
    assert!(!airports[0].matches("ESSA"));
    assert!(!airports[0].matches("oslo"));
}

#[test]
fn matching_is_unicode_lowercase() {
    let airports = vec![Airport::new("ÖREB".to_string(), "ÖREBRO Flygplats".to_string())];
    let hits = search(&airports, "öREBro");
    assert_eq!(hits.len(), 1);
    assert!(airports[0].matches("örebro flyg"));
}

#[test]
fn search_lowered_compares_against_lowercase_keys() {
    let state = create_test_state();
    let hits = codes(&airport_lookup::search::search_lowered(&state.airports, "los angeles"));
    assert_eq!(hits, vec!["KLAX".to_string()]);
    let hits = airport_lookup::search::search_lowered(&state.airports, "LOS ANGELES");
    assert_eq!(hits.len(), 0);
}
