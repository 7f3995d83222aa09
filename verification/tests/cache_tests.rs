use row_cache::LoadedRows;
use row_cache::RowState;

fn is_placeholder(s: &RowState<u32>) -> bool {
    matches!(s, RowState::Placeholder)
}

fn is_loading(s: &RowState<u32>) -> bool {
    matches!(s, RowState::Loading)
}

fn same_state(a: &RowState<u32>, b: &RowState<u32>) -> bool {
    match (a, b) {
        (RowState::Placeholder, RowState::Placeholder) => true,
        (RowState::Loading, RowState::Loading) => true,
        (RowState::Loaded(x), RowState::Loaded(y)) => x == y,
        (RowState::Error(x), RowState::Error(y)) => x == y,
        _ => false,
    }
}

#[test]
fn new_cache_is_empty() {
    let cache: LoadedRows<u32> = LoadedRows::new();
    assert_eq!(cache.len(), 0);
}

#[test]
fn resize_fills_with_placeholders() {
    let mut cache: LoadedRows<u32> = LoadedRows::new();
    cache.resize(7);
    assert_eq!(cache.len(), 7);
    for i in 0..7 {
        assert!(is_placeholder(cache.get(i)));
    }
}

#[test]
fn resize_is_idempotent_and_shrinks() {
    let mut cache: LoadedRows<u32> = LoadedRows::new();
    cache.resize(5);
    cache.write_loading(0..5);
    cache.resize(3);
    assert_eq!(cache.len(), 3);
    for i in 0..3 {
        assert!(is_loading(cache.get(i)));
    }
    cache.resize(3);
    assert_eq!(cache.len(), 3);
    for i in 0..3 {
        assert!(is_loading(cache.get(i)));
    }
}

#[test]
fn missing_range_none_when_loaded_or_loading() {
    let mut cache: LoadedRows<u32> = LoadedRows::new();
    cache.resize(4);
    cache.write_loading(0..2);
    cache.write_loaded(Ok((vec![20, 30], 2..4)), 2..4);
    assert_eq!(cache.missing_range(0..4), None);
}

#[test]
fn missing_range_is_bounding_not_minimal() {
    // Length 5, indices 1..4 loaded, 0 and 4 still placeholders: the query
    // over 0..5 returns the bounding range 0..5, not the two gaps.
    let mut cache: LoadedRows<u32> = LoadedRows::new();
    cache.resize(5);
    cache.write_loaded(Ok((vec![1, 2, 3], 1..4)), 1..4);
    assert_eq!(cache.missing_range(0..5), Some(0..5));
}

#[test]
fn loaded_rows_written_in_order() {
    let mut cache: LoadedRows<u32> = LoadedRows::new();
    cache.resize(4);
    cache.write_loaded(Ok((vec![10, 11], 2..4)), 2..4);
    assert!(matches!(cache.get(2), RowState::Loaded(10)));
    assert!(matches!(cache.get(3), RowState::Loaded(11)));
    assert!(is_placeholder(cache.get(0)));
    assert!(is_placeholder(cache.get(1)));
    assert_eq!(cache.missing_range(2..4), None);
}

#[test]
fn failed_fetch_marks_error_and_stays_missing() {
    let mut cache: LoadedRows<u32> = LoadedRows::new();
    cache.resize(4);
    cache.write_loaded(Err("boom".to_string()), 2..4);
    assert!(matches!(cache.get(2), RowState::Error(e) if e == "boom"));
    assert!(matches!(cache.get(3), RowState::Error(e) if e == "boom"));
    assert!(is_placeholder(cache.get(0)));
    assert_eq!(cache.missing_range(2..4), Some(2..4));
}

#[test]
fn clear_resets_states_but_not_length() {
    let mut cache: LoadedRows<u32> = LoadedRows::new();
    cache.resize(6);
    cache.write_loading(0..2);
    cache.write_loaded(Ok((vec![5, 6], 2..4)), 2..4);
    cache.write_loaded(Err("gone".to_string()), 4..6);
    cache.clear();
    assert_eq!(cache.len(), 6);
    for i in 0..6 {
        assert!(is_placeholder(cache.get(i)));
    }
}

#[test]
fn successful_load_grows_and_fills_gap_with_placeholders() {
    let mut cache: LoadedRows<u32> = LoadedRows::new();
    cache.resize(2);
    cache.write_loading(0..2);
    cache.write_loaded(Ok((vec![50], 5..6)), 5..6);
    assert_eq!(cache.len(), 6);
    assert!(is_loading(cache.get(0)));
    assert!(is_loading(cache.get(1)));
    for i in 2..5 {
        assert!(is_placeholder(cache.get(i)));
    }
    assert!(matches!(cache.get(5), RowState::Loaded(50)));
}

#[test]
fn write_loading_twice_equals_once() {
    let mut once: LoadedRows<u32> = LoadedRows::new();
    once.resize(8);
    once.write_loaded(Ok((vec![9], 0..1)), 0..1);
    once.write_loading(3..6);

    let mut twice: LoadedRows<u32> = LoadedRows::new();
    twice.resize(8);
    twice.write_loaded(Ok((vec![9], 0..1)), 0..1);
    twice.write_loading(3..6);
    twice.write_loading(3..6);

    assert_eq!(once.len(), twice.len());
    for i in 0..once.len() {
        assert!(same_state(once.get(i), twice.get(i)));
    }
}

#[test]
fn write_loading_grows_to_range_end() {
    let mut cache: LoadedRows<u32> = LoadedRows::new();
    cache.resize(3);
    cache.write_loading(4..6);
    assert_eq!(cache.len(), 6);
    for i in 0..4 {
        assert!(is_placeholder(cache.get(i)));
    }
    assert!(is_loading(cache.get(4)));
    assert!(is_loading(cache.get(5)));
}

#[test]
fn partial_result_updates_only_returned_rows() {
    let mut cache: LoadedRows<u32> = LoadedRows::new();
    cache.resize(3);
    cache.write_loading(0..3);
    cache.write_loaded(Ok((vec![7], 0..3)), 0..3);
    assert!(matches!(cache.get(0), RowState::Loaded(7)));
    assert!(is_loading(cache.get(1)));
    assert!(is_loading(cache.get(2)));
}

#[test]
fn excess_rows_beyond_covered_range_are_dropped() {
    let mut cache: LoadedRows<u32> = LoadedRows::new();
    cache.resize(3);
    cache.write_loaded(Ok((vec![1, 2, 3], 1..2)), 1..2);
    assert!(is_placeholder(cache.get(0)));
    assert!(matches!(cache.get(1), RowState::Loaded(1)));
    assert!(is_placeholder(cache.get(2)));
}

#[test]
fn get_range_reads_a_window() {
    let mut cache: LoadedRows<u32> = LoadedRows::new();
    cache.resize(5);
    cache.write_loaded(Ok((vec![40, 41], 1..3)), 1..3);
    let window = cache.get_range(1..4);
    assert_eq!(window.len(), 3);
    assert!(matches!(&window[0], RowState::Loaded(40)));
    assert!(matches!(&window[1], RowState::Loaded(41)));
    assert!(matches!(&window[2], RowState::Placeholder));
}

#[test]
fn empty_query_range_has_nothing_missing() {
    let mut cache: LoadedRows<u32> = LoadedRows::new();
    cache.resize(4);
    assert_eq!(cache.missing_range(2..2), None);
    assert_eq!(cache.missing_range(0..0), None);
}

#[test]
fn error_slots_are_retried_via_loading() {
    let mut cache: LoadedRows<u32> = LoadedRows::new();
    cache.resize(4);
    cache.write_loaded(Err("net down".to_string()), 0..4);
    assert_eq!(cache.missing_range(0..4), Some(0..4));
    cache.write_loading(0..4);
    assert_eq!(cache.missing_range(0..4), None);
    for i in 0..4 {
        assert!(is_loading(cache.get(i)));
    }
}

#[test]
fn missing_range_trims_to_first_and_last_needy() {
    let mut cache: LoadedRows<u32> = LoadedRows::new();
    cache.resize(8);
    cache.write_loading(0..2);
    cache.write_loading(6..8);
    assert_eq!(cache.missing_range(0..8), Some(2..6));
}
