use gulfstream::config::ApiConfig;
use gulfstream::http::pagination::Pagination;

fn config() -> ApiConfig {
    ApiConfig {
        default_page_size: 25,
        maximum_page_size: 100,
    }
}

#[test]
fn normalizes_page_and_page_size() {
    let pagination = Pagination::from_query(Some(0), Some(500), &config());
    assert_eq!(pagination.page, 1);
    assert_eq!(pagination.page_size, 100);
    assert_eq!(pagination.offset(), 0);
}

#[test]
fn calculates_offset_without_underflow() {
    let pagination = Pagination::from_query(Some(3), Some(10), &config());
    assert_eq!(pagination.offset(), 20);
}

#[test]
fn absent_values_take_the_defaults() {
    let pagination = Pagination::from_query(None, None, &config());
    assert_eq!(pagination.page, 1);
    assert_eq!(pagination.page_size, 25);
    let small = Pagination::from_query(Some(2), Some(0), &config());
    assert_eq!(small.page_size, 1);
    assert_eq!(small.offset(), 1);
}
