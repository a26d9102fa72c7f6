use learning_management_system::requests::{PaginationRequest, Sort};

fn request(page: Option<u64>, limit: Option<u64>) -> PaginationRequest<u8> {
    PaginationRequest { page, limit, search: None, order: None, sort: None }
}

#[test]
fn page_is_at_least_one() {
    assert_eq!(request(None, None).page(), 1);
    assert_eq!(request(Some(0), None).page(), 1);
    assert_eq!(request(Some(1), None).page(), 1);
    assert_eq!(request(Some(7), None).page(), 7);
    assert_eq!(request(Some(u64::MAX), None).page(), u64::MAX);
}

#[test]
fn limit_is_kept_between_ten_and_a_hundred() {
    assert_eq!(request(None, None).limit(), 10);
    assert_eq!(request(None, Some(0)).limit(), 10);
    assert_eq!(request(None, Some(9)).limit(), 10);
    assert_eq!(request(None, Some(10)).limit(), 10);
    assert_eq!(request(None, Some(55)).limit(), 55);
    assert_eq!(request(None, Some(100)).limit(), 100);
    assert_eq!(request(None, Some(101)).limit(), 100);
}

#[test]
fn offset_counts_the_rows_before_the_page() {
    assert_eq!(request(None, None).offset(), 0);
    assert_eq!(request(Some(1), Some(50)).offset(), 0);
    assert_eq!(request(Some(3), Some(5)).offset(), 20);
    assert_eq!(request(Some(4), Some(25)).offset(), 75);
    assert_eq!(request(Some(11), Some(1000)).offset(), 1000);
}

#[test]
fn search_pattern_is_lower_case_between_percent_signs() {
    let mut asked = request(None, None);
    assert_eq!(asked.search(), None);
    asked.search = Some("JoHn".to_string());
    assert_eq!(asked.search(), Some("%john%".to_string()));
    asked.search = Some(String::new());
    assert_eq!(asked.search(), Some("%%".to_string()));
}

#[test]
fn order_and_sort_have_defaults() {
    let mut asked = request(None, None);
    assert_eq!(asked.order(3), 3);
    assert_eq!(asked.sort(), Sort::Asc);
    asked.order = Some(9);
    asked.sort = Some(Sort::Desc);
    assert_eq!(asked.order(3), 9);
    assert_eq!(asked.sort(), Sort::Desc);
}

#[test]
fn checked_offset_tells_when_the_rows_cannot_be_counted() {
    assert_eq!(request(Some(3), Some(5)).checked_offset(), Some(20));
    assert_eq!(request(None, None).checked_offset(), Some(0));
    assert_eq!(request(Some(u64::MAX), Some(10)).checked_offset(), None);
    assert_eq!(request(Some(u64::MAX / 100 + 1), Some(100)).checked_offset(), Some(u64::MAX / 100 * 100));
    assert_eq!(request(Some(u64::MAX / 100 + 2), Some(100)).checked_offset(), None);
}
