use exhaust_store::table::InsertRequest;
use exhaust_store::store::Store;
use exhaust_store::registry::exhaust_registry;
use exhaust_store::timefmt::format_timestamp;

#[test]
fn epoch_start() {
    assert_eq!(format_timestamp(0), "1970-01-01T00:00:00.000Z");
}

#[test]
fn last_millisecond_of_a_year() {
    assert_eq!(format_timestamp(1704067199999), "2023-12-31T23:59:59.999Z");
}

#[test]
fn leap_day() {
    assert_eq!(format_timestamp(1709210096789), "2024-02-29T12:34:56.789Z");
}

#[test]
fn plain_day() {
    assert_eq!(format_timestamp(1700000000123), "2023-11-14T22:13:20.123Z");
}

#[test]
fn non_leap_century_year() {
    // 2100 is not a leap year: the day after 2100-02-28 is March 1st.
    let feb28_2100: u64 = 4107456000000;
    assert_eq!(format_timestamp(feb28_2100), "2100-02-28T00:00:00.000Z");
    assert_eq!(format_timestamp(feb28_2100 + 86400000), "2100-03-01T00:00:00.000Z");
}

#[test]
fn omitted_timestamps_filled_with_current_time() {
    let registry = exhaust_registry();
    let mut store = Store::new();
    assert_eq!(store.apply_pending(&registry), 1);
    let req = InsertRequest {
        description: Some(String::from("muffler")),
        part_type: Some(String::from("steel")),
        painting: Some(String::from("black")),
        car_date_range: Some(String::from("2010-2015")),
        hash: Some(String::from("tfmt1")),
        ..InsertRequest::empty()
    };
    assert_eq!(store.insert_exhaust(req, 1700000000123), Ok(1));
    let row = &store.exhaust.rows[0];
    assert_eq!(row.created_at, "2023-11-14T22:13:20.123Z");
    assert_eq!(row.updated_at, row.created_at);
}

#[test]
fn supplied_timestamps_kept() {
    let registry = exhaust_registry();
    let mut store = Store::new();
    assert_eq!(store.apply_pending(&registry), 1);
    let req = InsertRequest {
        description: Some(String::from("muffler")),
        part_type: Some(String::from("steel")),
        painting: Some(String::from("black")),
        car_date_range: Some(String::from("2010-2015")),
        hash: Some(String::from("tfmt2")),
        created_at: Some(String::from("2001-02-03T04:05:06.007Z")),
        updated_at: Some(String::from("2002-03-04T05:06:07.008Z")),
        is_validated: Some(true),
        ..InsertRequest::empty()
    };
    assert_eq!(store.insert_exhaust(req, 1700000000123), Ok(1));
    let row = &store.exhaust.rows[0];
    assert_eq!(row.created_at, "2001-02-03T04:05:06.007Z");
    assert_eq!(row.updated_at, "2002-03-04T05:06:07.008Z");
    assert!(row.is_validated);
}
