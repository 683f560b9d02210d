use reserva::calendar::day_bounds;
use reserva::models::ReservationPayload;
use reserva::service::reservation_list_reply;
use reserva::table::Table;

fn reservation(start: i64) -> ReservationPayload {
    ReservationPayload {
        owner: 1,
        machine: 2,
        start_time: start,
        end_time: start + 3600,
        shared: Some(false),
    }
}

#[test]
fn day_filter_keeps_only_that_day_in_ascending_order() {
    let (lo, hi) = day_bounds("2024-01-05").unwrap();
    let mut reservations: Table<ReservationPayload> = Table::new();
    assert!(reservations.create_with(1, 100, reservation(lo + 7200)));
    assert!(reservations.create_with(2, 100, reservation(lo - 1)));
    assert!(reservations.create_with(3, 100, reservation(lo)));
    assert!(reservations.create_with(4, 100, reservation(hi + 1)));
    assert!(reservations.create_with(5, 100, reservation(hi)));
    assert!(reservations.create_with(6, 100, reservation(lo + 3600)));
    let reply = reservation_list_reply(&reservations, Some("2024-01-05"));
    let ok = reply.ok().unwrap();
    assert_eq!(ok.status, 200);
    let starts: Vec<i64> = ok.data.iter().map(|r| r.data.start_time).collect();
    assert_eq!(starts, vec![lo, lo + 3600, lo + 7200, hi]);
    for row in ok.data.iter() {
        assert!(lo <= row.data.start_time && row.data.start_time <= hi);
    }
}

#[test]
fn day_filter_caps_at_the_ten_earliest() {
    let (lo, _hi) = day_bounds("2024-01-05").unwrap();
    let mut reservations: Table<ReservationPayload> = Table::new();
    for k in 0..12u32 {
        let start = lo + ((11 - k) as i64) * 60;
        assert!(reservations.create_with(k as u128 + 1, 100, reservation(start)));
    }
    let reply = reservation_list_reply(&reservations, Some("2024-01-05"));
    let ok = reply.ok().unwrap();
    assert_eq!(ok.data.len(), 10);
    let starts: Vec<i64> = ok.data.iter().map(|r| r.data.start_time).collect();
    let expected: Vec<i64> = (0..10i64).map(|k| lo + k * 60).collect();
    assert_eq!(starts, expected);
}

#[test]
fn day_filter_keeps_ties_together() {
    let (lo, _hi) = day_bounds("2024-01-05").unwrap();
    let mut reservations: Table<ReservationPayload> = Table::new();
    assert!(reservations.create_with(1, 100, reservation(lo + 60)));
    assert!(reservations.create_with(2, 100, reservation(lo + 60)));
    assert!(reservations.create_with(3, 100, reservation(lo)));
    let reply = reservation_list_reply(&reservations, Some("2024-01-05"));
    let ok = reply.ok().unwrap();
    let starts: Vec<i64> = ok.data.iter().map(|r| r.data.start_time).collect();
    assert_eq!(starts, vec![lo, lo + 60, lo + 60]);
}

#[test]
fn listing_without_a_date_returns_everything() {
    let (lo, hi) = day_bounds("2024-01-05").unwrap();
    let mut reservations: Table<ReservationPayload> = Table::new();
    assert!(reservations.create_with(1, 100, reservation(lo - 10)));
    assert!(reservations.create_with(2, 100, reservation(hi + 10)));
    let reply = reservation_list_reply(&reservations, None);
    let ok = reply.ok().unwrap();
    assert_eq!(ok.status, 200);
    assert_eq!(ok.message, "OK");
    assert_eq!(ok.data.len(), 2);
    assert_eq!(ok.data[0].id, 1);
    assert_eq!(ok.data[1].id, 2);
}

#[test]
fn an_unusable_date_is_a_client_error_not_a_full_listing() {
    let mut reservations: Table<ReservationPayload> = Table::new();
    assert!(reservations.create_with(1, 100, reservation(0)));
    for bad in ["true", "not-a-date", "2024-13-05", "2024-01-32", "2024-1-05", "05-01-2024"] {
        let reply = reservation_list_reply(&reservations, Some(bad));
        let err = reply.err().unwrap();
        assert_eq!(err.status, 400);
        assert_eq!(err.message, "Bad Request");
    }
}

#[test]
fn an_empty_day_lists_nothing() {
    let (_lo, hi) = day_bounds("2024-01-05").unwrap();
    let mut reservations: Table<ReservationPayload> = Table::new();
    assert!(reservations.create_with(1, 100, reservation(hi + 1)));
    let reply = reservation_list_reply(&reservations, Some("2024-01-05"));
    let ok = reply.ok().unwrap();
    assert_eq!(ok.data.len(), 0);
}
