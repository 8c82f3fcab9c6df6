use chrono::{Datelike, TimeZone, Utc};
use sinoptik::providers::buienradar::{order_items, Item};

fn stamp(y: i32, mo: u32, d: u32, h: u32, mi: u32) -> i64 {
    Utc.with_ymd_and_hms(y, mo, d, h, mi, 0).unwrap().timestamp()
}

#[test]
fn fix_items_day_boundary() {
    let t_0 = Utc.with_ymd_and_hms(2024, 1, 10, 22, 0, 0).unwrap(); // 2024-1-10 22:00:00
    let t_1 = Utc.with_ymd_and_hms(2024, 1, 10, 23, 0, 0).unwrap(); // 2024-1-10 23:00:00
    let t_2 = Utc.with_ymd_and_hms(2024, 1, 10, 2, 0, 0).unwrap(); //  2024-1-10 2:00:00

    // The first and last item are on the same day as now (at 21:55).
    let now = stamp(2024, 1, 10, 21, 55);
    let items = Vec::from([
        Item::new(t_0.timestamp(), 29),
        /* Items in between do not matter */
        Item::new(t_1.timestamp(), 30),
    ]);
    assert_eq!(
        sinoptik::providers::buienradar::fix_items_day_boundary(items, now),
        Vec::from([Item::new(t_0.timestamp(), 29), Item::new(t_1.timestamp(), 30)])
    );

    // The last item is on the next day (2024-1-11) with respect to now (at 21:55).
    let now = stamp(2024, 1, 10, 21, 55);
    let items = Vec::from([
        Item::new(t_0.timestamp(), 29),
        /* Items in between do not matter */
        Item::new(t_2.timestamp(), 30),
    ]);
    assert_eq!(
        sinoptik::providers::buienradar::fix_items_day_boundary(items, now),
        Vec::from([
            Item::new(t_0.timestamp(), 29),
            Item::new(t_2.with_day(11).unwrap().timestamp(), 30)
        ])
    );

    // The first item is on the previous day (2024-1-9) with respect to now (at 1:55).
    let now = stamp(2024, 1, 10, 1, 55);
    let items = Vec::from([
        Item::new(t_0.timestamp(), 29),
        /* Items in between do not matter */
        Item::new(t_2.timestamp(), 30),
    ]);
    assert_eq!(
        sinoptik::providers::buienradar::fix_items_day_boundary(items, now),
        Vec::from([
            Item::new(t_0.with_day(9).unwrap().timestamp(), 29),
            Item::new(t_2.timestamp(), 30)
        ])
    );
}

#[test]
fn day_boundary_uses_amsterdam_noon_in_summer() {
    // In summer Amsterdam is two hours ahead of UTC: noon there is 10:00 UTC.
    let now = stamp(2024, 7, 1, 10, 30);
    let items = vec![Item::new(stamp(2024, 7, 1, 9, 30), 5), Item::new(stamp(2024, 7, 1, 10, 30), 6)];
    let fixed = sinoptik::providers::buienradar::fix_items_day_boundary(items, now);
    assert_eq!(
        fixed,
        vec![Item::new(stamp(2024, 7, 2, 9, 30), 5), Item::new(stamp(2024, 7, 1, 10, 30), 6)]
    );
}

#[test]
fn order_items_fixes_only_when_out_of_order() {
    let now = stamp(2024, 1, 10, 21, 55);
    let in_order = vec![Item::new(stamp(2024, 1, 10, 22, 0), 1), Item::new(stamp(2024, 1, 10, 23, 0), 2)];
    assert_eq!(order_items(in_order.clone(), now), in_order);
    let straddling = vec![Item::new(stamp(2024, 1, 10, 23, 0), 1), Item::new(stamp(2024, 1, 10, 0, 30), 2)];
    assert_eq!(
        order_items(straddling, now),
        vec![Item::new(stamp(2024, 1, 10, 23, 0), 1), Item::new(stamp(2024, 1, 11, 0, 30), 2)]
    );
    assert_eq!(order_items(Vec::new(), now), Vec::new());
}
