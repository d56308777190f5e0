use chrono::NaiveDate;
use us_stock_api::api::response_object::TwoDayDiff;
use us_stock_api::entities::us_stock::stock_sector_ma20::Model;

fn row(date: NaiveDate, v: [u8; 12]) -> Model {
    Model {
        date,
        mat: v[0],
        com: v[1],
        cns: v[2],
        cnd: v[3],
        ene: v[4],
        fin: v[5],
        hlt: v[6],
        ind: v[7],
        rei: v[8],
        tec: v[9],
        utl: v[10],
        total: v[11],
    }
}

#[test]
fn change_between_two_days() {
    let d1 = NaiveDate::from_ymd_opt(2024, 5, 3).unwrap();
    let d0 = NaiveDate::from_ymd_opt(2024, 5, 2).unwrap();
    let t1 = row(d1, [50, 60, 70, 80, 90, 100, 10, 20, 30, 40, 0, 55]);
    let t2 = row(d0, [40, 65, 70, 0, 100, 0, 20, 20, 31, 39, 100, 50]);
    let d = TwoDayDiff::between(&t1, &t2).unwrap();
    assert_eq!(d.date, d1);
    assert_eq!(
        [d.mat, d.com, d.cns, d.cnd, d.ene, d.fin, d.hlt, d.ind, d.rei, d.tec, d.utl, d.total],
        [10, -5, 0, 80, -10, 100, -10, 0, -1, 1, -100, 5]
    );
}

#[test]
fn bytes_are_read_as_signed() {
    let d = NaiveDate::from_ymd_opt(2024, 1, 1).unwrap();
    let t1 = row(d, [200, 0, 0, 0, 0, 0, 0, 0, 0, 0, 0, 0]);
    let t2 = row(d, [190, 0, 0, 0, 0, 0, 0, 0, 0, 0, 0, 0]);
    assert_eq!(TwoDayDiff::between(&t1, &t2).unwrap().mat, ((200u8 as i8) - (190u8 as i8)));
}

#[test]
fn change_that_overflows_is_refused() {
    let d = NaiveDate::from_ymd_opt(2024, 1, 1).unwrap();
    let t1 = row(d, [0, 0, 0, 0, 0, 0, 0, 0, 0, 0, 0, 100]);
    let t2 = row(d, [0, 0, 0, 0, 0, 0, 0, 0, 0, 0, 0, 200]);
    assert!((100u8 as i8).checked_sub(200u8 as i8).is_none());
    assert!(TwoDayDiff::between(&t1, &t2).is_none());
}

#[test]
fn a_day_compared_with_itself_has_no_change() {
    let d = NaiveDate::from_ymd_opt(2023, 12, 29).unwrap();
    let t = row(d, [1, 2, 3, 4, 5, 6, 7, 8, 9, 10, 200, 255]);
    let diff = TwoDayDiff::between(&t, &t).unwrap();
    assert_eq!(
        [diff.mat, diff.com, diff.cns, diff.cnd, diff.ene, diff.fin, diff.hlt, diff.ind, diff.rei, diff.tec, diff.utl, diff.total],
        [0; 12]
    );
}
