use vstd::prelude::*;

verus! {

/// One row of the `stock_sector_ma20` table: for a trading day, the share of
/// stocks of each S&P sector (and of the whole market) trading above their
/// 20-day moving average.
#[derive(Debug)]
pub struct Model {
    pub date: chrono::NaiveDate,
    pub mat: u8,
    pub com: u8,
    pub cns: u8,
    pub cnd: u8,
    pub ene: u8,
    pub fin: u8,
    pub hlt: u8,
    pub ind: u8,
    pub rei: u8,
    pub tec: u8,
    pub utl: u8,
    pub total: u8,
}

} // verus!
