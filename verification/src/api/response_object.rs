//! The objects that the data endpoints answer with.
use vstd::prelude::*;

use crate::entities::us_stock::stock_sector_ma20::Model as StockSectorMa20;

verus! {

/// The change, from one trading day to the next, of the breadth of each
/// S&P sector and of the whole market.
#[derive(Debug)]
pub struct TwoDayDiff {
    pub date: chrono::NaiveDate,
    pub mat: i8,
    pub com: i8,
    pub cns: i8,
    pub cnd: i8,
    pub ene: i8,
    pub fin: i8,
    pub hlt: i8,
    pub ind: i8,
    pub rei: i8,
    pub tec: i8,
    pub utl: i8,
    pub total: i8,
}

/// A stored byte read as a signed byte (`u8 as i8`).
pub open spec fn signed(x: u8) -> int {
    if x < 128 { x as int } else { x - 256 }
}

/// The change of one breadth value, computed on signed bytes.
pub open spec fn change(latest: u8, previous: u8) -> int {
    signed(latest) - signed(previous)
}

/// Whether a change fits in a signed byte.
pub open spec fn fits_i8(v: int) -> bool {
    -128 <= v && v <= 127
}

/// Whether every change between two rows fits in a signed byte.
pub open spec fn changes_fit(t1: StockSectorMa20, t2: StockSectorMa20) -> bool {
    &&& fits_i8(change(t1.mat, t2.mat))
    &&& fits_i8(change(t1.com, t2.com))
    &&& fits_i8(change(t1.cns, t2.cns))
    &&& fits_i8(change(t1.cnd, t2.cnd))
    &&& fits_i8(change(t1.ene, t2.ene))
    &&& fits_i8(change(t1.fin, t2.fin))
    &&& fits_i8(change(t1.hlt, t2.hlt))
    &&& fits_i8(change(t1.ind, t2.ind))
    &&& fits_i8(change(t1.rei, t2.rei))
    &&& fits_i8(change(t1.tec, t2.tec))
    &&& fits_i8(change(t1.utl, t2.utl))
    &&& fits_i8(change(t1.total, t2.total))
}

/// `d` is the change from `t2` to `t1`, dated as `t1`.
pub open spec fn is_change_between(d: TwoDayDiff, t1: StockSectorMa20, t2: StockSectorMa20) -> bool {
    &&& d.date == t1.date
    &&& d.mat == change(t1.mat, t2.mat)
    &&& d.com == change(t1.com, t2.com)
    &&& d.cns == change(t1.cns, t2.cns)
    &&& d.cnd == change(t1.cnd, t2.cnd)
    &&& d.ene == change(t1.ene, t2.ene)
    &&& d.fin == change(t1.fin, t2.fin)
    &&& d.hlt == change(t1.hlt, t2.hlt)
    &&& d.ind == change(t1.ind, t2.ind)
    &&& d.rei == change(t1.rei, t2.rei)
    &&& d.tec == change(t1.tec, t2.tec)
    &&& d.utl == change(t1.utl, t2.utl)
    &&& d.total == change(t1.total, t2.total)
}

fn signed_byte(x: u8) -> (r: i8)
    ensures
        r == signed(x),
{
    if x < 128 {
        x as i8
    } else {
        ((x - 128) as i8) - 127 - 1
    }
}

fn field_change(latest: u8, previous: u8) -> (r: Option<i8>)
    ensures
        r is Some <==> fits_i8(change(latest, previous)),
        r is Some ==> r->0 == change(latest, previous),
{
    let d: i16 = signed_byte(latest) as i16 - signed_byte(previous) as i16;
    if d < -128 || d > 127 {
        None
    } else {
        Some(d as i8)
    }
}

impl TwoDayDiff {
    /// The change from `previous` to `latest`, or `None` when a change
    /// does not fit in a signed byte.
    pub fn between(latest: &StockSectorMa20, previous: &StockSectorMa20) -> (d: Option<TwoDayDiff>)
        ensures
            d is Some <==> changes_fit(*latest, *previous),
            d is Some ==> is_change_between(d->0, *latest, *previous),
    {
        let mat = match field_change(latest.mat, previous.mat) { Some(v) => v, None => return None };
        let com = match field_change(latest.com, previous.com) { Some(v) => v, None => return None };
        let cns = match field_change(latest.cns, previous.cns) { Some(v) => v, None => return None };
        let cnd = match field_change(latest.cnd, previous.cnd) { Some(v) => v, None => return None };
        let ene = match field_change(latest.ene, previous.ene) { Some(v) => v, None => return None };
        let fin = match field_change(latest.fin, previous.fin) { Some(v) => v, None => return None };
        let hlt = match field_change(latest.hlt, previous.hlt) { Some(v) => v, None => return None };
        let ind = match field_change(latest.ind, previous.ind) { Some(v) => v, None => return None };
        let rei = match field_change(latest.rei, previous.rei) { Some(v) => v, None => return None };
        let tec = match field_change(latest.tec, previous.tec) { Some(v) => v, None => return None };
        let utl = match field_change(latest.utl, previous.utl) { Some(v) => v, None => return None };
        let total = match field_change(latest.total, previous.total) {
            Some(v) => v,
            None => return None,
        };
        Some(TwoDayDiff {
            date: latest.date,
            mat,
            com,
            cns,
            cnd,
            ene,
            fin,
            hlt,
            ind,
            rei,
            tec,
            utl,
            total,
        })
    }
}

/// Reading a stored byte as signed is Rust's `u8 as i8`.
pub proof fn lemma_signed_is_cast(x: u8)
    ensures
        signed(x) == (x as i8) as int,
{
    assert(x < 128 ==> (x as i8) as int == x as int) by (bit_vector);
    assert(x >= 128 ==> (x as i8) as int == x as int - 256) by (bit_vector);
}

/// Each field of a change is the change of the same column of the two rows,
/// each byte read as signed, and the change carries the later row's date.
pub proof fn lemma_change_by_column(d: TwoDayDiff, t1: StockSectorMa20, t2: StockSectorMa20)
    requires
        is_change_between(d, t1, t2),
    ensures
        d.date == t1.date,
        d.mat == (t1.mat as i8) as int - (t2.mat as i8) as int,
        d.com == (t1.com as i8) as int - (t2.com as i8) as int,
        d.cns == (t1.cns as i8) as int - (t2.cns as i8) as int,
        d.cnd == (t1.cnd as i8) as int - (t2.cnd as i8) as int,
        d.ene == (t1.ene as i8) as int - (t2.ene as i8) as int,
        d.fin == (t1.fin as i8) as int - (t2.fin as i8) as int,
        d.hlt == (t1.hlt as i8) as int - (t2.hlt as i8) as int,
        d.ind == (t1.ind as i8) as int - (t2.ind as i8) as int,
        d.rei == (t1.rei as i8) as int - (t2.rei as i8) as int,
        d.tec == (t1.tec as i8) as int - (t2.tec as i8) as int,
        d.utl == (t1.utl as i8) as int - (t2.utl as i8) as int,
        d.total == (t1.total as i8) as int - (t2.total as i8) as int,
{
    lemma_signed_is_cast(t1.mat);
    lemma_signed_is_cast(t2.mat);
    lemma_signed_is_cast(t1.com);
    lemma_signed_is_cast(t2.com);
    lemma_signed_is_cast(t1.cns);
    lemma_signed_is_cast(t2.cns);
    lemma_signed_is_cast(t1.cnd);
    lemma_signed_is_cast(t2.cnd);
    lemma_signed_is_cast(t1.ene);
    lemma_signed_is_cast(t2.ene);
    lemma_signed_is_cast(t1.fin);
    lemma_signed_is_cast(t2.fin);
    lemma_signed_is_cast(t1.hlt);
    lemma_signed_is_cast(t2.hlt);
    lemma_signed_is_cast(t1.ind);
    lemma_signed_is_cast(t2.ind);
    lemma_signed_is_cast(t1.rei);
    lemma_signed_is_cast(t2.rei);
    lemma_signed_is_cast(t1.tec);
    lemma_signed_is_cast(t2.tec);
    lemma_signed_is_cast(t1.utl);
    lemma_signed_is_cast(t2.utl);
    lemma_signed_is_cast(t1.total);
    lemma_signed_is_cast(t2.total);
}

/// A day compared with itself has changed nowhere.
pub proof fn lemma_no_change_from_itself(t: StockSectorMa20)
    ensures
        changes_fit(t, t),
        change(t.mat, t.mat) == 0 && change(t.com, t.com) == 0 && change(t.cns, t.cns) == 0
            && change(t.cnd, t.cnd) == 0 && change(t.ene, t.ene) == 0 && change(t.fin, t.fin) == 0
            && change(t.hlt, t.hlt) == 0 && change(t.ind, t.ind) == 0 && change(t.rei, t.rei) == 0
            && change(t.tec, t.tec) == 0 && change(t.utl, t.utl) == 0 && change(t.total, t.total)
            == 0,
{
}

} // verus!
