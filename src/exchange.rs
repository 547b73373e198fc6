use vstd::prelude::*;

use crate::decimal::{decimal_of, parse_fixed, parse_signed_fixed, signed_decimal_of};
use crate::error::Error;
use crate::market::AssetMeta;
use crate::trade::{FillType, TradeFillInfo};
use crate::types::Price;

verus! {

/// `s` reads as a signed decimal whose fixed-point value fits in `i64`.
pub open spec fn reads_i64(s: Seq<char>) -> bool {
    signed_decimal_of(s) matches Some(v) && i64::MIN <= v <= i64::MAX
}

/// `s` reads as an unsigned decimal whose fixed-point value fits in `u64`.
pub open spec fn reads_u64(s: Seq<char>) -> bool {
    decimal_of(s) matches Some(v) && v <= u64::MAX
}

/// A candle from the four decimal strings the exchange sends.
pub fn price_from_text(open: &str, high: &str, low: &str, close: &str) -> (r: Result<Price, Error>)
    ensures
        r matches Ok(p) ==> signed_decimal_of(open@) == Some(p.open as int) && signed_decimal_of(high@)
            == Some(p.high as int) && signed_decimal_of(low@) == Some(p.low as int) && signed_decimal_of(
            close@,
        ) == Some(p.close as int),
        r is Err ==> r matches Err(Error::GenericParse(_)),
        r is Err <==> !(reads_i64(open@) && reads_i64(high@) && reads_i64(low@) && reads_i64(close@)),
{
    let o = match parse_signed_fixed(open) {
        Some(v) => v,
        None => return Err(Error::GenericParse(String::from_str("Failed to parse open"))),
    };
    let h = match parse_signed_fixed(high) {
        Some(v) => v,
        None => return Err(Error::GenericParse(String::from_str("Failed to parse high"))),
    };
    let l = match parse_signed_fixed(low) {
        Some(v) => v,
        None => return Err(Error::GenericParse(String::from_str("Failed to parse low"))),
    };
    let c = match parse_signed_fixed(close) {
        Some(v) => v,
        None => return Err(Error::GenericParse(String::from_str("Failed to parse close"))),
    };
    Ok(Price { open: o, high: h, low: l, close: c })
}

/// The fill of a filled market order, from the size and average price the
/// exchange reports.
pub fn fill_from_order(total_sz: &str, avg_px: &str, oid: u64, is_long: bool, fill_type: FillType) -> (r: Option<
    TradeFillInfo,
>)
    ensures
        r matches Some(f) ==> decimal_of(total_sz@) == Some(f.sz as int) && decimal_of(avg_px@) == Some(
            f.price as int,
        ) && f.oid == oid && f.is_long == is_long && f.fill_type == fill_type,
        r is None <==> !(reads_u64(total_sz@) && reads_u64(avg_px@)),
{
    let sz = match parse_fixed(total_sz) {
        Some(v) => v,
        None => return None,
    };
    let price = match parse_fixed(avg_px) {
        Some(v) => v,
        None => return None,
    };
    Some(TradeFillInfo { price, fill_type, sz, oid, is_long })
}

/// Maker and taker fee rates from the exchange's decimal strings; the taker
/// rate must be a fraction no larger than one.
pub fn fee_rates(add_rate: &str, cross_rate: &str) -> (r: Result<(u64, u64), Error>)
    ensures
        r matches Ok(f) ==> decimal_of(add_rate@) == Some(f.0 as int) && decimal_of(cross_rate@) == Some(
            f.1 as int,
        ) && f.1 <= crate::units::SCALE,
        r is Err ==> r matches Err(Error::GenericParse(_)),
        r is Err <==> !(reads_u64(add_rate@) && reads_u64(cross_rate@) && decimal_of(cross_rate@)->0
            <= crate::units::SCALE),
{
    let add = match parse_fixed(add_rate) {
        Some(v) => v,
        None => return Err(Error::GenericParse(String::from_str("Failed to parse maker fee"))),
    };
    let cross = match parse_fixed(cross_rate) {
        Some(v) => v,
        None => return Err(Error::GenericParse(String::from_str("Failed to parse taker fee"))),
    };
    if cross > crate::units::SCALE as u64 {
        return Err(Error::GenericParse(String::from_str("Taker fee above one")));
    }
    Ok((add, cross))
}

/// The metadata of `name` in the exchange's universe.
pub fn find_asset<'a>(universe: &'a Vec<AssetMeta>, name: &str) -> (r: Result<&'a AssetMeta, Error>)
    ensures
        r matches Ok(m) ==> m.name@ == name@ && exists|i: int| 0 <= i < universe@.len() && universe@[i] == *m,
        r is Err ==> r == Err::<&'a AssetMeta, Error>(Error::AssetNotFound) && forall|i: int|
            0 <= i < universe@.len() ==> (#[trigger] universe@[i]).name@ != name@,
{
    let mut i: usize = 0;
    while i < universe.len()
        invariant
            i <= universe@.len(),
            forall|j: int| 0 <= j < i ==> (#[trigger] universe@[j]).name@ != name@,
        decreases universe.len() - i,
    {
        if crate::timeframe::str_equal(universe[i].name.as_str(), name) {
            return Ok(&universe[i]);
        }
        i = i + 1;
    }
    Err(Error::AssetNotFound)
}

} // verus!
