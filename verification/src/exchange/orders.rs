//! The bodies of orders.
//!
//! Prices and quantities are texts here: how a number is written is left to the caller.
use vstd::prelude::*;
use crate::json;
use crate::json::{Field, FieldView};

verus! {

/// The side of an order that opens a trade.
pub open spec fn opening_side(long: bool) -> Seq<char> {
    if long {
        "Buy"@
    } else {
        "Sell"@
    }
}

/// See [`opening_side`].
pub fn side_text(long: bool) -> (r: &'static str)
    ensures
        r@ == opening_side(long),
{
    if long {
        "Buy"
    } else {
        "Sell"
    }
}

/// The number of the position that a direction is kept in.
pub open spec fn spec_position_idx(long: bool) -> i64 {
    if long {
        1
    } else {
        2
    }
}

/// The number of the position that a direction is kept in.
#[verifier::when_used_as_spec(spec_position_idx)]
pub fn position_idx(long: bool) -> (r: i64)
    ensures
        r == spec_position_idx(long),
{
    if long {
        1
    } else {
        2
    }
}

/// The members of an order that opens a trade at a price.
pub open spec fn limit_order_fields(symbol: Seq<char>, long: bool, qty: Seq<char>, price: Seq<char>, tp: Seq<char>, sl: Seq<char>) -> Seq<(Seq<char>, FieldView)> {
    seq![
        ("category"@, FieldView::Text("linear"@)),
        ("symbol"@, FieldView::Text(symbol)),
        ("side"@, FieldView::Text(opening_side(long))),
        ("orderType"@, FieldView::Text("Limit"@)),
        ("qty"@, FieldView::Text(qty)),
        ("price"@, FieldView::Text(price)),
        ("takeProfit"@, FieldView::Text(tp)),
        ("stopLoss"@, FieldView::Text(sl)),
        ("tpslMode"@, FieldView::Text("Full"@)),
        ("positionIdx"@, FieldView::Integer(position_idx(long))),
        ("timeInForce"@, FieldView::Text("GTC"@)),
    ]
}

/// An order that opens a trade at a price, with a stop and a target.
pub fn limit_order_body(symbol: &str, long: bool, qty: &str, price: &str, tp: &str, sl: &str) -> (r: String)
    ensures
        r@ == json::object_text(limit_order_fields(symbol@, long, qty@, price@, tp@, sl@)),
{
    let mut fields: Vec<(String, Field)> = Vec::new();
    fields.push(("category".to_owned(), Field::Text("linear".to_owned())));
    fields.push(("symbol".to_owned(), Field::Text(symbol.to_owned())));
    fields.push(("side".to_owned(), Field::Text(side_text(long).to_owned())));
    fields.push(("orderType".to_owned(), Field::Text("Limit".to_owned())));
    fields.push(("qty".to_owned(), Field::Text(qty.to_owned())));
    fields.push(("price".to_owned(), Field::Text(price.to_owned())));
    fields.push(("takeProfit".to_owned(), Field::Text(tp.to_owned())));
    fields.push(("stopLoss".to_owned(), Field::Text(sl.to_owned())));
    fields.push(("tpslMode".to_owned(), Field::Text("Full".to_owned())));
    fields.push(("positionIdx".to_owned(), Field::Integer(position_idx(long))));
    fields.push(("timeInForce".to_owned(), Field::Text("GTC".to_owned())));
    assert(json::field_views(fields@) =~= limit_order_fields(symbol@, long, qty@, price@, tp@, sl@));
    json::write_object(fields)
}

/// The members of an order that opens a trade at once.
pub open spec fn market_order_fields(symbol: Seq<char>, long: bool, qty: Seq<char>) -> Seq<(Seq<char>, FieldView)> {
    seq![
        ("category"@, FieldView::Text("linear"@)),
        ("symbol"@, FieldView::Text(symbol)),
        ("side"@, FieldView::Text(opening_side(long))),
        ("orderType"@, FieldView::Text("Market"@)),
        ("qty"@, FieldView::Text(qty)),
        ("positionIdx"@, FieldView::Integer(position_idx(long))),
        ("timeInForce"@, FieldView::Text("IOC"@)),
    ]
}

/// An order that opens a trade at once.
pub fn market_order_body(symbol: &str, long: bool, qty: &str) -> (r: String)
    ensures
        r@ == json::object_text(market_order_fields(symbol@, long, qty@)),
{
    let mut fields: Vec<(String, Field)> = Vec::new();
    fields.push(("category".to_owned(), Field::Text("linear".to_owned())));
    fields.push(("symbol".to_owned(), Field::Text(symbol.to_owned())));
    fields.push(("side".to_owned(), Field::Text(side_text(long).to_owned())));
    fields.push(("orderType".to_owned(), Field::Text("Market".to_owned())));
    fields.push(("qty".to_owned(), Field::Text(qty.to_owned())));
    fields.push(("positionIdx".to_owned(), Field::Integer(position_idx(long))));
    fields.push(("timeInForce".to_owned(), Field::Text("IOC".to_owned())));
    assert(json::field_views(fields@) =~= market_order_fields(symbol@, long, qty@));
    json::write_object(fields)
}

/// The members of an order that closes a position at once.
pub open spec fn closing_order_fields(symbol: Seq<char>, long: bool, qty: Seq<char>) -> Seq<(Seq<char>, FieldView)> {
    seq![
        ("category"@, FieldView::Text("linear"@)),
        ("symbol"@, FieldView::Text(symbol)),
        ("side"@, FieldView::Text(opening_side(!long))),
        ("orderType"@, FieldView::Text("Market"@)),
        ("qty"@, FieldView::Text(qty)),
        ("positionIdx"@, FieldView::Integer(position_idx(long))),
        ("timeInForce"@, FieldView::Text("IOC"@)),
        ("reduceOnly"@, FieldView::Flag(true)),
    ]
}

/// An order that closes a position at once: it is on the other side, and only reduces.
pub fn closing_order_body(symbol: &str, long: bool, qty: &str) -> (r: String)
    ensures
        r@ == json::object_text(closing_order_fields(symbol@, long, qty@)),
{
    let mut fields: Vec<(String, Field)> = Vec::new();
    fields.push(("category".to_owned(), Field::Text("linear".to_owned())));
    fields.push(("symbol".to_owned(), Field::Text(symbol.to_owned())));
    fields.push(("side".to_owned(), Field::Text(side_text(!long).to_owned())));
    fields.push(("orderType".to_owned(), Field::Text("Market".to_owned())));
    fields.push(("qty".to_owned(), Field::Text(qty.to_owned())));
    fields.push(("positionIdx".to_owned(), Field::Integer(position_idx(long))));
    fields.push(("timeInForce".to_owned(), Field::Text("IOC".to_owned())));
    fields.push(("reduceOnly".to_owned(), Field::Flag(true)));
    assert(json::field_views(fields@) =~= closing_order_fields(symbol@, long, qty@));
    json::write_object(fields)
}

/// The members of a request that takes back all orders on a symbol.
pub open spec fn cancel_all_fields(symbol: Seq<char>) -> Seq<(Seq<char>, FieldView)> {
    seq![
        ("category"@, FieldView::Text("linear"@)),
        ("symbol"@, FieldView::Text(symbol)),
    ]
}

/// Takes back all orders on a symbol.
pub fn cancel_all_body(symbol: &str) -> (r: String)
    ensures
        r@ == json::object_text(cancel_all_fields(symbol@)),
{
    let mut fields: Vec<(String, Field)> = Vec::new();
    fields.push(("category".to_owned(), Field::Text("linear".to_owned())));
    fields.push(("symbol".to_owned(), Field::Text(symbol.to_owned())));
    assert(json::field_views(fields@) =~= cancel_all_fields(symbol@));
    json::write_object(fields)
}

/// The members of a request that takes back an order.
pub open spec fn cancel_fields(symbol: Seq<char>, order_id: Seq<char>) -> Seq<(Seq<char>, FieldView)> {
    seq![
        ("category"@, FieldView::Text("linear"@)),
        ("symbol"@, FieldView::Text(symbol)),
        ("orderId"@, FieldView::Text(order_id)),
    ]
}

/// Takes back an order.
pub fn cancel_body(symbol: &str, order_id: &str) -> (r: String)
    ensures
        r@ == json::object_text(cancel_fields(symbol@, order_id@)),
{
    let mut fields: Vec<(String, Field)> = Vec::new();
    fields.push(("category".to_owned(), Field::Text("linear".to_owned())));
    fields.push(("symbol".to_owned(), Field::Text(symbol.to_owned())));
    fields.push(("orderId".to_owned(), Field::Text(order_id.to_owned())));
    assert(json::field_views(fields@) =~= cancel_fields(symbol@, order_id@));
    json::write_object(fields)
}

} // verus!
