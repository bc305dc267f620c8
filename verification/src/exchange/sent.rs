//! What is sent to the exchange, by its names.
use vstd::prelude::*;
use crate::config;
use crate::config::AccountConfig;
use crate::exchange::account;
use crate::exchange::account::ExchangeView;
use crate::exchange::orders;
use crate::exchange::requests;
use crate::exchange::signing;
use crate::json::FieldView;
use crate::roster;
use crate::text;

verus! {

/// Whether some members have one of this name and content, and no other of this name.
pub open spec fn says(fields: Seq<(Seq<char>, FieldView)>, name: Seq<char>, what: FieldView) -> bool {
    &&& fields.contains((name, what))
    &&& forall|i: int| 0 <= i < fields.len() && (#[trigger] fields[i]).0 == name ==> fields[i].1
        == what
}

/// The names of the members of orders are different.
proof fn lemma_names()
    ensures
        ({
            let names = seq![
                "category"@,
                "symbol"@,
                "side"@,
                "orderType"@,
                "qty"@,
                "price"@,
                "takeProfit"@,
                "stopLoss"@,
                "tpslMode"@,
                "positionIdx"@,
                "timeInForce"@,
                "reduceOnly"@,
                "orderId"@,
            ];
            forall|i: int, j: int|
                0 <= i < j < names.len() ==> #[trigger] names[i] != #[trigger] names[j]
        }),
{
    reveal_strlit("category");
    reveal_strlit("symbol");
    reveal_strlit("side");
    reveal_strlit("orderType");
    reveal_strlit("qty");
    reveal_strlit("price");
    reveal_strlit("takeProfit");
    reveal_strlit("stopLoss");
    reveal_strlit("tpslMode");
    reveal_strlit("positionIdx");
    reveal_strlit("timeInForce");
    reveal_strlit("reduceOnly");
    reveal_strlit("orderId");
    assert("category"@.len() == 8 && "stopLoss"@.len() == 8 && "tpslMode"@.len() == 8);
    assert("category"@[0] == 'c' && "stopLoss"@[0] == 's' && "tpslMode"@[0] == 't');
    assert("symbol"@.len() == 6 && "side"@.len() == 4 && "qty"@.len() == 3 && "price"@.len() == 5);
    assert("orderType"@.len() == 9 && "orderId"@.len() == 7);
    assert("takeProfit"@.len() == 10 && "reduceOnly"@.len() == 10);
    assert("takeProfit"@[0] == 't' && "reduceOnly"@[0] == 'r');
    assert("positionIdx"@.len() == 11 && "timeInForce"@.len() == 11);
    assert("positionIdx"@[0] == 'p' && "timeInForce"@[0] == 't');
}

/// Members of different names each say what they hold.
proof fn lemma_says(fields: Seq<(Seq<char>, FieldView)>, i: int)
    requires
        0 <= i < fields.len(),
        forall|j: int, k: int|
            0 <= j < k < fields.len() ==> (#[trigger] fields[j]).0 != (#[trigger] fields[k]).0,
    ensures
        says(fields, fields[i].0, fields[i].1),
{
    assert(fields[i] == (fields[i].0, fields[i].1));
    assert forall|j: int| 0 <= j < fields.len() && (#[trigger] fields[j]).0
        == fields[i].0 implies fields[j].1 == fields[i].1 by {
        if j < i {
            assert(fields[j].0 != fields[i].0);
        } else if i < j {
            assert(fields[i].0 != fields[j].0);
        }
    }
}

/// An order that opens a trade at a price buys for a long trade and sells for a short one,
/// in the position of that side; quantity, price, target and stop are those given,
/// whatever the side.
pub proof fn lemma_limit_order(
    symbol: Seq<char>,
    long: bool,
    qty: Seq<char>,
    price: Seq<char>,
    tp: Seq<char>,
    sl: Seq<char>,
)
    ensures
        ({
            let fields = orders::limit_order_fields(symbol, long, qty, price, tp, sl);
            &&& fields.len() == 11
            &&& says(fields, "category"@, FieldView::Text("linear"@))
            &&& says(fields, "symbol"@, FieldView::Text(symbol))
            &&& long ==> says(fields, "side"@, FieldView::Text("Buy"@))
            &&& !long ==> says(fields, "side"@, FieldView::Text("Sell"@))
            &&& says(fields, "orderType"@, FieldView::Text("Limit"@))
            &&& says(fields, "qty"@, FieldView::Text(qty))
            &&& says(fields, "price"@, FieldView::Text(price))
            &&& says(fields, "takeProfit"@, FieldView::Text(tp))
            &&& says(fields, "stopLoss"@, FieldView::Text(sl))
            &&& says(fields, "tpslMode"@, FieldView::Text("Full"@))
            &&& long ==> says(fields, "positionIdx"@, FieldView::Integer(1))
            &&& !long ==> says(fields, "positionIdx"@, FieldView::Integer(2))
            &&& says(fields, "timeInForce"@, FieldView::Text("GTC"@))
        }),
{
    let fields = orders::limit_order_fields(symbol, long, qty, price, tp, sl);
    lemma_names();
    lemma_distinct(fields);
    assert forall|i: int| 0 <= i < fields.len() implies says(
        fields,
        (#[trigger] fields[i]).0,
        fields[i].1,
    ) by {
        lemma_says(fields, i);
    }
    assert(fields[0].0 == "category"@ && fields[1].0 == "symbol"@ && fields[2].0 == "side"@);
    assert(fields[3].0 == "orderType"@ && fields[4].0 == "qty"@ && fields[5].0 == "price"@);
    assert(fields[6].0 == "takeProfit"@ && fields[7].0 == "stopLoss"@ && fields[8].0
        == "tpslMode"@);
    assert(fields[9].0 == "positionIdx"@ && fields[10].0 == "timeInForce"@);
}

/// Members whose names are among those of orders, in their order, have different names.
proof fn lemma_distinct(fields: Seq<(Seq<char>, FieldView)>)
    requires
        fields.len() <= 11,
        fields.len() >= 7 ==> fields[0].0 == "category"@ && fields[1].0 == "symbol"@
            && fields[2].0 == "side"@ && fields[3].0 == "orderType"@ && fields[4].0 == "qty"@,
        fields.len() == 11 ==> fields[5].0 == "price"@ && fields[6].0 == "takeProfit"@
            && fields[7].0 == "stopLoss"@ && fields[8].0 == "tpslMode"@ && fields[9].0
            == "positionIdx"@ && fields[10].0 == "timeInForce"@,
        7 <= fields.len() <= 8 ==> fields[5].0 == "positionIdx"@ && fields[6].0
            == "timeInForce"@,
        fields.len() == 8 ==> fields[7].0 == "reduceOnly"@,
        fields.len() == 7 || fields.len() == 8 || fields.len() == 11,
    ensures
        forall|j: int, k: int|
            0 <= j < k < fields.len() ==> (#[trigger] fields[j]).0 != (#[trigger] fields[k]).0,
{
    let names = seq![
        "category"@,
        "symbol"@,
        "side"@,
        "orderType"@,
        "qty"@,
        "price"@,
        "takeProfit"@,
        "stopLoss"@,
        "tpslMode"@,
        "positionIdx"@,
        "timeInForce"@,
        "reduceOnly"@,
        "orderId"@,
    ];
    lemma_names();
    let at = |i: int|
        if fields.len() == 11 || i < 5 {
            i
        } else if i == 7 {
            11
        } else {
            i + 4
        };
    assert forall|j: int, k: int| 0 <= j < k < fields.len() implies (#[trigger] fields[j]).0 != (
    #[trigger] fields[k]).0 by {
        assert(fields[j].0 == names[at(j)]);
        assert(fields[k].0 == names[at(k)]);
        assert(at(j) < at(k));
    }
}

/// An order that opens a trade at once buys for a long trade and sells for a short one, in
/// the position of that side.
pub proof fn lemma_market_order(symbol: Seq<char>, long: bool, qty: Seq<char>)
    ensures
        ({
            let fields = orders::market_order_fields(symbol, long, qty);
            &&& fields.len() == 7
            &&& says(fields, "category"@, FieldView::Text("linear"@))
            &&& says(fields, "symbol"@, FieldView::Text(symbol))
            &&& long ==> says(fields, "side"@, FieldView::Text("Buy"@))
            &&& !long ==> says(fields, "side"@, FieldView::Text("Sell"@))
            &&& says(fields, "orderType"@, FieldView::Text("Market"@))
            &&& says(fields, "qty"@, FieldView::Text(qty))
            &&& long ==> says(fields, "positionIdx"@, FieldView::Integer(1))
            &&& !long ==> says(fields, "positionIdx"@, FieldView::Integer(2))
            &&& says(fields, "timeInForce"@, FieldView::Text("IOC"@))
        }),
{
    let fields = orders::market_order_fields(symbol, long, qty);
    lemma_distinct(fields);
    assert forall|i: int| 0 <= i < fields.len() implies says(
        fields,
        (#[trigger] fields[i]).0,
        fields[i].1,
    ) by {
        lemma_says(fields, i);
    }
    assert(fields[0].0 == "category"@ && fields[1].0 == "symbol"@ && fields[2].0 == "side"@);
    assert(fields[3].0 == "orderType"@ && fields[4].0 == "qty"@);
    assert(fields[5].0 == "positionIdx"@ && fields[6].0 == "timeInForce"@);
}

/// An order that closes a position sells a long one and buys a short one back, out of the
/// position that it was opened in, and only reduces it.
pub proof fn lemma_closing_order(symbol: Seq<char>, long: bool, qty: Seq<char>)
    ensures
        ({
            let fields = orders::closing_order_fields(symbol, long, qty);
            &&& fields.len() == 8
            &&& says(fields, "category"@, FieldView::Text("linear"@))
            &&& says(fields, "symbol"@, FieldView::Text(symbol))
            &&& long ==> says(fields, "side"@, FieldView::Text("Sell"@))
            &&& !long ==> says(fields, "side"@, FieldView::Text("Buy"@))
            &&& says(fields, "orderType"@, FieldView::Text("Market"@))
            &&& says(fields, "qty"@, FieldView::Text(qty))
            &&& long ==> says(fields, "positionIdx"@, FieldView::Integer(1))
            &&& !long ==> says(fields, "positionIdx"@, FieldView::Integer(2))
            &&& says(fields, "timeInForce"@, FieldView::Text("IOC"@))
            &&& says(fields, "reduceOnly"@, FieldView::Flag(true))
        }),
{
    let fields = orders::closing_order_fields(symbol, long, qty);
    lemma_distinct(fields);
    assert forall|i: int| 0 <= i < fields.len() implies says(
        fields,
        (#[trigger] fields[i]).0,
        fields[i].1,
    ) by {
        lemma_says(fields, i);
    }
    assert(fields[0].0 == "category"@ && fields[1].0 == "symbol"@ && fields[2].0 == "side"@);
    assert(fields[3].0 == "orderType"@ && fields[4].0 == "qty"@);
    assert(fields[5].0 == "positionIdx"@ && fields[6].0 == "timeInForce"@ && fields[7].0
        == "reduceOnly"@);
}

/// Orders are taken back on the symbol, and under the number, that were given.
pub proof fn lemma_cancelled(symbol: Seq<char>, order_id: Seq<char>)
    ensures
        orders::cancel_all_fields(symbol) == seq![
            ("category"@, FieldView::Text("linear"@)),
            ("symbol"@, FieldView::Text(symbol)),
        ],
        orders::cancel_fields(symbol, order_id) == orders::cancel_all_fields(symbol).push(
            ("orderId"@, FieldView::Text(order_id)),
        ),
{
}

/// A request names the key of its account and its time, and is signed under the secret of
/// its account over the time, the key, the window of five seconds and what is sent.
pub proof fn lemma_signed(ex: ExchangeView, millis: i64, sent: Seq<char>)
    ensures
        requests::signed_headers(ex, millis, sent) == seq![
            ("X-BAPI-API-KEY"@, ex.api_key),
            ("X-BAPI-TIMESTAMP"@, text::decimal(millis as int)),
            (
                "X-BAPI-SIGN"@,
                signing::hex_text(
                    signing::code(
                        ex.secret,
                        text::decimal(millis as int) + ex.api_key + "5000"@ + sent,
                    ),
                ),
            ),
            ("X-BAPI-RECV-WINDOW"@, "5000"@),
            ("X-BAPI-SIGN-TYPE"@, "2"@),
        ],
{
}

/// A query of one pair is its name, an equals sign and its value; two queries are joined by
/// an ampersand.
pub proof fn lemma_query(a: Seq<(Seq<char>, Seq<char>)>, b: Seq<(Seq<char>, Seq<char>)>)
    requires
        a.len() >= 1,
        b.len() >= 1,
    ensures
        requests::query(a + b) == requests::query(a) + "&"@ + requests::query(b),
        a.len() == 1 ==> requests::query(a) == a[0].0 + "="@ + a[0].1,
        requests::query(Seq::empty()).len() == 0,
    decreases b.len(),
{
    let all = a + b;
    assert(all.drop_last() =~= a + b.drop_last());
    assert(all.last() == b.last());
    let part = b.last().0 + "="@ + b.last().1;
    assert(requests::query(all) == requests::query(all.drop_last()) + "&"@ + part);
    if b.len() == 1 {
        assert(a + b.drop_last() =~= a);
        assert(b[0] == b.last());
    } else {
        lemma_query(a, b.drop_last());
        assert(requests::query(b) == requests::query(b.drop_last()) + "&"@ + part);
        assert(requests::query(all) =~= requests::query(a) + "&"@ + requests::query(b));
    }
}

/// What is needed to trade is, where nothing is known yet, the key and the secret of the
/// first account of that number, and its demo address if it is for demo or test, else the
/// other one. What is known already stays.
pub proof fn lemma_account(
    cache: Seq<(i32, ExchangeView)>,
    configs: Seq<AccountConfig>,
    sub_id: i32,
    k: int,
)
    requires
        0 <= k < configs.len(),
        configs[k].id == sub_id,
        forall|j: int| 0 <= j < k ==> (#[trigger] configs[j]).id != sub_id,
    ensures
        account::known(cache, configs, sub_id) is Some,
        ({
            let e = account::known(cache, configs, sub_id)->0;
            match roster::lookup(cache, sub_id) {
                Some(known) => e == known,
                None => {
                    &&& e.api_key == configs[k].apikey@
                    &&& e.secret == configs[k].secret@
                    &&& configs[k].demo || configs[k].testnet ==> e.base_url
                        == configs[k].base_url_demo@
                    &&& !configs[k].demo && !configs[k].testnet ==> e.base_url
                        == configs[k].base_url_prod@
                },
            }
        }),
{
    config::lemma_account_place(configs, sub_id);
    let p = config::account_place(configs, sub_id);
    if p < k {
        assert(configs[p].id != sub_id);
    }
    if k < p {
        assert(configs[k].id != sub_id);
    }
}

} // verus!
