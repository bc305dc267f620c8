//! The accounts at the exchange.
use vstd::prelude::*;

verus! {

/// An account: its keys, and where it trades.
#[derive(Debug)]
pub struct AccountConfig {
    pub id: i32,
    pub apikey: String,
    pub secret: String,
    pub demo: bool,
    pub testnet: bool,
    pub base_url: String,
    pub base_url_demo: String,
    pub base_url_prod: String,
    pub quote_asset: String,
    pub papi: bool,
}

/// Where the first account with a number stands; the number of accounts where there is
/// none.
pub open spec fn account_place(configs: Seq<AccountConfig>, sub_id: i32) -> int
    decreases configs.len(),
{
    if configs.len() == 0 || configs[0].id == sub_id {
        0
    } else {
        1 + account_place(configs.skip(1), sub_id)
    }
}

/// Whether some account has a number.
pub open spec fn listed(configs: Seq<AccountConfig>, sub_id: i32) -> bool {
    exists|k: int| 0 <= k < configs.len() && (#[trigger] configs[k]).id == sub_id
}

/// The first account with a number.
pub open spec fn account_of(configs: Seq<AccountConfig>, sub_id: i32) -> Option<AccountConfig> {
    let p = account_place(configs, sub_id);
    if p < configs.len() {
        Some(configs[p])
    } else {
        None
    }
}

/// The first account with a number has it, and none before it does; where there is no
/// such account, none has it.
pub proof fn lemma_account_place(configs: Seq<AccountConfig>, sub_id: i32)
    ensures
        0 <= account_place(configs, sub_id) <= configs.len(),
        forall|i: int|
            0 <= i < account_place(configs, sub_id) ==> (#[trigger] configs[i]).id != sub_id,
        account_place(configs, sub_id) < configs.len() ==> configs[account_place(
            configs,
            sub_id,
        )].id == sub_id,
        account_of(configs, sub_id) is Some <==> listed(configs, sub_id),
    decreases configs.len(),
{
    if configs.len() > 0 && configs[0].id != sub_id {
        let rest = configs.skip(1);
        lemma_account_place(rest, sub_id);
        assert forall|i: int| 0 <= i < account_place(configs, sub_id) implies (#[trigger] configs[i]).id
            != sub_id by {
            if i > 0 {
                assert(rest[i - 1] == configs[i]);
            }
        }
        if account_place(configs, sub_id) < configs.len() {
            assert(rest[account_place(rest, sub_id)] == configs[account_place(configs, sub_id)]);
        }
    }
}

/// See [`account_place`].
fn find_account(configs: &Vec<AccountConfig>, sub_id: i32) -> (p: usize)
    ensures
        p == account_place(configs@, sub_id),
{
    let mut i: usize = 0;
    assert(configs@.skip(0) =~= configs@);
    while i < configs.len()
        invariant
            i <= configs@.len(),
            account_place(configs@, sub_id) == i + account_place(configs@.skip(i as int), sub_id),
        decreases configs@.len() - i,
    {
        assert(configs@.skip(i as int)[0] == configs@[i as int]);
        if configs[i].id == sub_id {
            return i;
        }
        assert(configs@.skip(i as int).skip(1) =~= configs@.skip(i + 1));
        i = i + 1;
    }
    i
}

/// Whether some account has a number.
pub fn has_account(configs: &Vec<AccountConfig>, sub_id: i32) -> (r: bool)
    ensures
        r == listed(configs@, sub_id),
{
    proof {
        lemma_account_place(configs@, sub_id);
    }
    find_account(configs, sub_id) < configs.len()
}

/// The first account with a number, which some account has.
pub fn get_account(configs: &Vec<AccountConfig>, sub_id: i32) -> (r: &AccountConfig)
    requires
        listed(configs@, sub_id),
    ensures
        account_of(configs@, sub_id) == Some(*r),
{
    proof {
        lemma_account_place(configs@, sub_id);
    }
    &configs[find_account(configs, sub_id)]
}

impl AccountConfig {
    /// Where the account trades.
    pub open spec fn address(self) -> Seq<char> {
        if self.demo || self.testnet {
            self.base_url_demo@
        } else {
            self.base_url_prod@
        }
    }

    /// Where the account trades: at the demo address if it is for demo or test.
    pub fn base_url(&self) -> (r: &str)
        ensures
            r@ == self.address(),
    {
        if self.demo || self.testnet {
            self.base_url_demo.as_str()
        } else {
            self.base_url_prod.as_str()
        }
    }
}

} // verus!
