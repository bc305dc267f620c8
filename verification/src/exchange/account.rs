//! The accounts that trade at the exchange.
use vstd::prelude::*;
use crate::config;
use crate::config::AccountConfig;
use crate::roster;

verus! {

/// What is needed to trade for an account.
#[derive(Debug)]
pub struct CachedExchange {
    pub api_key: String,
    pub secret: String,
    pub base_url: String,
}

/// The contents of a [`CachedExchange`].
#[verifier::ext_equal]
pub struct ExchangeView {
    pub api_key: Seq<char>,
    pub secret: Seq<char>,
    pub base_url: Seq<char>,
}

impl View for CachedExchange {
    type V = ExchangeView;

    open spec fn view(&self) -> ExchangeView {
        ExchangeView {
            api_key: self.api_key@,
            secret: self.secret@,
            base_url: self.base_url@,
        }
    }
}

/// What is needed to trade for an account.
pub open spec fn exchange_of(account: AccountConfig) -> ExchangeView {
    ExchangeView {
        api_key: account.apikey@,
        secret: account.secret@,
        base_url: account.address(),
    }
}

impl CachedExchange {
    /// Another of the same contents.
    pub fn duplicate(&self) -> (r: CachedExchange)
        ensures
            r@ == self@,
    {
        CachedExchange {
            api_key: self.api_key.clone(),
            secret: self.secret.clone(),
            base_url: self.base_url.clone(),
        }
    }
}

/// The contents of the entries of a cache.
pub open spec fn rows(s: Seq<(i32, CachedExchange)>) -> Seq<(i32, ExchangeView)> {
    Seq::new(s.len(), |i: int| (s[i].0, s[i].1@))
}

/// What was found out of the accounts so far, by their numbers.
pub struct ExchangeCache {
    pub entries: Vec<(i32, CachedExchange)>,
}

impl View for ExchangeCache {
    type V = Seq<(i32, ExchangeView)>;

    open spec fn view(&self) -> Seq<(i32, ExchangeView)> {
        rows(self.entries@)
    }
}

/// What is known of an account: what the cache has, or else what the configuration
/// says.
pub open spec fn known(cache: Seq<(i32, ExchangeView)>, configs: Seq<AccountConfig>, sub_id: i32) -> Option<
    ExchangeView,
> {
    match roster::lookup(cache, sub_id) {
        Some(e) => Some(e),
        None => match config::account_of(configs, sub_id) {
            Some(a) => Some(exchange_of(a)),
            None => None,
        },
    }
}

/// The cache after an account was looked up.
pub open spec fn consulted(
    cache: Seq<(i32, ExchangeView)>,
    configs: Seq<AccountConfig>,
    sub_id: i32,
) -> Seq<(i32, ExchangeView)> {
    match known(cache, configs, sub_id) {
        Some(e) => roster::put(cache, sub_id, e),
        None => cache,
    }
}

impl ExchangeCache {
    /// An empty cache.
    pub fn new() -> (r: ExchangeCache)
        ensures
            r@ == Seq::<(i32, ExchangeView)>::empty(),
    {
        let r: ExchangeCache = ExchangeCache { entries: Vec::new() };
        assert(r@ =~= Seq::<(i32, ExchangeView)>::empty());
        r
    }

    /// See [`roster::place`].
    fn find(&self, sub_id: i32) -> (p: usize)
        ensures
            p == roster::place(self@, sub_id),
            p <= self.entries@.len(),
    {
        let mut p: usize = 0;
        while p < self.entries.len() && self.entries[p].0 < sub_id
            invariant
                p <= self.entries@.len(),
                forall|i: int| 0 <= i < p ==> (#[trigger] self@[i]).0 < sub_id,
            decreases self.entries@.len() - p,
        {
            assert(self@[p as int].0 == self.entries@[p as int].0);
            p = p + 1;
        }
        proof {
            if p < self@.len() {
                assert(self@[p as int].0 == self.entries@[p as int].0);
            }
            roster::lemma_place_unique(self@, sub_id, p as int);
        }
        p
    }

    /// Whether anything is known of an account.
    pub fn knows(&self, configs: &Vec<AccountConfig>, sub_id: i32) -> (r: bool)
        ensures
            r == (known(self@, configs@, sub_id) is Some),
    {
        proof {
            config::lemma_account_place(configs@, sub_id);
        }
        let p: usize = self.find(sub_id);
        (p < self.entries.len() && self.entries[p].0 == sub_id) || config::has_account(
            configs,
            sub_id,
        )
    }

    /// What is known of an account, which is kept from now on.
    pub fn get_exchange(&mut self, configs: &Vec<AccountConfig>, sub_id: i32) -> (r: CachedExchange)
        requires
            known(old(self)@, configs@, sub_id) is Some,
        ensures
            known(old(self)@, configs@, sub_id) == Some(r@),
            final(self)@ == consulted(old(self)@, configs@, sub_id),
    {
        let ghost before = self@;
        let p: usize = self.find(sub_id);
        if p < self.entries.len() && self.entries[p].0 == sub_id {
            proof {
                assert(before[p as int] == (sub_id, self.entries@[p as int].1@));
                assert(before.update(p as int, before[p as int]) =~= before);
            }
            return self.entries[p].1.duplicate();
        }
        assert(roster::lookup(before, sub_id) is None);
        proof {
            config::lemma_account_place(configs@, sub_id);
        }
        let account: &AccountConfig = config::get_account(configs, sub_id);
        let made: CachedExchange = CachedExchange {
            api_key: account.apikey.clone(),
            secret: account.secret.clone(),
            base_url: account.base_url().to_owned(),
        };
        let kept: CachedExchange = made.duplicate();
        assert(made@ == exchange_of(*account));
        self.entries.insert(p, (sub_id, kept));
        assert(self@ =~= before.insert(p as int, (sub_id, made@)));
        made
    }
}

/// What was once found out of an account is found again, whatever the configuration
/// says by then.
pub proof fn lemma_known_again(
    cache: Seq<(i32, ExchangeView)>,
    configs: Seq<AccountConfig>,
    later: Seq<AccountConfig>,
    sub_id: i32,
)
    requires
        roster::ascending(cache),
        known(cache, configs, sub_id) is Some,
    ensures
        known(consulted(cache, configs, sub_id), later, sub_id) == known(cache, configs, sub_id),
        roster::ascending(consulted(cache, configs, sub_id)),
{
    let e = known(cache, configs, sub_id)->0;
    roster::lemma_put_lookup(cache, sub_id, e, sub_id);
    roster::lemma_put_ascending(cache, sub_id, e);
}

} // verus!
