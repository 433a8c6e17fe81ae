//! The OrbitHaul token ledger: balances, allowances and an admin-curated
//! metadata store whose keys must be on an allowlist before they can be set.
//!
//! Callers are identified by account numbers; that a caller has authorised
//! the call is checked by the contract host before the ledger is consulted.

use vstd::prelude::*;
use std::collections::HashMap;
use crate::assoc::{keys_distinct, pairs_to_map, lemma_pairs_empty, lemma_pairs_lookup, lemma_pairs_absent, lemma_pairs_update, lemma_pairs_push, lemma_pairs_remove, has_key, lemma_push_new_element, lemma_remove_element};
use crate::supply::{balance_in, map_sum, all_non_negative, lemma_map_sum_insert, lemma_map_sum_non_negative, lemma_two_balances_within_sum};

verus! {

broadcast use vstd::std_specs::hash::group_hash_axioms;

/// Errors of the balance operations, with their contract error codes.
#[derive(Clone, Copy, Debug, PartialEq, Eq)]
pub enum TokenError {
    /// The token has already been initialized (code 1).
    AlreadyInitialized,
    /// The token has not been initialized yet (code 2).
    NotInitialized,
    /// The caller is not the admin (code 3).
    Unauthorized,
    /// The amount is not allowed for the operation (code 4).
    InvalidAmount,
    /// The payer's balance is below the amount (code 5).
    InsufficientBalance,
    /// The spender's allowance is below the amount (code 6).
    InsufficientAllowance,
    /// The total supply would exceed what can be represented (code 7).
    Overflow,
}

impl TokenError {
    pub open spec fn spec_code(self) -> u32 {
        match self {
            TokenError::AlreadyInitialized => 1,
            TokenError::NotInitialized => 2,
            TokenError::Unauthorized => 3,
            TokenError::InvalidAmount => 4,
            TokenError::InsufficientBalance => 5,
            TokenError::InsufficientAllowance => 6,
            TokenError::Overflow => 7,
        }
    }

    /// The contract error code under which the error is reported.
    pub fn code(&self) -> (code: u32)
        ensures
            code == self.spec_code(),
    {
        match self {
            TokenError::AlreadyInitialized => 1,
            TokenError::NotInitialized => 2,
            TokenError::Unauthorized => 3,
            TokenError::InvalidAmount => 4,
            TokenError::InsufficientBalance => 5,
            TokenError::InsufficientAllowance => 6,
            TokenError::Overflow => 7,
        }
    }
}

/// Errors of the metadata operations, with their contract error codes.
#[derive(Clone, Copy, Debug, PartialEq, Eq)]
pub enum MetadataError {
    /// The token has not been initialized yet (code 1).
    NotInitialized,
    /// The caller is not the admin (code 2).
    Unauthorized,
    /// The key is not on the allowlist (code 3).
    KeyNotAllowed,
    /// The key is not present (code 4).
    KeyNotFound,
    /// The key is already present (code 5).
    KeyAlreadyExists,
}

impl MetadataError {
    pub open spec fn spec_code(self) -> u32 {
        match self {
            MetadataError::NotInitialized => 1,
            MetadataError::Unauthorized => 2,
            MetadataError::KeyNotAllowed => 3,
            MetadataError::KeyNotFound => 4,
            MetadataError::KeyAlreadyExists => 5,
        }
    }

    /// The contract error code under which the error is reported.
    pub fn code(&self) -> (code: u32)
        ensures
            code == self.spec_code(),
    {
        match self {
            MetadataError::NotInitialized => 1,
            MetadataError::Unauthorized => 2,
            MetadataError::KeyNotAllowed => 3,
            MetadataError::KeyNotFound => 4,
            MetadataError::KeyAlreadyExists => 5,
        }
    }
}

/// The abstract state of the token.
pub struct TokenView {
    pub initialized: bool,
    pub admin: u64,
    pub name: Seq<char>,
    pub symbol: Seq<char>,
    pub total_supply: int,
    /// Balance of each account that ever held tokens.
    pub balances: Map<u64, i128>,
    /// Allowance of each (owner, spender) pair that was ever approved.
    pub allowances: Map<(u64, u64), i128>,
    /// The metadata keys that may be set.
    pub allowed_keys: Set<Seq<char>>,
    /// The metadata entries.
    pub metadata: Map<Seq<char>, Seq<char>>,
}

/// The allowance that `m` records for `spender` on `owner`'s balance, zero if none.
pub open spec fn allowance_in(m: Map<(u64, u64), i128>, owner: u64, spender: u64) -> int {
    if m.contains_key((owner, spender)) {
        m[(owner, spender)] as int
    } else {
        0
    }
}

/// The balances after `amount` moved from `from` to `to`.
pub open spec fn moved(m: Map<u64, i128>, from: u64, to: u64, amount: int) -> Map<u64, i128> {
    let debited = m.insert(from, (balance_in(m, from) - amount) as i128);
    debited.insert(to, (balance_in(debited, to) + amount) as i128)
}

impl TokenView {
    /// The supply is exactly the sum of the balances, and no balance or
    /// allowance is negative.
    pub open spec fn consistent(self) -> bool {
        &&& self.balances.dom().finite()
        &&& all_non_negative(self.balances)
        &&& self.total_supply == map_sum(self.balances)
        &&& self.total_supply <= i128::MAX
        &&& forall|p: (u64, u64)| #[trigger] self.allowances.contains_key(p) ==> self.allowances[p]
            >= 0
    }

    pub open spec fn balance(self, account: u64) -> int {
        balance_in(self.balances, account)
    }

    pub open spec fn allowance(self, owner: u64, spender: u64) -> int {
        allowance_in(self.allowances, owner, spender)
    }

    /// The token state right after a successful initialization.
    pub open spec fn initialized_with(
        self,
        admin: u64,
        name: Seq<char>,
        symbol: Seq<char>,
        total_supply: i128,
    ) -> TokenView {
        TokenView {
            initialized: true,
            admin,
            name,
            symbol,
            total_supply: total_supply as int,
            balances: self.balances.insert(admin, total_supply),
            ..self
        }
    }

    /// What a transfer of `amount` from `from` to `to` does.
    pub open spec fn transfer_outcome(self, from: u64, to: u64, amount: i128) -> Result<TokenView, TokenError> {
        if !self.initialized {
            Err(TokenError::NotInitialized)
        } else if amount <= 0 {
            Err(TokenError::InvalidAmount)
        } else if self.balance(from) < amount {
            Err(TokenError::InsufficientBalance)
        } else {
            Ok(TokenView { balances: moved(self.balances, from, to, amount as int), ..self })
        }
    }

    /// What minting `amount` to `to` at the request of `caller` does.
    pub open spec fn mint_outcome(self, caller: u64, to: u64, amount: i128) -> Result<TokenView, TokenError> {
        if !self.initialized {
            Err(TokenError::NotInitialized)
        } else if caller != self.admin {
            Err(TokenError::Unauthorized)
        } else if amount <= 0 {
            Err(TokenError::InvalidAmount)
        } else if self.total_supply + amount > i128::MAX {
            Err(TokenError::Overflow)
        } else {
            Ok(
                TokenView {
                    total_supply: self.total_supply + amount,
                    balances: self.balances.insert(to, (self.balance(to) + amount) as i128),
                    ..self
                },
            )
        }
    }

    /// What `owner` approving `spender` for `amount` does.
    pub open spec fn approve_outcome(self, owner: u64, spender: u64, amount: i128) -> Result<TokenView, TokenError> {
        if !self.initialized {
            Err(TokenError::NotInitialized)
        } else if amount < 0 {
            Err(TokenError::InvalidAmount)
        } else {
            Ok(TokenView { allowances: self.allowances.insert((owner, spender), amount), ..self })
        }
    }

    /// What `spender` moving `amount` from `from` to `to` does.
    pub open spec fn transfer_from_outcome(
        self,
        spender: u64,
        from: u64,
        to: u64,
        amount: i128,
    ) -> Result<TokenView, TokenError> {
        if !self.initialized {
            Err(TokenError::NotInitialized)
        } else if amount <= 0 {
            Err(TokenError::InvalidAmount)
        } else if self.allowance(from, spender) < amount {
            Err(TokenError::InsufficientAllowance)
        } else if self.balance(from) < amount {
            Err(TokenError::InsufficientBalance)
        } else {
            Ok(
                TokenView {
                    allowances: self.allowances.insert(
                        (from, spender),
                        (self.allowance(from, spender) - amount) as i128,
                    ),
                    balances: moved(self.balances, from, to, amount as int),
                    ..self
                },
            )
        }
    }

    /// What the admin check common to all metadata operations decides.
    pub open spec fn metadata_guard(self, caller: u64) -> Option<MetadataError> {
        if !self.initialized {
            Some(MetadataError::NotInitialized)
        } else if caller != self.admin {
            Some(MetadataError::Unauthorized)
        } else {
            None
        }
    }

    /// What adding `key` to the allowlist does.
    pub open spec fn add_key_outcome(self, caller: u64, key: Seq<char>) -> Result<TokenView, MetadataError> {
        if let Some(e) = self.metadata_guard(caller) {
            Err(e)
        } else if self.allowed_keys.contains(key) {
            Err(MetadataError::KeyAlreadyExists)
        } else {
            Ok(TokenView { allowed_keys: self.allowed_keys.insert(key), ..self })
        }
    }

    /// What removing `key` from the allowlist does: the entries stay.
    pub open spec fn remove_key_outcome(self, caller: u64, key: Seq<char>) -> Result<TokenView, MetadataError> {
        if let Some(e) = self.metadata_guard(caller) {
            Err(e)
        } else if !self.allowed_keys.contains(key) {
            Err(MetadataError::KeyNotFound)
        } else {
            Ok(TokenView { allowed_keys: self.allowed_keys.remove(key), ..self })
        }
    }

    /// What setting the entry `key` to `value` does.
    pub open spec fn set_metadata_outcome(self, caller: u64, key: Seq<char>, value: Seq<char>) -> Result<TokenView, MetadataError> {
        if let Some(e) = self.metadata_guard(caller) {
            Err(e)
        } else if !self.allowed_keys.contains(key) {
            Err(MetadataError::KeyNotAllowed)
        } else {
            Ok(TokenView { metadata: self.metadata.insert(key, value), ..self })
        }
    }

    /// What removing the entry `key` does.
    pub open spec fn remove_metadata_outcome(self, caller: u64, key: Seq<char>) -> Result<TokenView, MetadataError> {
        if let Some(e) = self.metadata_guard(caller) {
            Err(e)
        } else if !self.metadata.contains_key(key) {
            Err(MetadataError::KeyNotFound)
        } else {
            Ok(TokenView { metadata: self.metadata.remove(key), ..self })
        }
    }
}

/// `result` and the state change from `before` to `after` are those that
/// `outcome` prescribes: on success the new state, on failure the error and
/// no change at all.
pub open spec fn follows<E>(result: Result<(), E>, before: TokenView, after: TokenView, outcome: Result<TokenView, E>) -> bool {
    match outcome {
        Ok(next) => result is Ok && after == next,
        Err(e) => result == Err::<(), E>(e) && after == before,
    }
}

/// One instance of the token contract.
pub struct OrbitHaulToken {
    initialized: bool,
    admin: u64,
    name: String,
    symbol: String,
    total_supply: i128,
    balances: HashMap<u64, i128>,
    allowances: Vec<((u64, u64), i128)>,
    allowed_keys: Vec<String>,
    metadata: Vec<(String, String)>,
}

/// The views of the strings of `s`.
pub open spec fn string_views(s: Seq<String>) -> Seq<Seq<char>> {
    s.map_values(|x: String| x@)
}

/// The views of the string pairs of `s`.
pub open spec fn string_pair_views(s: Seq<(String, String)>) -> Seq<(Seq<char>, Seq<char>)> {
    s.map_values(|p: (String, String)| (p.0@, p.1@))
}

impl View for OrbitHaulToken {
    type V = TokenView;

    closed spec fn view(&self) -> TokenView {
        TokenView {
            initialized: self.initialized,
            admin: self.admin,
            name: self.name@,
            symbol: self.symbol@,
            total_supply: self.total_supply as int,
            balances: self.balances@,
            allowances: pairs_to_map(self.allowances@),
            allowed_keys: string_views(self.allowed_keys@).to_set(),
            metadata: pairs_to_map(string_pair_views(self.metadata@)),
        }
    }
}

impl OrbitHaulToken {
    /// The representation invariant: keys of the lists are distinct, the
    /// abstract state is consistent, and an uninitialized token is empty.
    pub closed spec fn wf(&self) -> bool {
        &&& keys_distinct(self.allowances@)
        &&& string_views(self.allowed_keys@).no_duplicates()
        &&& keys_distinct(string_pair_views(self.metadata@))
        &&& self@.consistent()
        &&& !self.initialized ==> {
            &&& self.balances@ == Map::<u64, i128>::empty()
            &&& self.total_supply == 0
            &&& self.allowances@.len() == 0
            &&& self.allowed_keys@.len() == 0
            &&& self.metadata@.len() == 0
        }
    }

    /// Every well-formed token keeps its supply equal to the sum of its balances.
    pub proof fn lemma_wf_consistent(&self)
        requires
            self.wf(),
        ensures
            self@.consistent(),
    {
    }

    /// A freshly deployed, not yet initialized token.
    pub fn new() -> (token: Self)
        ensures
            token.wf(),
            !token@.initialized,
            token@.total_supply == 0,
            token@.balances == Map::<u64, i128>::empty(),
            token@.allowances == Map::<(u64, u64), i128>::empty(),
            token@.allowed_keys == Set::<Seq<char>>::empty(),
            token@.metadata == Map::<Seq<char>, Seq<char>>::empty(),
    {
        let token = OrbitHaulToken {
            initialized: false,
            admin: 0,
            name: String::new(),
            symbol: String::new(),
            total_supply: 0,
            balances: HashMap::new(),
            allowances: Vec::new(),
            allowed_keys: Vec::new(),
            metadata: Vec::new(),
        };
        proof {
            lemma_pairs_empty::<(u64, u64), i128>();
            lemma_pairs_empty::<Seq<char>, Seq<char>>();
            assert(string_pair_views(token.metadata@) =~= Seq::<(Seq<char>, Seq<char>)>::empty());
            assert(string_views(token.allowed_keys@) =~= Seq::<Seq<char>>::empty());
            assert(string_views(token.allowed_keys@).to_set() =~= Set::<Seq<char>>::empty());
            assert(map_sum(token.balances@) == 0);
        }
        token
    }

    /// Initializes the token: `admin` becomes its admin and receives the whole
    /// initial supply.  Refused when already initialized, and for a negative supply.
    pub fn initialize(&mut self, admin: u64, name: String, symbol: String, total_supply: i128) -> (result: Result<(), TokenError>)
        requires
            old(self).wf(),
        ensures
            final(self).wf(),
            old(self)@.initialized ==> result == Err::<(), TokenError>(TokenError::AlreadyInitialized),
            !old(self)@.initialized && total_supply < 0 ==> result == Err::<(), TokenError>(TokenError::InvalidAmount),
            result is Ok <==> !old(self)@.initialized && total_supply >= 0,
            result is Ok ==> final(self)@ == old(self)@.initialized_with(admin, name@, symbol@, total_supply),
            result is Err ==> final(self)@ == old(self)@,
    {
        if self.initialized {
            return Err(TokenError::AlreadyInitialized);
        }
        if total_supply < 0 {
            return Err(TokenError::InvalidAmount);
        }
        self.initialized = true;
        self.admin = admin;
        self.name = name;
        self.symbol = symbol;
        self.total_supply = total_supply;
        self.balances.insert(admin, total_supply);
        proof {
            lemma_map_sum_insert(Map::<u64, i128>::empty(), admin, total_supply);
            assert(map_sum(Map::<u64, i128>::empty()) == 0);
        }
        Ok(())
    }

    /// The admin of the token.
    pub fn get_admin(&self) -> (result: Result<u64, TokenError>)
        ensures
            result == (if self@.initialized { Ok::<u64, TokenError>(self@.admin) } else { Err(TokenError::NotInitialized) }),
    {
        if self.initialized {
            Ok(self.admin)
        } else {
            Err(TokenError::NotInitialized)
        }
    }

    /// The name of the token.
    pub fn name(&self) -> (result: Result<String, TokenError>)
        ensures
            self@.initialized <==> result is Ok,
            !self@.initialized ==> result == Err::<String, TokenError>(TokenError::NotInitialized),
            result matches Ok(name) ==> name@ == self@.name,
    {
        if self.initialized {
            Ok(self.name.clone())
        } else {
            Err(TokenError::NotInitialized)
        }
    }

    /// The symbol of the token.
    pub fn symbol(&self) -> (result: Result<String, TokenError>)
        ensures
            self@.initialized <==> result is Ok,
            !self@.initialized ==> result == Err::<String, TokenError>(TokenError::NotInitialized),
            result matches Ok(symbol) ==> symbol@ == self@.symbol,
    {
        if self.initialized {
            Ok(self.symbol.clone())
        } else {
            Err(TokenError::NotInitialized)
        }
    }

    /// The total supply: zero before initialization.
    pub fn total_supply(&self) -> (supply: i128)
        ensures
            supply == self@.total_supply,
    {
        self.total_supply
    }

    /// The balance of `account`: zero for an account that never held tokens.
    pub fn balance(&self, account: u64) -> (balance: i128)
        ensures
            balance == self@.balance(account),
    {
        match self.balances.get(&account) {
            Some(b) => *b,
            None => 0,
        }
    }


    fn find_allowance(&self, owner: u64, spender: u64) -> (index: Option<usize>)
        ensures
            match index {
                Some(i) => i < self.allowances@.len() && self.allowances@[i as int].0 == (owner, spender),
                None => !has_key(self.allowances@, (owner, spender)),
            },
    {
        let mut i: usize = 0;
        while i < self.allowances.len()
            invariant
                i <= self.allowances@.len(),
                forall|j: int| 0 <= j < i ==> self.allowances@[j].0 != (owner, spender),
            decreases self.allowances@.len() - i,
        {
            let entry = self.allowances[i].0;
            if entry.0 == owner && entry.1 == spender {
                return Some(i);
            }
            i = i + 1;
        }
        None
    }

    /// The allowance `owner` granted to `spender`: zero if none was granted.
    pub fn allowance(&self, owner: u64, spender: u64) -> (allowance: i128)
        requires
            self.wf(),
        ensures
            allowance == self@.allowance(owner, spender),
    {
        match self.find_allowance(owner, spender) {
            Some(i) => {
                proof {
                    lemma_pairs_lookup(self.allowances@, i as int);
                }
                self.allowances[i].1
            },
            None => {
                proof {
                    lemma_pairs_absent(self.allowances@, (owner, spender));
                }
                0
            },
        }
    }

    fn set_allowance(&mut self, owner: u64, spender: u64, amount: i128)
        requires
            old(self).wf(),
            old(self)@.initialized,
            amount >= 0,
        ensures
            final(self).wf(),
            final(self)@ == (TokenView { allowances: old(self)@.allowances.insert((owner, spender), amount), ..old(self)@ }),
    {
        match self.find_allowance(owner, spender) {
            Some(i) => {
                proof {
                    lemma_pairs_update(self.allowances@, i as int, amount);
                }
                self.allowances.set(i, ((owner, spender), amount));
            },
            None => {
                proof {
                    lemma_pairs_push(self.allowances@, (owner, spender), amount);
                }
                self.allowances.push(((owner, spender), amount));
            },
        }
    }

    /// Moves `amount` between balances; the caller has checked the funds.
    fn move_balance(&mut self, from: u64, to: u64, amount: i128)
        requires
            old(self).wf(),
            amount > 0,
            old(self)@.balance(from) >= amount,
        ensures
            final(self).wf(),
            final(self)@ == (TokenView { balances: moved(old(self)@.balances, from, to, amount as int), ..old(self)@ }),
    {
        let ghost m = self.balances@;
        let from_balance = self.balance(from);
        proof {
            lemma_two_balances_within_sum(m, from, to);
            lemma_map_sum_insert(m, from, (from_balance - amount) as i128);
        }
        self.balances.insert(from, from_balance - amount);
        let ghost m1 = self.balances@;
        let to_balance = self.balance(to);
        proof {
            lemma_map_sum_insert(m1, to, (to_balance + amount) as i128);
        }
        self.balances.insert(to, to_balance + amount);
    }

    /// Moves `amount` from `from` to `to`.  Refused before initialization,
    /// for an amount that is not positive, and when `from` holds less.
    pub fn transfer(&mut self, from: u64, to: u64, amount: i128) -> (result: Result<(), TokenError>)
        requires
            old(self).wf(),
        ensures
            final(self).wf(),
            follows(result, old(self)@, final(self)@, old(self)@.transfer_outcome(from, to, amount)),
    {
        if !self.initialized {
            return Err(TokenError::NotInitialized);
        }
        if amount <= 0 {
            return Err(TokenError::InvalidAmount);
        }
        if self.balance(from) < amount {
            return Err(TokenError::InsufficientBalance);
        }
        self.move_balance(from, to, amount);
        Ok(())
    }

    /// Creates `amount` new tokens for `to`.  Only the admin may mint, and only
    /// a positive amount that keeps the supply representable.
    pub fn mint(&mut self, caller: u64, to: u64, amount: i128) -> (result: Result<(), TokenError>)
        requires
            old(self).wf(),
        ensures
            final(self).wf(),
            follows(result, old(self)@, final(self)@, old(self)@.mint_outcome(caller, to, amount)),
    {
        if !self.initialized {
            return Err(TokenError::NotInitialized);
        }
        if caller != self.admin {
            return Err(TokenError::Unauthorized);
        }
        if amount <= 0 {
            return Err(TokenError::InvalidAmount);
        }
        proof {
            lemma_map_sum_non_negative(self.balances@);
        }
        if amount > i128::MAX - self.total_supply {
            return Err(TokenError::Overflow);
        }
        let ghost m = self.balances@;
        let to_balance = self.balance(to);
        proof {
            lemma_two_balances_within_sum(m, to, to);
            lemma_map_sum_insert(m, to, (to_balance + amount) as i128);
        }
        self.balances.insert(to, to_balance + amount);
        self.total_supply = self.total_supply + amount;
        Ok(())
    }

    /// Lets `spender` move up to `amount` of `owner`'s tokens, replacing any
    /// earlier allowance.  Refused before initialization and for a negative amount.
    pub fn approve(&mut self, owner: u64, spender: u64, amount: i128) -> (result: Result<(), TokenError>)
        requires
            old(self).wf(),
        ensures
            final(self).wf(),
            follows(result, old(self)@, final(self)@, old(self)@.approve_outcome(owner, spender, amount)),
    {
        if !self.initialized {
            return Err(TokenError::NotInitialized);
        }
        if amount < 0 {
            return Err(TokenError::InvalidAmount);
        }
        self.set_allowance(owner, spender, amount);
        Ok(())
    }

    /// `spender` moves `amount` of `from`'s tokens to `to`, using up as much of
    /// its allowance.  Refused before initialization, for an amount that is not
    /// positive, when the allowance is smaller, and when `from` holds less.
    pub fn transfer_from(&mut self, spender: u64, from: u64, to: u64, amount: i128) -> (result: Result<(), TokenError>)
        requires
            old(self).wf(),
        ensures
            final(self).wf(),
            follows(result, old(self)@, final(self)@, old(self)@.transfer_from_outcome(spender, from, to, amount)),
    {
        if !self.initialized {
            return Err(TokenError::NotInitialized);
        }
        if amount <= 0 {
            return Err(TokenError::InvalidAmount);
        }
        let allowed = self.allowance(from, spender);
        if allowed < amount {
            return Err(TokenError::InsufficientAllowance);
        }
        if self.balance(from) < amount {
            return Err(TokenError::InsufficientBalance);
        }
        self.set_allowance(from, spender, allowed - amount);
        self.move_balance(from, to, amount);
        Ok(())
    }

    fn find_allowed_key(&self, key: &String) -> (index: Option<usize>)
        ensures
            match index {
                Some(i) => i < self.allowed_keys@.len() && self.allowed_keys@[i as int]@ == key@
                    && string_views(self.allowed_keys@).contains(key@),
                None => !string_views(self.allowed_keys@).contains(key@),
            },
    {
        let mut i: usize = 0;
        while i < self.allowed_keys.len()
            invariant
                i <= self.allowed_keys@.len(),
                forall|j: int| 0 <= j < i ==> self.allowed_keys@[j]@ != key@,
            decreases self.allowed_keys@.len() - i,
        {
            if self.allowed_keys[i] == *key {
                proof {
                    assert(string_views(self.allowed_keys@)[i as int] == key@);
                }
                return Some(i);
            }
            i = i + 1;
        }
        proof {
            if string_views(self.allowed_keys@).contains(key@) {
                let j = choose|j: int| 0 <= j < string_views(self.allowed_keys@).len() && string_views(self.allowed_keys@)[j] == key@;
                assert(self.allowed_keys@[j]@ == key@);
            }
        }
        None
    }

    fn find_metadata(&self, key: &String) -> (index: Option<usize>)
        ensures
            match index {
                Some(i) => i < self.metadata@.len() && string_pair_views(self.metadata@)[i as int].0 == key@,
                None => !has_key(string_pair_views(self.metadata@), key@),
            },
    {
        let mut i: usize = 0;
        while i < self.metadata.len()
            invariant
                i <= self.metadata@.len(),
                forall|j: int| 0 <= j < i ==> self.metadata@[j].0@ != key@,
            decreases self.metadata@.len() - i,
        {
            if self.metadata[i].0 == *key {
                return Some(i);
            }
            i = i + 1;
        }
        proof {
            if has_key(string_pair_views(self.metadata@), key@) {
                let j = choose|j: int| 0 <= j < string_pair_views(self.metadata@).len() && string_pair_views(self.metadata@)[j].0 == key@;
                assert(self.metadata@[j].0@ == key@);
            }
        }
        None
    }

    fn check_admin(&self, caller: u64) -> (result: Result<(), MetadataError>)
        ensures
            match self@.metadata_guard(caller) {
                Some(e) => result == Err::<(), MetadataError>(e),
                None => result is Ok,
            },
    {
        if !self.initialized {
            Err(MetadataError::NotInitialized)
        } else if caller != self.admin {
            Err(MetadataError::Unauthorized)
        } else {
            Ok(())
        }
    }

    /// Whether `key` is on the metadata allowlist.
    pub fn is_metadata_key_allowed(&self, key: &String) -> (allowed: bool)
        ensures
            allowed == self@.allowed_keys.contains(key@),
    {
        self.find_allowed_key(key).is_some()
    }

    /// Puts `key` on the metadata allowlist.  Only the admin may, and only for
    /// a key that is not on it yet.
    pub fn add_allowed_metadata_key(&mut self, caller: u64, key: &String) -> (result: Result<(), MetadataError>)
        requires
            old(self).wf(),
        ensures
            final(self).wf(),
            follows(result, old(self)@, final(self)@, old(self)@.add_key_outcome(caller, key@)),
    {
        if let Err(e) = self.check_admin(caller) {
            return Err(e);
        }
        if self.find_allowed_key(key).is_some() {
            return Err(MetadataError::KeyAlreadyExists);
        }
        proof {
            lemma_push_new_element(string_views(self.allowed_keys@), key@);
        }
        self.allowed_keys.push(key.clone());
        proof {
            assert(string_views(self.allowed_keys@) =~= string_views(old(self).allowed_keys@).push(key@));
        }
        Ok(())
    }

    /// Takes `key` off the metadata allowlist; an entry already set under it
    /// stays readable.  Only the admin may, and only for a key on the list.
    pub fn remove_allowed_metadata_key(&mut self, caller: u64, key: &String) -> (result: Result<(), MetadataError>)
        requires
            old(self).wf(),
        ensures
            final(self).wf(),
            follows(result, old(self)@, final(self)@, old(self)@.remove_key_outcome(caller, key@)),
    {
        if let Err(e) = self.check_admin(caller) {
            return Err(e);
        }
        match self.find_allowed_key(key) {
            None => Err(MetadataError::KeyNotFound),
            Some(i) => {
                proof {
                    lemma_remove_element(string_views(self.allowed_keys@), i as int);
                }
                self.allowed_keys.remove(i);
                proof {
                    assert(string_views(self.allowed_keys@) =~= string_views(old(self).allowed_keys@).remove(i as int));
                }
                Ok(())
            },
        }
    }

    /// Sets the entry `key` to `value`.  Only the admin may, and only for a key
    /// on the allowlist.
    pub fn set_metadata(&mut self, caller: u64, key: &String, value: &String) -> (result: Result<(), MetadataError>)
        requires
            old(self).wf(),
        ensures
            final(self).wf(),
            follows(result, old(self)@, final(self)@, old(self)@.set_metadata_outcome(caller, key@, value@)),
    {
        if let Err(e) = self.check_admin(caller) {
            return Err(e);
        }
        if self.find_allowed_key(key).is_none() {
            return Err(MetadataError::KeyNotAllowed);
        }
        let ghost views = string_pair_views(self.metadata@);
        match self.find_metadata(key) {
            Some(i) => {
                proof {
                    lemma_pairs_update(views, i as int, value@);
                }
                self.metadata.set(i, (key.clone(), value.clone()));
                proof {
                    assert(string_pair_views(self.metadata@) =~= views.update(i as int, (views[i as int].0, value@)));
                }
            },
            None => {
                proof {
                    lemma_pairs_push(views, key@, value@);
                }
                self.metadata.push((key.clone(), value.clone()));
                proof {
                    assert(string_pair_views(self.metadata@) =~= views.push((key@, value@)));
                }
            },
        }
        Ok(())
    }

    /// The entry under `key`, if one is set.
    pub fn get_metadata(&self, key: &String) -> (value: Option<String>)
        requires
            self.wf(),
        ensures
            value is Some <==> self@.metadata.contains_key(key@),
            value matches Some(v) ==> v@ == self@.metadata[key@],
    {
        match self.find_metadata(key) {
            Some(i) => {
                proof {
                    lemma_pairs_lookup(string_pair_views(self.metadata@), i as int);
                }
                Some(self.metadata[i].1.clone())
            },
            None => {
                None
            },
        }
    }

    /// Removes the entry under `key`.  Only the admin may, and only for a key
    /// that has an entry.
    pub fn remove_metadata(&mut self, caller: u64, key: &String) -> (result: Result<(), MetadataError>)
        requires
            old(self).wf(),
        ensures
            final(self).wf(),
            follows(result, old(self)@, final(self)@, old(self)@.remove_metadata_outcome(caller, key@)),
    {
        if let Err(e) = self.check_admin(caller) {
            return Err(e);
        }
        let ghost views = string_pair_views(self.metadata@);
        match self.find_metadata(key) {
            None => Err(MetadataError::KeyNotFound),
            Some(i) => {
                proof {
                    lemma_pairs_remove(views, i as int);
                }
                self.metadata.remove(i);
                proof {
                    assert(string_pair_views(self.metadata@) =~= views.remove(i as int));
                }
                Ok(())
            },
        }
    }
} // impl

} // verus!

verus! {

/// Transfers conserve the supply: a successful transfer leaves the supply
/// unchanged, keeps the state consistent, moves exactly `amount` from `from` to
/// `to`, and leaves every other balance as it was.
pub proof fn lemma_transfer_conserves_supply(v: TokenView, from: u64, to: u64, amount: i128)
    requires
        v.consistent(),
        v.transfer_outcome(from, to, amount) is Ok,
    ensures
        ({
            let w = v.transfer_outcome(from, to, amount).unwrap();
            &&& w.consistent()
            &&& w.total_supply == v.total_supply
            &&& from != to ==> w.balance(from) == v.balance(from) - amount
            &&& from != to ==> w.balance(to) == v.balance(to) + amount
            &&& from == to ==> w.balance(from) == v.balance(from)
            &&& forall|a: u64| a != from && a != to ==> #[trigger] w.balance(a) == v.balance(a)
        }),
{
    lemma_moved_consistent(v, from, to, amount as int);
}

/// Spending an allowance conserves the supply too, and uses up exactly
/// `amount` of the spender's allowance.
pub proof fn lemma_transfer_from_spends_allowance(
    v: TokenView,
    spender: u64,
    from: u64,
    to: u64,
    amount: i128,
)
    requires
        v.consistent(),
        v.transfer_from_outcome(spender, from, to, amount) is Ok,
    ensures
        ({
            let w = v.transfer_from_outcome(spender, from, to, amount).unwrap();
            &&& w.consistent()
            &&& w.total_supply == v.total_supply
            &&& w.allowance(from, spender) == v.allowance(from, spender) - amount
            &&& w.balances == v.transfer_outcome(from, to, amount).unwrap().balances
        }),
{
    lemma_moved_consistent(v, from, to, amount as int);
}

/// Minting grows the supply and the recipient's balance by exactly the amount
/// minted, and keeps the supply equal to the sum of the balances.
pub proof fn lemma_mint_grows_supply(v: TokenView, caller: u64, to: u64, amount: i128)
    requires
        v.consistent(),
        v.mint_outcome(caller, to, amount) is Ok,
    ensures
        ({
            let w = v.mint_outcome(caller, to, amount).unwrap();
            &&& w.consistent()
            &&& w.total_supply == v.total_supply + amount
            &&& w.balance(to) == v.balance(to) + amount
            &&& forall|a: u64| a != to ==> #[trigger] w.balance(a) == v.balance(a)
        }),
{
    lemma_two_balances_within_sum(v.balances, to, to);
    lemma_map_sum_insert(v.balances, to, (v.balance(to) + amount) as i128);
}

proof fn lemma_moved_consistent(v: TokenView, from: u64, to: u64, amount: int)
    requires
        v.consistent(),
        amount > 0,
        v.balance(from) >= amount,
    ensures
        ({
            let m = moved(v.balances, from, to, amount);
            &&& m.dom().finite()
            &&& all_non_negative(m)
            &&& map_sum(m) == v.total_supply
            &&& from != to ==> balance_in(m, from) == v.balance(from) - amount
            &&& from != to ==> balance_in(m, to) == v.balance(to) + amount
            &&& from == to ==> balance_in(m, from) == v.balance(from)
            &&& forall|a: u64| a != from && a != to ==> #[trigger] balance_in(m, a) == v.balance(a)
        }),
{
    let m = v.balances;
    lemma_two_balances_within_sum(m, from, to);
    let m1 = m.insert(from, (balance_in(m, from) - amount) as i128);
    lemma_map_sum_insert(m, from, (balance_in(m, from) - amount) as i128);
    lemma_map_sum_insert(m1, to, (balance_in(m1, to) + amount) as i128);
}

/// Reading after writing: once `set_metadata` succeeds, the entry under the key
/// holds the value written, and every other entry is as it was.
pub proof fn lemma_metadata_read_after_write(v: TokenView, caller: u64, key: Seq<char>, value: Seq<char>)
    requires
        v.set_metadata_outcome(caller, key, value) is Ok,
    ensures
        ({
            let w = v.set_metadata_outcome(caller, key, value).unwrap();
            &&& w.metadata.contains_key(key)
            &&& w.metadata[key] == value
            &&& forall|k: Seq<char>| k != key ==> #[trigger] w.metadata.contains_key(k)
                == v.metadata.contains_key(k) && (v.metadata.contains_key(k) ==> w.metadata[k]
                == v.metadata[k])
        }),
{
}

/// Taking a key off the allowlist keeps what was written under it readable,
/// but refuses any further write under that key.
pub proof fn lemma_allowlist_removal_blocks_writes(
    v: TokenView,
    caller: u64,
    key: Seq<char>,
    value: Seq<char>,
)
    requires
        v.remove_key_outcome(caller, key) is Ok,
    ensures
        ({
            let w = v.remove_key_outcome(caller, key).unwrap();
            &&& w.metadata == v.metadata
            &&& !w.allowed_keys.contains(key)
            &&& w.set_metadata_outcome(caller, key, value) == Err::<TokenView, MetadataError>(
                MetadataError::KeyNotAllowed,
            )
        }),
{
}

/// Allowlist changes take effect at once: once the admin adds a key, writes
/// under it by the admin succeed.
pub proof fn lemma_allowlisting_enables_writes(v: TokenView, caller: u64, key: Seq<char>, value: Seq<char>)
    requires
        v.add_key_outcome(caller, key) is Ok,
    ensures
        ({
            let w = v.add_key_outcome(caller, key).unwrap();
            &&& w.allowed_keys.contains(key)
            &&& w.metadata == v.metadata
            &&& w.set_metadata_outcome(caller, key, value) is Ok
        }),
{
}

/// Removing an entry that was just written leaves the other entries as they
/// were before the write.
pub proof fn lemma_metadata_remove_undoes_write(v: TokenView, caller: u64, key: Seq<char>, value: Seq<char>)
    requires
        v.set_metadata_outcome(caller, key, value) is Ok,
        !v.metadata.contains_key(key),
    ensures
        ({
            let w = v.set_metadata_outcome(caller, key, value).unwrap();
            &&& w.remove_metadata_outcome(caller, key) is Ok
            &&& w.remove_metadata_outcome(caller, key).unwrap().metadata == v.metadata
        }),
{
    let w = v.set_metadata_outcome(caller, key, value).unwrap();
    assert(w.metadata.remove(key) =~= v.metadata);
}

/// An approval sets the allowance, it does not add to it: on an initialized
/// token every non-negative approval succeeds, leaves the spender allowed
/// exactly `amount` whatever was allowed before, and changes no balance and
/// no other allowance; so of two approvals the second decides.
pub proof fn lemma_approval_replaces_allowance(
    v: TokenView,
    owner: u64,
    spender: u64,
    amount: i128,
    second: i128,
    other_owner: u64,
    other_spender: u64,
)
    ensures
        v.initialized && amount >= 0 ==> v.approve_outcome(owner, spender, amount) is Ok,
        v.approve_outcome(owner, spender, amount) matches Ok(w) ==> {
            &&& w.allowance(owner, spender) == amount
            &&& (other_owner, other_spender) != (owner, spender) ==> w.allowance(other_owner, other_spender)
                == v.allowance(other_owner, other_spender)
            &&& w.balances == v.balances
            &&& w.total_supply == v.total_supply
            &&& w.approve_outcome(owner, spender, second) matches Ok(x) ==> x.allowance(owner, spender) == second
        },
{
}

/// No operation undoes initialization or hands the token to another admin:
/// every successful operation on an initialized token leaves it initialized
/// under the same admin.
pub proof fn lemma_initialized_token_stays_initialized(
    v: TokenView,
    caller: u64,
    from: u64,
    to: u64,
    amount: i128,
    key: Seq<char>,
    value: Seq<char>,
)
    requires
        v.initialized,
    ensures
        v.transfer_outcome(from, to, amount) matches Ok(w) ==> w.initialized && w.admin == v.admin,
        v.mint_outcome(caller, to, amount) matches Ok(w) ==> w.initialized && w.admin == v.admin,
        v.approve_outcome(from, to, amount) matches Ok(w) ==> w.initialized && w.admin == v.admin,
        v.transfer_from_outcome(caller, from, to, amount) matches Ok(w) ==> w.initialized && w.admin == v.admin,
        v.add_key_outcome(caller, key) matches Ok(w) ==> w.initialized && w.admin == v.admin,
        v.remove_key_outcome(caller, key) matches Ok(w) ==> w.initialized && w.admin == v.admin,
        v.set_metadata_outcome(caller, key, value) matches Ok(w) ==> w.initialized && w.admin == v.admin,
        v.remove_metadata_outcome(caller, key) matches Ok(w) ==> w.initialized && w.admin == v.admin,
{
}

} // verus!
