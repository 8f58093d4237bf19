//! The registry: an id counter and two insert-only tables, one from id to
//! owner and one from id to token. Ids are dense from zero, so each table is
//! a vector indexed by id.
//!
//! The tables live in memory, not in a host's key-value store: a store's
//! entries live in storage shared by every map under the same prefix, so they
//! are no function of the registry's own value. Persisting the registry
//! between calls is left to the caller, through `tokens` and `from_tokens`.
use crate::token::{sentinel, Token, TokenRecordView};
use vstd::prelude::*;

verus! {

/// The arguments of one mint call: owner, name, description, media URI, level.
pub type MintArgs = (Seq<char>, Seq<char>, Seq<char>, Seq<char>, u128);

/// The record that a mint call with arguments `a` creates under id `id`.
pub open spec fn record_for(id: int, a: MintArgs) -> TokenRecordView {
    (id as u128, a.0, a.1, a.2, a.3, a.4)
}

/// The tokens after one more mint call: the new token takes the next id.
pub open spec fn after_mint(tokens: Seq<TokenRecordView>, a: MintArgs) -> Seq<TokenRecordView> {
    tokens.push(record_for(tokens.len() as int, a))
}

/// The tokens after a sequence of mint calls, made in order.
pub open spec fn after_mints(tokens: Seq<TokenRecordView>, calls: Seq<MintArgs>) -> Seq<TokenRecordView>
    decreases calls.len(),
{
    if calls.len() == 0 {
        tokens
    } else {
        after_mint(after_mints(tokens, calls.drop_last()), calls.last())
    }
}

/// The token registry.
pub struct NFTContract {
    owner_by_id: Vec<String>,
    token_id: u128,
    token_by_id: Vec<Token>,
}

/// The views of a sequence of tokens.
pub open spec fn views_of(tokens: Seq<Token>) -> Seq<TokenRecordView> {
    Seq::new(tokens.len(), |i: int| tokens[i]@)
}

/// Whether token `i` of the sequence carries id `i`, for every `i`.
pub open spec fn ids_match_positions(tokens: Seq<Token>) -> bool {
    forall|i: int| 0 <= i < tokens.len() ==> (#[trigger] tokens[i]).token_id == i
}

impl NFTContract {
    /// The tokens minted so far, in the order they were minted.
    pub closed spec fn minted(&self) -> Seq<TokenRecordView> {
        views_of(self.token_by_id@)
    }

    /// The counter equals the number of tokens; each token carries its own
    /// position as id, and the owner table agrees with the token table.
    pub closed spec fn well_formed(&self) -> bool {
        &&& self.token_id == self.token_by_id@.len()
        &&& self.owner_by_id@.len() == self.token_by_id@.len()
        &&& ids_match_positions(self.token_by_id@)
        &&& forall|i: int|
            0 <= i < self.token_by_id@.len() ==> (#[trigger] self.owner_by_id@[i])@
                == self.token_by_id@[i].owner_id@
    }

    /// Mints a token for `token_owner_id` under the next id, and returns it.
    pub fn mint(
        &mut self,
        token_owner_id: String,
        name: String,
        description: String,
        media_uri: String,
        level: u128,
    ) -> (r: Token)
        requires
            old(self).well_formed(),
            old(self).minted().len() < u128::MAX,
        ensures
            final(self).well_formed(),
            r@ == record_for(
                old(self).minted().len() as int,
                (token_owner_id@, name@, description@, media_uri@, level),
            ),
            final(self).minted() == after_mint(
                old(self).minted(),
                (token_owner_id@, name@, description@, media_uri@, level),
            ),
    {
        let id = self.token_id;
        self.owner_by_id.push(token_owner_id.clone());
        let token = Token {
            token_id: id,
            owner_id: token_owner_id,
            name,
            description,
            media_uri,
            level,
        };
        self.token_by_id.push(token.copy());
        self.token_id = id + 1;
        proof {
            assert(self.minted() =~= old(self).minted().push(token@));
        }
        token
    }

    /// The number of tokens minted so far.
    pub fn get_total_minted(&self) -> (r: u128)
        requires
            self.well_formed(),
        ensures
            r == self.minted().len(),
    {
        self.token_id
    }

    /// The token with id `token_id` as seen by the reader `caller_id`: the
    /// stored token where it was minted, else the sentinel for that reader.
    pub fn get_token_by_id(&self, token_id: u128, caller_id: String) -> (r: Token)
        requires
            self.well_formed(),
        ensures
            token_id < self.minted().len() ==> r@ == self.minted()[token_id as int],
            token_id >= self.minted().len() ==> r@ == sentinel(caller_id@),
    {
        let n: usize = self.token_by_id.len();
        if token_id < n as u128 {
            let index: usize = token_id as usize;
            self.token_by_id[index].copy()
        } else {
            Token::not_found(caller_id)
        }
    }

    /// The stored tokens, in id order: the state to persist between calls.
    pub fn tokens(&self) -> (r: &Vec<Token>)
        requires
            self.well_formed(),
        ensures
            views_of(r@) == self.minted(),
            ids_match_positions(r@),
    {
        &self.token_by_id
    }

    /// Rebuilds a registry from persisted tokens. It succeeds exactly when
    /// the token at each position carries that position as id.
    pub fn from_tokens(tokens: Vec<Token>) -> (r: Option<NFTContract>)
        ensures
            r.is_some() <==> ids_match_positions(tokens@),
            r matches Some(c) ==> c.well_formed() && c.minted() == views_of(tokens@),
    {
        let mut owners: Vec<String> = Vec::new();
        let mut i: usize = 0;
        while i < tokens.len()
            invariant
                i <= tokens@.len(),
                owners@.len() == i,
                forall|j: int| 0 <= j < i ==> (#[trigger] tokens@[j]).token_id == j,
                forall|j: int| 0 <= j < i ==> (#[trigger] owners@[j])@ == tokens@[j].owner_id@,
            decreases tokens@.len() - i,
        {
            if tokens[i].token_id != i as u128 {
                return None;
            }
            owners.push(tokens[i].owner_id.clone());
            i = i + 1;
        }
        let count = tokens.len() as u128;
        let r = NFTContract { owner_by_id: owners, token_id: count, token_by_id: tokens };
        Some(r)
    }
}

impl Default for NFTContract {
    /// An empty registry whose counter starts at zero.
    fn default() -> (r: Self)
        ensures
            r.well_formed(),
            r.minted() == Seq::<TokenRecordView>::empty(),
    {
        let r = NFTContract { owner_by_id: Vec::new(), token_id: 0, token_by_id: Vec::new() };
        proof {
            assert(r.minted() =~= Seq::<TokenRecordView>::empty());
        }
        r
    }
}

/// After `n` mint calls on an empty registry, exactly `n` tokens have been minted.
pub proof fn lemma_mints_count(calls: Seq<MintArgs>)
    ensures
        after_mints(Seq::empty(), calls).len() == calls.len(),
    decreases calls.len(),
{
    if calls.len() > 0 {
        lemma_mints_count(calls.drop_last());
    }
}

/// After a sequence of mint calls on an empty registry, the token with id `i`
/// holds exactly the arguments of the `i`-th call.
pub proof fn lemma_mints_records(calls: Seq<MintArgs>)
    ensures
        forall|i: int|
            0 <= i < calls.len() ==> #[trigger] after_mints(Seq::empty(), calls)[i] == record_for(
                i,
                calls[i],
            ),
    decreases calls.len(),
{
    lemma_mints_count(calls);
    if calls.len() > 0 {
        let prefix = calls.drop_last();
        lemma_mints_records(prefix);
        lemma_mints_count(prefix);
        assert forall|i: int| 0 <= i < calls.len() implies #[trigger] after_mints(
            Seq::empty(),
            calls,
        )[i] == record_for(i, calls[i]) by {
            if i < calls.len() - 1 {
                assert(prefix[i] == calls[i]);
            }
        }
    }
}

/// Ids are dense and start at zero: the `k`-th mint call on an empty registry
/// receives id `k`, whatever its arguments.
pub proof fn lemma_ids_dense(calls: Seq<MintArgs>)
    requires
        calls.len() <= u128::MAX,
    ensures
        forall|k: int|
            0 <= k < calls.len() ==> (#[trigger] after_mints(Seq::empty(), calls)[k]).0 == k,
{
    lemma_mints_records(calls);
}

/// Minting is not idempotent: two mint calls with the same arguments create two
/// tokens with different ids.
pub proof fn lemma_mint_not_idempotent(tokens: Seq<TokenRecordView>, a: MintArgs)
    requires
        tokens.len() + 1 < u128::MAX,
    ensures
        ({
            let twice = after_mint(after_mint(tokens, a), a);
            &&& twice.len() == tokens.len() + 2
            &&& twice[tokens.len() as int].0 != twice[tokens.len() + 1int].0
        }),
{
}

} // verus!
