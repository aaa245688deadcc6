use vstd::prelude::*;
use crate::amount::{u256_limit, TokenAmount};
use crate::error::Error;
use crate::key::{bytes_eq, Key};
use crate::vec_map::{
    distinct_keys, entries_insert, has_key, key_index, lemma_entries_insert, lemma_key_index,
    VecMap,
};

verus! {

/// The identifier of a native token.
#[derive(Copy, Clone, Debug, PartialEq, Eq, Hash)]
pub struct TokenId(pub [u8; 38]);

impl Key for TokenId {
    fn key_eq(&self, other: &Self) -> (same: bool) {
        bytes_eq(&self.0, &other.0)
    }
}

/// The identifier of a foundry. The foundry of a token carries the token's
/// identifier.
#[derive(Copy, Clone, Debug, PartialEq, Eq, Hash)]
pub struct FoundryId(pub [u8; 38]);

impl Key for FoundryId {
    fn key_eq(&self, other: &Self) -> (same: bool) {
        bytes_eq(&self.0, &other.0)
    }
}

impl FoundryId {
    /// The foundry that controls the supply of `token_id`.
    pub fn from_token_id(token_id: TokenId) -> (id: FoundryId)
        ensures
            id == FoundryId(token_id.0),
    {
        FoundryId(token_id.0)
    }
}

/// An amount of one native token.
#[derive(Copy, Clone, Debug, PartialEq, Eq, Hash)]
pub struct NativeToken {
    pub token_id: TokenId,
    pub amount: TokenAmount,
}

impl NativeToken {
    /// An amount of the token `token_id`.
    pub fn new(token_id: TokenId, amount: TokenAmount) -> (token: Self)
        ensures
            token == (NativeToken { token_id, amount }),
    {
        NativeToken { token_id, amount }
    }

    /// The token that the amount is of.
    pub fn token_id(&self) -> (id: TokenId)
        ensures
            id == self.token_id,
    {
        self.token_id
    }

    /// The amount.
    pub fn amount(&self) -> (amount: TokenAmount)
        ensures
            amount == self.amount,
    {
        self.amount
    }
}

/// The running total of `id`: zero for a token that was never added.
pub open spec fn token_total(totals: Seq<(TokenId, nat)>, id: TokenId) -> nat {
    if has_key(totals, id) {
        totals[key_index(totals, id)].1
    } else {
        0
    }
}

/// The totals after `amount` of `id` was added: the token keeps its place, a
/// new token goes to the end.
pub open spec fn totals_add(totals: Seq<(TokenId, nat)>, id: TokenId, amount: nat) -> Seq<
    (TokenId, nat),
> {
    entries_insert(totals, id, token_total(totals, id) + amount)
}

/// Whether adding `amount` of `id` would leave the 256-bit range.
pub open spec fn add_overflows(totals: Seq<(TokenId, nat)>, id: TokenId, amount: nat) -> bool {
    token_total(totals, id) + amount >= u256_limit()
}

/// Adds `tokens` one after the other and stops before the first that would
/// overflow. Gives the totals reached and whether all were added.
pub open spec fn totals_add_all(totals: Seq<(TokenId, nat)>, tokens: Seq<NativeToken>) -> (
    Seq<(TokenId, nat)>,
    bool,
)
    decreases tokens.len(),
{
    if tokens.len() == 0 {
        (totals, true)
    } else if add_overflows(totals, tokens[0].token_id, tokens[0].amount@) {
        (totals, false)
    } else {
        totals_add_all(
            totals_add(totals, tokens[0].token_id, tokens[0].amount@),
            tokens.skip(1),
        )
    }
}

/// Whether every total is below the limit of 256 bits.
pub open spec fn totals_bounded(totals: Seq<(TokenId, nat)>) -> bool {
    forall|i: int| 0 <= i < totals.len() ==> (#[trigger] totals[i]).1 < u256_limit()
}

/// The totals as numbers.
pub open spec fn amounts_view(entries: Seq<(TokenId, TokenAmount)>) -> Seq<(TokenId, nat)> {
    entries.map_values(|e: (TokenId, TokenAmount)| (e.0, e.1@))
}

/// Taking the amounts as numbers keeps keys, places and distinctness.
pub proof fn lemma_amounts_view(entries: Seq<(TokenId, TokenAmount)>)
    requires
        distinct_keys(entries),
    ensures
        distinct_keys(amounts_view(entries)),
        totals_bounded(amounts_view(entries)),
        forall|k: TokenId| has_key(amounts_view(entries), k) <==> has_key(entries, k),
        forall|k: TokenId|
            has_key(entries, k) ==> key_index(amounts_view(entries), k) == key_index(entries, k),
{
    let view = amounts_view(entries);
    assert forall|i: int, j: int| 0 <= i < j < view.len() implies view[i].0 != view[j].0 by {
        assert(view[i].0 == entries[i].0);
        assert(view[j].0 == entries[j].0);
    }
    assert forall|i: int| 0 <= i < view.len() implies (#[trigger] view[i]).1 < u256_limit() by {
        entries[i].1.lemma_bounded();
    }
    assert forall|k: TokenId| has_key(view, k) <==> has_key(entries, k) by {
        if has_key(view, k) {
            let i = key_index(view, k);
            assert(entries[i].0 == k);
        }
        if has_key(entries, k) {
            let i = key_index(entries, k);
            assert(view[i].0 == k);
        }
    }
    assert forall|k: TokenId| has_key(entries, k) implies key_index(view, k) == key_index(
        entries,
        k,
    ) by {
        let i = key_index(entries, k);
        assert(view[i].0 == k);
        lemma_key_index(view, i);
    }
}

/// Adding twice to one token adds both amounts to its total, and leaves every
/// other token's total as it was.
pub proof fn lemma_add_twice(totals: Seq<(TokenId, nat)>, id: TokenId, first: nat, second: nat)
    requires
        distinct_keys(totals),
    ensures
        token_total(totals_add(totals_add(totals, id, first), id, second), id) == token_total(
            totals,
            id,
        ) + first + second,
        forall|other: TokenId|
            other != id ==> token_total(
                totals_add(totals_add(totals, id, first), id, second),
                other,
            ) == token_total(totals, other),
{
    lemma_totals_add(totals, id, first);
    lemma_totals_add(totals_add(totals, id, first), id, second);
}

/// Adding to a token raises its total by the amount, and leaves every other
/// token's total as it was.
pub proof fn lemma_totals_add(totals: Seq<(TokenId, nat)>, id: TokenId, amount: nat)
    requires
        distinct_keys(totals),
    ensures
        distinct_keys(totals_add(totals, id, amount)),
        has_key(totals_add(totals, id, amount), id),
        token_total(totals_add(totals, id, amount), id) == token_total(totals, id) + amount,
        forall|other: TokenId|
            other != id ==> token_total(totals_add(totals, id, amount), other) == token_total(
                totals,
                other,
            ),
        forall|other: TokenId|
            other != id ==> (has_key(totals_add(totals, id, amount), other) <==> has_key(
                totals,
                other,
            )),
{
    let sum = token_total(totals, id) + amount;
    let after = totals_add(totals, id, amount);
    lemma_entries_insert(totals, id, sum);
    let before_map = crate::vec_map::entries_map(totals);
    let after_map = crate::vec_map::entries_map(after);
    assert(after_map == before_map.insert(id, sum));
    assert(after_map.contains_key(id));
    assert(has_key(after, id));
    assert(after_map[id] == sum);
    assert forall|other: TokenId| other != id implies token_total(after, other) == token_total(
        totals,
        other,
    ) && (has_key(after, other) <==> has_key(totals, other)) by {
        assert(after_map.contains_key(other) <==> before_map.contains_key(other));
        if has_key(totals, other) {
            assert(after_map[other] == before_map[other]);
        }
    }
}

/// How much of the token `id` a list of native tokens holds.
pub open spec fn token_amount_in(tokens: Seq<NativeToken>, id: TokenId) -> nat
    decreases tokens.len(),
{
    if tokens.len() == 0 {
        0
    } else {
        (if tokens[0].token_id == id {
            tokens[0].amount@
        } else {
            0
        }) + token_amount_in(tokens.skip(1), id)
    }
}

/// Whether `later` lists the tokens of `earlier` in the same places, and
/// possibly more behind them.
pub open spec fn keeps_places(earlier: Seq<(TokenId, nat)>, later: Seq<(TokenId, nat)>) -> bool {
    &&& earlier.len() <= later.len()
    &&& forall|i: int| 0 <= i < earlier.len() ==> (#[trigger] later[i]).0 == earlier[i].0
}

/// Adding an amount that fits keeps every total within 256 bits and every
/// token in its place.
pub proof fn lemma_totals_add_bounded(totals: Seq<(TokenId, nat)>, id: TokenId, amount: nat)
    requires
        distinct_keys(totals),
        totals_bounded(totals),
        !add_overflows(totals, id, amount),
    ensures
        totals_bounded(totals_add(totals, id, amount)),
        keeps_places(totals, totals_add(totals, id, amount)),
{
    let after = totals_add(totals, id, amount);
    assert forall|i: int| 0 <= i < after.len() implies (#[trigger] after[i]).1 < u256_limit() by {
        if i < totals.len() && !(has_key(totals, id) && i == key_index(totals, id)) {
            assert(after[i] == totals[i]);
        }
    }
    assert forall|i: int| 0 <= i < totals.len() implies (#[trigger] after[i]).0 == totals[i].0 by {
        if has_key(totals, id) && i == key_index(totals, id) {
            assert(totals[i].0 == id);
        }
    }
}

/// What adding a list of native tokens comes to, token by token.
///
/// All are added exactly when, for every token, the total with what the list
/// holds of it fits in 256 bits. Each total is then raised by what the list
/// holds of its token; the tokens that were there keep their places.
pub proof fn lemma_totals_add_all(totals: Seq<(TokenId, nat)>, tokens: Seq<NativeToken>)
    requires
        distinct_keys(totals),
        totals_bounded(totals),
    ensures
        distinct_keys(totals_add_all(totals, tokens).0),
        totals_bounded(totals_add_all(totals, tokens).0),
        keeps_places(totals, totals_add_all(totals, tokens).0),
        totals_add_all(totals, tokens).1 <==> (forall|id: TokenId|
            token_total(totals, id) + #[trigger] token_amount_in(tokens, id) < u256_limit()),
        totals_add_all(totals, tokens).1 ==> (forall|id: TokenId|
            #[trigger] token_total(totals_add_all(totals, tokens).0, id) == token_total(totals, id)
                + token_amount_in(tokens, id)),
    decreases tokens.len(),
{
    if tokens.len() == 0 {
        assert forall|id: TokenId| token_total(totals, id) + #[trigger] token_amount_in(
            tokens,
            id,
        ) < u256_limit() by {
            if has_key(totals, id) {
                let i = key_index(totals, id);
                assert(totals[i].1 < u256_limit());
            }
        }
    } else {
        let first = tokens[0];
        let rest = tokens.skip(1);
        if add_overflows(totals, first.token_id, first.amount@) {
            assert(token_total(totals, first.token_id) + token_amount_in(tokens, first.token_id)
                >= u256_limit());
        } else {
            let next = totals_add(totals, first.token_id, first.amount@);
            lemma_totals_add(totals, first.token_id, first.amount@);
            lemma_totals_add_bounded(totals, first.token_id, first.amount@);
            lemma_totals_add_all(next, rest);
            let done = totals_add_all(next, rest);
            assert(done == totals_add_all(totals, tokens));
            assert forall|id: TokenId|
                token_total(next, id) + token_amount_in(rest, id) == token_total(totals, id)
                    + #[trigger] token_amount_in(tokens, id) by {}
            if done.1 {
                assert forall|id: TokenId|
                    token_total(totals, id) + #[trigger] token_amount_in(tokens, id)
                        < u256_limit() by {
                    assert(token_total(next, id) + token_amount_in(rest, id) < u256_limit());
                }
                assert forall|id: TokenId| #[trigger]
                    token_total(done.0, id) == token_total(totals, id) + token_amount_in(
                        tokens,
                        id,
                    ) by {
                    assert(token_total(done.0, id) == token_total(next, id) + token_amount_in(
                        rest,
                        id,
                    ));
                }
            } else {
                let witness = choose|id: TokenId|
                    !(token_total(next, id) + #[trigger] token_amount_in(rest, id) < u256_limit());
                assert(!(token_total(totals, witness) + token_amount_in(tokens, witness)
                    < u256_limit()));
            }
            assert forall|i: int| 0 <= i < totals.len() implies (#[trigger] done.0[i]).0
                == totals[i].0 by {
                assert(next[i].0 == totals[i].0);
            }
        }
    }
}

/// Collects amounts of native tokens, token by token, and refuses an amount
/// that would take a token's total out of the 256-bit range.
#[derive(Debug)]
pub struct NativeTokensBuilder {
    totals: VecMap<TokenId, TokenAmount>,
}

impl NativeTokensBuilder {
    /// The tokens added so far with their totals, in the order in which each
    /// token was first added.
    pub closed spec fn view(&self) -> Seq<(TokenId, nat)> {
        amounts_view(self.totals.entries())
    }

    /// A builder that holds nothing.
    pub fn new() -> (builder: Self)
        ensures
            builder@ == Seq::<(TokenId, nat)>::empty(),
    {
        let builder = NativeTokensBuilder { totals: VecMap::new() };
        assert(builder@ =~= Seq::<(TokenId, nat)>::empty());
        builder
    }

    /// The number of tokens added so far. No token is listed twice and every
    /// total fits in 256 bits.
    pub fn len(&self) -> (n: usize)
        ensures
            n == self@.len(),
            distinct_keys(self@),
            totals_bounded(self@),
    {
        let n: usize = self.totals.len();
        proof {
            lemma_amounts_view(self.totals.entries());
        }
        n
    }

    /// The total of `id`, where the token was added.
    pub fn total_of(&self, id: &TokenId) -> (total: Option<TokenAmount>)
        ensures
            total is Some <==> has_key(self@, *id),
            total is Some ==> total->Some_0@ == token_total(self@, *id),
            total is None ==> token_total(self@, *id) == 0,
    {
        let at = self.totals.position(id);
        proof {
            lemma_amounts_view(self.totals.entries());
        }
        match at {
            Some(i) => Some(self.totals.entry(i).1),
            None => None,
        }
    }

    /// Adds the amount of `token` to the total of its token.
    ///
    /// Fails, and changes nothing, where the total would leave the 256-bit range.
    pub fn add_native_token(&mut self, token: NativeToken) -> (r: Result<(), Error>)
        ensures
            add_overflows(old(self)@, token.token_id, token.amount@) ==> r == Err::<(), Error>(
                Error::NativeTokensOverflow,
            ) && final(self)@ == old(self)@,
            !add_overflows(old(self)@, token.token_id, token.amount@) ==> r is Ok && final(self)@
                == totals_add(old(self)@, token.token_id, token.amount@),
    {
        let current = match self.totals.position(&token.token_id) {
            Some(i) => self.totals.entry(i).1,
            None => TokenAmount::zero(),
        };
        proof {
            lemma_amounts_view(self.totals.entries());
        }
        match current.checked_add(token.amount) {
            Some(sum) => {
                proof {
                    let entries = self.totals.entries();
                    lemma_entries_insert(entries, token.token_id, sum);
                    lemma_amounts_view(entries_insert(entries, token.token_id, sum));
                    assert(amounts_view(entries_insert(entries, token.token_id, sum)) =~= totals_add(
                        amounts_view(entries),
                        token.token_id,
                        token.amount@,
                    ));
                }
                self.totals.insert(token.token_id, sum);
                Ok(())
            },
            None => Err(Error::NativeTokensOverflow),
        }
    }

    /// Adds the amounts of `tokens` one after the other.
    ///
    /// Stops at the first amount that would take a total out of the 256-bit
    /// range: the amounts before it stay added.
    pub fn add_native_tokens(&mut self, tokens: &Vec<NativeToken>) -> (r: Result<(), Error>)
        ensures
            final(self)@ == totals_add_all(old(self)@, tokens@).0,
            r is Ok <==> totals_add_all(old(self)@, tokens@).1,
            r is Err ==> r == Err::<(), Error>(Error::NativeTokensOverflow),
    {
        let mut i: usize = 0;
        assert(tokens@.skip(0) =~= tokens@);
        while i < tokens.len()
            invariant
                i <= tokens.len(),
                totals_add_all(old(self)@, tokens@) == totals_add_all(self@, tokens@.skip(i as int)),
            decreases tokens.len() - i,
        {
            let token = tokens[i];
            proof {
                assert(tokens@.skip(i as int)[0] == token);
                assert(tokens@.skip(i as int).skip(1) =~= tokens@.skip(i + 1));
            }
            match self.add_native_token(token) {
                Ok(()) => {},
                Err(e) => {
                    return Err(e);
                },
            }
            i += 1;
        }
        Ok(())
    }

    /// Hands out the totals as native tokens, in the order in which each
    /// token was first added. No token comes out twice.
    pub fn finish_set(self) -> (tokens: Vec<NativeToken>)
        ensures
            distinct_keys(self@),
            tokens@.len() == self@.len(),
            forall|i: int|
                0 <= i < tokens@.len() ==> (#[trigger] tokens@[i]).token_id == self@[i].0
                    && tokens@[i].amount@ == self@[i].1,
    {
        let n: usize = self.len();
        let mut tokens: Vec<NativeToken> = Vec::new();
        let mut i: usize = 0;
        while i < n
            invariant
                i <= n,
                n == self.totals.entries().len(),
                tokens@.len() == i,
                forall|k: int|
                    0 <= k < i ==> (#[trigger] tokens@[k]).token_id == self@[k].0
                        && tokens@[k].amount@ == self@[k].1,
            decreases n - i,
        {
            let entry = self.totals.entry(i);
            tokens.push(NativeToken::new(entry.0, entry.1));
            i += 1;
        }
        tokens
    }
}

} // verus!
