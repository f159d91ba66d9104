//! Receipt tokens: each token id belongs to one owner at a time.

use vstd::prelude::*;
use crate::types::{Address, Bytes32};
use crate::table::{
    Keyed, has_key, position, distinct_keys, find, keyed, store_keyed, lemma_with_keyed,
    keys_are_distinct,
};

verus! {

/// A token with its owner.
#[derive(Clone, Copy, Debug, PartialEq, Eq, Structural)]
pub struct TokenOwner {
    pub token_id: Bytes32,
    pub owner: Address,
}

/// The key under which a token is kept: its id, read as the key of an account.
pub open spec fn token_key(token_id: Bytes32) -> Address {
    Address { contract: false, hi: token_id.hi, lo: token_id.lo }
}

impl Keyed for TokenOwner {
    open spec fn key(&self) -> Address {
        token_key(self.token_id)
    }

    fn key_of(&self) -> (k: Address) {
        Address { contract: false, hi: self.token_id.hi, lo: self.token_id.lo }
    }
}

/// The receipt tokens.
pub struct ReceiptNft {
    /// The tokens, one record per id.
    pub owners: Vec<TokenOwner>,
}

impl View for ReceiptNft {
    type V = Map<Bytes32, Address>;

    open spec fn view(&self) -> Map<Bytes32, Address> {
        Map::new(
            |token_id: Bytes32| has_key(self.owners@, token_key(token_id)),
            |token_id: Bytes32| self.owners@[position(self.owners@, token_key(token_id))].owner,
        )
    }
}

impl ReceiptNft {
    /// Whether the tokens are in order: each id is kept once.
    pub open spec fn wf(&self) -> bool {
        distinct_keys(self.owners@)
    }

    /// Checks whether the tokens are in order, as they must be where they
    /// were put together from their parts.
    pub fn validate(&self) -> (ok: bool)
        ensures
            ok == self.wf(),
    {
        keys_are_distinct(&self.owners)
    }

    /// No tokens.
    pub fn new() -> (tokens: Self)
        ensures
            tokens.wf(),
            tokens@ == Map::<Bytes32, Address>::empty(),
    {
        let tokens = ReceiptNft { owners: Vec::new() };
        assert(tokens@ =~= Map::<Bytes32, Address>::empty());
        tokens
    }

    /// Makes `owner` the owner of `token_id`.
    fn assign(&mut self, owner: Address, token_id: Bytes32)
        requires
            old(self).wf(),
        ensures
            final(self).wf(),
            final(self)@ == old(self)@.insert(token_id, owner),
    {
        let row = TokenOwner { token_id, owner };
        proof {
            lemma_with_keyed(self.owners@, row);
        }
        store_keyed(&mut self.owners, row);
        proof {
            let after = self.owners@;
            let before = old(self).owners@;
            assert forall|id: Bytes32| self@.dom().contains(id) == old(self)@.insert(
                token_id,
                owner,
            ).dom().contains(id) by {
                if id != token_id {
                    assert(token_key(id) != token_key(token_id));
                    assert(keyed(after, token_key(id)) == keyed(before, token_key(id)));
                } else {
                    assert(keyed(after, token_key(id)) == Some(row));
                }
            }
            assert forall|id: Bytes32| self@.dom().contains(id) implies self@[id] == old(
                self,
            )@.insert(token_id, owner)[id] by {
                if id != token_id {
                    assert(token_key(id) != token_key(token_id));
                    assert(keyed(after, token_key(id)) == keyed(before, token_key(id)));
                } else {
                    assert(keyed(after, token_key(id)) == Some(row));
                }
            }
            assert(self@ =~= old(self)@.insert(token_id, owner));
        }
    }

    /// Gives the token `token_id` to `owner`, whether it is new or not.
    pub fn mint(&mut self, owner: Address, token_id: Bytes32)
        requires
            old(self).wf(),
        ensures
            final(self).wf(),
            final(self)@ == old(self)@.insert(token_id, owner),
    {
        self.assign(owner, token_id);
    }

    /// The owner of a token that exists.
    pub fn owner_of(&self, token_id: Bytes32) -> (owner: Address)
        requires
            self.wf(),
            self@.dom().contains(token_id),
        ensures
            owner == self@[token_id],
    {
        let key = Address { contract: false, hi: token_id.hi, lo: token_id.lo };
        let at = find(&self.owners, key).unwrap();
        self.owners[at].owner
    }

    /// Whether the token `token_id` exists.
    pub fn is_minted(&self, token_id: Bytes32) -> (yes: bool)
        requires
            self.wf(),
        ensures
            yes == self@.dom().contains(token_id),
    {
        let key = Address { contract: false, hi: token_id.hi, lo: token_id.lo };
        find(&self.owners, key).is_some()
    }

    /// Gives the token `token_id` to `to`.
    pub fn transfer(&mut self, to: Address, token_id: Bytes32)
        requires
            old(self).wf(),
        ensures
            final(self).wf(),
            final(self)@ == old(self)@.insert(token_id, to),
    {
        self.assign(to, token_id);
    }
}

} // verus!
