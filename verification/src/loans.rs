//! The table of loans that the ledger's queries return: an insertion-ordered
//! map from a loan's hash to the borrower's address and the amount.
//!
//! The table is an `IndexMap` of an outside crate. What it holds is given a
//! name here, and its methods are reached through the functions below, whose
//! contracts are taken on trust from the crate's documentation.

use indexmap::IndexMap;
use vstd::prelude::*;

verus! {

#[verifier::external_type_specification]
#[verifier::external_body]
#[verifier::reject_recursive_types(K)]
#[verifier::reject_recursive_types(V)]
#[verifier::reject_recursive_types(S)]
pub struct ExIndexMap<K, V, S>(IndexMap<K, V, S>);

/// The entries of a loan table in their order: hash, address, amount.
pub uninterp spec fn loan_entries(loans: IndexMap<[u8; 32], (String, u64)>) -> Seq<
    (Seq<u8>, Seq<char>, u64),
>;

/// Whether some entry is filed under `hash`.
pub open spec fn holds_hash(entries: Seq<(Seq<u8>, Seq<char>, u64)>, hash: Seq<u8>) -> bool {
    exists|i: int| 0 <= i < entries.len() && (#[trigger] entries[i]).0 == hash
}

/// The place of an entry that is filed under `hash`, where there is one.
pub open spec fn place_of(entries: Seq<(Seq<u8>, Seq<char>, u64)>, hash: Seq<u8>) -> int {
    choose|i: int| 0 <= i < entries.len() && (#[trigger] entries[i]).0 == hash
}

/// The entries after a loan is filed under `hash`: a hash that is already
/// there keeps its place and takes the new address and amount; a new hash
/// goes last.
pub open spec fn recorded(
    entries: Seq<(Seq<u8>, Seq<char>, u64)>,
    hash: Seq<u8>,
    address: Seq<char>,
    amount: u64,
) -> Seq<(Seq<u8>, Seq<char>, u64)> {
    if holds_hash(entries, hash) {
        entries.update(place_of(entries, hash), (hash, address, amount))
    } else {
        entries.push((hash, address, amount))
    }
}

/// Calls `IndexMap::new`. Trusted: the new table holds nothing.
#[verifier::external_body]
pub(crate) fn empty_loans() -> (loans: IndexMap<[u8; 32], (String, u64)>)
    ensures
        loan_entries(loans) == Seq::<(Seq<u8>, Seq<char>, u64)>::empty(),
{
    IndexMap::new()
}

/// Calls `IndexMap::insert`. Trusted: a key that is present keeps its place
/// and has its value replaced; a new key is put last.
#[verifier::external_body]
pub(crate) fn record_loan(
    loans: &mut IndexMap<[u8; 32], (String, u64)>,
    hash: [u8; 32],
    address: String,
    amount: u64,
)
    ensures
        loan_entries(*final(loans)) == recorded(loan_entries(*old(loans)), hash@, address@, amount),
{
    loans.insert(hash, (address, amount));
}

/// Calls `IndexMap::len`. Trusted: the number of entries.
#[verifier::external_body]
pub(crate) fn count_loans(loans: &IndexMap<[u8; 32], (String, u64)>) -> (count: usize)
    ensures
        count == loan_entries(*loans).len(),
{
    loans.len()
}

/// Calls `IndexMap::get_index`. Trusted: the entry at `index` in the table's
/// order, and nothing beyond its end.
#[verifier::external_body]
pub(crate) fn loan_at(loans: &IndexMap<[u8; 32], (String, u64)>, index: usize) -> (entry: Option<
    ([u8; 32], &str, u64),
>)
    ensures
        match entry {
            Some((hash, address, amount)) => {
                &&& index < loan_entries(*loans).len()
                &&& loan_entries(*loans)[index as int] == (hash@, address@, amount)
            },
            None => index >= loan_entries(*loans).len(),
        },
{
    loans.get_index(index).map(|(hash, loan)| (*hash, loan.0.as_str(), loan.1))
}

} // verus!
