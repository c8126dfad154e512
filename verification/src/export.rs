//! The summary of the accounts, as rows of text.

use crate::data::{Account, AccountState};
use crate::text::{amount_text, difference_text, digits_of, flag_text, unsigned_text};
use std::collections::HashMap;
use vstd::prelude::*;
use vstd::std_specs::hash::axiom_spec_hash_map_iter;
use vstd::std_specs::iter::IteratorSpec;

verus! {

broadcast use vstd::std_specs::hash::group_hash_axioms;

/// The row that the summary has for an account: its identifier, its
/// available funds, its held funds, its balance, and whether it is locked.
pub open spec fn row_text(account: AccountState) -> Seq<Seq<char>> {
    seq![
        digits_of(account.account_id as nat),
        amount_text(account.available()),
        amount_text(account.held),
        amount_text(account.balance),
        flag_text(account.locked),
    ]
}

/// The texts of the fields of a row.
pub open spec fn texts(row: Seq<String>) -> Seq<Seq<char>> {
    row.map_values(|field: String| field@)
}

/// The texts of the names of a header.
pub open spec fn names(header: Seq<&str>) -> Seq<Seq<char>> {
    header.map_values(|name: &str| name@)
}

/// Whether `rows` are the rows of the accounts of `accounts`, each account
/// once, in the order `order` of their identifiers.
pub open spec fn rows_in_order(
    rows: Seq<Vec<String>>,
    accounts: Map<u16, Account>,
    order: Seq<u16>,
) -> bool {
    &&& order.no_duplicates()
    &&& order.to_set() == accounts.dom()
    &&& rows.len() == order.len()
    &&& forall|i: int|
        0 <= i < order.len() ==> texts((#[trigger] rows[i])@) == row_text(accounts[order[i]]@)
}

/// The row of the summary for `account`.
pub fn account_row(account: &Account) -> (row: Vec<String>)
    ensures
        texts(row@) == row_text(account@),
{
    let mut row: Vec<String> = Vec::new();
    row.push(unsigned_text(account.identifier() as u64));
    row.push(difference_text(account.balance(), account.held()));
    row.push(account.held().to_text());
    row.push(account.balance().to_text());
    if account.locked() {
        row.push("true".to_owned());
    } else {
        row.push("false".to_owned());
    }
    row
}

/// CSV export.
pub struct CsvExportContext<'a> {
    header: Vec<&'a str>,
}

impl<'a> View for CsvExportContext<'a> {
    type V = Seq<Seq<char>>;

    /// The names of the columns.
    closed spec fn view(&self) -> Seq<Seq<char>> {
        names(self.header@)
    }
}

impl<'a> CsvExportContext<'a> {
    pub fn new(header: Vec<&'a str>) -> (context: CsvExportContext<'a>)
        ensures
            context@ == names(header@),
    {
        CsvExportContext { header }
    }

    /// The names of the columns, which the summary starts with.
    pub fn header(&self) -> (header: &Vec<&'a str>)
        ensures
            names(header@) == self@,
    {
        &self.header
    }

    /// The rows of the summary, one for each account, in the order in which
    /// the map hands its accounts out.
    pub fn rows(&self, accounts: &HashMap<u16, Account>) -> (rows: Vec<Vec<String>>)
        ensures
            exists|order: Seq<u16>| rows_in_order(rows@, accounts@, order),
    {
        let mut rows: Vec<Vec<String>> = Vec::new();
        let entries = accounts.iter();
        let ghost pairs = entries.remaining();
        proof {
            axiom_spec_hash_map_iter(accounts);
        }
        for entry in iter: entries
            invariant
                iter.seq() == pairs,
                rows@.len() == iter.index(),
                forall|i: int|
                    0 <= i < iter.index() ==> texts((#[trigger] rows@[i])@) == row_text(
                        (*pairs[i].1)@,
                    ),
        {
            let (_, account) = entry;
            rows.push(account_row(account));
        }
        let ghost order = Seq::new(pairs.len(), |i: int| *pairs[i].0);
        proof {
            assert forall|i: int, j: int|
                0 <= i < order.len() && 0 <= j < order.len() && i != j implies order[i]
                != order[j] by {
                // entries of one identifier are one entry
                if order[i] == order[j] {
                    assert(*pairs[j].1 == accounts@[order[j]]);
                }
            }
            assert forall|account_id: u16|
                accounts@.contains_key(account_id) implies order.contains(account_id) by {
                let found = (&account_id, &accounts@[account_id]);
                let at = choose|i: int| 0 <= i < pairs.len() && pairs[i] == found;
                assert(order[at] == account_id);
            }
            assert(order.to_set() =~= accounts@.dom());
        }
        assert(rows_in_order(rows@, accounts@, order));
        rows
    }
}

} // verus!
