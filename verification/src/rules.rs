//! The rules of the ledger, as mathematics: what one transaction does to
//! the accounts, which record a dispute refers to, and what a whole batch
//! leaves behind.

use crate::data::{fits_amount, AccountState, TransactionType, TransactionView};
use vstd::prelude::*;

verus! {

/// How the engine dealt with one transaction.
#[derive(Clone, Copy, Debug, PartialEq, Eq, Structural)]
pub enum Outcome {
    /// The rule of the transaction's kind was applied to the account.
    Applied,
    /// The kind is unknown; the transaction was skipped.
    UnknownKind,
    /// A dispute, resolve or chargeback whose referenced transaction was
    /// not found; nothing was done.
    MissingParent,
    /// A dispute, resolve or chargeback of a transaction that is no
    /// withdrawal; nothing was done.
    ParentNotWithdrawal,
}

/// Disputes, resolves and chargebacks: the kinds that refer to an earlier
/// transaction.
pub open spec fn is_dispute_class(kind: TransactionType) -> bool {
    kind == TransactionType::Dispute || kind == TransactionType::Resolve || kind
        == TransactionType::Chargeback
}

/// Deposits and withdrawals: the kinds that a dispute can refer to.
pub open spec fn is_real(kind: TransactionType) -> bool {
    kind == TransactionType::Deposit || kind == TransactionType::Withdrawal
}

/// The amount of a record in ten-thousandths, rounded to four fractional
/// digits.
pub open spec fn rounded_amount(transaction: TransactionView) -> int
    recommends
        transaction.amount is Some,
{
    transaction.amount.unwrap().rounded_units()
}

/// Whether `parent` is a withdrawal: the one case in which a dispute,
/// resolve or chargeback acts.
pub open spec fn acts_on(parent: Option<TransactionView>) -> bool {
    parent is Some && parent.unwrap().kind == TransactionType::Withdrawal
}

/// The account after `transaction`, whose referenced transaction is `parent`.
pub open spec fn effect(
    state: AccountState,
    transaction: TransactionView,
    parent: Option<TransactionView>,
) -> AccountState {
    match transaction.kind {
        TransactionType::Unknown => state,
        TransactionType::Deposit => AccountState {
            balance: state.balance + rounded_amount(transaction),
            ..state
        },
        TransactionType::Withdrawal => AccountState {
            balance: state.balance - rounded_amount(transaction),
            ..state
        },
        TransactionType::Dispute => if acts_on(parent) {
            AccountState { held: state.held + rounded_amount(parent.unwrap()), ..state }
        } else {
            state
        },
        TransactionType::Resolve => if acts_on(parent) {
            AccountState {
                held: state.held - rounded_amount(parent.unwrap()),
                balance: state.balance + rounded_amount(parent.unwrap()),
                ..state
            }
        } else {
            state
        },
        TransactionType::Chargeback => if acts_on(parent) {
            AccountState {
                held: state.held - rounded_amount(parent.unwrap()),
                locked: true,
                ..state
            }
        } else {
            state
        },
    }
}

/// Whether `effect` can be computed: the amount it needs is present, and
/// every sum it forms can be kept.
pub open spec fn admits_effect(
    state: AccountState,
    transaction: TransactionView,
    parent: Option<TransactionView>,
) -> bool {
    match transaction.kind {
        TransactionType::Unknown => true,
        TransactionType::Deposit => transaction.amount is Some && fits_amount(
            state.balance + rounded_amount(transaction),
        ),
        TransactionType::Withdrawal => transaction.amount is Some && fits_amount(
            state.balance - rounded_amount(transaction),
        ),
        TransactionType::Dispute => acts_on(parent) ==> parent.unwrap().amount is Some
            && fits_amount(state.held + rounded_amount(parent.unwrap())),
        TransactionType::Resolve => acts_on(parent) ==> parent.unwrap().amount is Some
            && fits_amount(state.held - rounded_amount(parent.unwrap())) && fits_amount(
            state.balance + rounded_amount(parent.unwrap()),
        ),
        TransactionType::Chargeback => acts_on(parent) ==> parent.unwrap().amount is Some
            && fits_amount(state.held - rounded_amount(parent.unwrap())),
    }
}

/// How a transaction is dealt with.
pub open spec fn outcome_of(
    transaction: TransactionView,
    parent: Option<TransactionView>,
) -> Outcome {
    if transaction.kind == TransactionType::Unknown {
        Outcome::UnknownKind
    } else if !is_dispute_class(transaction.kind) {
        Outcome::Applied
    } else if parent is None {
        Outcome::MissingParent
    } else if acts_on(parent) {
        Outcome::Applied
    } else {
        Outcome::ParentNotWithdrawal
    }
}

/// The accounts by identifier.
pub type Ledger = Map<u16, AccountState>;

/// The account that a transaction for `account_id` works on: the one in
/// the ledger, or a newly opened one.
pub open spec fn account_at(ledger: Ledger, account_id: u16) -> AccountState {
    if ledger.contains_key(account_id) {
        ledger[account_id]
    } else {
        AccountState::opened(account_id)
    }
}

/// The ledger after `transaction`, whose referenced transaction is `parent`.
pub open spec fn step(
    ledger: Ledger,
    transaction: TransactionView,
    parent: Option<TransactionView>,
) -> Ledger {
    ledger.insert(
        transaction.account_id,
        effect(account_at(ledger, transaction.account_id), transaction, parent),
    )
}

/// Whether `step` can be computed.
pub open spec fn admits(
    ledger: Ledger,
    transaction: TransactionView,
    parent: Option<TransactionView>,
) -> bool {
    admits_effect(account_at(ledger, transaction.account_id), transaction, parent)
}

/// Whether `candidate` is what a dispute of transaction `transaction_id`
/// refers to: a deposit or withdrawal of that identifier.
pub open spec fn is_parent_of(candidate: TransactionView, transaction_id: u32) -> bool {
    is_real(candidate.kind) && candidate.transaction_id == transaction_id
}

/// The position in `history` of the first deposit or withdrawal whose
/// identifier is `transaction_id`, at or after `from`; the length of
/// `history` if there is none.
pub open spec fn parent_position(
    history: Seq<TransactionView>,
    transaction_id: u32,
    from: int,
) -> int
    decreases history.len() - from,
{
    if from < 0 || from >= history.len() {
        history.len() as int
    } else if is_parent_of(history[from], transaction_id) {
        from
    } else {
        parent_position(history, transaction_id, from + 1)
    }
}

/// The transaction that `transaction` refers to: the first deposit or
/// withdrawal in `history` with its identifier.
pub open spec fn parent_in(history: Seq<TransactionView>, transaction: TransactionView) -> Option<
    TransactionView,
> {
    let position = parent_position(history, transaction.transaction_id, 0);
    if position < history.len() {
        Some(history[position])
    } else {
        None
    }
}

/// The referenced transaction that the engine is given for `transaction`:
/// looked up in the whole of `history` for a dispute, resolve or
/// chargeback, and none for any other kind.
pub open spec fn resolved_parent(
    history: Seq<TransactionView>,
    transaction: TransactionView,
) -> Option<TransactionView> {
    if is_dispute_class(transaction.kind) {
        parent_in(history, transaction)
    } else {
        None
    }
}

/// The ledger after the first `count` transactions of `history`, each
/// applied in order with its referenced transaction looked up in the whole
/// of `history`.
pub open spec fn replay(ledger: Ledger, history: Seq<TransactionView>, count: nat) -> Ledger
    decreases count,
{
    if count == 0 || count > history.len() {
        ledger
    } else {
        step(
            replay(ledger, history, (count - 1) as nat),
            history[count - 1],
            resolved_parent(history, history[count - 1]),
        )
    }
}

/// Whether transaction `index` of `history` can be applied once those
/// before it have been.
pub open spec fn admits_at(ledger: Ledger, history: Seq<TransactionView>, index: int) -> bool {
    admits(
        replay(ledger, history, index as nat),
        history[index],
        resolved_parent(history, history[index]),
    )
}

/// The lookup finds the first match and no other: every record before the
/// position found is no deposit or withdrawal of that identifier, and the
/// record at the position, if there is one, is.
pub proof fn lemma_parent_position_is_first(
    history: Seq<TransactionView>,
    transaction_id: u32,
    from: int,
)
    requires
        0 <= from <= history.len(),
    ensures
        from <= parent_position(history, transaction_id, from) <= history.len(),
        parent_position(history, transaction_id, from) < history.len() ==> is_parent_of(
            history[parent_position(history, transaction_id, from)],
            transaction_id,
        ),
        forall|i: int|
            from <= i < parent_position(history, transaction_id, from) ==> !is_parent_of(
                #[trigger] history[i],
                transaction_id,
            ),
    decreases history.len() - from,
{
    if from < history.len() && !is_parent_of(history[from], transaction_id) {
        lemma_parent_position_is_first(history, transaction_id, from + 1);
    }
}

/// Only a deposit or a withdrawal is ever found: the record that a lookup
/// returns is one of `history`, has the identifier asked for, and is
/// neither a dispute, a resolve, a chargeback nor of unknown kind.
pub proof fn lemma_parent_is_real(history: Seq<TransactionView>, transaction: TransactionView)
    requires
        parent_in(history, transaction) is Some,
    ensures
        history.contains(parent_in(history, transaction).unwrap()),
        parent_in(history, transaction).unwrap().transaction_id == transaction.transaction_id,
        is_real(parent_in(history, transaction).unwrap().kind),
        !is_dispute_class(parent_in(history, transaction).unwrap().kind),
        parent_in(history, transaction).unwrap().kind != TransactionType::Unknown,
{
    lemma_parent_position_is_first(history, transaction.transaction_id, 0);
}

/// A lookup finds nothing exactly when `history` holds no deposit or
/// withdrawal of the identifier asked for.
pub proof fn lemma_parent_missing(history: Seq<TransactionView>, transaction: TransactionView)
    ensures
        parent_in(history, transaction) is None <==> forall|i: int|
            0 <= i < history.len() ==> !is_parent_of(
                #[trigger] history[i],
                transaction.transaction_id,
            ),
{
    lemma_parent_position_is_first(history, transaction.transaction_id, 0);
}

/// A transaction touches the account it names and no other.
pub proof fn lemma_step_touches_one_account(
    ledger: Ledger,
    transaction: TransactionView,
    parent: Option<TransactionView>,
    other: u16,
)
    requires
        other != transaction.account_id,
    ensures
        step(ledger, transaction, parent).contains_key(transaction.account_id),
        step(ledger, transaction, parent).contains_key(other) == ledger.contains_key(other),
        ledger.contains_key(other) ==> step(ledger, transaction, parent)[other] == ledger[other],
{
}

/// An account is never removed: what the ledger held before a
/// transaction, it holds after it.
pub proof fn lemma_step_keeps_accounts(
    ledger: Ledger,
    transaction: TransactionView,
    parent: Option<TransactionView>,
)
    ensures
        ledger.dom().subset_of(step(ledger, transaction, parent).dom()),
{
}

/// A deposit for an account that the ledger does not hold creates it with
/// the rounded amount as balance, nothing held, and unlocked.
pub proof fn lemma_deposit_opens_account(ledger: Ledger, deposit: TransactionView)
    requires
        deposit.kind == TransactionType::Deposit,
        !ledger.contains_key(deposit.account_id),
    ensures
        step(ledger, deposit, None)[deposit.account_id] == (AccountState {
            account_id: deposit.account_id,
            balance: rounded_amount(deposit),
            held: 0,
            locked: false,
        }),
        step(ledger, deposit, None)[deposit.account_id].available() == rounded_amount(deposit),
{
}

/// A withdrawal lowers the balance by its rounded amount, whatever the
/// balance is: no floor is kept at zero.
pub proof fn lemma_withdrawal_has_no_floor(ledger: Ledger, withdrawal: TransactionView)
    requires
        withdrawal.kind == TransactionType::Withdrawal,
    ensures
        step(ledger, withdrawal, None)[withdrawal.account_id] == (AccountState {
            balance: account_at(ledger, withdrawal.account_id).balance - rounded_amount(
                withdrawal,
            ),
            ..account_at(ledger, withdrawal.account_id)
        }),
{
}

/// A dispute of a withdrawal raises the held funds by the withdrawal's
/// rounded amount and leaves the balance.
pub proof fn lemma_dispute_holds(
    ledger: Ledger,
    dispute: TransactionView,
    withdrawal: TransactionView,
)
    requires
        dispute.kind == TransactionType::Dispute,
        withdrawal.kind == TransactionType::Withdrawal,
    ensures
        step(ledger, dispute, Some(withdrawal))[dispute.account_id] == (AccountState {
            held: account_at(ledger, dispute.account_id).held + rounded_amount(withdrawal),
            ..account_at(ledger, dispute.account_id)
        }),
{
}

/// A dispute of a withdrawal followed by its resolve leaves the held funds
/// as they were and gives the withdrawal's rounded amount back to the
/// balance: the withdrawal is reversed.
pub proof fn lemma_dispute_then_resolve(
    ledger: Ledger,
    dispute: TransactionView,
    resolve: TransactionView,
    withdrawal: TransactionView,
)
    requires
        dispute.kind == TransactionType::Dispute,
        resolve.kind == TransactionType::Resolve,
        withdrawal.kind == TransactionType::Withdrawal,
        dispute.account_id == resolve.account_id,
    ensures
        step(step(ledger, dispute, Some(withdrawal)), resolve, Some(withdrawal))[dispute.account_id]
            == (AccountState {
            balance: account_at(ledger, dispute.account_id).balance + rounded_amount(withdrawal),
            ..account_at(ledger, dispute.account_id)
        }),
{
}

/// A resolve of a withdrawal lowers the held funds by the withdrawal's
/// rounded amount and raises the balance by it, whether or not a dispute
/// came before.
pub proof fn lemma_resolve_releases_and_refunds(
    ledger: Ledger,
    resolve: TransactionView,
    withdrawal: TransactionView,
)
    requires
        resolve.kind == TransactionType::Resolve,
        withdrawal.kind == TransactionType::Withdrawal,
    ensures
        step(ledger, resolve, Some(withdrawal))[resolve.account_id] == (AccountState {
            held: account_at(ledger, resolve.account_id).held - rounded_amount(withdrawal),
            balance: account_at(ledger, resolve.account_id).balance + rounded_amount(withdrawal),
            ..account_at(ledger, resolve.account_id)
        }),
{
}

/// A chargeback of a withdrawal lowers the held funds by the withdrawal's
/// rounded amount, leaves the balance, and locks the account.
pub proof fn lemma_chargeback_releases_and_locks(
    ledger: Ledger,
    chargeback: TransactionView,
    withdrawal: TransactionView,
)
    requires
        chargeback.kind == TransactionType::Chargeback,
        withdrawal.kind == TransactionType::Withdrawal,
    ensures
        step(ledger, chargeback, Some(withdrawal))[chargeback.account_id] == (AccountState {
            held: account_at(ledger, chargeback.account_id).held - rounded_amount(withdrawal),
            locked: true,
            ..account_at(ledger, chargeback.account_id)
        }),
{
}

/// A dispute of a withdrawal followed by its chargeback leaves the held
/// funds and the balance as they were, and locks the account.
pub proof fn lemma_dispute_then_chargeback(
    ledger: Ledger,
    dispute: TransactionView,
    chargeback: TransactionView,
    withdrawal: TransactionView,
)
    requires
        dispute.kind == TransactionType::Dispute,
        chargeback.kind == TransactionType::Chargeback,
        withdrawal.kind == TransactionType::Withdrawal,
        dispute.account_id == chargeback.account_id,
    ensures
        step(step(ledger, dispute, Some(withdrawal)), chargeback, Some(withdrawal))[
            dispute.account_id
        ] == (AccountState { locked: true, ..account_at(ledger, dispute.account_id) }),
{
}

/// A dispute, resolve or chargeback of anything but a withdrawal, a deposit
/// above all, changes neither balance nor held funds nor the lock.
pub proof fn lemma_other_parent_changes_nothing(
    ledger: Ledger,
    transaction: TransactionView,
    parent: TransactionView,
)
    requires
        is_dispute_class(transaction.kind),
        parent.kind != TransactionType::Withdrawal,
    ensures
        step(ledger, transaction, Some(parent))[transaction.account_id] == account_at(
            ledger,
            transaction.account_id,
        ),
        ledger.contains_key(transaction.account_id) ==> step(ledger, transaction, Some(parent))
            == ledger,
        outcome_of(transaction, Some(parent)) == Outcome::ParentNotWithdrawal,
{
}

/// A dispute, resolve or chargeback that refers to no transaction changes
/// no account that exists; an account that it names first is opened empty.
pub proof fn lemma_missing_parent_changes_nothing(ledger: Ledger, transaction: TransactionView)
    requires
        is_dispute_class(transaction.kind),
    ensures
        step(ledger, transaction, None)[transaction.account_id] == account_at(
            ledger,
            transaction.account_id,
        ),
        ledger.contains_key(transaction.account_id) ==> step(ledger, transaction, None) == ledger,
        outcome_of(transaction, None) == Outcome::MissingParent,
{
}

/// A transaction of unknown kind changes no account that exists.
pub proof fn lemma_unknown_kind_changes_nothing(
    ledger: Ledger,
    transaction: TransactionView,
    parent: Option<TransactionView>,
)
    requires
        transaction.kind == TransactionType::Unknown,
    ensures
        step(ledger, transaction, parent)[transaction.account_id] == account_at(
            ledger,
            transaction.account_id,
        ),
        ledger.contains_key(transaction.account_id) ==> step(ledger, transaction, parent) == ledger,
        outcome_of(transaction, parent) == Outcome::UnknownKind,
{
}

/// No transaction unlocks: a locked account stays locked.
pub proof fn lemma_lock_is_absorbing(
    state: AccountState,
    transaction: TransactionView,
    parent: Option<TransactionView>,
)
    requires
        state.locked,
    ensures
        effect(state, transaction, parent).locked,
{
}

/// An account is locked only by the chargeback of a withdrawal.
pub proof fn lemma_only_chargeback_locks(
    state: AccountState,
    transaction: TransactionView,
    parent: Option<TransactionView>,
)
    requires
        !state.locked,
        effect(state, transaction, parent).locked,
    ensures
        transaction.kind == TransactionType::Chargeback,
        acts_on(parent),
{
}

/// The held funds change only by a dispute, resolve or chargeback of a
/// withdrawal.
pub proof fn lemma_held_changes_only_by_disputes(
    state: AccountState,
    transaction: TransactionView,
    parent: Option<TransactionView>,
)
    requires
        effect(state, transaction, parent).held != state.held,
    ensures
        is_dispute_class(transaction.kind),
        acts_on(parent),
{
}

/// The balance changes only by a deposit, a withdrawal, or the resolve of a
/// withdrawal.
pub proof fn lemma_balance_changes_only_by_funds(
    state: AccountState,
    transaction: TransactionView,
    parent: Option<TransactionView>,
)
    requires
        effect(state, transaction, parent).balance != state.balance,
    ensures
        is_real(transaction.kind) || (transaction.kind == TransactionType::Resolve && acts_on(
            parent,
        )),
{
}

/// No transaction changes the identifier that an account carries.
pub proof fn lemma_effect_keeps_identifier(
    state: AccountState,
    transaction: TransactionView,
    parent: Option<TransactionView>,
)
    ensures
        effect(state, transaction, parent).account_id == state.account_id,
{
}

/// A batch never removes an account, and never unlocks one.
pub proof fn lemma_replay_keeps_accounts(
    ledger: Ledger,
    history: Seq<TransactionView>,
    count: nat,
    account_id: u16,
)
    requires
        ledger.contains_key(account_id),
    ensures
        replay(ledger, history, count).contains_key(account_id),
        ledger[account_id].locked ==> replay(ledger, history, count)[account_id].locked,
    decreases count,
{
    if count != 0 && count <= history.len() {
        lemma_replay_keeps_accounts(ledger, history, (count - 1) as nat, account_id);
    }
}

/// After a batch the ledger holds every account that a transaction of the
/// batch names.
pub proof fn lemma_replay_opens_accounts(
    ledger: Ledger,
    history: Seq<TransactionView>,
    count: nat,
    index: int,
)
    requires
        0 <= index < count <= history.len(),
    ensures
        replay(ledger, history, count).contains_key(history[index].account_id),
    decreases count,
{
    if index < count - 1 {
        lemma_replay_opens_accounts(ledger, history, (count - 1) as nat, index);
    }
}

} // verus!
