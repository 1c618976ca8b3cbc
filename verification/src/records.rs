//! From input records to requests.
//!
//! A record names its type in any mix of upper and lower case: `deposit`,
//! `withdrawal`, `dispute`, `resolve` or `chargeback`. Deposits and
//! withdrawals carry an amount, which is taken as bitcoin.

use crate::actors::account::AccountRequests;
use crate::actors::account::ChargebackRequest;
use crate::actors::account::DepositRequest;
use crate::actors::account::DisputeRequest;
use crate::actors::account::ResolveRequest;
use crate::actors::account::WithdrawRequest;
use crate::domain::amount::Amount;
use crate::domain::money::Currency;
use crate::domain::money::Money;
use vstd::prelude::*;
use vstd::string::StringSliceAdditionalSpecFns;

verus! {

#[derive(PartialEq, Eq, Clone, Copy, Debug, Structural)]
pub enum RecordKind {
    Deposit,
    Withdrawal,
    Dispute,
    Resolve,
    Chargeback,
}

#[derive(PartialEq, Eq, Clone, Copy, Debug, Structural)]
pub enum RecordErrors {
    /// The record's type is none of the five.
    UnknownType,
    /// A deposit or withdrawal without an amount.
    MissingAmount,
}

/// The lower-case form of an ASCII letter; every other byte is itself.
pub open spec fn lower(b: u8) -> u8 {
    if 65 <= b <= 90 {
        (b + 32) as u8
    } else {
        b
    }
}

/// The bytes spell the word, whatever the case of their letters.
pub open spec fn spells(bytes: Seq<u8>, word: Seq<u8>) -> bool {
    &&& bytes.len() == word.len()
    &&& forall|i: int| 0 <= i < bytes.len() ==> lower(bytes[i]) == word[i]
}

impl RecordKind {
    /// The type's name in lower case, as bytes.
    pub open spec fn word(self) -> Seq<u8> {
        match self {
            RecordKind::Deposit => seq![100u8, 101u8, 112u8, 111u8, 115u8, 105u8, 116u8],
            RecordKind::Withdrawal => seq![
                119u8,
                105u8,
                116u8,
                104u8,
                100u8,
                114u8,
                97u8,
                119u8,
                97u8,
                108u8,
            ],
            RecordKind::Dispute => seq![100u8, 105u8, 115u8, 112u8, 117u8, 116u8, 101u8],
            RecordKind::Resolve => seq![114u8, 101u8, 115u8, 111u8, 108u8, 118u8, 101u8],
            RecordKind::Chargeback => seq![
                99u8,
                104u8,
                97u8,
                114u8,
                103u8,
                101u8,
                98u8,
                97u8,
                99u8,
                107u8,
            ],
        }
    }

    /// The type's name in lower case.
    fn name(self) -> (word: Vec<u8>)
        ensures
            word@ == self.word(),
    {
        let word = match self {
            RecordKind::Deposit => vec![100u8, 101u8, 112u8, 111u8, 115u8, 105u8, 116u8],
            RecordKind::Withdrawal => vec![
                119u8,
                105u8,
                116u8,
                104u8,
                100u8,
                114u8,
                97u8,
                119u8,
                97u8,
                108u8,
            ],
            RecordKind::Dispute => vec![100u8, 105u8, 115u8, 112u8, 117u8, 116u8, 101u8],
            RecordKind::Resolve => vec![114u8, 101u8, 115u8, 111u8, 108u8, 118u8, 101u8],
            RecordKind::Chargeback => vec![
                99u8,
                104u8,
                97u8,
                114u8,
                103u8,
                101u8,
                98u8,
                97u8,
                99u8,
                107u8,
            ],
        };
        assert(word@ =~= self.word());
        word
    }
}

/// The type that the bytes name, if they name one.
pub open spec fn kind_of(bytes: Seq<u8>) -> Option<RecordKind> {
    if spells(bytes, RecordKind::Deposit.word()) {
        Some(RecordKind::Deposit)
    } else if spells(bytes, RecordKind::Withdrawal.word()) {
        Some(RecordKind::Withdrawal)
    } else if spells(bytes, RecordKind::Dispute.word()) {
        Some(RecordKind::Dispute)
    } else if spells(bytes, RecordKind::Resolve.word()) {
        Some(RecordKind::Resolve)
    } else if spells(bytes, RecordKind::Chargeback.word()) {
        Some(RecordKind::Chargeback)
    } else {
        None
    }
}

/// The request that a record stands for, or the reason why it stands for
/// none.
pub open spec fn request_of(bytes: Seq<u8>, client: u32, tx: u32, amount: Option<Amount>) -> Result<
    AccountRequests,
    RecordErrors,
> {
    match kind_of(bytes) {
        None => Err(RecordErrors::UnknownType),
        Some(RecordKind::Deposit) => match amount {
            None => Err(RecordErrors::MissingAmount),
            Some(a) => Ok(
                AccountRequests::DepositRequest(
                    DepositRequest {
                        account_id: client,
                        transaction_id: tx,
                        amount: Money { amount: a, currency: Currency::Bitcoin },
                    },
                ),
            ),
        },
        Some(RecordKind::Withdrawal) => match amount {
            None => Err(RecordErrors::MissingAmount),
            Some(a) => Ok(
                AccountRequests::WithdrawRequest(
                    WithdrawRequest {
                        account_id: client,
                        transaction_id: tx,
                        amount: Money { amount: a, currency: Currency::Bitcoin },
                    },
                ),
            ),
        },
        Some(RecordKind::Dispute) => Ok(
            AccountRequests::DisputeRequest(DisputeRequest { account_id: client, transaction_id: tx }),
        ),
        Some(RecordKind::Resolve) => Ok(
            AccountRequests::ResolveRequest(ResolveRequest { account_id: client, transaction_id: tx }),
        ),
        Some(RecordKind::Chargeback) => Ok(
            AccountRequests::ChargebackRequest(
                ChargebackRequest { account_id: client, transaction_id: tx },
            ),
        ),
    }
}

fn to_lower(b: u8) -> (r: u8)
    ensures
        r == lower(b),
{
    if 65 <= b && b <= 90 {
        b + 32
    } else {
        b
    }
}

fn spells_word(bytes: &[u8], word: &Vec<u8>) -> (r: bool)
    ensures
        r == spells(bytes@, word@),
{
    if bytes.len() != word.len() {
        return false;
    }
    let mut i: usize = 0;
    while i < bytes.len()
        invariant
            bytes@.len() == word@.len(),
            i <= bytes@.len(),
            forall|j: int| 0 <= j < i ==> lower(bytes@[j]) == word@[j],
        decreases bytes@.len() - i,
    {
        if to_lower(bytes[i]) != word[i] {
            return false;
        }
        i = i + 1;
    }
    true
}

/// The type that a record names.
pub fn parse_kind(name: &str) -> (kind: Option<RecordKind>)
    ensures
        kind == kind_of(name.spec_bytes()),
{
    let bytes = name.as_bytes();
    if spells_word(bytes, &RecordKind::Deposit.name()) {
        Some(RecordKind::Deposit)
    } else if spells_word(bytes, &RecordKind::Withdrawal.name()) {
        Some(RecordKind::Withdrawal)
    } else if spells_word(bytes, &RecordKind::Dispute.name()) {
        Some(RecordKind::Dispute)
    } else if spells_word(bytes, &RecordKind::Resolve.name()) {
        Some(RecordKind::Resolve)
    } else if spells_word(bytes, &RecordKind::Chargeback.name()) {
        Some(RecordKind::Chargeback)
    } else {
        None
    }
}

/// Turns one record into the request it stands for.
pub fn to_request(name: &str, client: u32, tx: u32, amount: Option<Amount>) -> (r: Result<
    AccountRequests,
    RecordErrors,
>)
    ensures
        r == request_of(name.spec_bytes(), client, tx, amount),
{
    let kind = match parse_kind(name) {
        Some(kind) => kind,
        None => {
            return Err(RecordErrors::UnknownType);
        },
    };
    match kind {
        RecordKind::Deposit => match amount {
            None => Err(RecordErrors::MissingAmount),
            Some(a) => Ok(
                AccountRequests::DepositRequest(
                    DepositRequest {
                        account_id: client,
                        transaction_id: tx,
                        amount: Money { amount: a, currency: Currency::Bitcoin },
                    },
                ),
            ),
        },
        RecordKind::Withdrawal => match amount {
            None => Err(RecordErrors::MissingAmount),
            Some(a) => Ok(
                AccountRequests::WithdrawRequest(
                    WithdrawRequest {
                        account_id: client,
                        transaction_id: tx,
                        amount: Money { amount: a, currency: Currency::Bitcoin },
                    },
                ),
            ),
        },
        RecordKind::Dispute => Ok(
            AccountRequests::DisputeRequest(DisputeRequest { account_id: client, transaction_id: tx }),
        ),
        RecordKind::Resolve => Ok(
            AccountRequests::ResolveRequest(ResolveRequest { account_id: client, transaction_id: tx }),
        ),
        RecordKind::Chargeback => Ok(
            AccountRequests::ChargebackRequest(
                ChargebackRequest { account_id: client, transaction_id: tx },
            ),
        ),
    }
}

} // verus!
