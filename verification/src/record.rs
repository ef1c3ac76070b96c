//! Input records: the text fields of one row, read as a transaction.
//!
//! A row names a kind, a client, a transaction and an amount, in this order,
//! and the first field that cannot be read decides the error. The amount may
//! be left out of a dispute, a resolve or a chargeback.

use crate::amount::Amount;
use crate::digits::{is_number, number, scan_number};
use crate::ledger::{Transaction, TransactionKind};
use crate::notation::{read, Reading};
use vstd::prelude::*;

verus! {

/// Why a row is not a transaction.
#[derive(Debug, Clone, Copy, PartialEq, Eq, Structural)]
pub enum RecordError {
    /// The row has no first field.
    KindMissing,
    /// The first field names no kind of transaction.
    UnknownKind,
    /// The row has no second field.
    ClientMissing,
    /// The second field is not a number up to 65535.
    InvalidClient,
    /// The row has no third field.
    TxMissing,
    /// The third field is not a number up to 18446744073709551615.
    InvalidTx,
    /// A deposit or withdrawal has no fourth field.
    AmountMissing,
    /// The fourth field does not denote an amount.
    InvalidAmount,
}

/// `text` without a leading plus sign.
pub open spec fn unsigned_digits(text: Seq<char>) -> Seq<char> {
    if text.len() > 0 && text[0] == '+' {
        text.skip(1)
    } else {
        text
    }
}

/// The number up to `max` that `text` denotes: digits, with or without a
/// plus sign before them.
pub open spec fn unsigned(text: Seq<char>, max: nat) -> Option<nat> {
    let digits = unsigned_digits(text);
    if is_number(digits) && number(digits) <= max {
        Some(number(digits))
    } else {
        None
    }
}

/// Reads a number up to `max`.
pub fn read_unsigned(text: &str, max: u64) -> (value: Option<u64>)
    ensures
        match unsigned(text@, max as nat) {
            Some(n) => value == Some(n as u64),
            None => value is None,
        },
{
    broadcast use vstd::string::is_ascii_spec_bytes;

    if !text.is_ascii() {
        proof {
            let at = choose|i: int|
                0 <= i < text@.len() && !('\0' <= #[trigger] text@[i] <= '\u{7f}');
            let digits = unsigned_digits(text@);
            if text@[0] == '+' {
                assert(digits[at - 1] == text@[at]);
            }
        }
        return None;
    }
    let bytes = text.as_bytes();
    let end: usize = bytes.len();
    let start: usize = if end > 0 && bytes[0] == 43 { 1 } else { 0 };
    let (stop, value) = scan_number(text, start, max);
    proof {
        let digits = unsigned_digits(text@);
        assert(digits =~= text@.subrange(start as int, end as int));
        if stop < end {
            assert(digits[stop - start] == text@[stop as int]);
        }
    }
    if stop == start || stop < end {
        None
    } else {
        value
    }
}

/// The amount of a row: what its field denotes, or nothing where the field
/// is left out and `kind` needs none.
pub open spec fn field_amount(kind: TransactionKind, amount: Option<&str>) -> Result<
    int,
    RecordError,
> {
    match amount {
        Some(text) => match read(text@) {
            Reading::Value(v) => Ok(v),
            _ => Err(RecordError::InvalidAmount),
        },
        None => match kind {
            TransactionKind::Deposit | TransactionKind::Withdrawal => Err(
                RecordError::AmountMissing,
            ),
            _ => Ok(0),
        },
    }
}

/// The transaction that the four fields of a row denote, or what is wrong
/// with the first field that is.
pub open spec fn field_transaction(
    kind: Option<&str>,
    client: Option<&str>,
    tx: Option<&str>,
    amount: Option<&str>,
) -> Result<Transaction, RecordError> {
    if kind is None {
        Err(RecordError::KindMissing)
    } else if TransactionKind::named(kind->0@) is None {
        Err(RecordError::UnknownKind)
    } else if client is None {
        Err(RecordError::ClientMissing)
    } else if unsigned(client->0@, 0xffff) is None {
        Err(RecordError::InvalidClient)
    } else if tx is None {
        Err(RecordError::TxMissing)
    } else if unsigned(tx->0@, 0xffff_ffff_ffff_ffff) is None {
        Err(RecordError::InvalidTx)
    } else {
        let kind = TransactionKind::named(kind->0@)->0;
        match field_amount(kind, amount) {
            Ok(v) => Ok(
                Transaction {
                    id: unsigned(tx->0@, 0xffff_ffff_ffff_ffff)->0 as u64,
                    client_id: unsigned(client->0@, 0xffff)->0 as u16,
                    kind,
                    amount: Amount { amount_fx4: v as i64 },
                },
            ),
            Err(e) => Err(e),
        }
    }
}

impl Transaction {
    /// Reads a transaction from the fields of a row; `None` stands for a
    /// field that the row does not have.
    pub fn from_fields(
        kind: Option<&str>,
        client: Option<&str>,
        tx: Option<&str>,
        amount: Option<&str>,
    ) -> (result: Result<Transaction, RecordError>)
        ensures
            result == field_transaction(kind, client, tx, amount),
    {
        let kind = match kind {
            None => { return Err(RecordError::KindMissing); },
            Some(word) => match TransactionKind::from_str(word) {
                Ok(kind) => kind,
                Err(_) => { return Err(RecordError::UnknownKind); },
            },
        };
        let client_id: u16 = match client {
            None => { return Err(RecordError::ClientMissing); },
            Some(text) => match read_unsigned(text, 0xffff) {
                Some(n) => n as u16,
                None => { return Err(RecordError::InvalidClient); },
            },
        };
        let id: u64 = match tx {
            None => { return Err(RecordError::TxMissing); },
            Some(text) => match read_unsigned(text, 0xffff_ffff_ffff_ffff) {
                Some(n) => n,
                None => { return Err(RecordError::InvalidTx); },
            },
        };
        let amount = match amount {
            Some(text) => match Amount::from_str(text) {
                Ok(amount) => amount,
                Err(_) => { return Err(RecordError::InvalidAmount); },
            },
            None => match kind {
                TransactionKind::Deposit | TransactionKind::Withdrawal => {
                    return Err(RecordError::AmountMissing);
                },
                _ => Amount::zero(),
            },
        };
        Ok(Transaction { id, client_id, kind, amount })
    }
}

} // verus!
