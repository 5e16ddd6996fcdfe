use vstd::prelude::*;

use crate::error::ContractError;
use crate::state::DaoState;

verus! {

/// One entry of a batch transfer.
#[derive(Clone, Debug, PartialEq, Eq)]
pub struct TransferRequest {
    pub recipient: String,
    pub amount: u128,
}

/// One entry of a batch mint.
#[derive(Clone, Debug, PartialEq, Eq)]
pub struct MintRequest {
    pub recipient: String,
    pub amount: u128,
}

/// A queued token operation that the host applies after the batch.
#[derive(Clone, Debug, PartialEq, Eq)]
pub enum SubOperation {
    Transfer { recipient: String, amount: u128 },
    Mint { recipient: String, amount: u128 },
}

/// The sub-operations of a batch, in the order of its entries, and the sum
/// of their amounts.
#[derive(Clone, Debug, PartialEq, Eq)]
pub struct Batch {
    pub operations: Vec<SubOperation>,
    pub total_amount: u128,
}

pub open spec fn sum_transfers(s: Seq<TransferRequest>) -> int
    decreases s.len(),
{
    if s.len() == 0 {
        0
    } else {
        sum_transfers(s.drop_last()) + s.last().amount
    }
}

pub proof fn lemma_sum_transfers_prefix(s: Seq<TransferRequest>, n: int)
    requires
        0 <= n <= s.len(),
    ensures
        0 <= sum_transfers(s.take(n)) <= sum_transfers(s),
    decreases s.len(),
{
    if s.len() > 0 {
        if n == s.len() {
            assert(s.take(n) == s);
            lemma_sum_transfers_prefix(s.drop_last(), n - 1);
            assert(s.drop_last().take(n - 1) == s.take(n).drop_last());
        } else {
            assert(s.drop_last().take(n) == s.take(n));
            lemma_sum_transfers_prefix(s.drop_last(), n);
        }
    }
}

impl DaoState {
    /// Why a batch transfer of `transfers` by `sender` is refused, if it is:
    /// a paused contract, then a total that does not fit, then a total above
    /// the sender's unstaked balance.
    pub open spec fn batch_transfer_refusal(
        &self,
        sender: Seq<char>,
        transfers: Seq<TransferRequest>,
    ) -> Option<ContractError> {
        if self.paused {
            Some(ContractError::ContractPaused)
        } else if sum_transfers(transfers) > u128::MAX {
            Some(ContractError::Overflow)
        } else if sum_transfers(transfers) > self.ledger.available_of(sender) {
            Some(ContractError::InsufficientFunds)
        } else {
            None
        }
    }

    /// Checks that `sender` can cover all of `transfers` at once and queues
    /// one transfer per entry. Nothing is applied here: the host applies the
    /// queued transfers, all or none.
    pub fn batch_transfer(&self, sender: &String, transfers: &Vec<TransferRequest>) -> (r: Result<
        Batch,
        ContractError,
    >)
        requires
            self.wf(),
        ensures
            match self.batch_transfer_refusal(sender@, transfers@) {
                Some(e) => r == Err::<Batch, ContractError>(e),
                None => r is Ok,
            },
            r matches Ok(b) ==> {
                &&& b.total_amount == sum_transfers(transfers@)
                &&& b.operations@.len() == transfers@.len()
                &&& forall|i: int|
                    0 <= i < transfers@.len() ==> #[trigger] b.operations@[i]
                        == (SubOperation::Transfer {
                        recipient: transfers@[i].recipient,
                        amount: transfers@[i].amount,
                    })
            },
    {
        self.require_not_paused()?;
        let mut total: u128 = 0;
        let mut operations: Vec<SubOperation> = Vec::new();
        let mut i: usize = 0;
        while i < transfers.len()
            invariant
                i <= transfers@.len(),
                !self.paused,
                total == sum_transfers(transfers@.take(i as int)),
                operations@.len() == i,
                forall|k: int|
                    0 <= k < i ==> #[trigger] operations@[k] == (SubOperation::Transfer {
                        recipient: transfers@[k].recipient,
                        amount: transfers@[k].amount,
                    }),
            decreases transfers@.len() - i,
        {
            assert(transfers@.take(i as int + 1).drop_last() == transfers@.take(i as int));
            if transfers[i].amount > u128::MAX - total {
                proof {
                    lemma_sum_transfers_prefix(transfers@, i as int + 1);
                    assert(sum_transfers(transfers@.take(i as int + 1)) == total
                        + transfers@[i as int].amount);
                }
                return Err(ContractError::Overflow);
            }
            total = total + transfers[i].amount;
            operations.push(
                SubOperation::Transfer {
                    recipient: transfers[i].recipient.clone(),
                    amount: transfers[i].amount,
                },
            );
            i += 1;
        }
        proof {
            assert(transfers@.take(transfers@.len() as int) == transfers@);
        }
        let available = self.ledger.available_balance(sender);
        if total > available {
            return Err(ContractError::InsufficientFunds);
        }
        Ok(Batch { operations, total_amount: total })
    }

    /// Queues one mint per entry; each is checked when the host applies it.
    pub fn batch_mint(&self, mints: &Vec<MintRequest>) -> (r: Vec<SubOperation>)
        ensures
            r@.len() == mints@.len(),
            forall|i: int|
                0 <= i < mints@.len() ==> #[trigger] r@[i] == (SubOperation::Mint {
                    recipient: mints@[i].recipient,
                    amount: mints@[i].amount,
                }),
    {
        let mut operations: Vec<SubOperation> = Vec::new();
        let mut i: usize = 0;
        while i < mints.len()
            invariant
                i <= mints@.len(),
                operations@.len() == i,
                forall|k: int|
                    0 <= k < i ==> #[trigger] operations@[k] == (SubOperation::Mint {
                        recipient: mints@[k].recipient,
                        amount: mints@[k].amount,
                    }),
            decreases mints@.len() - i,
        {
            operations.push(
                SubOperation::Mint { recipient: mints[i].recipient.clone(), amount: mints[i].amount },
            );
            i += 1;
        }
        operations
    }
}

} // verus!
