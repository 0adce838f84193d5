//! The accounts that an instruction is handed, and the slot of each.
//!
//! An account is known to the program by four things: its identity, whether
//! it signed the transaction, its balance, and the bytes of its storage
//! slot. A record is written over the leading bytes of a slot, which keeps
//! its length; a slot shorter than the record refuses it. One kind of
//! record is created on demand: for it alone, a slot without bytes holds no
//! record yet, and storing the record gives the slot exactly the record's
//! bytes.

use crate::error::ProcessError;
use vstd::prelude::*;

verus! {

/// An account as the program sees it.
#[derive(Debug, Clone, PartialEq, Eq)]
pub struct Account {
    /// The account's identity.
    pub key: [u8; 32],
    /// Whether this account signed the transaction. The host has verified
    /// the signature before the program runs.
    pub is_signer: bool,
    /// The balance of the account.
    pub lamports: u64,
    /// The bytes of the account's storage slot.
    pub data: Vec<u8>,
}

/// An account with its slot as a sequence of bytes.
pub ghost struct AccountView {
    pub key: [u8; 32],
    pub is_signer: bool,
    pub lamports: u64,
    pub data: Seq<u8>,
}

impl View for Account {
    type V = AccountView;

    open spec fn view(&self) -> AccountView {
        AccountView {
            key: self.key,
            is_signer: self.is_signer,
            lamports: self.lamports,
            data: self.data@,
        }
    }
}

impl DeepView for Account {
    type V = AccountView;

    open spec fn deep_view(&self) -> AccountView {
        self@
    }
}

/// The bytes of a slot after `record` was written over its leading bytes;
/// `None` where the slot is shorter than the record.
pub open spec fn overwritten(slot: Seq<u8>, record: Seq<u8>) -> Option<Seq<u8>> {
    if slot.len() >= record.len() {
        Some(record + slot.subrange(record.len() as int, slot.len() as int))
    } else {
        None
    }
}

/// The bytes of a slot after a record that is created on demand was stored
/// in it: an empty slot takes the record as it is, any other slot has it
/// written over its leading bytes. `None` where the slot holds bytes but
/// fewer than the record.
pub open spec fn stored(slot: Seq<u8>, record: Seq<u8>) -> Option<Seq<u8>> {
    if slot.len() == 0 {
        Some(record)
    } else {
        overwritten(slot, record)
    }
}

/// A slot that took a record starts with that record, and a slot that was
/// written over has kept its length.
pub proof fn lemma_stored_prefix(slot: Seq<u8>, record: Seq<u8>)
    ensures
        overwritten(slot, record) matches Some(after) ==> {
            &&& after.len() == slot.len()
            &&& after.subrange(0, record.len() as int) == record
            &&& slot.len() == record.len() ==> after == record
            &&& overwritten(after, record) == Some(after)
        },
        stored(slot, record) matches Some(after) ==> {
            &&& after.len() >= record.len()
            &&& after.subrange(0, record.len() as int) == record
            &&& slot.len() > 0 ==> after.len() == slot.len()
            &&& slot.len() == 0 || slot.len() == record.len() ==> after == record
        },
{
    if overwritten(slot, record) is Some {
        let after = overwritten(slot, record)->Some_0;
        assert(after.subrange(0, record.len() as int) =~= record);
        assert(overwritten(after, record)->Some_0 =~= after);
        if slot.len() == record.len() {
            assert(after =~= record);
        }
    }
    if stored(slot, record) is Some {
        let after = stored(slot, record)->Some_0;
        assert(after.subrange(0, record.len() as int) =~= record);
    }
}

impl Account {
    /// Writes the bytes of a record over the leading bytes of the account's
    /// slot.
    ///
    /// Fails with `AccountDataTooSmall`, and leaves the slot as it was,
    /// where the slot is shorter than the record.
    pub fn overwrite(&mut self, record: &[u8]) -> (r: Result<(), ProcessError>)
        ensures
            match overwritten(old(self).data@, record@) {
                Some(after) => r is Ok && final(self)@ == (AccountView {
                    data: after,
                    ..old(self)@
                }),
                None => r == Err::<(), ProcessError>(ProcessError::AccountDataTooSmall)
                    && *final(self) == *old(self),
            },
    {
        let size: usize = record.len();
        if self.data.len() < size {
            return Err(ProcessError::AccountDataTooSmall);
        }
        let mut i: usize = 0;
        while i < size
            invariant
                i <= size,
                size == record@.len(),
                self.data@.len() == old(self).data@.len(),
                size <= self.data@.len(),
                self.key == old(self).key,
                self.is_signer == old(self).is_signer,
                self.lamports == old(self).lamports,
                forall|j: int| 0 <= j < i ==> self.data@[j] == record@[j],
                forall|j: int| i <= j < self.data@.len() ==> self.data@[j] == old(self).data@[j],
            decreases size - i,
        {
            self.data[i] = record[i];
            i += 1;
        }
        assert(self.data@ =~= overwritten(old(self).data@, record@)->Some_0);
        Ok(())
    }

    /// Stores the bytes of a record that is created on demand: an empty slot
    /// takes the record as it is, any other slot has it written over its
    /// leading bytes.
    ///
    /// Fails with `AccountDataTooSmall`, and leaves the slot as it was,
    /// where the slot holds bytes but fewer than the record has.
    pub fn store(&mut self, record: &[u8]) -> (r: Result<(), ProcessError>)
        ensures
            match stored(old(self).data@, record@) {
                Some(after) => r is Ok && final(self)@ == (AccountView {
                    data: after,
                    ..old(self)@
                }),
                None => r == Err::<(), ProcessError>(ProcessError::AccountDataTooSmall)
                    && *final(self) == *old(self),
            },
    {
        if self.data.len() == 0 {
            self.data.extend_from_slice(record);
            assert(self.data@ =~= record@);
            Ok(())
        } else {
            self.overwrite(record)
        }
    }
}

} // verus!
