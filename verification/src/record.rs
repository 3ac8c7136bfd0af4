//! The handles through which the host hands records to the ledger.

use vstd::prelude::*;
use crate::address::Address;

verus! {

/// A record handle as a mathematical value.
pub struct RecordView {
    pub key: Seq<u8>,
    pub is_signer: bool,
    pub lamports: u64,
    pub data: Seq<u8>,
}

impl RecordView {
    /// The key is an address.
    pub open spec fn wf(self) -> bool {
        self.key.len() == 32
    }

    /// The handle with other bytes in its record.
    pub open spec fn with_data(self, data: Seq<u8>) -> RecordView {
        RecordView { data, ..self }
    }
}

/// What the host supplies of one record for one instruction: its address,
/// whether that address signed, the balance that backs the record, and the
/// record's bytes.
#[derive(Clone, Debug, PartialEq)]
pub struct RecordHandle {
    /// The address of the record.
    pub key: Address,
    /// Whether the holder of the address signed the instruction.
    pub is_signer: bool,
    /// The balance that pays for the record's storage.
    pub lamports: u64,
    /// The bytes of the record.
    pub data: Vec<u8>,
}

impl View for RecordHandle {
    type V = RecordView;

    open spec fn view(&self) -> RecordView {
        RecordView {
            key: self.key@,
            is_signer: self.is_signer,
            lamports: self.lamports,
            data: self.data@,
        }
    }
}

impl RecordHandle {
    /// The view of a handle is well formed.
    pub proof fn lemma_wf(self)
        ensures
            self@.wf(),
    {
        self.key.lemma_view();
    }
}

/// Whether every handle of a list is well formed.
pub open spec fn all_wf(records: Seq<RecordView>) -> bool {
    forall|i: int| 0 <= i < records.len() ==> (#[trigger] records[i]).wf()
}

/// The views of a list of handles.
pub open spec fn views(handles: Seq<RecordHandle>) -> Seq<RecordView> {
    Seq::new(handles.len(), |i: int| handles[i]@)
}

} // verus!
