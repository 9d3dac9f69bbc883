//! The bulk ingest pipeline's verified half: validating the target table
//! name, addressing the staged object and preparing the staged payload.
//!
//! The upload and the bulk-load command are network effects performed by
//! the caller; what reaches them is constrained here.  Only a table name
//! that passes the identifier allow-list can inhabit [`TableName`], so no
//! caller-controlled string is ever interpolated into a store command, and
//! every staged object is addressed by table name plus a unique batch
//! token, so concurrent flushes never overwrite one another's objects.

use vstd::prelude::*;

use crate::codec::encode_batch;
use crate::codec::encoded;
use crate::rows::clone_row;
use crate::rows::views_of;
use crate::storage::StorageError;

verus! {

/// Whether a byte may open a table identifier: a lowercase letter or an
/// underscore.
pub open spec fn table_first_byte(b: u8) -> bool {
    (97 <= b <= 122) || b == 95
}

/// Whether a byte may continue a table identifier: additionally a digit.
pub open spec fn table_rest_byte(b: u8) -> bool {
    table_first_byte(b) || (48 <= b <= 57)
}

/// The identifier allow-list for bulk-load targets: nonempty, opening with
/// a letter or underscore, all of it lowercase letters, digits and
/// underscores.  Nothing else ever reaches a store command.
pub open spec fn valid_table_name(name: Seq<u8>) -> bool {
    &&& name.len() >= 1
    &&& table_first_byte(name[0])
    &&& forall|i: int| 1 <= i < name.len() ==> table_rest_byte(#[trigger] name[i])
}

/// Checks a candidate table name against the allow-list.
pub fn is_valid_table_name(name: &Vec<u8>) -> (r: bool)
    ensures
        r == valid_table_name(name@),
{
    if name.len() == 0 {
        return false;
    }
    let b0 = name[0];
    if !((97 <= b0 && b0 <= 122) || b0 == 95) {
        return false;
    }
    let mut i: usize = 1;
    while i < name.len()
        invariant
            1 <= i <= name@.len(),
            table_first_byte(name@[0]),
            forall|k: int| 1 <= k < i ==> table_rest_byte(#[trigger] name@[k]),
        decreases name.len() - i,
    {
        let b = name[i];
        if !((97 <= b && b <= 122) || b == 95 || (48 <= b && b <= 57)) {
            return false;
        }
        i = i + 1;
    }
    true
}

/// A bulk-load target that passed the allow-list.  Values of this type are
/// only made by [`TableName::parse`], so holding one is proof that the name
/// is safe to splice into a store command.
pub struct TableName {
    bytes: Vec<u8>,
}

impl View for TableName {
    type V = Seq<u8>;

    closed spec fn view(&self) -> Seq<u8> {
        self.bytes@
    }
}

impl TableName {
    #[verifier::type_invariant]
    closed spec fn type_inv(self) -> bool {
        valid_table_name(self.bytes@)
    }

    /// Validates a candidate name; rejected names never become values.
    pub fn parse(bytes: Vec<u8>) -> (r: Result<TableName, StorageError>)
        ensures
            match r {
                Ok(t) => t@ == bytes@ && valid_table_name(bytes@),
                Err(e) => e == StorageError::InvalidTableName && !valid_table_name(bytes@),
            },
    {
        if is_valid_table_name(&bytes) {
            Ok(TableName { bytes })
        } else {
            Err(StorageError::InvalidTableName)
        }
    }

    /// The validated identifier bytes.
    pub fn as_bytes(&self) -> (b: &Vec<u8>)
        ensures
            b@ == self@,
            valid_table_name(self@),
    {
        proof {
            use_type_invariant(self);
        }
        &self.bytes
    }

    /// An exact copy.
    pub fn duplicate(&self) -> (t: TableName)
        ensures
            t@ == self@,
    {
        proof {
            use_type_invariant(self);
        }
        TableName { bytes: clone_row(&self.bytes) }
    }
}

/// Where one batch is staged: the target table plus a batch token that the
/// scheduler never reuses.  Two flushes therefore never address the same
/// object, however their uploads interleave.
pub struct StagedAddress {
    pub table: Vec<u8>,
    pub token: u64,
}

impl View for StagedAddress {
    type V = (Seq<u8>, u64);

    open spec fn view(&self) -> (Seq<u8>, u64) {
        (self.table@, self.token)
    }
}

/// Distinct batch tokens give distinct staged addresses: no concurrent
/// flush can overwrite another's staged object.
pub proof fn lemma_addresses_distinct(a: StagedAddress, b: StagedAddress)
    requires
        a.token != b.token,
    ensures
        a@ != b@,
{
}

/// A batch ready for its upload: the staged payload and the address the
/// caller must upload it to.
pub struct PreparedBatch {
    pub address: StagedAddress,
    pub payload: Vec<u8>,
}

/// Serializes a drained batch into its staging payload and fixes the
/// address of the staged object.  Pure preparation: nothing is uploaded
/// or loaded here, and a failure of either later step leaves the batch
/// recoverable by the caller.
pub fn prepare_batch(table: &TableName, token: u64, records: &Vec<Vec<u8>>) -> (p: PreparedBatch)
    ensures
        p.payload@ == encoded(views_of(records@)),
        p.address@ == (table@, token),
{
    let payload = encode_batch(records);
    let address = StagedAddress { table: clone_row(table.as_bytes()), token };
    PreparedBatch { address, payload }
}

} // verus!
