//! How the ledger names what it creates: an identifier is the BLAKE2b-256
//! digest of bytes that say what is created, and when.

use vstd::prelude::*;
use vstd::bytes::{spec_u64_to_le_bytes, u64_to_le_bytes};
use sp_runtime::traits::BlakeTwo256;
use crate::types::Id;

verus! {

/// The BLAKE2b-256 digest of a byte sequence.
pub uninterp spec fn blake2_256(data: Seq<u8>) -> Id;

/// `BlakeTwo256::hash` of `sp_runtime`: the BLAKE2b-256 digest of the bytes,
/// which depends on the bytes alone.
#[verifier::external_body]
pub(crate) fn blake2_256_of(data: &Vec<u8>) -> (digest: Id)
    ensures
        digest == blake2_256(data@),
{
    <BlakeTwo256 as sp_runtime::traits::Hash>::hash(data).0
}

/// The bytes that name this ledger.
pub open spec fn spec_scope_preimage() -> Seq<u8> {
    seq![112u8, 121u8, 47u8, 112u8, 114u8, 111u8, 120u8, 121u8]
}

/// What names a project: its title, and the ledger time of its creation as
/// eight bytes, lowest first.
pub open spec fn spec_project_preimage(title: Seq<u8>, now: u64) -> Seq<u8> {
    title + spec_u64_to_le_bytes(now)
}

/// What names an expenditure: its project, its name, and the ledger time of
/// its creation as eight bytes, lowest first.
pub open spec fn spec_expenditure_preimage(project: Id, name: Seq<u8>, now: u64) -> Seq<u8> {
    project@ + name + spec_u64_to_le_bytes(now)
}

/// The global scope of this ledger.
pub open spec fn spec_global_scope_id() -> Id {
    blake2_256(spec_scope_preimage())
}

/// The identifier of a project.
pub open spec fn spec_project_id(title: Seq<u8>, now: u64) -> Id {
    blake2_256(spec_project_preimage(title, now))
}

/// The identifier of an expenditure.
pub open spec fn spec_expenditure_id(project: Id, name: Seq<u8>, now: u64) -> Id {
    blake2_256(spec_expenditure_preimage(project, name, now))
}

/// Appends the bytes of one vector to another.
fn append_bytes(bytes: &mut Vec<u8>, more: &Vec<u8>)
    ensures
        final(bytes)@ == old(bytes)@ + more@,
{
    let ghost start = bytes@;
    let mut i: usize = 0;
    while i < more.len()
        invariant
            i <= more.len(),
            bytes@ == start + more@.take(i as int),
        decreases more.len() - i,
    {
        bytes.push(more[i]);
        assert(more@.take(i + 1) =~= more@.take(i as int).push(more@[i as int]));
        assert(bytes@ =~= start + more@.take(i + 1));
        i += 1;
    }
    assert(more@.take(more.len() as int) =~= more@);
}

/// The bytes of an identifier as a vector.
fn id_bytes(id: &Id) -> (bytes: Vec<u8>)
    ensures
        bytes@ == id@,
{
    let mut bytes: Vec<u8> = Vec::new();
    let mut i: usize = 0;
    while i < 32
        invariant
            i <= 32,
            bytes@ == id@.take(i as int),
        decreases 32 - i,
    {
        bytes.push(id[i]);
        assert(id@.take(i + 1) =~= id@.take(i as int).push(id@[i as int]));
        i += 1;
    }
    assert(id@.take(32) =~= id@);
    bytes
}

/// The global scope of this ledger.
#[verifier::when_used_as_spec(spec_global_scope_id)]
pub fn global_scope_id() -> (scope: Id)
    ensures
        scope == spec_global_scope_id(),
{
    let mut bytes: Vec<u8> = Vec::new();
    bytes.push(112u8);
    bytes.push(121u8);
    bytes.push(47u8);
    bytes.push(112u8);
    bytes.push(114u8);
    bytes.push(111u8);
    bytes.push(120u8);
    bytes.push(121u8);
    assert(bytes@ =~= spec_scope_preimage());
    blake2_256_of(&bytes)
}

/// The identifier of the project with this title that is created at this
/// ledger time.
pub fn project_id(title: &Vec<u8>, now: u64) -> (id: Id)
    ensures
        id == spec_project_id(title@, now),
{
    let mut bytes: Vec<u8> = Vec::new();
    append_bytes(&mut bytes, title);
    let stamp = u64_to_le_bytes(now);
    append_bytes(&mut bytes, &stamp);
    assert(bytes@ =~= spec_project_preimage(title@, now));
    blake2_256_of(&bytes)
}

/// The identifier of the expenditure with this name that is created in this
/// project at this ledger time.
pub fn expenditure_id(project: &Id, name: &Vec<u8>, now: u64) -> (id: Id)
    ensures
        id == spec_expenditure_id(*project, name@, now),
{
    let mut bytes = id_bytes(project);
    append_bytes(&mut bytes, name);
    let stamp = u64_to_le_bytes(now);
    append_bytes(&mut bytes, &stamp);
    assert(bytes@ =~= spec_expenditure_preimage(*project, name@, now));
    blake2_256_of(&bytes)
}

} // verus!
