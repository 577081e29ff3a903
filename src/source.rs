//! The byte source: a read-only memory map, seen as a sequence of bytes.
use vstd::prelude::*;

verus! {

#[verifier::external_type_specification]
#[verifier::external_body]
pub struct ExMmap(memmap::Mmap);

/// The bytes that a memory map exposes.
pub uninterp spec fn mapped_bytes(m: memmap::Mmap) -> Seq<u8>;

/// Relies on `<memmap::Mmap as Deref>::deref`: the mapping seen as one byte slice.
#[verifier::external_body]
pub(crate) fn mapped_slice(m: &memmap::Mmap) -> (r: &[u8])
    ensures
        r@ == mapped_bytes(*m),
{
    &m[..]
}

} // verus!
