use vstd::prelude::*;

verus! {

/// Why the decoding of a block was abandoned.
///
/// Every one of these is fatal: the decoder that reports it yields nothing
/// afterwards.
#[derive(Clone, Copy, Debug, PartialEq, Eq, Structural)]
pub enum DecodeError {
    /// A string index does not address an entry of the block's string table.
    StringIndex,
    /// A relation member carries a type that is none of node, way, relation.
    MemberType,
    /// A running total of deltas left the range of its column's integer type.
    Overflow,
}

/// The result of decoding one entity or one part of it.
pub type Decoded<T> = Result<T, DecodeError>;

/// A decoded value as the mathematical value it stands for, and an error
/// as itself.
pub open spec fn view_of<T: View>(r: Decoded<T>) -> Decoded<T::V> {
    match r {
        Ok(v) => Ok(v@),
        Err(e) => Err(e),
    }
}

} // verus!
