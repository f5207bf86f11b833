//! Which property lists can be handed to their reader. The reader keeps what it
//! reads in nested values, which take stack when they go; it repeats what a binary
//! list refers to twice; and it cannot hold a date of the last day of the year 9999
//! that is a later day in UTC. A list is guarded against all of these by its bytes;
//! every other list is handed to it.
use vstd::prelude::*;

use crate::plist_binary::{binary_is_safe, binary_magic, check_binary};
use crate::plist_text::{
    bytes_at, check_text, count_from, names_no_dates, shallow_lists_are_read, stand_at,
    text_is_safe,
};

verus! {

/// How deep the arrays and dictionaries of a list may be nested, so that the stack
/// of a thread holds what they take when they go.
pub const MAX_DEPTH: usize = 2048;

/// A list that the reader can be handed.
pub open spec fn plist_reads_safely(bytes: Seq<u8>) -> bool {
    if stand_at(bytes, 0, binary_magic()) {
        binary_is_safe(bytes)
    } else {
        text_is_safe(bytes)
    }
}

/// Tells whether a list can be handed to the reader.
pub fn reads_safely(bytes: &Vec<u8>) -> (result: bool)
    ensures
        result == plist_reads_safely(bytes@),
{
    let magic: Vec<u8> = vec![98, 112, 108, 105, 115, 116, 48, 48];
    assert(magic@ =~= binary_magic());
    if bytes_at(bytes, 0, &magic) {
        check_binary(bytes)
    } else {
        check_text(bytes)
    }
}

/// A list that is not in the binary form, holds no dates, and no more than 2048 tags
/// and as many brackets, is always handed to the reader.
pub proof fn plain_lists_are_read(bytes: Seq<u8>)
    requires
        bytes.len() > 0 ==> bytes[0] != 98,
        names_no_dates(bytes),
        count_from(bytes, seq![60u8], 0) <= 2048,
        count_from(bytes, seq![40u8, 123], 0) <= 2048,
    ensures
        plist_reads_safely(bytes),
{
    if stand_at(bytes, 0, binary_magic()) {
        assert(bytes.subrange(0, binary_magic().len() as int)[0] == binary_magic()[0]);
    }
    shallow_lists_are_read(bytes);
}

} // verus!
