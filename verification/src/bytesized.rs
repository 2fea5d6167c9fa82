//! The byte-footprint capability: every key and value type the cache can
//! store reports the heap bytes attributed to it for accounting.

use vstd::prelude::*;
use vstd::string::StringSliceAdditionalSpecFns;
use vstd::utf8::encode_utf8;

verus! {

/// A byte footprint, used by the cache to budget its memory.
pub trait ByteSized {
    /// The footprint as a mathematical value.
    spec fn spec_bytesize(&self) -> nat;

    /// The footprint in bytes.
    fn bytesize(&self) -> (r: usize)
        ensures
            r == self.spec_bytesize(),
    ;
}

impl ByteSized for Vec<u8> {
    open spec fn spec_bytesize(&self) -> nat {
        self@.len()
    }

    fn bytesize(&self) -> (r: usize)
        ensures
            r == self.spec_bytesize(),
    {
        self.len()
    }
}

impl ByteSized for String {
    open spec fn spec_bytesize(&self) -> nat {
        encode_utf8(self@).len()
    }

    fn bytesize(&self) -> (r: usize)
        ensures
            r == self.spec_bytesize(),
    {
        broadcast use vstd::slice::axiom_spec_len;

        let b = self.as_str().as_bytes();
        proof {
            assert(b@ == encode_utf8(self@));
        }
        b.len()
    }
}

} // verus!
