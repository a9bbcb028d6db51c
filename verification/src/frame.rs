//! The body model: a frame either carries opaque bytes or a trailer
//! header mapping, as HTTP/2 bodies do. Header names are case-insensitive
//! on the wire; this model keeps them lower-case, as the HTTP libraries
//! it stands for normalize them.

use vstd::prelude::*;

verus! {

/// The first value stored under `key`, scanning in insertion order.
pub open spec fn first_value(entries: Seq<(String, String)>, key: Seq<char>) -> Option<Seq<char>>
    decreases entries.len(),
{
    if entries.len() == 0 {
        None
    } else if entries[0].0@ == key {
        Some(entries[0].1@)
    } else {
        first_value(entries.drop_first(), key)
    }
}

/// A list of headers: lower-case names with their values, in insertion
/// order. Lookup returns the first value under a name.
pub struct Headers {
    pub entries: Vec<(String, String)>,
}

impl Headers {
    pub fn new() -> (r: Self)
        ensures
            r.entries@.len() == 0,
    {
        Headers { entries: Vec::new() }
    }

    /// Appends one header.
    pub fn push(&mut self, key: String, value: String)
        ensures
            final(self).entries@ == old(self).entries@.push((key, value)),
    {
        self.entries.push((key, value));
    }

    /// The first value under `key`, if any.
    pub fn get<'a>(&'a self, key: &String) -> (r: Option<&'a String>)
        ensures
            r matches Some(v) ==> first_value(self.entries@, key@) == Some(v@),
            r is None ==> first_value(self.entries@, key@) is None,
    {
        proof {
            assert(self.entries@.skip(0) =~= self.entries@);
        }
        let mut i: usize = 0;
        while i < self.entries.len()
            invariant
                i <= self.entries@.len(),
                first_value(self.entries@, key@) == first_value(
                    self.entries@.skip(i as int),
                    key@,
                ),
            decreases self.entries@.len() - i,
        {
            proof {
                assert(self.entries@.skip(i as int).drop_first() =~= self.entries@.skip(
                    i as int + 1,
                ));
            }
            if self.entries[i].0 == *key {
                return Some(&self.entries[i].1);
            }
            i += 1;
        }
        None
    }
}

/// One unit of an HTTP body: either opaque data bytes or a terminal
/// trailer header mapping.
pub enum Frame {
    Data(Vec<u8>),
    Trailers(Headers),
}

impl Frame {
    pub open spec fn is_data(&self) -> bool {
        self is Data
    }

    pub open spec fn is_trailers(&self) -> bool {
        self is Trailers
    }

    /// The bytes of a data frame.
    pub open spec fn spec_data(&self) -> Seq<u8>
        recommends
            self.is_data(),
    {
        self->Data_0@
    }
}

} // verus!
