//! The bytes that a container is read from.

use vstd::prelude::*;
use vstd::slice::{slice_subrange, slice_to_vec};
use std::sync::Arc;
use crate::error::Error;

verus! {

/// A handle on the bytes of one container. Handles made from one another
/// share the bytes; none of them can change them.
#[derive(Debug)]
pub struct Source {
    data: Arc<Vec<u8>>,
}

impl View for Source {
    type V = Seq<u8>;

    closed spec fn view(&self) -> Seq<u8> {
        self.data@
    }
}

impl Source {
    /// A source over `bytes`.
    pub fn new(bytes: Vec<u8>) -> (r: Source)
        ensures
            r@ == bytes@,
    {
        Source { data: Arc::new(bytes) }
    }

    /// Another handle on the same bytes.
    pub fn handle(&self) -> (r: Source)
        ensures
            r@ == self@,
    {
        Source { data: self.data.clone() }
    }

    /// All the bytes.
    pub fn bytes(&self) -> (r: &[u8])
        ensures
            r@ == self@,
    {
        self.data.as_slice()
    }

    /// The number of bytes.
    pub fn size(&self) -> (r: usize)
        ensures
            r == self@.len(),
    {
        self.data.len()
    }

    /// The `len` bytes from `start` on.
    ///
    /// Fails with a source error exactly where the range does not lie within
    /// the bytes.
    pub fn fetch(&self, start: u64, len: u64) -> (r: Result<Vec<u8>, Error>)
        ensures
            match r {
                Ok(v) => start + len <= self@.len() && v@ == self@.subrange(
                    start as int,
                    start + len,
                ),
                Err(e) => e == Error::Source && start + len > self@.len(),
            },
    {
        let all = self.data.as_slice();
        let size: usize = all.len();
        if start <= size as u64 && len <= size as u64 - start {
            let from: usize = start as usize;
            let part = slice_subrange(all, from, from + len as usize);
            Ok(slice_to_vec(part))
        } else {
            Err(Error::Source)
        }
    }
}

} // verus!
