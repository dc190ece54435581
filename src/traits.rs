use vstd::prelude::*;

verus! {

pub type Hash = String;

/// Entities identified by a digest of their content.
pub trait Hashable {
    /// The hexadecimal content hash.
    spec fn content_hash(&self) -> Seq<char>;

    fn hash(&self) -> (r: Hash)
        ensures
            r@ == self.content_hash(),
    ;
}

} // verus!
