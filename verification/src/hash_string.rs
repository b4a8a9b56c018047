use vstd::prelude::*;

verus! {

/// A string bundled with a hash of itself, computed once at construction so
/// that repeated hashing costs nothing.
#[derive(Debug, Hash)]
pub struct HashString {
    string: String,
    hash: u64,
}

/// Relies on `std::hash::Hasher` via `DefaultHasher`: hashes the string with
/// the default hasher. Nothing is promised of the digest.
#[verifier::external_body]
fn default_hash_of(s: &String) -> u64 {
    let mut h = std::collections::hash_map::DefaultHasher::new();
    std::hash::Hash::hash(s, &mut h);
    std::hash::Hasher::finish(&h)
}

impl HashString {
    /// The wrapped text.
    pub closed spec fn text(&self) -> Seq<char> {
        self.string@
    }

    pub fn new(string: String) -> (r: HashString)
        ensures
            r.text() == string@,
    {
        let hash = default_hash_of(&string);
        HashString { string, hash }
    }

    /// The wrapped text, for display.
    pub fn as_str(&self) -> (r: &str)
        ensures
            r@ == self.text(),
    {
        self.string.as_str()
    }
}

} // verus!
