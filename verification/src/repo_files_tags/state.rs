//! The tags that a repository keeps on the remote copy of a file.
use vstd::prelude::*;

use crate::hex_text::{hex_encode, hex_lower};
use crate::keymap::KeyMap;

verus! {

/// The hash of the encrypted content and of the content, as bytes, and the
/// tags this library does not know, each kept as its encoded value.
#[derive(Debug)]
pub struct RepoFileTags {
    pub encrypted_hash: Option<Vec<u8>>,
    pub hash: Option<Vec<u8>>,
    pub unknown: KeyMap<String, Vec<u8>>,
}

impl RepoFileTags {
    /// The hash of the encrypted content, in lower-case hex.
    pub fn encrypted_hash_hex(&self) -> (r: Option<String>)
        ensures
            match self.encrypted_hash {
                Some(h) => r matches Some(s) && s@ == hex_lower(h@),
                None => r is None,
            },
    {
        match &self.encrypted_hash {
            Some(h) => Some(hex_encode(h)),
            None => None,
        }
    }

    /// The hash of the content, in lower-case hex.
    pub fn hash_hex(&self) -> (r: Option<String>)
        ensures
            match self.hash {
                Some(h) => r matches Some(s) && s@ == hex_lower(h@),
                None => r is None,
            },
    {
        match &self.hash {
            Some(h) => Some(hex_encode(h)),
            None => None,
        }
    }
}


/// Optional bytes, by value.
pub open spec fn opt_bytes_view(o: Option<Vec<u8>>) -> Option<Seq<u8>> {
    match o {
        Some(v) => Some(v@),
        None => None,
    }
}

fn copy_opt_bytes(o: &Option<Vec<u8>>) -> (r: Option<Vec<u8>>)
    ensures
        match *o {
            Some(v) => r matches Some(w) && w@ == v@,
            None => r is None,
        },
{
    match o {
        Some(v) => Some(crate::strings::copy_bytes(v)),
        None => None,
    }
}

/// The same keys, each with the same bytes.
pub open spec fn same_encoded_values(
    a: Map<Seq<char>, Vec<u8>>,
    b: Map<Seq<char>, Vec<u8>>,
) -> bool {
    &&& a.dom() == b.dom()
    &&& forall|k: Seq<char>| #[trigger] a.contains_key(k) ==> a[k]@ == b[k]@
}

fn copy_unknown(m: &KeyMap<String, Vec<u8>>) -> (r: KeyMap<String, Vec<u8>>)
    ensures
        same_encoded_values(r@, m@),
{
    let keys = m.keys();
    let mut r: KeyMap<String, Vec<u8>> = KeyMap::new();
    let n = keys.len();
    let mut i: usize = 0;
    while i < n
        invariant
            n == keys@.len(),
            i <= n,
            forall|j: int| 0 <= j < keys@.len() ==> m@.contains_key(#[trigger] keys@[j]@),
            forall|k: Seq<char>|
                #[trigger] r@.contains_key(k) <==> exists|j: int| 0 <= j < i && keys@[j]@ == k,
            forall|k: Seq<char>| #[trigger] r@.contains_key(k) ==> m@.contains_key(k) && r@[k]@ == m@[k]@,
        decreases n - i,
    {
        let k = &keys[i];
        match m.get(k) {
            Some(v) => {
                r.insert(crate::strings::copy_str(k.as_str()), crate::strings::copy_bytes(v));
                proof {
                    assert forall|q: Seq<char>| #[trigger] r@.contains_key(q) implies exists|j: int|
                        0 <= j < i + 1 && keys@[j]@ == q by {
                        if q == k@ {
                            assert(keys@[i as int]@ == q);
                        }
                    }
                }
            },
            None => {},
        }
        i = i + 1;
    }
    proof {
        assert forall|k: Seq<char>| #[trigger] m@.contains_key(k) implies r@.contains_key(k) by {
            let j = choose|j: int| 0 <= j < keys@.len() && keys@[j]@ == k;
            assert(keys@[j]@ == k);
        }
        assert(r@.dom() =~= m@.dom());
    }
    r
}

impl RepoFileTags {
    /// A copy of the tags.
    pub fn copy(&self) -> (r: Self)
        ensures
            opt_bytes_view(r.encrypted_hash) == opt_bytes_view(self.encrypted_hash),
            opt_bytes_view(r.hash) == opt_bytes_view(self.hash),
            same_encoded_values(r.unknown@, self.unknown@),
    {
        RepoFileTags {
            encrypted_hash: copy_opt_bytes(&self.encrypted_hash),
            hash: copy_opt_bytes(&self.hash),
            unknown: copy_unknown(&self.unknown),
        }
    }
}

} // verus!
