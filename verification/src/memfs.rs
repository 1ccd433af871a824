//! An in-memory filesystem: a map from paths to byte contents.
//!
//! This models the store underneath a synchronized file — existence check,
//! create, read, truncate and append — as plain values, so that the logic
//! above it can be verified.  The view of an `Fs` is the map from each
//! path to the bytes its file holds.

use vstd::prelude::*;

verus! {

/// A path-to-contents store.
pub struct Fs {
    files: vstd::hash_map::StringHashMap<Vec<u8>>,
}

impl View for Fs {
    type V = Map<Seq<char>, Seq<u8>>;

    closed spec fn view(&self) -> Map<Seq<char>, Seq<u8>> {
        Map::new(
            |k: Seq<char>| self.files@.contains_key(k),
            |k: Seq<char>| self.files@[k]@,
        )
    }
}

impl Fs {
    /// An empty store.
    pub fn new() -> (r: Fs)
        ensures
            r@ == Map::<Seq<char>, Seq<u8>>::empty(),
    {
        let r = Fs { files: vstd::hash_map::StringHashMap::new() };
        proof {
            assert(r@ =~= Map::<Seq<char>, Seq<u8>>::empty());
        }
        r
    }

    /// Whether a file exists at `path`.
    pub fn contains_path(&self, path: &str) -> (r: bool)
        ensures
            r == self@.contains_key(path@),
    {
        self.files.contains_key(path)
    }

    /// Creates an empty file at `path`.
    pub fn create(&mut self, path: &str)
        requires
            !old(self)@.contains_key(path@),
        ensures
            final(self)@ == old(self)@.insert(path@, Seq::<u8>::empty()),
    {
        self.files.insert(String::from_str(path), Vec::new());
        proof {
            assert(self@ =~= old(self)@.insert(path@, Seq::<u8>::empty()));
        }
    }

    /// Reads the full contents of the file at `path`.
    pub fn read(&self, path: &str) -> (r: Vec<u8>)
        requires
            self@.contains_key(path@),
        ensures
            r@ == self@[path@],
    {
        let stored = self.files.get(path).unwrap();
        let mut out: Vec<u8> = Vec::new();
        let mut i: usize = 0;
        while i < stored.len()
            invariant
                i <= stored.len(),
                out@ == stored@.subrange(0, i as int),
            decreases stored.len() - i,
        {
            out.push(stored[i]);
            proof {
                assert(out@ =~= stored@.subrange(0, i + 1));
            }
            i = i + 1;
        }
        proof {
            assert(stored@.subrange(0, stored@.len() as int) =~= stored@);
        }
        out
    }

    /// Truncates the file at `path` to zero length.
    pub fn set_len_zero(&mut self, path: &str)
        requires
            old(self)@.contains_key(path@),
        ensures
            final(self)@ == old(self)@.insert(path@, Seq::<u8>::empty()),
    {
        self.files.insert(String::from_str(path), Vec::new());
        proof {
            assert(self@ =~= old(self)@.insert(path@, Seq::<u8>::empty()));
        }
    }

    /// Appends `buf` at the end of the file at `path`.
    pub fn append(&mut self, path: &str, buf: &Vec<u8>)
        requires
            old(self)@.contains_key(path@),
        ensures
            final(self)@ == old(self)@.insert(path@, old(self)@[path@] + buf@),
    {
        let mut contents = self.read(path);
        let mut i: usize = 0;
        while i < buf.len()
            invariant
                i <= buf.len(),
                contents@ == old(self)@[path@] + buf@.subrange(0, i as int),
                *self == *old(self),
            decreases buf.len() - i,
        {
            contents.push(buf[i]);
            proof {
                assert(old(self)@[path@] + buf@.subrange(0, i + 1) =~= (old(self)@[path@]
                    + buf@.subrange(0, i as int)).push(buf@[i as int]));
            }
            i = i + 1;
        }
        self.files.insert(String::from_str(path), contents);
        proof {
            assert(buf@.subrange(0, buf@.len() as int) =~= buf@);
            assert(self@ =~= old(self)@.insert(path@, old(self)@[path@] + buf@));
        }
    }
}

} // verus!
