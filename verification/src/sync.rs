//! The synchronization object: one in-memory value bound to one file of an
//! [`Fs`] store, kept equal to the file's decoded contents.
//!
//! Every mutating operation clears the file and rewrites it from the value;
//! when a mutation fails, the value and the file may diverge, and the
//! contracts state exactly how.  Nothing here panics: every failure flows
//! through [`FileSyncError`].

use crate::codec::JsonCodec;
use crate::errors::ClearFileError;
use crate::errors::FileSyncError;
use crate::memfs::Fs;
use vstd::prelude::*;

verus! {

/// A value of type `T` synchronized with the file at a fixed path.
pub struct FileSync<T: JsonCodec> {
    data: T,
    path: String,
    cursor: usize,
    /// Whether future writes use the pretty formatting mode.  Changing it
    /// does not itself rewrite the file.
    pub pretty: bool,
}

impl<T: JsonCodec> FileSync<T> {
    /// The in-memory value.
    pub closed spec fn stored(self) -> T {
        self.data
    }

    /// The path of the backing file.
    pub closed spec fn path_spec(self) -> Seq<char> {
        self.path@
    }

    /// The formatting mode used for future writes.
    pub closed spec fn pretty_spec(self) -> bool {
        self.pretty
    }

    /// The handle's read/write position in the backing file.
    pub closed spec fn cursor_spec(self) -> nat {
        self.cursor as nat
    }

    /// The handle is usable against `fs`: its file exists and the cursor
    /// stands at the end, where the next write belongs.
    pub open spec fn attached(self, fs: Fs) -> bool {
        &&& fs@.contains_key(self.path_spec())
        &&& self.cursor_spec() == fs@[self.path_spec()].len()
    }

    /// The steady-state invariant: the file's full contents decode to
    /// exactly the in-memory value.
    pub open spec fn synced(self, fs: Fs) -> bool {
        &&& self.attached(fs)
        &&& T::decodes_to(fs@[self.path_spec()]) == Some(self.stored())
    }

    /// Creates a new synchronized file at `fp` holding `data`.
    ///
    /// Fails with `FileAlreadyExists` if `fp` is already occupied, leaving
    /// the store untouched.  Otherwise creates the file and writes the
    /// encoding of `data` into it; if encoding fails, the created file stays
    /// behind empty and `SerializationError` is returned.
    pub fn new(fs: &mut Fs, fp: &str, data: T, pretty: bool) -> (r: Result<Self, FileSyncError>)
        ensures
            r is Ok <==> (!old(fs)@.contains_key(fp@) && data.can_encode(pretty)),
            old(fs)@.contains_key(fp@) ==> final(fs)@ == old(fs)@ && (r matches Err(e) && e
                matches FileSyncError::FileAlreadyExists { fp: p } && p@ == fp@),
            !old(fs)@.contains_key(fp@) ==> final(fs)@ == old(fs)@.insert(
                fp@,
                final(fs)@[fp@],
            ),
            r matches Ok(s) ==> s.stored() == data && s.pretty_spec() == pretty && s.path_spec() == fp@
                && s.synced(*final(fs)) && final(fs)@[fp@] == data.encoding(pretty),
            !old(fs)@.contains_key(fp@) && !data.can_encode(pretty) ==> final(fs)@[fp@]
                == Seq::<u8>::empty() && (r matches Err(e) && e matches
                FileSyncError::SerializationError(_)),
    {
        if fs.contains_path(fp) {
            return Err(FileSyncError::FileAlreadyExists { fp: String::from_str(fp) });
        }
        fs.create(fp);
        let bytes = match data.encode(pretty) {
            Ok(b) => b,
            Err(e) => {
                return Err(FileSyncError::SerializationError(e));
            },
        };
        fs.append(fp, &bytes);
        proof {
            assert(fs@ =~= old(fs)@.insert(fp@, bytes@));
        }
        Ok(FileSync { data, path: String::from_str(fp), cursor: bytes.len(), pretty })
    }

    /// Loads a synchronized file from the existing file at `fp`.
    ///
    /// Fails with `IoError` if no file exists at `fp`, and with
    /// `SerializationError` if the contents do not decode.  `pretty` only
    /// affects future writes, not this read.
    pub fn load(fs: &Fs, fp: &str, pretty: bool) -> (r: Result<Self, FileSyncError>)
        ensures
            r is Ok <==> (fs@.contains_key(fp@) && T::decodes_to(fs@[fp@]) is Some),
            !fs@.contains_key(fp@) ==> (r matches Err(e) && e matches FileSyncError::IoError),
            fs@.contains_key(fp@) && T::decodes_to(fs@[fp@]) is None ==> (r matches Err(e) && e
                matches FileSyncError::SerializationError(_)),
            r matches Ok(s) ==> T::decodes_to(fs@[fp@]) == Some(s.stored()) && s.pretty_spec() == pretty
                && s.path_spec() == fp@ && s.synced(*fs),
    {
        if !fs.contains_path(fp) {
            return Err(FileSyncError::IoError);
        }
        let bytes = fs.read(fp);
        let data = match T::decode(&bytes) {
            Ok(v) => v,
            Err(e) => {
                return Err(FileSyncError::SerializationError(e));
            },
        };
        Ok(FileSync { data, path: String::from_str(fp), cursor: bytes.len(), pretty })
    }

    /// Loads from `fp` if a file exists there, and creates a new one holding
    /// `data` otherwise.
    pub fn load_or_new(fs: &mut Fs, fp: &str, data: T, pretty: bool) -> (r: Result<
        Self,
        FileSyncError,
    >)
        ensures
            old(fs)@.contains_key(fp@) ==> final(fs)@ == old(fs)@ && (r is Ok <==> T::decodes_to(
                old(fs)@[fp@],
            ) is Some) && (r matches Ok(s) ==> T::decodes_to(old(fs)@[fp@]) == Some(s.stored()))
                && (T::decodes_to(old(fs)@[fp@]) is None ==> (r matches Err(e) && e matches
                FileSyncError::SerializationError(_))),
            !old(fs)@.contains_key(fp@) ==> (r is Ok <==> data.can_encode(pretty)) && final(fs)@
                == old(fs)@.insert(fp@, final(fs)@[fp@]) && (r matches Ok(s) ==> s.stored()
                == data && final(fs)@[fp@] == data.encoding(pretty)) && (!data.can_encode(pretty)
                ==> final(fs)@[fp@] == Seq::<u8>::empty() && (r matches Err(e) && e matches
                FileSyncError::SerializationError(_))),
            r matches Ok(s) ==> s.pretty_spec() == pretty && s.path_spec() == fp@ && s.synced(*final(fs)),
    {
        if fs.contains_path(fp) {
            Self::load(fs, fp, pretty)
        } else {
            Self::new(fs, fp, data, pretty)
        }
    }

    /// A read-only view of the in-memory value.  Reading neither changes the
    /// value nor touches the store, so repeated calls return equal values.
    pub fn get(&self) -> (r: &T)
        ensures
            *r == self.stored(),
    {
        &self.data
    }

    /// Truncates the backing file to zero length, then repositions the
    /// cursor to the start: the two halves of the clear-then-rewrite cycle,
    /// each with its own failure tag.  The in-memory store fails neither.
    fn clear_file(&mut self, fs: &mut Fs) -> (r: Result<(), ClearFileError>)
        requires
            old(self).attached(*old(fs)),
        ensures
            r is Ok,
            final(self).stored() == old(self).stored(),
            final(self).pretty_spec() == old(self).pretty_spec(),
            final(self).path_spec() == old(self).path_spec(),
            final(self).attached(*final(fs)),
            final(fs)@ == old(fs)@.insert(old(self).path_spec(), Seq::<u8>::empty()),
    {
        fs.set_len_zero(self.path.as_str());
        self.cursor = 0;
        Ok(())
    }

    /// Replaces the stored value with `data` and rewrites the file.
    ///
    /// The file is cleared first and the encoding of `data` written into it;
    /// only on success does the in-memory value change.  If encoding fails,
    /// the value is left as it was but the file has already been truncated:
    /// the two have diverged, and the caller sees it in the error.
    pub fn set(&mut self, fs: &mut Fs, data: T) -> (r: Result<(), FileSyncError>)
        requires
            old(self).attached(*old(fs)),
        ensures
            r is Ok <==> data.can_encode(old(self).pretty_spec()),
            final(self).pretty_spec() == old(self).pretty_spec(),
            final(self).path_spec() == old(self).path_spec(),
            final(self).attached(*final(fs)),
            final(fs)@ == old(fs)@.insert(old(self).path_spec(), final(fs)@[old(self).path_spec()]),
            r is Ok ==> final(self).stored() == data && final(self).synced(*final(fs))
                && final(fs)@[old(self).path_spec()] == data.encoding(old(self).pretty_spec()),
            r is Err ==> final(self).stored() == old(self).stored() && final(fs)@[old(
                self,
            ).path_spec()] == Seq::<u8>::empty() && (r matches Err(e) && e matches
                FileSyncError::SerializationError(_)),
    {
        if let Err(e) = self.clear_file(fs) {
            return Err(FileSyncError::ClearFile(e));
        }
        let bytes = match data.encode(self.pretty) {
            Ok(b) => b,
            Err(e) => {
                return Err(FileSyncError::SerializationError(e));
            },
        };
        fs.append(self.path.as_str(), &bytes);
        self.cursor = bytes.len();
        self.data = data;
        proof {
            assert(fs@ =~= old(fs)@.insert(self.path_spec(), bytes@));
        }
        Ok(())
    }

    /// Applies `f` to the stored value, keeps its result in memory, and
    /// rewrites the file from it.
    ///
    /// `f` observes the current value; its result becomes the new in-memory
    /// value whether or not the rewrite succeeds.  If encoding the new value
    /// fails, the file has already been truncated and stays empty: memory
    /// and file have diverged, and the caller sees it in the error.
    pub fn modify<F: FnOnce(&T) -> T>(&mut self, fs: &mut Fs, f: F) -> (r: Result<
        (),
        FileSyncError,
    >)
        requires
            old(self).attached(*old(fs)),
            call_requires(f, (&old(self).stored(),)),
        ensures
            call_ensures(f, (&old(self).stored(),), final(self).stored()),
            r is Ok <==> final(self).stored().can_encode(old(self).pretty_spec()),
            final(self).pretty_spec() == old(self).pretty_spec(),
            final(self).path_spec() == old(self).path_spec(),
            final(self).attached(*final(fs)),
            final(fs)@ == old(fs)@.insert(old(self).path_spec(), final(fs)@[old(self).path_spec()]),
            r is Ok ==> final(self).synced(*final(fs)) && final(fs)@[old(self).path_spec()]
                == final(self).stored().encoding(old(self).pretty_spec()),
            r is Err ==> final(fs)@[old(self).path_spec()] == Seq::<u8>::empty() && (r matches
                Err(e) && e matches FileSyncError::SerializationError(_)),
    {
        let new_data = f(&self.data);
        self.data = new_data;
        if let Err(e) = self.clear_file(fs) {
            return Err(FileSyncError::ClearFile(e));
        }
        let bytes = match self.data.encode(self.pretty) {
            Ok(b) => b,
            Err(e) => {
                return Err(FileSyncError::SerializationError(e));
            },
        };
        fs.append(self.path.as_str(), &bytes);
        self.cursor = bytes.len();
        proof {
            assert(fs@ =~= old(fs)@.insert(self.path_spec(), bytes@));
        }
        Ok(())
    }
}

/// Round trip: while an object is synced with the store, its file decodes to
/// exactly the stored value, so loading the same path again is owed success
/// and returns an equal value (see the contract of [`FileSync::load`]).
/// `new` and every successful `set` or `modify` establish the premise.
pub proof fn lemma_synced_round_trip<T: JsonCodec>(s: FileSync<T>, fs: Fs)
    requires
        s.synced(fs),
    ensures
        fs@.contains_key(s.path_spec()),
        T::decodes_to(fs@[s.path_spec()]) == Some(s.stored()),
{
}

} // verus!
