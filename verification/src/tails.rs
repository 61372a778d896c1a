//! The tails store.
//!
//! Witness-precomputation entries are streamed into an in-memory blob
//! store, entry by entry, and hashed as one serialized stream; the content
//! hash is the sole integrity anchor. A reader is opened against a
//! location and an expected hash and fails before any entry can be read if
//! the stored content does not match; reads are random access and
//! range-checked. A blob is immutable once written.

use vstd::prelude::*;
use crate::errors::{ErrorKind, IssuerError};
use crate::numstr::{dec_digits, dec_value, is_dec_string, parse_dec, u32_to_dec};
use crate::primitives::{base58, base58_of, sha256, sha256_of};

verus! {

/// The concatenation of the entries: the serialized stream that is hashed.
pub open spec fn flatten_entries(entries: Seq<Seq<u8>>) -> Seq<u8>
    decreases entries.len(),
{
    if entries.len() == 0 {
        Seq::empty()
    } else {
        entries.first() + flatten_entries(entries.drop_first())
    }
}

/// The content hash of an entry sequence: base58 over SHA-256 of the
/// serialized stream.
pub open spec fn tails_hash_of(entries: Seq<Seq<u8>>) -> Seq<char> {
    base58_of(sha256_of(flatten_entries(entries)))
}

/// Appending an entry appends its bytes to the serialized stream.
proof fn lemma_flatten_push(entries: Seq<Seq<u8>>, e: Seq<u8>)
    ensures
        flatten_entries(entries.push(e)) == flatten_entries(entries) + e,
    decreases entries.len(),
{
    let p = entries.push(e);
    if entries.len() == 0 {
        assert(p.len() == 1);
        assert(p.first() == e);
        assert(p.drop_first() =~= Seq::<Seq<u8>>::empty());
        assert(flatten_entries(Seq::<Seq<u8>>::empty()) =~= Seq::<u8>::empty());
        assert(flatten_entries(p) =~= e + Seq::<u8>::empty());
        assert(flatten_entries(p) =~= e);
        assert(flatten_entries(entries) + e =~= e);
        assert(flatten_entries(p) =~= flatten_entries(entries) + e);
    } else {
        lemma_flatten_push(entries.drop_first(), e);
        assert(p.first() == entries.first());
        assert(p.drop_first() =~= entries.drop_first().push(e));
        assert(flatten_entries(p) == p.first() + flatten_entries(entries.drop_first().push(e)));
        assert(flatten_entries(p) =~= flatten_entries(entries) + e);
    }
}

/// Whether `location` is the decimal index of a stored blob.
pub open spec fn tails_location_ok(store: Seq<Seq<Seq<u8>>>, location: Seq<char>) -> bool {
    is_dec_string(location) && dec_value(location) <= u32::MAX && dec_value(location) < store.len()
}

/// Whether `location` names a stored blob whose content hash equals the
/// expected one: exactly when a reader can be opened.
pub open spec fn tails_reader_ok(
    store: Seq<Seq<Seq<u8>>>,
    location: Seq<char>,
    expected: Seq<char>,
) -> bool {
    tails_location_ok(store, location) && tails_hash_of(store[dec_value(location) as int])
        == expected
}

/// A handle onto one written blob, produced only by a successful
/// `open_reader`.
#[derive(Debug)]
pub struct TailsReader {
    pub location: u32,
}

/// An in-memory store of tails blobs; a location is the decimal index of a
/// blob.
pub struct TailsStore {
    blobs: Vec<Vec<Vec<u8>>>,
}

impl View for TailsStore {
    type V = Seq<Seq<Seq<u8>>>;

    closed spec fn view(&self) -> Seq<Seq<Seq<u8>>> {
        self.blobs.deep_view()
    }
}

impl TailsStore {
    /// An empty store.
    pub fn new() -> (r: TailsStore)
        ensures
            r@ == Seq::<Seq<Seq<u8>>>::empty(),
    {
        let r = TailsStore { blobs: Vec::new() };
        proof {
            assert(r@ =~= Seq::<Seq<Seq<u8>>>::empty());
        }
        r
    }

    /// Streams the entries into a fresh blob and returns its location and
    /// the content hash of the serialized stream.
    pub fn write(&mut self, entries: &Vec<Vec<u8>>) -> (r: (String, String))
        requires
            old(self)@.len() < u32::MAX,
        ensures
            final(self)@ == old(self)@.push(entries.deep_view()),
            r.0@ == dec_digits(old(self)@.len() as nat),
            r.1@ == tails_hash_of(entries.deep_view()),
    {
        let location = u32_to_dec(self.blobs.len() as u32);
        let mut blob: Vec<Vec<u8>> = Vec::new();
        let mut stream: Vec<u8> = Vec::new();
        let n = entries.len();
        let mut i: usize = 0;
        while i < n
            invariant
                0 <= i <= n == entries@.len(),
                blob.deep_view() =~= entries.deep_view().subrange(0, i as int),
                stream@ == flatten_entries(entries.deep_view().subrange(0, i as int)),
            decreases n - i,
        {
            let entry = &entries[i];
            stream.extend_from_slice(entry.as_slice());
            blob.push(entry.clone());
            proof {
                broadcast use vstd::std_specs::vec::vec_clone_deep_view_proof;

                let pre = entries.deep_view().subrange(0, i as int);
                let post = entries.deep_view().subrange(0, i + 1);
                assert(post =~= pre.push(entries.deep_view()[i as int]));
                lemma_flatten_push(pre, entries.deep_view()[i as int]);
                assert(entry.deep_view() == entries.deep_view()[i as int]);
                assert(blob.deep_view() =~= post);
                assert(entry@ == entries.deep_view()[i as int]);
                assert(stream@ =~= flatten_entries(post));
            }
            i = i + 1;
        }
        proof {
            assert(entries.deep_view().subrange(0, n as int) =~= entries.deep_view());
        }
        let digest = sha256(stream.as_slice());
        let hash = base58(digest.as_slice());
        let ghost blobs0 = self@;
        self.blobs.push(blob);
        proof {
            assert(self.blobs.deep_view() =~= blobs0.push(entries.deep_view()));
        }
        (location, hash)
    }

    /// Opens a reader onto the blob at `location`, verifying that the
    /// stored content's hash equals the expected one: the reader exists
    /// exactly when the location names a stored blob and the hash matches.
    /// An unknown location is not found; a hash mismatch is rejected
    /// before any entry can be read.
    pub fn open_reader(&self, location: &str, expected_hash: &str) -> (r: Result<
        TailsReader,
        IssuerError,
    >)
        ensures
            r is Ok <==> tails_reader_ok(self@, location@, expected_hash@),
            match r {
                Ok(rd) => rd.location as nat == dec_value(location@),
                Err(e) => (e.kind == ErrorKind::NotFound <==> !tails_location_ok(self@, location@))
                    && (e.kind == ErrorKind::InvalidStructure <==> tails_location_ok(
                    self@,
                    location@,
                ) && !tails_reader_ok(self@, location@, expected_hash@)),
            },
    {
        let idx = match parse_dec(location) {
            Some(v) => v,
            None => {
                return Err(IssuerError::for_id(ErrorKind::NotFound, location));
            },
        };
        if idx as usize >= self.blobs.len() {
            return Err(IssuerError::for_id(ErrorKind::NotFound, location));
        }
        let blob = &self.blobs[idx as usize];
        let mut stream: Vec<u8> = Vec::new();
        let n = blob.len();
        let mut i: usize = 0;
        while i < n
            invariant
                0 <= i <= n == blob@.len(),
                stream@ == flatten_entries(blob.deep_view().subrange(0, i as int)),
            decreases n - i,
        {
            stream.extend_from_slice(blob[i].as_slice());
            proof {
                let pre = blob.deep_view().subrange(0, i as int);
                let post = blob.deep_view().subrange(0, i + 1);
                assert(post =~= pre.push(blob.deep_view()[i as int]));
                lemma_flatten_push(pre, blob.deep_view()[i as int]);
                assert(stream@ =~= flatten_entries(post));
            }
            i = i + 1;
        }
        proof {
            assert(blob.deep_view().subrange(0, n as int) =~= blob.deep_view());
            assert(blob.deep_view() == self@[idx as int]);
        }
        let digest = sha256(stream.as_slice());
        let actual = base58(digest.as_slice());
        if !crate::strutil::str_eq(actual.as_str(), expected_hash) {
            return Err(IssuerError::for_id(ErrorKind::InvalidStructure, location));
        }
        Ok(TailsReader { location: idx })
    }

    /// Reads one entry of an opened blob by index; an index outside the
    /// blob is out of range.
    pub fn read(&self, reader: &TailsReader, index: u32) -> (r: Result<&Vec<u8>, IssuerError>)
        ensures
            match r {
                Ok(b) => reader.location < self@.len() && index < self@[reader.location as int].len()
                    && b@ == self@[reader.location as int][index as int],
                Err(e) => {
                    let loc = reader.location as int;
                    (reader.location >= self@.len() || index >= self@[loc].len()) && e.kind
                        == ErrorKind::InvalidStructure
                },
            },
    {
        if reader.location as usize >= self.blobs.len() {
            return Err(IssuerError::for_index(ErrorKind::InvalidStructure, index));
        }
        let blob = &self.blobs[reader.location as usize];
        if index as usize >= blob.len() {
            return Err(IssuerError::for_index(ErrorKind::InvalidStructure, index));
        }
        proof {
            assert(blob.deep_view() == self@[reader.location as int]);
            assert(blob@[index as int]@ == blob.deep_view()[index as int]);
        }
        Ok(&blob[index as usize])
    }

    /// The number of blobs written so far.
    pub fn len(&self) -> (r: usize)
        ensures
            r == self@.len(),
    {
        self.blobs.len()
    }
}

/// Reading after writing is the identity: every entry of a written blob
/// reads back byte-identical, at the location the write returned.
pub proof fn lemma_tails_round_trip(store: Seq<Seq<Seq<u8>>>, entries: Seq<Seq<u8>>, i: int)
    requires
        0 <= i < entries.len(),
    ensures
        store.push(entries)[store.len() as int][i] == entries[i],
{
}

} // verus!
