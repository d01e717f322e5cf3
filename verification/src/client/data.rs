//! What the client holds of a host: the session cipher and the recordings
//! the host listed.

use crate::cipher::SessionKey;
use crate::client::error::Error;
use crate::wire::bincode_deserialize_index;
use crate::wire::decode_index;
use crate::wire::Recording;
use crate::wire::recordings;
use std::sync::Arc;
use vstd::prelude::*;

verus! {

/// The session cipher as the client hands it to each of its requests.
#[derive(Clone, Copy)]
pub struct SharedCipher(SessionKey);

impl View for SharedCipher {
    type V = Seq<u8>;

    closed spec fn view(&self) -> Seq<u8> {
        self.0@
    }
}

impl SharedCipher {
    /// The shared form of `cipher`.
    pub fn new(cipher: SessionKey) -> (shared: SharedCipher)
        ensures
            shared@ == cipher@,
    {
        SharedCipher(cipher)
    }

    /// The session key.
    pub fn key(&self) -> (key: &SessionKey)
        ensures
            key@ == self@,
    {
        &self.0
    }
}

/// The bytes of a thumbnail, shared with whatever draws it.
#[derive(Debug, Clone)]
pub struct Thumbnail(pub Arc<Vec<u8>>);

impl View for Thumbnail {
    type V = Seq<u8>;

    open spec fn view(&self) -> Seq<u8> {
        self.0@
    }
}

impl Thumbnail {
    /// The thumbnail made of the given bytes.
    pub fn from(value: Vec<u8>) -> (thumbnail: Thumbnail)
        ensures
            thumbnail@ == value@,
    {
        Thumbnail(Arc::new(value))
    }

    /// The bytes of the thumbnail.
    pub fn as_ref(&self) -> (bytes: &[u8])
        ensures
            bytes@ == self@,
    {
        self.0.as_slice()
    }
}

/// One recording as the host listed it.
#[derive(Debug, Clone)]
pub struct Entry {
    /// The id of the recording, the second at which it was taken.
    pub timestamp: u64,
    /// The thumbnail of the recording.
    pub thumbnail: Thumbnail,
}

impl View for Entry {
    type V = Recording;

    open spec fn view(&self) -> Recording {
        (self.timestamp, self.thumbnail@)
    }
}

impl Entry {
    /// The entry of a recording given as id and thumbnail.
    pub fn from(value: (u64, Vec<u8>)) -> (entry: Entry)
        ensures
            entry@ == (value.0, value.1@),
    {
        Entry { timestamp: value.0, thumbnail: Thumbnail::from(value.1) }
    }
}

/// The recordings the host listed, in the host's order.
#[derive(Debug, Clone)]
pub struct Entries(pub Vec<Entry>);

impl View for Entries {
    type V = Seq<Recording>;

    open spec fn view(&self) -> Seq<Recording> {
        self.0@.map_values(|entry: Entry| entry@)
    }
}

impl Entries {
    /// No recordings.
    pub fn new() -> (entries: Entries)
        ensures
            entries@ == Seq::<Recording>::empty(),
    {
        let entries = Entries(Vec::new());
        assert(entries@ =~= Seq::<Recording>::empty());
        entries
    }

    /// The entries of recordings given as ids and thumbnails, in their
    /// order.
    pub fn from(value: Vec<(u64, Vec<u8>)>) -> (entries: Entries)
        ensures
            entries@ == recordings(value@),
    {
        let ghost all = recordings(value@);
        let mut collection: Vec<Entry> = Vec::new();
        for element in it: value.into_iter()
            invariant
                it.seq() == value@,
                all == recordings(value@),
                (Entries(collection))@ == all.take(it.index()),
        {
            let ghost before = (Entries(collection))@;
            collection.push(Entry::from(element));
            assert((Entries(collection))@ =~= before.push((element.0, element.1@)));
            assert(all.take(it.index() + 1) =~= all.take(it.index()).push(all[it.index()]));
        }
        assert(all.take(all.len() as int) =~= all);
        Entries(collection)
    }

    /// The recordings that the start of `bytes` lists, or `DecodeFailure`
    /// when `bytes` holds no index.
    pub fn from_bytes(bytes: &[u8]) -> (r: Result<Entries, Error>)
        ensures
            match r {
                Ok(entries) => decode_index(bytes@) == Some(entries@),
                Err(e) => e == Error::DecodeFailure && decode_index(bytes@) is None,
            },
    {
        match bincode_deserialize_index(bytes) {
            Ok(pairs) => Ok(Entries::from(pairs)),
            Err(_) => Err(Error::DecodeFailure),
        }
    }

    /// The number of recordings.
    pub fn len(&self) -> (count: usize)
        ensures
            count == self@.len(),
    {
        self.0.len()
    }

    /// Drops every recording.
    pub fn clear(&mut self)
        ensures
            final(self)@ == Seq::<Recording>::empty(),
    {
        self.0.clear();
        assert(self@ =~= Seq::<Recording>::empty());
    }
}

} // verus!
