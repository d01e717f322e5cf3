//! The recording index on the wire.
//!
//! The index is a list of recordings, each an id and the bytes of its
//! thumbnail. On the wire it is the number of recordings, then for each its
//! id, the length of its thumbnail and the thumbnail. Every number is a
//! little-endian `u64`. Bytes after the last recording are ignored.

use vstd::bytes::lemma_auto_spec_u64_to_from_le_bytes;
use vstd::bytes::spec_u64_from_le_bytes;
use vstd::bytes::spec_u64_to_le_bytes;
use vstd::prelude::*;

verus! {

/// A recording in the index: its id and its thumbnail.
pub type Recording = (u64, Seq<u8>);

/// Bytes in a number on the wire.
pub const NUMBER_SIZE: usize = 8;

/// Bytes in front of a thumbnail on the wire: the id and the length.
pub const ENTRY_HEADER_SIZE: usize = 16;

/// The mathematical value of a list of recordings held in memory.
pub open spec fn recordings(entries: Seq<(u64, Vec<u8>)>) -> Seq<Recording> {
    entries.map_values(|entry: (u64, Vec<u8>)| (entry.0, entry.1@))
}

/// Every length in the index fits a number on the wire.
pub open spec fn encodable(index: Seq<Recording>) -> bool {
    &&& index.len() <= u64::MAX
    &&& forall|i: int| 0 <= i < index.len() ==> (#[trigger] index[i]).1.len() <= u64::MAX
}

/// One recording on the wire.
pub open spec fn encode_recording(recording: Recording) -> Seq<u8> {
    spec_u64_to_le_bytes(recording.0) + spec_u64_to_le_bytes(recording.1.len() as u64)
        + recording.1
}

/// The recordings on the wire, one after the other.
pub open spec fn encode_recordings(index: Seq<Recording>) -> Seq<u8>
    decreases index.len(),
{
    if index.len() == 0 {
        Seq::empty()
    } else {
        encode_recording(index.first()) + encode_recordings(index.drop_first())
    }
}

/// The index on the wire.
pub open spec fn encode_index(index: Seq<Recording>) -> Seq<u8> {
    spec_u64_to_le_bytes(index.len() as u64) + encode_recordings(index)
}

/// The `count` recordings at the start of `bytes`, if `bytes` holds that
/// many.
pub open spec fn decode_recordings(bytes: Seq<u8>, count: nat) -> Option<Seq<Recording>>
    decreases count,
{
    if count == 0 {
        Some(Seq::empty())
    } else if bytes.len() < ENTRY_HEADER_SIZE {
        None
    } else {
        let id = spec_u64_from_le_bytes(bytes.subrange(0, NUMBER_SIZE as int));
        let length = spec_u64_from_le_bytes(
            bytes.subrange(NUMBER_SIZE as int, ENTRY_HEADER_SIZE as int),
        );
        if bytes.len() - ENTRY_HEADER_SIZE < length {
            None
        } else {
            let thumbnail = bytes.subrange(ENTRY_HEADER_SIZE as int, ENTRY_HEADER_SIZE + length);
            match decode_recordings(bytes.skip(ENTRY_HEADER_SIZE + length), (count - 1) as nat) {
                Some(rest) => Some(seq![(id, thumbnail)] + rest),
                None => None,
            }
        }
    }
}

/// The index at the start of `bytes`, if `bytes` holds one.
pub open spec fn decode_index(bytes: Seq<u8>) -> Option<Seq<Recording>> {
    if bytes.len() < NUMBER_SIZE {
        None
    } else {
        decode_recordings(
            bytes.skip(NUMBER_SIZE as int),
            spec_u64_from_le_bytes(bytes.subrange(0, NUMBER_SIZE as int)) as nat,
        )
    }
}

/// Decoding undoes the encoding of recordings, whatever follows them.
pub proof fn lemma_decode_recordings(index: Seq<Recording>, rest: Seq<u8>)
    requires
        encodable(index),
    ensures
        decode_recordings(encode_recordings(index) + rest, index.len()) == Some(index),
    decreases index.len(),
{
    lemma_auto_spec_u64_to_from_le_bytes();
    if index.len() == 0 {
        assert(index =~= Seq::<Recording>::empty());
    } else {
        let first = index.first();
        let others = index.drop_first();
        let tail = encode_recordings(others) + rest;
        let bytes = encode_recordings(index) + rest;
        let length = first.1.len();
        assert(encodable(others)) by {
            assert forall|i: int| 0 <= i < others.len() implies (#[trigger] others[i]).1.len()
                <= u64::MAX by {
                assert(others[i] == index[i + 1]);
            }
        }
        lemma_decode_recordings(others, rest);
        assert(bytes =~= encode_recording(first) + tail);
        assert(bytes.subrange(0, NUMBER_SIZE as int) =~= spec_u64_to_le_bytes(first.0));
        assert(bytes.subrange(NUMBER_SIZE as int, ENTRY_HEADER_SIZE as int)
            =~= spec_u64_to_le_bytes(length as u64));
        assert(bytes.subrange(ENTRY_HEADER_SIZE as int, ENTRY_HEADER_SIZE + length) =~= first.1);
        assert(bytes.skip(ENTRY_HEADER_SIZE + length) =~= tail);
        assert(seq![(first.0, first.1)] + others =~= index);
    }
}

/// Decoding undoes encoding, whatever follows the index on the wire.
pub proof fn lemma_decode_index(index: Seq<Recording>, rest: Seq<u8>)
    requires
        encodable(index),
    ensures
        decode_index(encode_index(index) + rest) == Some(index),
{
    lemma_auto_spec_u64_to_from_le_bytes();
    lemma_decode_recordings(index, rest);
    let bytes = encode_index(index) + rest;
    assert(bytes.subrange(0, NUMBER_SIZE as int) =~= spec_u64_to_le_bytes(index.len() as u64));
    assert(bytes.skip(NUMBER_SIZE as int) =~= encode_recordings(index) + rest);
}

/// `bincode::serialize` on a vector of pairs of a `u64` and a byte vector.
/// With the function's fixed-width little-endian settings a vector is
/// written as its length in eight bytes followed by its items, a pair as
/// its two parts, and a `u64` as eight bytes. Writing into memory does not
/// fail.
#[verifier::external_body]
pub(crate) fn bincode_serialize_index(entries: &Vec<(u64, Vec<u8>)>) -> (r: Result<
    Vec<u8>,
    Box<bincode::ErrorKind>,
>)
    ensures
        match r {
            Ok(bytes) => bytes@ == encode_index(recordings(entries@)),
            Err(_) => false,
        },
{
    bincode::serialize(entries)
}

/// `bincode::deserialize` into a vector of pairs of a `u64` and a byte
/// vector. It reads the number of items, then for each item eight bytes of
/// id, eight bytes of length and that many bytes, fails when the input ends
/// before that, and ignores what follows.
#[verifier::external_body]
pub(crate) fn bincode_deserialize_index(bytes: &[u8]) -> (r: Result<
    Vec<(u64, Vec<u8>)>,
    Box<bincode::ErrorKind>,
>)
    ensures
        match r {
            Ok(entries) => decode_index(bytes@) == Some(recordings(entries@)),
            Err(_) => decode_index(bytes@) is None,
        },
{
    bincode::deserialize::<Vec<(u64, Vec<u8>)>>(bytes)
}

} // verus!
