//! The recording index, and which files the host may drop.
//!
//! A recording is listed only when both of its halves are in the directory:
//! a thumbnail and a video of the same id. The index holds the newest such
//! recordings first, up to a cap. It is computed from the directory as it is
//! at the time of the request and is never stored.

use crate::naming::artifact_name;
use crate::naming::FileExtension;
use crate::naming::lemma_artifact_name_injective;
use crate::naming::parse_file_name;
use crate::wire::bincode_serialize_index;
use crate::wire::decode_index;
use crate::wire::encodable;
use crate::wire::encode_index;
use crate::wire::lemma_decode_index;
use crate::wire::Recording;
use crate::wire::recordings;
use vstd::prelude::*;

verus! {

/// The number of recordings a client is shown at most, unless it is told
/// otherwise.
pub const DEFAULT_INDEX_CAP: usize = 25;

/// The file names of a directory listing as mathematical values.
pub open spec fn names(listing: Seq<Vec<u8>>) -> Seq<Seq<u8>> {
    listing.map_values(|name: Vec<u8>| name@)
}

/// Both halves of recording `id` are among `names`.
pub open spec fn is_complete(names: Seq<Seq<u8>>, id: u64) -> bool {
    &&& names.contains(artifact_name(id, FileExtension::JPG))
    &&& names.contains(artifact_name(id, FileExtension::H264))
}

/// Every id is greater than those after it.
pub open spec fn strictly_descending(ids: Seq<u64>) -> bool {
    forall|i: int, j: int| 0 <= i < j < ids.len() ==> ids[i] > ids[j]
}

/// `index` lists the newest complete recordings among `names`, newest
/// first, up to `cap` of them: it holds complete recordings only, each once,
/// and a complete recording is left out only when the index is full of newer
/// ones.
pub open spec fn is_index_of(index: Seq<u64>, names: Seq<Seq<u8>>, cap: nat) -> bool {
    &&& index.len() <= cap
    &&& strictly_descending(index)
    &&& forall|i: int| 0 <= i < index.len() ==> is_complete(names, #[trigger] index[i])
    &&& forall|id: u64|
        is_complete(names, id) && !index.contains(id) ==> index.len() == cap && forall|i: int|
            0 <= i < index.len() ==> #[trigger] index[i] > id
}

/// Two indexes of the same listing under the same cap agree up to position
/// `n`, as far as the first one goes.
proof fn lemma_index_agree(first: Seq<u64>, second: Seq<u64>, names: Seq<Seq<u8>>, cap: nat, n: int)
    requires
        is_index_of(first, names, cap),
        is_index_of(second, names, cap),
        0 <= n <= first.len(),
    ensures
        n <= second.len(),
        forall|i: int| 0 <= i < n ==> first[i] == second[i],
    decreases n,
{
    if n > 0 {
        lemma_index_agree(first, second, names, cap, n - 1);
        let i = n - 1;
        let id = first[i];
        assert(is_complete(names, id));
        // The second index cannot hold a greater id at this place: the first
        // index would have to hold it earlier, where the two agree.
        if i < second.len() && second[i] > id {
            let greater = second[i];
            assert(is_complete(names, greater));
            if first.contains(greater) {
                let p = choose|p: int| 0 <= p < first.len() && first[p] == greater;
                assert(p < i);
                assert(second[p] == greater);
            }
        }
        if second.contains(id) {
            let q = choose|q: int| 0 <= q < second.len() && second[q] == id;
            if q < i {
                assert(first[q] == id);
            }
            assert(q == i);
        } else {
            assert(second.len() == cap);
            assert(second[i] > id);
        }
    }
}

/// A listing has one index under a cap, and no other.
pub proof fn lemma_index_unique(first: Seq<u64>, second: Seq<u64>, names: Seq<Seq<u8>>, cap: nat)
    requires
        is_index_of(first, names, cap),
        is_index_of(second, names, cap),
    ensures
        first == second,
{
    lemma_index_agree(first, second, names, cap, first.len() as int);
    lemma_index_agree(second, first, names, cap, second.len() as int);
    assert(first =~= second);
}

/// The index of a listing under a cap.
pub open spec fn index_of(names: Seq<Seq<u8>>, cap: nat) -> Seq<u64> {
    choose|index: Seq<u64>| is_index_of(index, names, cap)
}

/// The ids of the recordings of which `listing` holds the given half.
fn ids_of_half(listing: &Vec<Vec<u8>>, half: FileExtension) -> (ids: Vec<u64>)
    ensures
        forall|id: u64| ids@.contains(id) <==> names(listing@).contains(artifact_name(id, half)),
{
    let mut ids: Vec<u64> = Vec::new();
    let mut k: usize = 0;
    while k < listing.len()
        invariant
            k <= listing@.len(),
            forall|id: u64|
                ids@.contains(id) <==> exists|i: int|
                    0 <= i < k && #[trigger] names(listing@)[i] == artifact_name(id, half),
        decreases listing@.len() - k,
    {
        let ghost before = ids@;
        let ghost name = names(listing@)[k as int];
        assert(name == listing@[k as int]@);
        match parse_file_name(listing[k].as_slice()) {
            Some((id, extension)) => {
                if extension == half {
                    ids.push(id);
                    assert(ids@ == before.push(id));
                    assert forall|other: u64|
                        ids@.contains(other) <==> exists|i: int|
                            0 <= i < k + 1 && #[trigger] names(listing@)[i] == artifact_name(
                                other,
                                half,
                            ) by {
                        if name == artifact_name(other, half) {
                            lemma_artifact_name_injective(id, extension, other, half);
                            assert(ids@[before.len() as int] == other);
                        }
                        if before.contains(other) {
                            let j = choose|j: int| 0 <= j < before.len() && before[j] == other;
                            assert(ids@[j] == other);
                        }
                        if other == id {
                            assert(names(listing@)[k as int] == artifact_name(other, half));
                        }
                    }
                } else {
                    assert forall|other: u64| name != artifact_name(other, half) by {
                        if name == artifact_name(other, half) {
                            lemma_artifact_name_injective(id, extension, other, half);
                        }
                    }
                }
            },
            None => {},
        }
        k += 1;
    }
    assert forall|id: u64|
        ids@.contains(id) <==> names(listing@).contains(artifact_name(id, half)) by {
        if names(listing@).contains(artifact_name(id, half)) {
            let i = choose|i: int|
                0 <= i < names(listing@).len() && names(listing@)[i] == artifact_name(id, half);
            assert(names(listing@)[i] == artifact_name(id, half));
        }
    }
    ids
}

/// Whether `id` is among `ids`.
fn contains_id(ids: &Vec<u64>, id: u64) -> (found: bool)
    ensures
        found == ids@.contains(id),
{
    let mut i: usize = 0;
    while i < ids.len()
        invariant
            i <= ids@.len(),
            forall|j: int| 0 <= j < i ==> ids@[j] != id,
        decreases ids@.len() - i,
    {
        if ids[i] == id {
            return true;
        }
        i += 1;
    }
    false
}

/// Puts `id` in its place among ids that are in descending order, unless it
/// is there already.
fn insert_descending(index: &mut Vec<u64>, id: u64)
    requires
        strictly_descending(old(index)@),
    ensures
        strictly_descending(final(index)@),
        forall|other: u64|
            final(index)@.contains(other) <==> old(index)@.contains(other) || other == id,
{
    let mut place: usize = 0;
    while place < index.len() && index[place] > id
        invariant
            place <= index@.len(),
            index@ == old(index)@,
            forall|j: int| 0 <= j < place ==> index@[j] > id,
        decreases index@.len() - place,
    {
        place += 1;
    }
    if place < index.len() && index[place] == id {
        return ;
    }
    let ghost before = index@;
    index.insert(place, id);
    proof {
        let after = index@;
        assert(after.len() == before.len() + 1);
        assert(forall|j: int| 0 <= j < place ==> after[j] == before[j]);
        assert(after[place as int] == id);
        assert(forall|j: int| place < j < after.len() ==> after[j] == before[j - 1]);
        assert forall|other: u64| after.contains(other) <==> before.contains(other) || other
            == id by {
            if before.contains(other) {
                let j = choose|j: int| 0 <= j < before.len() && before[j] == other;
                if j < place {
                    assert(after[j] == other);
                } else {
                    assert(after[j + 1] == other);
                }
            }
            if after.contains(other) && other != id {
                let j = choose|j: int| 0 <= j < after.len() && after[j] == other;
                if j < place {
                    assert(before[j] == other);
                } else {
                    assert(before[j - 1] == other);
                }
            }
        }
    }
}

/// One recording of the index: its id and its thumbnail.
#[derive(Debug, Clone)]
pub struct HostEntry {
    /// The id of the recording, the second at which it was taken.
    pub timestamp: u64,
    /// The bytes of the thumbnail.
    pub thumbnail: Vec<u8>,
}

impl HostEntry {
    /// The entry of the given recording.
    pub fn new(timestamp: u64, thumbnail: Vec<u8>) -> (entry: HostEntry)
        ensures
            entry.timestamp == timestamp,
            entry.thumbnail == thumbnail,
    {
        HostEntry { timestamp, thumbnail }
    }
}

/// The recording index as the host sends it.
#[derive(Debug)]
pub struct HostEntries(pub Vec<HostEntry>);

/// What reading the thumbnails gave, as mathematical values.
pub open spec fn thumbnails_read(thumbnails: Seq<Option<Vec<u8>>>) -> Seq<Option<Seq<u8>>> {
    thumbnails.map_values(
        |thumbnail: Option<Vec<u8>>|
            match thumbnail {
                Some(bytes) => Some(bytes@),
                None => None,
            },
    )
}

/// The recordings among the first `n` of `ids` whose thumbnail was read, in
/// the order of `ids`, each with its thumbnail. Position `i` of `thumbnails`
/// holds what reading the thumbnail of `ids[i]` gave.
pub open spec fn collected(ids: Seq<u64>, thumbnails: Seq<Option<Seq<u8>>>, n: nat) -> Seq<
    Recording,
>
    decreases n,
{
    if n == 0 {
        Seq::empty()
    } else {
        let before = collected(ids, thumbnails, (n - 1) as nat);
        if n <= ids.len() && n <= thumbnails.len() && thumbnails[n - 1] is Some {
            before.push((ids[n - 1], thumbnails[n - 1]->0))
        } else {
            before
        }
    }
}

/// Whatever was collected from `ids` is among `ids`.
pub proof fn lemma_collected_from_ids(ids: Seq<u64>, thumbnails: Seq<Option<Seq<u8>>>, n: nat)
    ensures
        forall|i: int|
            0 <= i < collected(ids, thumbnails, n).len() ==> ids.contains(
                (#[trigger] collected(ids, thumbnails, n)[i]).0,
            ),
    decreases n,
{
    if n > 0 {
        lemma_collected_from_ids(ids, thumbnails, (n - 1) as nat);
        let before = collected(ids, thumbnails, (n - 1) as nat);
        let now = collected(ids, thumbnails, n);
        assert forall|i: int| 0 <= i < now.len() implies ids.contains((#[trigger] now[i]).0) by {
            if i < before.len() {
                assert(now[i] == before[i]);
            } else {
                assert(now[i].0 == ids[n - 1]);
            }
        }
    }
}

/// A file of this name holds one half of a recording that is `seconds` old
/// or older at `now`.
pub open spec fn is_expired(name: Seq<u8>, now: u64, seconds: u64) -> bool {
    exists|id: u64, extension: FileExtension|
        name == #[trigger] artifact_name(id, extension) && now - id >= seconds
}

impl View for HostEntries {
    type V = Seq<Recording>;

    open spec fn view(&self) -> Seq<Recording> {
        self.0@.map_values(|entry: HostEntry| (entry.timestamp, entry.thumbnail@))
    }
}

impl HostEntries {
    /// The recording that a file of this name belongs to, if it is a
    /// recording's file.
    pub fn get_timestamp(filename: &[u8]) -> (id: Option<u64>)
        ensures
            match id {
                Some(found) => filename@ == artifact_name(found, FileExtension::JPG) || filename@
                    == artifact_name(found, FileExtension::H264),
                None => forall|other: u64, extension: FileExtension|
                    filename@ != artifact_name(other, extension),
            },
    {
        match parse_file_name(filename) {
            Some((found, _extension)) => Some(found),
            None => None,
        }
    }

    /// The half of a recording that a file of this name holds, if it is a
    /// recording's file.
    pub fn get_extension(filename: &[u8]) -> (extension: Option<FileExtension>)
        ensures
            extension matches Some(found) ==> exists|id: u64|
                filename@ == #[trigger] artifact_name(id, found),
            extension is None ==> forall|id: u64, other: FileExtension|
                filename@ != artifact_name(id, other),
    {
        match parse_file_name(filename) {
            Some((id, found)) => {
                assert(filename@ == artifact_name(id, found));
                Some(found)
            },
            None => None,
        }
    }

    /// The ids to list for a directory that holds the files of `listing`:
    /// the newest complete recordings, newest first, `cap` at most.
    pub fn select(listing: &Vec<Vec<u8>>, cap: usize) -> (index: Vec<u64>)
        ensures
            is_index_of(index@, names(listing@), cap as nat),
            index@ == index_of(names(listing@), cap as nat),
    {
        let thumbnails = ids_of_half(listing, FileExtension::JPG);
        let videos = ids_of_half(listing, FileExtension::H264);
        let mut index: Vec<u64> = Vec::new();
        let mut k: usize = 0;
        while k < thumbnails.len()
            invariant
                k <= thumbnails@.len(),
                strictly_descending(index@),
                forall|id: u64|
                    index@.contains(id) <==> videos@.contains(id) && exists|j: int|
                        0 <= j < k && thumbnails@[j] == id,
            decreases thumbnails@.len() - k,
        {
            let id = thumbnails[k];
            if contains_id(&videos, id) {
                insert_descending(&mut index, id);
            }
            k += 1;
        }
        let ghost all = index@;
        assert forall|id: u64| all.contains(id) <==> is_complete(names(listing@), id) by {
            if thumbnails@.contains(id) {
                let j = choose|j: int| 0 <= j < thumbnails@.len() && thumbnails@[j] == id;
                assert(thumbnails@[j] == id);
            }
        }
        index.truncate(cap);
        proof {
            assert forall|id: u64|
                is_complete(names(listing@), id) && !index@.contains(id) implies index@.len() == cap
                && forall|i: int| 0 <= i < index@.len() ==> #[trigger] index@[i] > id by {
                assert(all.contains(id));
                let p = choose|p: int| 0 <= p < all.len() && all[p] == id;
                if p < index@.len() {
                    assert(index@[p] == id);
                }
                assert forall|i: int| 0 <= i < index@.len() implies #[trigger] index@[i] > id by {
                    assert(index@[i] == all[i]);
                }
            }
            assert forall|i: int| 0 <= i < index@.len() implies is_complete(
                names(listing@),
                #[trigger] index@[i],
            ) by {
                assert(all[i] == index@[i]);
                assert(all.contains(all[i]));
            }
            lemma_index_unique(
                index@,
                index_of(names(listing@), cap as nat),
                names(listing@),
                cap as nat,
            );
        }
        index
    }

    /// The index made of the recordings among `ids` whose thumbnail was
    /// read. Position `i` of `thumbnails` holds what reading the thumbnail
    /// of `ids[i]` gave, or nothing where reading failed.
    pub fn collect(ids: &Vec<u64>, thumbnails: Vec<Option<Vec<u8>>>) -> (entries: HostEntries)
        ensures
            entries@ == collected(ids@, thumbnails_read(thumbnails@), ids@.len()),
    {
        let ghost read = thumbnails_read(thumbnails@);
        let count = thumbnails.len();
        let mut entries: Vec<HostEntry> = Vec::new();
        let mut i: usize = 0;
        for thumbnail in it: thumbnails.into_iter()
            invariant
                i == it.index(),
                it.seq() == thumbnails@,
                it.seq().len() == count,
                read == thumbnails_read(thumbnails@),
                (HostEntries(entries))@ == collected(ids@, read, i as nat),
        {
            let ghost before = (HostEntries(entries))@;
            if i < ids.len() {
                match thumbnail {
                    Some(bytes) => {
                        entries.push(HostEntry::new(ids[i], bytes));
                        assert((HostEntries(entries))@ =~= before.push((ids@[i as int], bytes@)));
                    },
                    None => {},
                }
            }
            i += 1;
        }
        proof {
            lemma_collected_beyond(ids@, read, i as nat);
            lemma_collected_beyond(ids@, read, ids@.len());
        }
        HostEntries(entries)
    }

    /// The index for a directory that holds the files of `listing`, given
    /// what reading the thumbnails of the selected recordings gave: the
    /// newest complete recordings whose thumbnail was read, newest first,
    /// `cap` at most. No recording is listed of which a half is missing.
    pub fn sync(listing: &Vec<Vec<u8>>, cap: usize, thumbnails: Vec<Option<Vec<u8>>>) -> (entries:
        HostEntries)
        ensures
            entries@ == collected(
                index_of(names(listing@), cap as nat),
                thumbnails_read(thumbnails@),
                index_of(names(listing@), cap as nat).len(),
            ),
            entries@.len() <= cap,
            forall|i: int|
                0 <= i < entries@.len() ==> is_complete(
                    names(listing@),
                    (#[trigger] entries@[i]).0,
                ),
    {
        let ids = Self::select(listing, cap);
        proof {
            lemma_collected_from_ids(ids@, thumbnails_read(thumbnails@), ids@.len());
            lemma_collected_len(ids@, thumbnails_read(thumbnails@), ids@.len());
        }
        Self::collect(&ids, thumbnails)
    }

    /// The positions in `listing` of the files to remove at `now`: the files
    /// of recordings that are `seconds` old or older, in the order of the
    /// listing.
    pub fn clean_older_than(listing: &Vec<Vec<u8>>, now: u64, seconds: u64) -> (doomed: Vec<usize>)
        ensures
            forall|i: int, j: int| 0 <= i < j < doomed@.len() ==> doomed@[i] < doomed@[j],
            forall|position: usize|
                doomed@.contains(position) <==> position < listing@.len() && is_expired(
                    names(listing@)[position as int],
                    now,
                    seconds,
                ),
    {
        let mut doomed: Vec<usize> = Vec::new();
        let mut k: usize = 0;
        while k < listing.len()
            invariant
                k <= listing@.len(),
                forall|i: int, j: int| 0 <= i < j < doomed@.len() ==> doomed@[i] < doomed@[j],
                forall|i: int| 0 <= i < doomed@.len() ==> doomed@[i] < k,
                forall|position: usize|
                    doomed@.contains(position) <==> position < k && is_expired(
                        names(listing@)[position as int],
                        now,
                        seconds,
                    ),
            decreases listing@.len() - k,
        {
            let ghost before = doomed@;
            let ghost name = names(listing@)[k as int];
            assert(name == listing@[k as int]@);
            let expired = match parse_file_name(listing[k].as_slice()) {
                Some((id, extension)) => {
                    let old_enough = now >= id && now - id >= seconds;
                    proof {
                        assert forall|other: u64, half: FileExtension|
                            name == artifact_name(other, half) implies other == id by {
                            lemma_artifact_name_injective(id, extension, other, half);
                        }
                        if old_enough {
                            assert(name == artifact_name(id, extension) && now - id >= seconds);
                        }
                    }
                    old_enough
                },
                None => false,
            };
            assert(expired == is_expired(name, now, seconds));
            if expired {
                doomed.push(k);
                assert(doomed@ == before.push(k));
                assert(doomed@[before.len() as int] == k);
                assert forall|position: usize| before.contains(position) implies doomed@.contains(
                    position,
                ) by {
                    let j = choose|j: int| 0 <= j < before.len() && before[j] == position;
                    assert(doomed@[j] == position);
                }
            }
            assert forall|position: usize|
                doomed@.contains(position) <==> position < k + 1 && is_expired(
                    names(listing@)[position as int],
                    now,
                    seconds,
                ) by {
                if doomed@.contains(position) {
                    let j = choose|j: int| 0 <= j < doomed@.len() && doomed@[j] == position;
                    if j < before.len() {
                        assert(before[j] == position);
                        assert(before.contains(position));
                    } else {
                        assert(position == k);
                    }
                }
                if position < k && is_expired(names(listing@)[position as int], now, seconds) {
                    assert(before.contains(position));
                    let j = choose|j: int| 0 <= j < before.len() && before[j] == position;
                    assert(doomed@[j] == position);
                }
                if position == k && expired {
                    assert(doomed@[before.len() as int] == position);
                }
            }
            k += 1;
        }
        doomed
    }

    /// The index on the wire. Decoding the bytes gives the index back.
    pub fn into_bytes(self) -> (bytes: Vec<u8>)
        ensures
            bytes@ == encode_index(self@),
            decode_index(bytes@) == Some(self@),
    {
        let ghost index = self@;
        let mut pairs: Vec<(u64, Vec<u8>)> = Vec::new();
        for entry in it: self.0.into_iter()
            invariant
                it.seq() == self.0@,
                index == self@,
                recordings(pairs@) == index.take(it.index()),
        {
            let ghost before = recordings(pairs@);
            pairs.push((entry.timestamp, entry.thumbnail));
            assert(recordings(pairs@) =~= before.push((entry.timestamp, entry.thumbnail@)));
            assert(index.take(it.index() + 1) =~= index.take(it.index()).push(index[it.index()]));
        }
        proof {
            assert(index.take(index.len() as int) =~= index);
            assert(encodable(index)) by {
                assert forall|i: int| 0 <= i < index.len() implies (#[trigger] index[i]).1.len()
                    <= u64::MAX by {
                    assert(self.0@[i].thumbnail.len() <= usize::MAX);
                }
                assert(self.0.len() <= usize::MAX);
            }
            lemma_decode_index(index, Seq::empty());
            assert(encode_index(index) + Seq::<u8>::empty() =~= encode_index(index));
        }
        match bincode_serialize_index(&pairs) {
            Ok(bytes) => bytes,
            Err(_) => Vec::new(),
        }
    }
}

/// Collecting stops at the end of the shorter of the two lists.
proof fn lemma_collected_beyond(ids: Seq<u64>, thumbnails: Seq<Option<Seq<u8>>>, n: nat)
    ensures
        n >= ids.len() || n >= thumbnails.len() ==> collected(ids, thumbnails, n) == collected(
            ids,
            thumbnails,
            if ids.len() <= thumbnails.len() {
                ids.len()
            } else {
                thumbnails.len()
            },
        ),
    decreases n,
{
    if n > 0 && (n > ids.len() || n > thumbnails.len()) {
        lemma_collected_beyond(ids, thumbnails, (n - 1) as nat);
    }
}

/// No more is collected than there are ids.
proof fn lemma_collected_len(ids: Seq<u64>, thumbnails: Seq<Option<Seq<u8>>>, n: nat)
    ensures
        collected(ids, thumbnails, n).len() <= n,
        collected(ids, thumbnails, n).len() <= ids.len(),
    decreases n,
{
    if n > 0 {
        lemma_collected_len(ids, thumbnails, (n - 1) as nat);
    }
}

} // verus!
