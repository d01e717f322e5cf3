use laptev::client::data::Entries;
use laptev::client::data::Entry;
use laptev::client::data::Thumbnail;
use laptev::client::error::Error;
use laptev::host::database::HostEntries;
use laptev::host::database::HostEntry;

fn entries_of(pairs: &[(u64, &[u8])]) -> HostEntries {
    HostEntries(pairs.iter().map(|(id, bytes)| HostEntry::new(*id, bytes.to_vec())).collect())
}

fn pairs_of(entries: &Entries) -> Vec<(u64, Vec<u8>)> {
    entries.0.iter().map(|entry| (entry.timestamp, entry.thumbnail.as_ref().to_vec())).collect()
}

#[test]
fn an_empty_index_is_eight_zero_bytes() {
    assert_eq!(entries_of(&[]).into_bytes(), vec![0u8; 8]);
}

#[test]
fn an_index_is_written_as_count_ids_lengths_and_thumbnails() {
    let bytes = entries_of(&[(0x0102, b"ab"), (3, b"")]).into_bytes();
    let expected: Vec<u8> = vec![
        2, 0, 0, 0, 0, 0, 0, 0, // two recordings
        2, 1, 0, 0, 0, 0, 0, 0, // the id of the first
        2, 0, 0, 0, 0, 0, 0, 0, // the length of its thumbnail
        97, 98, // its thumbnail
        3, 0, 0, 0, 0, 0, 0, 0, // the id of the second
        0, 0, 0, 0, 0, 0, 0, 0, // the length of its thumbnail
    ];
    assert_eq!(bytes, expected);
}

#[test]
fn the_wire_form_of_an_index_is_that_of_bincode() {
    let pairs: Vec<(u64, Vec<u8>)> =
        vec![(u64::MAX, vec![1, 2, 3]), (0, Vec::new()), (77, vec![0; 300])];
    let entries = HostEntries(
        pairs.iter().map(|(id, bytes)| HostEntry::new(*id, bytes.clone())).collect(),
    );
    assert_eq!(entries.into_bytes(), bincode::serialize(&pairs).unwrap());
}

#[test]
fn reading_undoes_writing() {
    let bytes = entries_of(&[(9, b"nine"), (8, b""), (1, b"x")]).into_bytes();
    let entries = Entries::from_bytes(&bytes).unwrap();
    assert_eq!(
        pairs_of(&entries),
        vec![(9, b"nine".to_vec()), (8, Vec::new()), (1, b"x".to_vec())]
    );
    assert_eq!(entries.len(), 3);
}

#[test]
fn bytes_after_the_index_are_ignored() {
    let mut bytes = entries_of(&[(9, b"nine")]).into_bytes();
    bytes.extend_from_slice(b"more");
    let entries = Entries::from_bytes(&bytes).unwrap();
    assert_eq!(pairs_of(&entries), vec![(9, b"nine".to_vec())]);
}

#[test]
fn a_cut_index_is_no_index() {
    let bytes = entries_of(&[(9, b"nine"), (8, b"eight")]).into_bytes();
    for length in 0..bytes.len() {
        assert!(matches!(Entries::from_bytes(&bytes[..length]), Err(Error::DecodeFailure)));
    }
    assert!(Entries::from_bytes(&bytes).is_ok());
}

#[test]
fn a_count_beyond_the_bytes_is_no_index() {
    let mut bytes = vec![255u8; 8];
    bytes.extend_from_slice(&[0; 64]);
    assert!(matches!(Entries::from_bytes(&bytes), Err(Error::DecodeFailure)));
    let mut length = vec![1u8, 0, 0, 0, 0, 0, 0, 0];
    length.extend_from_slice(&[5, 0, 0, 0, 0, 0, 0, 0]);
    length.extend_from_slice(&[255; 8]);
    length.extend_from_slice(&[0; 16]);
    assert!(matches!(Entries::from_bytes(&length), Err(Error::DecodeFailure)));
}

#[test]
fn entries_are_made_of_pairs_in_their_order() {
    let entries = Entries::from(vec![(5, vec![1u8]), (4, vec![2u8, 3])]);
    assert_eq!(pairs_of(&entries), vec![(5, vec![1u8]), (4, vec![2u8, 3])]);
    let entry = Entry::from((6, vec![9u8]));
    assert_eq!(entry.timestamp, 6);
    assert_eq!(entry.thumbnail.as_ref(), &[9u8]);
    let thumbnail = Thumbnail::from(vec![1u8, 2]);
    assert_eq!(thumbnail.as_ref(), &[1u8, 2]);
    assert_eq!(*thumbnail.0, vec![1u8, 2]);
}

#[test]
fn new_entries_are_empty_and_clearing_empties() {
    assert_eq!(Entries::new().len(), 0);
    let mut entries = Entries::from(vec![(5, vec![1u8])]);
    assert_eq!(entries.len(), 1);
    entries.clear();
    assert_eq!(entries.len(), 0);
}
