//! The names of the files that make up a recording.
//!
//! A recording is a pair of files in one directory: a thumbnail and a video,
//! both named by the recording's id in decimal, without sign or leading
//! zeros, followed by a dot and the extension of the half. Any other file
//! name belongs to no recording.

use vstd::prelude::*;
use vstd::slice::slice_subrange;

verus! {

/// Which half of a recording a file holds.
#[derive(Debug, Clone, Copy, PartialEq, Eq, Structural)]
pub enum FileExtension {
    /// The thumbnail, a file that ends in `.jpg`.
    JPG,
    /// The video, a file that ends in `.h264`.
    H264,
}

/// The byte `0`.
pub const DIGIT_ZERO: u8 = 48;

/// The byte `9`.
pub const DIGIT_NINE: u8 = 57;

/// The decimal digits of `n`, most significant first, as ASCII bytes.
pub open spec fn decimal(n: nat) -> Seq<u8>
    decreases n,
{
    if n < 10 {
        seq![(DIGIT_ZERO + n) as u8]
    } else {
        decimal(n / 10).push((DIGIT_ZERO + n % 10) as u8)
    }
}

/// The number that a sequence of ASCII digits reads as.
pub open spec fn digits_value(digits: Seq<u8>) -> nat
    decreases digits.len(),
{
    if digits.len() == 0 {
        0
    } else {
        digits_value(digits.drop_last()) * 10 + (digits.last() - DIGIT_ZERO) as nat
    }
}

/// Every byte is an ASCII digit.
pub open spec fn all_digits(bytes: Seq<u8>) -> bool {
    forall|i: int| 0 <= i < bytes.len() ==> DIGIT_ZERO <= #[trigger] bytes[i] <= DIGIT_NINE
}

/// The bytes that end the name of a file of the given half: a dot and the
/// extension.
pub open spec fn suffix(extension: FileExtension) -> Seq<u8> {
    match extension {
        FileExtension::JPG => seq![46u8, 106u8, 112u8, 103u8],
        FileExtension::H264 => seq![46u8, 104u8, 50u8, 54u8, 52u8],
    }
}

/// The name of the file that holds the given half of recording `id`.
pub open spec fn artifact_name(id: u64, extension: FileExtension) -> Seq<u8> {
    decimal(id as nat) + suffix(extension)
}

/// The decimal digits of a number are digits, at least one of them, and read
/// as that number.
pub proof fn lemma_decimal(n: nat)
    ensures
        decimal(n).len() >= 1,
        all_digits(decimal(n)),
        digits_value(decimal(n)) == n,
    decreases n,
{
    if n < 10 {
        assert(decimal(n).drop_last() =~= Seq::<u8>::empty());
        assert(digits_value(decimal(n).drop_last()) == 0);
    } else {
        lemma_decimal(n / 10);
        assert(decimal(n).drop_last() =~= decimal(n / 10));
    }
}

/// Different numbers have different decimal digits.
pub proof fn lemma_decimal_injective(a: nat, b: nat)
    requires
        decimal(a) == decimal(b),
    ensures
        a == b,
{
    lemma_decimal(a);
    lemma_decimal(b);
}

/// A file name belongs to one half of one recording at most.
pub proof fn lemma_artifact_name_injective(
    id: u64,
    extension: FileExtension,
    other_id: u64,
    other_extension: FileExtension,
)
    requires
        artifact_name(id, extension) == artifact_name(other_id, other_extension),
    ensures
        id == other_id,
        extension == other_extension,
{
    let name = artifact_name(id, extension);
    let digits = decimal(id as nat);
    let other_digits = decimal(other_id as nat);
    lemma_decimal(id as nat);
    lemma_decimal(other_id as nat);
    assert(name.last() == suffix(extension).last());
    assert(name.last() == suffix(other_extension).last());
    assert(extension == other_extension);
    assert(digits =~= name.subrange(0, name.len() - suffix(extension).len()));
    assert(other_digits =~= name.subrange(0, name.len() - suffix(extension).len()));
    lemma_decimal_injective(id as nat, other_id as nat);
}

/// What a prefix of a sequence of digits reads as is no more than what the
/// whole sequence reads as.
proof fn lemma_prefix_value(digits: Seq<u8>, n: int)
    requires
        all_digits(digits),
        0 <= n <= digits.len(),
    ensures
        digits_value(digits.take(n)) <= digits_value(digits),
    decreases digits.len() - n,
{
    if n == digits.len() {
        assert(digits.take(n) =~= digits);
    } else {
        lemma_prefix_value(digits.drop_last(), n);
        assert(digits.drop_last().take(n) =~= digits.take(n));
    }
}

/// The decimal digits of `n`.
pub fn decimal_digits(n: u64) -> (digits: Vec<u8>)
    ensures
        digits@ == decimal(n as nat),
    decreases n,
{
    if n < 10 {
        let mut digits: Vec<u8> = Vec::new();
        digits.push(DIGIT_ZERO + n as u8);
        assert(digits@ =~= decimal(n as nat));
        digits
    } else {
        let mut digits = decimal_digits(n / 10);
        digits.push(DIGIT_ZERO + (n % 10) as u8);
        digits
    }
}

/// Whether two byte strings are the same.
pub fn bytes_equal(left: &[u8], right: &[u8]) -> (same: bool)
    ensures
        same == (left@ == right@),
{
    if left.len() != right.len() {
        return false;
    }
    let mut i: usize = 0;
    while i < left.len()
        invariant
            i <= left@.len(),
            left@.len() == right@.len(),
            forall|j: int| 0 <= j < i ==> left@[j] == right@[j],
        decreases left@.len() - i,
    {
        if left[i] != right[i] {
            return false;
        }
        i += 1;
    }
    assert(left@ =~= right@);
    true
}

/// The number whose decimal digits `digits` are, if they are those of a
/// number below 2^64: digits only, at least one, no leading zero but for
/// zero itself.
pub fn parse_decimal(digits: &[u8]) -> (number: Option<u64>)
    ensures
        match number {
            Some(n) => digits@ == decimal(n as nat),
            None => forall|n: u64| digits@ != decimal(n as nat),
        },
        forall|n: u64| digits@ == decimal(n as nat) ==> number == Some(n),
{
    proof {
        assert forall|n: u64, m: u64|
            digits@ == decimal(n as nat) && digits@ == decimal(m as nat) implies n == m by {
            lemma_decimal_injective(n as nat, m as nat);
        }
    }
    let mut value: u64 = 0;
    let mut i: usize = 0;
    while i < digits.len()
        invariant
            i <= digits@.len(),
            all_digits(digits@.take(i as int)),
            value == digits_value(digits@.take(i as int)),
        decreases digits@.len() - i,
    {
        let byte = digits[i];
        if byte < DIGIT_ZERO || byte > DIGIT_NINE {
            assert forall|n: u64| digits@ != decimal(n as nat) by {
                lemma_decimal(n as nat);
            }
            return None;
        }
        let digit: u64 = (byte - DIGIT_ZERO) as u64;
        proof {
            assert(digits@.take(i + 1).drop_last() =~= digits@.take(i as int));
            assert(digits@.take(i + 1).last() == byte);
        }
        if value > (u64::MAX - digit) / 10 {
            assert forall|n: u64| digits@ != decimal(n as nat) by {
                lemma_decimal(n as nat);
                if digits@ == decimal(n as nat) {
                    lemma_prefix_value(digits@, i + 1);
                }
            }
            return None;
        }
        value = value * 10 + digit;
        i += 1;
    }
    assert(digits@.take(i as int) =~= digits@);
    let canonical = decimal_digits(value);
    if bytes_equal(canonical.as_slice(), digits) {
        Some(value)
    } else {
        assert forall|n: u64| digits@ != decimal(n as nat) by {
            lemma_decimal(n as nat);
        }
        None
    }
}

/// The bytes that end the name of a file of the given half.
pub fn suffix_bytes(extension: FileExtension) -> (bytes: Vec<u8>)
    ensures
        bytes@ == suffix(extension),
{
    let mut bytes: Vec<u8> = Vec::new();
    match extension {
        FileExtension::JPG => {
            bytes.push(46);
            bytes.push(106);
            bytes.push(112);
            bytes.push(103);
        },
        FileExtension::H264 => {
            bytes.push(46);
            bytes.push(104);
            bytes.push(50);
            bytes.push(54);
            bytes.push(52);
        },
    }
    assert(bytes@ =~= suffix(extension));
    bytes
}

/// The name of the file that holds the given half of recording `id`.
pub fn file_name(id: u64, extension: FileExtension) -> (name: Vec<u8>)
    ensures
        name@ == artifact_name(id, extension),
{
    let mut name = decimal_digits(id);
    let mut tail = suffix_bytes(extension);
    name.append(&mut tail);
    name
}

/// The recording id in front of `ending`, if `name` is the decimal digits of
/// an id followed by `ending`.
fn parse_stem(name: &[u8], ending: &[u8]) -> (id: Option<u64>)
    ensures
        match id {
            Some(n) => name@ == decimal(n as nat) + ending@,
            None => forall|n: u64| name@ != decimal(n as nat) + ending@,
        },
{
    if name.len() < ending.len() {
        return None;
    }
    let cut = name.len() - ending.len();
    let ghost stem = name@.subrange(0, cut as int);
    let ghost tail = name@.subrange(cut as int, name@.len() as int);
    assert(name@ =~= stem + tail);
    assert forall|n: u64| name@ == decimal(n as nat) + ending@ implies stem == decimal(n as nat)
        && tail == ending@ by {
        assert(stem =~= decimal(n as nat));
        assert(tail =~= ending@);
    }
    if !bytes_equal(slice_subrange(name, cut, name.len()), ending) {
        return None;
    }
    parse_decimal(slice_subrange(name, 0, cut))
}

/// The recording and the half that a file of this name holds, if the name is
/// that of a recording's file.
pub fn parse_file_name(name: &[u8]) -> (parsed: Option<(u64, FileExtension)>)
    ensures
        match parsed {
            Some((id, extension)) => name@ == artifact_name(id, extension),
            None => forall|id: u64, extension: FileExtension|
                name@ != artifact_name(id, extension),
        },
        forall|id: u64, extension: FileExtension|
            name@ == artifact_name(id, extension) ==> parsed == Some((id, extension)),
{
    let thumbnail = suffix_bytes(FileExtension::JPG);
    let video = suffix_bytes(FileExtension::H264);
    let parsed = match parse_stem(name, thumbnail.as_slice()) {
        Some(id) => Some((id, FileExtension::JPG)),
        None => match parse_stem(name, video.as_slice()) {
            Some(id) => Some((id, FileExtension::H264)),
            None => None,
        },
    };
    proof {
        match parsed {
            Some((found, half)) => {
                assert(name@ == artifact_name(found, half));
                assert forall|id: u64, extension: FileExtension|
                    name@ == artifact_name(id, extension) implies parsed == Some(
                    (id, extension),
                ) by {
                    lemma_artifact_name_injective(id, extension, found, half);
                }
            },
            None => {
                assert forall|id: u64, extension: FileExtension|
                    name@ != artifact_name(id, extension) by {
                    if extension == FileExtension::JPG {
                        assert(name@ != decimal(id as nat) + thumbnail@);
                    } else {
                        assert(name@ != decimal(id as nat) + video@);
                    }
                }
            },
        }
    }
    parsed
}

} // verus!
