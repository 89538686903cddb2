//! An in-memory S3 object store: objects are kept in a map from key to
//! content, and each request is answered by the rules S3 gives for it.

use vstd::prelude::*;
use vstd::hash_map::StringHashMap;
use std::path::PathBuf;
use md5::{Digest, Md5};
use crate::error::{Error, ObjectError};
use crate::vec_byte_stream::{VecByteStream, bytes_contents, bytes_from_vec, total_len};

verus! {

/// A byte range of an object, as an HTTP `Range` header names it.
#[derive(Debug, Clone, Copy, PartialEq, Eq, Structural)]
pub enum ByteRange {
    /// From `first` to `last`, both included; to the end where `last` is `None`.
    Int { first: u64, last: Option<u64> },
    /// The last `length` bytes.
    Suffix { length: u64 },
}

/// The span `(start, end)`, end excluded, that `range` selects of an object of
/// `full_length` bytes, or `None` where the range cannot be satisfied
/// (RFC 9110, section 14.1.2): an int range must start inside the object and
/// is cut at its end; a suffix range must not be empty and is cut at its start.
pub open spec fn satisfiable_range(range: ByteRange, full_length: u64) -> Option<(u64, u64)> {
    match range {
        ByteRange::Int { first, last } => {
            if first >= full_length {
                None
            } else {
                match last {
                    Some(l) => {
                        let cut: u64 = if l < full_length - 1 { l } else { (full_length - 1) as u64 };
                        if first > cut {
                            None
                        } else {
                            Some((first, (cut + 1) as u64))
                        }
                    },
                    None => Some((first, full_length)),
                }
            }
        },
        ByteRange::Suffix { length } => {
            if length == 0 {
                None
            } else {
                let n: u64 = if length < full_length { length } else { full_length };
                Some(((full_length - n) as u64, full_length))
            }
        },
    }
}

/// `s3s::dto::Range::check`: the span that the range selects of an object of
/// `full_length` bytes, or `None` where the crate answers `RangeNotSatisfiable`.
/// Its source computes exactly `satisfiable_range`.
#[verifier::external_body]
fn check_range(range: ByteRange, full_length: u64) -> (r: Option<(u64, u64)>)
    ensures
        r == satisfiable_range(range, full_length),
{
    let range = match range {
        ByteRange::Int { first, last } => s3s::dto::Range::Int { first, last },
        ByteRange::Suffix { length } => s3s::dto::Range::Suffix { length },
    };
    match range.check(full_length) {
        Ok(span) => Some((span.start, span.end)),
        Err(_) => None,
    }
}

/// The MD5 digest of `data`.
pub uninterp spec fn md5_digest(data: Seq<u8>) -> Seq<u8>;

/// `md5::Md5::digest` (the `Digest` trait of the `md-5` crate): the digest of
/// `data`, which depends on `data` alone and is 16 bytes long (`OutputSize`
/// is `U16` in the crate's source).
#[verifier::external_body]
fn md5(data: &[u8]) -> (d: Vec<u8>)
    ensures
        d@ == md5_digest(data@),
        d@.len() == 16,
{
    Md5::digest(data).to_vec()
}

/// The lower-case hex digit of a value below 16.
pub open spec fn hex_digit(n: u8) -> char {
    if n < 10 {
        (48 + n) as char
    } else {
        (87 + n) as char
    }
}

/// Lower-case hex encoding: two digits per byte, high half first.
pub open spec fn hex_lower(data: Seq<u8>) -> Seq<char>
    decreases data.len(),
{
    if data.len() == 0 {
        Seq::empty()
    } else {
        seq![hex_digit(data[0] / 16), hex_digit(data[0] % 16)] + hex_lower(data.drop_first())
    }
}

/// `hex_simd::encode_to_string` with `AsciiCase::Lower`: the lower-case hex
/// encoding of `input`. The crate asserts that twice the input length is at
/// most `usize::MAX / 2`, so longer inputs are left out.
#[verifier::external_body]
fn encode_hex_lower(input: &[u8]) -> (s: String)
    requires
        input@.len() <= usize::MAX / 4,
    ensures
        s@ == hex_lower(input@),
{
    hex_simd::encode_to_string(input, hex_simd::AsciiCase::Lower)
}

/// The lower-case hex encoding of `input`.
pub fn hex(input: &[u8]) -> (s: String)
    requires
        input@.len() <= usize::MAX / 4,
    ensures
        s@ == hex_lower(input@),
{
    encode_hex_lower(input)
}

/// The entity tag of an object: the hex MD5 digest of its content, in quotes.
pub open spec fn e_tag(content: Seq<u8>) -> Seq<char> {
    seq!['"'] + hex_lower(md5_digest(content)) + seq!['"']
}

fn e_tag_of(content: &[u8]) -> (t: String)
    ensures
        t@ == e_tag(content@),
{
    let digest = md5(content);
    let sum = hex(digest.as_slice());
    let mut t = String::from_str("\"");
    t.append(sum.as_str());
    t.append("\"");
    proof {
        reveal_strlit("\"");
    }
    t
}

/// The storage classes the store accepts.
pub open spec fn valid_storage_class(class: Seq<char>) -> bool {
    class == "STANDARD"@ || class == "REDUCED_REDUNDANCY"@
}

/// The number of bytes a read of an object of `full` bytes reports, or `None`
/// where the range cannot be satisfied.
pub open spec fn selected_length(full: nat, range: Option<ByteRange>) -> Option<int> {
    match range {
        None => Some(full as int),
        Some(r) => match satisfiable_range(r, full as u64) {
            Some((start, end)) => Some(end - start),
            None => None,
        },
    }
}

/// What a read of `key` answers: the content and the reported length, or the
/// error, in the order the checks are made.
pub open spec fn get_outcome(
    objects: Map<Seq<char>, Seq<u8>>,
    key: Seq<char>,
    range: Option<ByteRange>,
) -> Result<(Seq<u8>, int), ObjectError> {
    if !objects.contains_key(key) {
        Err(ObjectError::NoSuchKey)
    } else {
        let content = objects[key];
        match selected_length(content.len(), range) {
            None => Err(ObjectError::InvalidRange),
            Some(n) => if n > i64::MAX {
                Err(ObjectError::InternalError)
            } else {
                Ok((content, n))
            },
        }
    }
}

/// What the checks made before a write's body is read answer.
pub open spec fn put_precheck(storage_class: Option<&str>, has_body: bool) -> Result<(), ObjectError> {
    match storage_class {
        Some(class) if !valid_storage_class(class@) => Err(ObjectError::InvalidStorageClass),
        _ => if !has_body {
            Err(ObjectError::IncompleteBody)
        } else {
            Ok(())
        },
    }
}

/// What a delete of `key` answers: the map that is left, or the error.
pub open spec fn delete_outcome(objects: Map<Seq<char>, Seq<u8>>, key: Seq<char>) -> Result<
    Map<Seq<char>, Seq<u8>>,
    ObjectError,
> {
    if objects.contains_key(key) {
        Ok(objects.remove(key))
    } else {
        Err(ObjectError::NoSuchKey)
    }
}

/// A selected span lies inside the object: it starts no later than it ends,
/// and ends no later than the object does.
pub proof fn law_range_within_object(range: ByteRange, full_length: u64)
    ensures
        satisfiable_range(range, full_length) matches Some((start, end)) ==> start <= end
            <= full_length,
{
}

/// A read of a key just written gives back what was written, with its full
/// length, where that length fits the reported field.
pub proof fn law_read_after_write(objects: Map<Seq<char>, Seq<u8>>, key: Seq<char>, content: Seq<u8>)
    ensures
        get_outcome(objects.insert(key, content), key, None) == (if content.len() <= i64::MAX {
            Ok::<(Seq<u8>, int), ObjectError>((content, content.len() as int))
        } else {
            Err(ObjectError::InternalError)
        }),
{
}

/// A write leaves what a read of any other key answers unchanged.
pub proof fn law_write_leaves_other_keys(
    objects: Map<Seq<char>, Seq<u8>>,
    key: Seq<char>,
    content: Seq<u8>,
    other: Seq<char>,
    range: Option<ByteRange>,
)
    requires
        other != key,
    ensures
        get_outcome(objects.insert(key, content), other, range) == get_outcome(objects, other, range),
{
}

/// After a delete, a read of the key answers that no such key exists, and a
/// second delete of it is refused the same way.
pub proof fn law_read_after_delete(objects: Map<Seq<char>, Seq<u8>>, key: Seq<char>, range: Option<ByteRange>)
    ensures
        delete_outcome(objects, key) matches Ok(left) ==> {
            &&& get_outcome(left, key, range) == Err::<(Seq<u8>, int), ObjectError>(ObjectError::NoSuchKey)
            &&& delete_outcome(left, key) == Err::<Map<Seq<char>, Seq<u8>>, ObjectError>(ObjectError::NoSuchKey)
        },
{
}

/// A delete leaves what a read of any other key answers unchanged.
pub proof fn law_delete_leaves_other_keys(
    objects: Map<Seq<char>, Seq<u8>>,
    key: Seq<char>,
    other: Seq<char>,
    range: Option<ByteRange>,
)
    requires
        other != key,
    ensures
        delete_outcome(objects, key) matches Ok(left) ==> get_outcome(left, other, range) == get_outcome(objects, other, range),
{
}

/// A read or a delete of a key that holds no object is refused, whatever
/// the range.
pub proof fn law_missing_key(objects: Map<Seq<char>, Seq<u8>>, key: Seq<char>, range: Option<ByteRange>)
    requires
        !objects.contains_key(key),
    ensures
        get_outcome(objects, key, range) == Err::<(Seq<u8>, int), ObjectError>(ObjectError::NoSuchKey),
        delete_outcome(objects, key) == Err::<Map<Seq<char>, Seq<u8>>, ObjectError>(ObjectError::NoSuchKey),
{
}

/// The length a read reports is never more than the object holds.
pub proof fn law_reported_length_within_object(
    objects: Map<Seq<char>, Seq<u8>>,
    key: Seq<char>,
    range: Option<ByteRange>,
)
    ensures
        get_outcome(objects, key, range) matches Ok((content, n)) ==> 0 <= n <= content.len(),
{
    if objects.contains_key(key) {
        match range {
            Some(r) => law_range_within_object(r, objects[key].len() as u64),
            None => {},
        }
    }
}

/// An int range whose first byte lies inside the object, and whose last byte
/// (where given) is not before its first, selects from that first byte up to
/// its last byte or the end of the object, whichever comes first.
pub proof fn law_int_range_span(first: u64, last: Option<u64>, full_length: u64)
    requires
        first < full_length,
        last matches Some(l) ==> first <= l,
    ensures
        satisfiable_range(ByteRange::Int { first, last }, full_length) == Some(
            (
                first,
                match last {
                    Some(l) => if l < full_length {
                        (l + 1) as u64
                    } else {
                        full_length
                    },
                    None => full_length,
                },
            ),
        ),
{
}

/// An int range is refused exactly where it starts at or past the end of the
/// object, or ends before it starts.
pub proof fn law_int_range_refused(first: u64, last: Option<u64>, full_length: u64)
    ensures
        satisfiable_range(ByteRange::Int { first, last }, full_length) is None <==> (first
            >= full_length || (last matches Some(l) && l < first)),
{
}

/// A non-empty suffix range selects the last `length` bytes, or the whole
/// object where it is shorter; an empty one is refused.
pub proof fn law_suffix_range_span(length: u64, full_length: u64)
    ensures
        length == 0 ==> satisfiable_range(ByteRange::Suffix { length }, full_length) is None,
        length > 0 ==> satisfiable_range(ByteRange::Suffix { length }, full_length) == Some(
            (
                if length < full_length {
                    (full_length - length) as u64
                } else {
                    0u64
                },
                full_length,
            ),
        ),
{
}

/// A read of a stored object with an int range that starts inside it reports
/// the length from the range's first byte to its last byte, cut at the end of
/// the object.
pub proof fn law_read_int_range_length(
    objects: Map<Seq<char>, Seq<u8>>,
    key: Seq<char>,
    first: u64,
    last: u64,
)
    requires
        objects.contains_key(key),
        objects[key].len() <= i64::MAX,
        first < objects[key].len(),
        first <= last,
    ensures
        get_outcome(objects, key, Some(ByteRange::Int { first, last: Some(last) })) == Ok::<
            (Seq<u8>, int),
            ObjectError,
        >(
            (
                objects[key],
                if last < objects[key].len() {
                    last + 1 - first
                } else {
                    objects[key].len() - first
                },
            ),
        ),
{
    let full = objects[key].len();
    assert(full as u64 == full);
    law_int_range_span(first, Some(last), full as u64);
}

/// A write's storage class, where given, is accepted only when it is exactly
/// "STANDARD" or "REDUCED_REDUNDANCY"; every other class is refused, body or no
/// body. With an accepted class (or none) the write goes on exactly when a
/// body is present.
pub proof fn law_storage_class(class: &str, has_body: bool)
    ensures
        class@ != "STANDARD"@ && class@ != "REDUCED_REDUNDANCY"@ ==> put_precheck(
            Some(class),
            has_body,
        ) == Err::<(), ObjectError>(ObjectError::InvalidStorageClass),
        (class@ == "STANDARD"@ || class@ == "REDUCED_REDUNDANCY"@) ==> put_precheck(
            Some(class),
            has_body,
        ) == (if has_body {
            Ok::<(), ObjectError>(())
        } else {
            Err(ObjectError::IncompleteBody)
        }),
        put_precheck(None, has_body) == (if has_body {
            Ok::<(), ObjectError>(())
        } else {
            Err(ObjectError::IncompleteBody)
        }),
{
}

/// Deleting a key the store holds always succeeds, whatever its content
/// (an empty object too), and leaves the store without that key and
/// otherwise unchanged.
pub proof fn law_delete_present(objects: Map<Seq<char>, Seq<u8>>, key: Seq<char>)
    requires
        objects.contains_key(key),
    ensures
        delete_outcome(objects, key) == Ok::<Map<Seq<char>, Seq<u8>>, ObjectError>(objects.remove(key)),
        delete_outcome(objects, key) matches Ok(left) && !left.contains_key(key) && forall|k: Seq<char>|
            k != key ==> (#[trigger] left.contains_key(k) == objects.contains_key(k) && (left.contains_key(k)
                ==> left[k] == objects[k])),
{
}

/// What a read of an object gives: the body as a stream, the reported
/// length, and the entity tag.
pub struct ObjectRead {
    pub body: VecByteStream,
    pub content_length: i64,
    pub e_tag: String,
}

/// An in-memory object store rooted at a directory.
pub struct S3Btree {
    root: PathBuf,
    tmp_file_counter: u64,
    objects: StringHashMap<Vec<u8>>,
}

impl View for S3Btree {
    type V = Map<Seq<char>, Seq<u8>>;

    /// The stored objects: key to content.
    closed spec fn view(&self) -> Map<Seq<char>, Seq<u8>> {
        self.objects@.map_values(|v: Vec<u8>| v@)
    }
}

impl S3Btree {
    /// The root directory the store was set up with.
    pub closed spec fn root_path(&self) -> PathBuf {
        self.root
    }

    /// The next value `tmp_file_counter` hands out.
    pub closed spec fn counter(&self) -> u64 {
        self.tmp_file_counter
    }

    /// An empty store rooted at `root`, which must be a directory;
    /// `root_is_dir` says whether it is.
    pub fn new(root: PathBuf, root_is_dir: bool) -> (r: Result<Self, Error>)
        ensures
            match r {
                Ok(s) => {
                    &&& root_is_dir
                    &&& s@ == Map::<Seq<char>, Seq<u8>>::empty()
                    &&& s.root_path() == root
                    &&& s.counter() == 0
                },
                Err(e) => !root_is_dir && e == Error::NotADirectory(root),
            },
    {
        if !root_is_dir {
            return Err(Error::NotADirectory(root));
        }
        let objects = StringHashMap::<Vec<u8>>::new();
        let s = S3Btree { root, tmp_file_counter: 0, objects };
        assert(s@ =~= Map::<Seq<char>, Seq<u8>>::empty());
        Ok(s)
    }

    /// The root directory.
    pub fn root(&self) -> (r: &PathBuf)
        ensures
            *r == self.root_path(),
    {
        &self.root
    }

    /// Hands out the counter's value and advances it by one, wrapping
    /// around at `u64::MAX`.
    pub fn tmp_file_counter(&mut self) -> (n: u64)
        ensures
            n == old(self).counter(),
            final(self).counter() == (if n == u64::MAX { 0 } else { (n + 1) as u64 }),
            final(self)@ == old(self)@,
            final(self).root_path() == old(self).root_path(),
    {
        let n = self.tmp_file_counter;
        self.tmp_file_counter = n.wrapping_add(1);
        n
    }

    /// Reads the object stored under `key`: its whole content as the body,
    /// the length of the part that `range` selects, and its entity tag.
    pub fn get_object(&self, key: &str, range: Option<ByteRange>) -> (r: Result<ObjectRead, ObjectError>)
        ensures
            match get_outcome(self@, key@, range) {
                Ok((content, n)) => r matches Ok(o) && {
                    &&& o.body@.len() == 1
                    &&& bytes_contents(o.body@[0]) == content
                    &&& o.content_length == n
                    &&& o.e_tag@ == e_tag(content)
                },
                Err(e) => r matches Err(e2) && e2 == e,
            },
    {
        let value = match self.objects.get(key) {
            Some(v) => v,
            None => return Err(ObjectError::NoSuchKey),
        };
        assert(self@.contains_key(key@) && self@[key@] == value@);
        let file_len = value.len() as u64;
        let content_length: u64 = match range {
            None => file_len,
            Some(r) => match check_range(r, file_len) {
                Some((start, end)) => end - start,
                None => return Err(ObjectError::InvalidRange),
            },
        };
        if content_length > 0x7fff_ffff_ffff_ffffu64 {
            return Err(ObjectError::InternalError);
        }
        let content_length_i64 = content_length as i64;
        let bytes = bytes_from_vec(vstd::slice::slice_to_vec(value.as_slice()));
        let chunks = vec![bytes];
        proof {
            assert(chunks@.drop_first() =~= Seq::<bytes::Bytes>::empty());
            assert(total_len(chunks@.drop_first()) == 0);
            assert(total_len(chunks@) == value@.len());
        }
        let body = VecByteStream::new(chunks);
        let e_tag = e_tag_of(value.as_slice());
        Ok(ObjectRead { body, content_length: content_length_i64, e_tag })
    }

    /// The checks made on a write before its body is read: the storage class,
    /// where one is given, must be one the store offers, and a body must be
    /// present.
    pub fn validate_put_object(storage_class: Option<&str>, has_body: bool) -> (r: Result<(), ObjectError>)
        ensures
            r == put_precheck(storage_class, has_body),
    {
        if let Some(class) = storage_class {
            let class = String::from_str(class);
            let standard = String::from_str("STANDARD");
            let reduced = String::from_str("REDUCED_REDUNDANCY");
            let is_valid = class == standard || class == reduced;
            if !is_valid {
                return Err(ObjectError::InvalidStorageClass);
            }
        }
        if !has_body {
            return Err(ObjectError::IncompleteBody);
        }
        Ok(())
    }

    /// Stores `content` under `key`, in place of what was there.
    pub fn put_object(&mut self, key: String, content: Vec<u8>)
        ensures
            final(self)@ == old(self)@.insert(key@, content@),
            final(self).root_path() == old(self).root_path(),
            final(self).counter() == old(self).counter(),
    {
        let ghost k = key@;
        let ghost c = content@;
        self.objects.insert(key, content);
        assert(self@ =~= old(self)@.insert(k, c));
    }

    /// Removes the object stored under `key`.
    pub fn delete_object(&mut self, key: &str) -> (r: Result<(), ObjectError>)
        ensures
            match delete_outcome(old(self)@, key@) {
                Ok(m) => r is Ok && final(self)@ == m,
                Err(e) => r == Err::<(), ObjectError>(e) && final(self)@ == old(self)@,
            },
            final(self).root_path() == old(self).root_path(),
            final(self).counter() == old(self).counter(),
    {
        if !self.objects.contains_key(key) {
            return Err(ObjectError::NoSuchKey);
        }
        self.objects.remove(key);
        assert(self@ =~= old(self)@.remove(key@));
        Ok(())
    }
}

} // verus!
