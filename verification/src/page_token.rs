//! Opaque cursor tokens for pagination.
//!
//! A token records the sort key of the last row a caller has seen: a tag
//! identifying the entity the cursor belongs to, the row's creation time and
//! the row id used as tie-break. The three values are laid out as 24
//! little-endian bytes and the buffer is base64-encoded, so the token
//! travels as a single opaque string. Deserialization fails closed: a string
//! that is not exactly the encoding of a token is rejected, never silently
//! treated as some page.

use vstd::prelude::*;
use crate::Error;

verus! {

/// What `base64::encode` returns on a byte string.
pub uninterp spec fn b64_of(bytes: Seq<u8>) -> Seq<char>;

/// Relies on base64::encode: standard-alphabet base64 of the input, four
/// output characters for every three input bytes, `=`-padded. Its size
/// arithmetic cannot overflow for any real vector, whose length stays
/// within the allocation limit.
#[verifier::external_body]
fn b64_encode(bytes: &Vec<u8>) -> (r: String)
    ensures
        r@ == b64_of(bytes@),
        r@.len() == 4 * ((bytes@.len() + 2) / 3),
{
    base64::encode(bytes)
}

/// Relies on base64::decode: it inverts base64::encode, and a decode whose
/// output length is a multiple of three can only have consumed full groups
/// of four symbols — padding may stand only at the tail of a group and
/// trailing bits are checked — which makes the input the exact canonical
/// encoding of the output. Its length arithmetic cannot overflow for any
/// real string, whose length stays within the allocation limit.
#[verifier::external_body]
fn b64_decode(input: &str) -> (r: Option<Vec<u8>>)
    ensures
        match r {
            Some(v) => (forall|b: Seq<u8>| input@ == b64_of(b) ==> v@ == b) && (v@.len() % 3 == 0
                ==> input@ == b64_of(v@)),
            None => forall|b: Seq<u8>| input@ != b64_of(b),
        },
{
    base64::decode(input).ok()
}

/// The eight little-endian bytes of a machine word.
pub open spec fn spec_u64_le(x: u64) -> Seq<u8> {
    seq![
        x as u8,
        (x >> 8) as u8,
        (x >> 16) as u8,
        (x >> 24) as u8,
        (x >> 32) as u8,
        (x >> 40) as u8,
        (x >> 48) as u8,
        (x >> 56) as u8,
    ]
}

/// The machine word read from eight little-endian bytes.
pub open spec fn spec_u64_of_le(b: Seq<u8>) -> u64
    recommends
        b.len() == 8,
{
    (b[0] as u64) | ((b[1] as u64) << 8) | ((b[2] as u64) << 16) | ((b[3] as u64) << 24)
        | ((b[4] as u64) << 32) | ((b[5] as u64) << 40) | ((b[6] as u64) << 48)
        | ((b[7] as u64) << 56)
}

/// Reading back the bytes of a word yields the word.
pub proof fn lemma_u64_le_roundtrip(x: u64)
    ensures
        spec_u64_of_le(spec_u64_le(x)) == x,
{
    let b = spec_u64_le(x);
    assert(b[0] == x as u8 && b[1] == (x >> 8) as u8 && b[2] == (x >> 16) as u8
        && b[3] == (x >> 24) as u8 && b[4] == (x >> 32) as u8 && b[5] == (x >> 40) as u8
        && b[6] == (x >> 48) as u8 && b[7] == (x >> 56) as u8);
    assert(((x as u8) as u64) | (((x >> 8) as u8) as u64) << 8 | (((x >> 16) as u8) as u64) << 16
        | (((x >> 24) as u8) as u64) << 24 | (((x >> 32) as u8) as u64) << 32
        | (((x >> 40) as u8) as u64) << 40 | (((x >> 48) as u8) as u64) << 48
        | (((x >> 56) as u8) as u64) << 56 == x) by (bit_vector);
}

/// Re-encoding the word read from eight bytes yields the same bytes.
pub proof fn lemma_le_u64_roundtrip(b: Seq<u8>)
    requires
        b.len() == 8,
    ensures
        spec_u64_le(spec_u64_of_le(b)) == b,
{
    let b0 = b[0];
    let b1 = b[1];
    let b2 = b[2];
    let b3 = b[3];
    let b4 = b[4];
    let b5 = b[5];
    let b6 = b[6];
    let b7 = b[7];
    let x = spec_u64_of_le(b);
    assert(x == (b0 as u64) | ((b1 as u64) << 8) | ((b2 as u64) << 16) | ((b3 as u64) << 24)
        | ((b4 as u64) << 32) | ((b5 as u64) << 40) | ((b6 as u64) << 48) | ((b7 as u64) << 56));
    assert({
        let y = (b0 as u64) | ((b1 as u64) << 8) | ((b2 as u64) << 16) | ((b3 as u64) << 24)
            | ((b4 as u64) << 32) | ((b5 as u64) << 40) | ((b6 as u64) << 48) | ((b7 as u64) << 56);
        y as u8 == b0 && (y >> 8) as u8 == b1 && (y >> 16) as u8 == b2 && (y >> 24) as u8 == b3
            && (y >> 32) as u8 == b4 && (y >> 40) as u8 == b5 && (y >> 48) as u8 == b6
            && (y >> 56) as u8 == b7
    }) by (bit_vector);
    assert(spec_u64_le(x) =~= b);
}

/// Creation times are signed; a token stores them biased into an unsigned
/// word so the byte codec stays uniform.
pub open spec fn spec_time_to_u64(t: i64) -> u64 {
    (t + 0x8000_0000_0000_0000) as u64
}

/// Inverse of the bias.
pub open spec fn spec_u64_to_time(u: u64) -> i64 {
    (u - 0x8000_0000_0000_0000) as i64
}

fn time_to_u64(t: i64) -> (r: u64)
    ensures
        r == spec_time_to_u64(t),
{
    if t >= 0 {
        (t as u64) + 0x8000_0000_0000_0000u64
    } else {
        (t - i64::MIN) as u64
    }
}

fn u64_to_time(u: u64) -> (r: i64)
    ensures
        r == spec_u64_to_time(u),
{
    if u >= 0x8000_0000_0000_0000u64 {
        (u - 0x8000_0000_0000_0000u64) as i64
    } else {
        (u as i64) + i64::MIN
    }
}

/// The 24-byte layout of a cursor: entity tag, biased creation time, row id.
pub open spec fn spec_token_bytes(tag: u64, create_time: i64, id: u64) -> Seq<u8> {
    spec_u64_le(tag) + spec_u64_le(spec_time_to_u64(create_time)) + spec_u64_le(id)
}

fn push_u64_le(v: &mut Vec<u8>, x: u64)
    ensures
        final(v)@ == old(v)@ + spec_u64_le(x),
{
    v.push(#[verifier::truncate] (x as u8));
    v.push(#[verifier::truncate] ((x >> 8) as u8));
    v.push(#[verifier::truncate] ((x >> 16) as u8));
    v.push(#[verifier::truncate] ((x >> 24) as u8));
    v.push(#[verifier::truncate] ((x >> 32) as u8));
    v.push(#[verifier::truncate] ((x >> 40) as u8));
    v.push(#[verifier::truncate] ((x >> 48) as u8));
    v.push(#[verifier::truncate] ((x >> 56) as u8));
    assert(v@ =~= old(v)@ + spec_u64_le(x));
}

fn read_u64_le(v: &Vec<u8>, off: usize) -> (r: u64)
    requires
        off + 8 <= v@.len(),
    ensures
        r == spec_u64_of_le(v@.subrange(off as int, off as int + 8)),
{
    let n: usize = v.len();
    assert(off + 8 <= n);
    let r = (v[off] as u64) | ((v[off + 1] as u64) << 8) | ((v[off + 2] as u64) << 16)
        | ((v[off + 3] as u64) << 24) | ((v[off + 4] as u64) << 32)
        | ((v[off + 5] as u64) << 40) | ((v[off + 6] as u64) << 48)
        | ((v[off + 7] as u64) << 56);
    proof {
        let s = v@.subrange(off as int, off as int + 8);
        assert(s[0] == v@[off as int] && s[1] == v@[off as int + 1] && s[2] == v@[off as int + 2]
            && s[3] == v@[off as int + 3] && s[4] == v@[off as int + 4]
            && s[5] == v@[off as int + 5] && s[6] == v@[off as int + 6]
            && s[7] == v@[off as int + 7]);
    }
    r
}

/// Serializes one cursor into its opaque string form.
pub fn serialize_token_parts(tag: u64, create_time: i64, id: u64) -> (r: String)
    ensures
        r@ == b64_of(spec_token_bytes(tag, create_time, id)),
        r@.len() == 32,
{
    let mut bytes: Vec<u8> = Vec::new();
    push_u64_le(&mut bytes, tag);
    push_u64_le(&mut bytes, time_to_u64(create_time));
    push_u64_le(&mut bytes, id);
    proof {
        assert(bytes@ =~= spec_token_bytes(tag, create_time, id));
    }
    b64_encode(&bytes)
}

/// Parses an opaque cursor string for the given entity tag.
///
/// The empty string means "no cursor": the first page. Any other string is
/// accepted exactly when it is the serialized form of some cursor with this
/// tag; everything else is reported as `PaginationTokenInvalid`.
pub fn deserialize_token_parts(tag: u64, input: &str) -> (r: Result<Option<(i64, u64)>, Error>)
    ensures
        input@.len() == 0 ==> r == Ok::<Option<(i64, u64)>, Error>(None),
        input@.len() > 0 ==> match r {
            Ok(Some((t, id))) => {
                &&& input@ == b64_of(spec_token_bytes(tag, t, id))
                &&& forall|t2: i64, id2: u64|
                    input@ == b64_of(spec_token_bytes(tag, t2, id2)) ==> t2 == t && id2 == id
            },
            Ok(None) => false,
            Err(e) => {
                &&& e == Error::PaginationTokenInvalid
                &&& forall|t2: i64, id2: u64| input@ != b64_of(spec_token_bytes(tag, t2, id2))
            },
        },
{
    if input.unicode_len() == 0 {
        return Ok(None);
    }
    let decoded = b64_decode(input);
    match decoded {
        None => {
            proof {
                assert forall|t2: i64, id2: u64|
                    input@ != b64_of(spec_token_bytes(tag, t2, id2)) by {
                    if input@ == b64_of(spec_token_bytes(tag, t2, id2)) {
                        assert(decoded is Some);
                    }
                }
            }
            Err(Error::PaginationTokenInvalid)
        },
        Some(bytes) => {
            if bytes.len() != 24 {
                proof {
                    assert forall|t2: i64, id2: u64|
                        input@ != b64_of(spec_token_bytes(tag, t2, id2)) by {
                        if input@ == b64_of(spec_token_bytes(tag, t2, id2)) {
                            assert(bytes@ == spec_token_bytes(tag, t2, id2));
                            assert(bytes@.len() == 24);
                        }
                    }
                }
                return Err(Error::PaginationTokenInvalid);
            }
            let tag_read = read_u64_le(&bytes, 0);
            let time_word = read_u64_le(&bytes, 8);
            let id = read_u64_le(&bytes, 16);
            proof {
                lemma_le_u64_roundtrip(bytes@.subrange(0, 8));
                lemma_le_u64_roundtrip(bytes@.subrange(8, 16));
                lemma_le_u64_roundtrip(bytes@.subrange(16, 24));
                assert(bytes@ =~= bytes@.subrange(0, 8) + bytes@.subrange(8, 16)
                    + bytes@.subrange(16, 24));
            }
            if tag_read != tag {
                proof {
                    assert forall|t2: i64, id2: u64|
                        input@ != b64_of(spec_token_bytes(tag, t2, id2)) by {
                        if input@ == b64_of(spec_token_bytes(tag, t2, id2)) {
                            assert(bytes@ == spec_token_bytes(tag, t2, id2));
                            assert(bytes@.subrange(0, 8) =~= spec_u64_le(tag));
                            lemma_u64_le_roundtrip(tag);
                        }
                    }
                }
                return Err(Error::PaginationTokenInvalid);
            }
            let t = u64_to_time(time_word);
            proof {
                assert(spec_time_to_u64(spec_u64_to_time(time_word)) == time_word);
                assert(bytes@ =~= spec_token_bytes(tag, t, id));
                assert(bytes@.len() % 3 == 0);
                assert(input@ == b64_of(spec_token_bytes(tag, t, id)));
                assert forall|t2: i64, id2: u64|
                    input@ == b64_of(spec_token_bytes(tag, t2, id2)) implies t2 == t
                    && id2 == id by {
                    assert(bytes@ == spec_token_bytes(tag, t2, id2));
                    assert(spec_u64_le(spec_time_to_u64(t2)) =~= bytes@.subrange(8, 16));
                    assert(spec_u64_le(id2) =~= bytes@.subrange(16, 24));
                    lemma_u64_le_roundtrip(spec_time_to_u64(t2));
                    lemma_u64_le_roundtrip(id2);
                    assert(spec_time_to_u64(t2) == time_word);
                    assert(spec_u64_to_time(spec_time_to_u64(t2)) == t2);
                    assert(id2 == id);
                }
            }
            Ok(Some((t, id)))
        },
    }
}

/// A cursor type of one entity's pagination endpoint.
pub trait PageToken: Sized {
    /// The tag that scopes serialized cursors to this entity.
    spec fn spec_tag(&self) -> u64;

    /// The `(create_time, id)` position the cursor records.
    spec fn spec_sort_key(&self) -> (i64, u64);

    /// The serialized form of this cursor.
    open spec fn spec_token_string(&self) -> Seq<char> {
        b64_of(spec_token_bytes(self.spec_tag(), self.spec_sort_key().0, self.spec_sort_key().1))
    }

    /// Serializes the cursor into its opaque string form.
    fn serialize_page_token(&self) -> (r: Result<String, Error>)
        ensures
            r matches Ok(s) && s@ == self.spec_token_string() && s@.len() == 32,
    ;

    /// Parses an opaque cursor string; the empty string means "first page",
    /// anything that is not exactly a serialized cursor of this entity is
    /// rejected as `PaginationTokenInvalid`.
    fn deserialize_page_token(input: &str) -> (r: Result<Option<Self>, Error>)
        ensures
            input@.len() == 0 ==> (r matches Ok(o) && o is None),
            input@.len() > 0 ==> match r {
                Ok(Some(p)) => {
                    &&& input@ == p.spec_token_string()
                    &&& forall|q: Self| input@ == #[trigger] q.spec_token_string() ==> q == p
                },
                Ok(None) => false,
                Err(e) => {
                    &&& e == Error::PaginationTokenInvalid
                    &&& forall|q: Self| input@ != #[trigger] q.spec_token_string()
                },
            },
    ;
}

/// A row that knows the cursor pointing just past itself.
pub trait PageTokenable<P: PageToken>: Sized {
    /// The cursor recording this row's position.
    spec fn spec_page_token(&self) -> P;

    /// Returns the cursor recording this row's position.
    fn page_token(&self) -> (r: P)
        ensures
            r == self.spec_page_token(),
    ;
}

} // verus!
