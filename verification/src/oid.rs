//! The store's native identifier: twelve bytes, written as twenty-four
//! hexadecimal digits. Parsing accepts either letter case; encoding always
//! produces the lowercase form, and the two round-trip.

use vstd::prelude::*;
use vstd::string::StrSliceExecFns;
use vstd::string::StringExecFns;
use vstd::arithmetic::div_mod::lemma_fundamental_div_mod;

use crate::user::UserError;

verus! {

/// Whether `c` is a hexadecimal digit, in either letter case.
pub open spec fn is_hex_digit(c: char) -> bool {
    (48 <= c as u32 && c as u32 <= 57)  // '0' ..= '9'
    || (97 <= c as u32 && c as u32 <= 102)  // 'a' ..= 'f'
    || (65 <= c as u32 && c as u32 <= 70)  // 'A' ..= 'F'
}

/// The numeric value of a hexadecimal digit.
pub open spec fn hex_val(c: char) -> u8
    recommends
        is_hex_digit(c),
{
    if 48 <= c as u32 && c as u32 <= 57 {
        (c as u32 - 48) as u8
    } else if 97 <= c as u32 && c as u32 <= 102 {
        (c as u32 - 87) as u8
    } else {
        (c as u32 - 55) as u8
    }
}

/// The lowercase hexadecimal digit for a value below sixteen.
pub open spec fn hex_char(v: u8) -> char
    recommends
        v < 16,
{
    if v < 10 {
        ((v + 48) as u8) as char
    } else {
        ((v + 87) as u8) as char
    }
}

/// Whether `s` is a well-formed identifier string: exactly twenty-four
/// hexadecimal digits.
pub open spec fn is_object_id_hex(s: Seq<char>) -> bool {
    s.len() == 24 && forall|i: int| 0 <= i < s.len() ==> is_hex_digit(s[i])
}

/// The byte that digits `2k` and `2k + 1` of `s` denote.
pub open spec fn byte_at(s: Seq<char>, k: int) -> u8 {
    (hex_val(s[2 * k]) * 16 + hex_val(s[2 * k + 1])) as u8
}

/// The bytes that the hexadecimal string `s` denotes.
pub open spec fn decoded(s: Seq<char>) -> Seq<u8> {
    Seq::new((s.len() / 2) as nat, |k: int| byte_at(s, k))
}

/// The lowercase hexadecimal spelling of the bytes `b`.
pub open spec fn hex_of(b: Seq<u8>) -> Seq<char> {
    Seq::new(
        (2 * b.len()) as nat,
        |i: int|
            if i % 2 == 0 {
                hex_char((b[i / 2] / 16) as u8)
            } else {
                hex_char((b[i / 2] % 16) as u8)
            },
    )
}

/// A store identifier: twelve bytes, kept opaque beyond their hexadecimal
/// spelling.
#[derive(Debug, PartialEq)]
pub struct ObjectId {
    bytes: Vec<u8>,
}

impl View for ObjectId {
    type V = Seq<u8>;

    closed spec fn view(&self) -> Seq<u8> {
        self.bytes@
    }
}

impl Clone for ObjectId {
    fn clone(&self) -> (r: Self)
        ensures
            r@ == self@,
    {
        ObjectId { bytes: copy_bytes(&self.bytes) }
    }
}

impl ObjectId {
    /// A well-formed identifier holds exactly twelve bytes.
    pub open spec fn wf(&self) -> bool {
        self@.len() == 12
    }

    /// Wraps twelve raw bytes as an identifier.
    pub fn from_bytes(bytes: Vec<u8>) -> (r: ObjectId)
        requires
            bytes@.len() == 12,
        ensures
            r@ == bytes@,
            r.wf(),
    {
        ObjectId { bytes }
    }

    /// The identifier's raw bytes.
    pub fn to_bytes(&self) -> (r: Vec<u8>)
        ensures
            r@ == self@,
    {
        copy_bytes(&self.bytes)
    }

    /// Whether two identifiers name the same stored document.
    pub fn same_id(&self, other: &ObjectId) -> (r: bool)
        ensures
            r == (self@ == other@),
    {
        if self.bytes.len() != other.bytes.len() {
            return false;
        }
        let n = self.bytes.len();
        let mut i: usize = 0;
        while i < n
            invariant
                n == self@.len() == other@.len(),
                i <= n,
                forall|j: int| 0 <= j < i ==> self@[j] == other@[j],
            decreases n - i,
        {
            if self.bytes[i] != other.bytes[i] {
                return false;
            }
            i += 1;
        }
        proof {
            assert(self@ =~= other@);
        }
        true
    }

    /// The lowercase hexadecimal spelling of the identifier.
    pub fn to_hex(&self) -> (r: String)
        ensures
            r@ == hex_of(self@),
    {
        let mut out = String::new();
        let n = self.bytes.len();
        let mut i: usize = 0;
        while i < n
            invariant
                n == self@.len(),
                i <= n,
                out@ =~= hex_of(self@).subrange(0, 2 * i as int),
            decreases n - i,
        {
            let b = self.bytes[i];
            out.append(hex_digit_str(b / 16));
            out.append(hex_digit_str(b % 16));
            proof {
                assert(out@ =~= hex_of(self@).subrange(0, 2 * (i + 1) as int));
            }
            i += 1;
        }
        proof {
            assert(hex_of(self@).subrange(0, 2 * n as int) =~= hex_of(self@));
        }
        out
    }
}

/// Copies a byte vector element by element.
fn copy_bytes(v: &Vec<u8>) -> (r: Vec<u8>)
    ensures
        r@ == v@,
{
    let mut r: Vec<u8> = Vec::new();
    let n = v.len();
    let mut i: usize = 0;
    while i < n
        invariant
            n == v@.len(),
            i <= n,
            r@ =~= v@.subrange(0, i as int),
        decreases n - i,
    {
        r.push(v[i]);
        i += 1;
    }
    proof {
        assert(v@.subrange(0, n as int) =~= v@);
    }
    r
}

/// The numeric value of a hexadecimal digit character, or `None` if `c` is
/// no such digit.
fn hex_val_of(c: char) -> (r: Option<u8>)
    ensures
        r is Some <==> is_hex_digit(c),
        r matches Some(v) ==> v == hex_val(c) && v < 16,
{
    let u = c as u32;
    if 48 <= u && u <= 57 {
        Some((u - 48) as u8)
    } else if 97 <= u && u <= 102 {
        Some((u - 87) as u8)
    } else if 65 <= u && u <= 70 {
        Some((u - 55) as u8)
    } else {
        None
    }
}

/// The one-character string for a value below sixteen, in lowercase.
fn hex_digit_str(v: u8) -> (s: &'static str)
    requires
        v < 16,
    ensures
        s@.len() == 1,
        s@[0] == hex_char(v),
{
    proof {
        reveal_strlit("0");
        reveal_strlit("1");
        reveal_strlit("2");
        reveal_strlit("3");
        reveal_strlit("4");
        reveal_strlit("5");
        reveal_strlit("6");
        reveal_strlit("7");
        reveal_strlit("8");
        reveal_strlit("9");
        reveal_strlit("a");
        reveal_strlit("b");
        reveal_strlit("c");
        reveal_strlit("d");
        reveal_strlit("e");
        reveal_strlit("f");
    }
    match v {
        0 => "0",
        1 => "1",
        2 => "2",
        3 => "3",
        4 => "4",
        5 => "5",
        6 => "6",
        7 => "7",
        8 => "8",
        9 => "9",
        10 => "a",
        11 => "b",
        12 => "c",
        13 => "d",
        14 => "e",
        _ => "f",
    }
}

/// Parses an identifier string. Exactly the well-formed strings parse; any
/// other input is rejected as invalid, never a panic.
pub fn parse_object_id(s: &str) -> (r: Result<ObjectId, UserError>)
    ensures
        r is Ok <==> is_object_id_hex(s@),
        r matches Ok(o) ==> o.wf() && o@ == decoded(s@),
        r matches Err(e) ==> e == UserError::InvalidInput,
{
    let n = s.unicode_len();
    if n != 24 {
        return Err(UserError::InvalidInput);
    }
    let mut bytes: Vec<u8> = Vec::new();
    let mut k: usize = 0;
    while k < 12
        invariant
            s@.len() == 24,
            k <= 12,
            bytes@.len() == k,
            forall|j: int| 0 <= j < 2 * k ==> is_hex_digit(s@[j]),
            forall|j: int| 0 <= j < k ==> bytes@[j] == byte_at(s@, j),
        decreases 12 - k,
    {
        let c_hi = s.get_char(2 * k);
        let c_lo = s.get_char(2 * k + 1);
        let hi = match hex_val_of(c_hi) {
            Some(v) => v,
            None => {
                return Err(UserError::InvalidInput);
            },
        };
        let lo = match hex_val_of(c_lo) {
            Some(v) => v,
            None => {
                return Err(UserError::InvalidInput);
            },
        };
        bytes.push(hi * 16 + lo);
        k += 1;
    }
    proof {
        assert(bytes@ =~= decoded(s@));
    }
    Ok(ObjectId { bytes })
}

/// The identifier bytes that insertion counter `n` yields: four zero bytes,
/// then the counter, most significant byte first.
pub open spec fn oid_bytes(n: u64) -> Seq<u8> {
    Seq::new(
        12,
        |i: int|
            if i < 4 {
                0u8
            } else {
                (n >> (((11 - i) * 8) as u64)) as u8
            },
    )
}

/// Distinct counters yield distinct identifiers.
pub proof fn lemma_oid_bytes_injective(a: u64, b: u64)
    requires
        a != b,
    ensures
        oid_bytes(a) != oid_bytes(b),
{
    if oid_bytes(a) == oid_bytes(b) {
        assert(oid_bytes(a)[4] == oid_bytes(b)[4]);
        assert(oid_bytes(a)[5] == oid_bytes(b)[5]);
        assert(oid_bytes(a)[6] == oid_bytes(b)[6]);
        assert(oid_bytes(a)[7] == oid_bytes(b)[7]);
        assert(oid_bytes(a)[8] == oid_bytes(b)[8]);
        assert(oid_bytes(a)[9] == oid_bytes(b)[9]);
        assert(oid_bytes(a)[10] == oid_bytes(b)[10]);
        assert(oid_bytes(a)[11] == oid_bytes(b)[11]);
        assert(((a >> 56) as u8 == (b >> 56) as u8 && (a >> 48) as u8 == (b >> 48) as u8 && (a
            >> 40) as u8 == (b >> 40) as u8 && (a >> 32) as u8 == (b >> 32) as u8 && (a >> 24) as u8
            == (b >> 24) as u8 && (a >> 16) as u8 == (b >> 16) as u8 && (a >> 8) as u8 == (b
            >> 8) as u8 && (a >> 0) as u8 == (b >> 0) as u8) ==> a == b) by (bit_vector);
        assert(false);
    }
}

/// Builds the identifier that counter `n` yields.
pub(crate) fn oid_from_seq(n: u64) -> (r: ObjectId)
    ensures
        r@ == oid_bytes(n),
        r.wf(),
{
    let mut bytes: Vec<u8> = Vec::new();
    let mut i: usize = 0;
    while i < 12
        invariant
            i <= 12,
            bytes@.len() == i,
            forall|j: int| 0 <= j < i ==> bytes@[j] == oid_bytes(n)[j],
        decreases 12 - i,
    {
        if i < 4 {
            bytes.push(0u8);
        } else {
            let sh: u32 = ((11 - i) as u32) * 8;
            bytes.push((n >> sh) as u8);
        }
        i += 1;
    }
    proof {
        assert(bytes@ =~= oid_bytes(n));
    }
    ObjectId { bytes }
}

/// A lowercase hexadecimal digit denotes its own value.
proof fn lemma_hex_char_val(v: u8)
    requires
        v < 16,
    ensures
        is_hex_digit(hex_char(v)),
        hex_val(hex_char(v)) == v,
{
}

/// Encoding bytes and decoding the result gives the bytes back: every
/// identifier round-trips through its hexadecimal spelling.
pub proof fn lemma_hex_round_trip(b: Seq<u8>)
    requires
        b.len() == 12,
    ensures
        is_object_id_hex(hex_of(b)),
        decoded(hex_of(b)) == b,
{
    let h = hex_of(b);
    assert forall|i: int| 0 <= i < h.len() implies is_hex_digit(h[i]) by {
        if i % 2 == 0 {
            lemma_hex_char_val((b[i / 2] / 16) as u8);
        } else {
            lemma_hex_char_val((b[i / 2] % 16) as u8);
        }
    }
    assert forall|k: int| 0 <= k < 12 implies decoded(h)[k] == b[k] by {
        lemma_hex_char_val((b[k] / 16) as u8);
        lemma_hex_char_val((b[k] % 16) as u8);
        lemma_fundamental_div_mod(b[k] as int, 16);
    }
    assert(decoded(h) =~= b);
}

} // verus!
