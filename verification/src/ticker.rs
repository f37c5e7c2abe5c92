//! Ticker names: how a name is validated, compared, lowercased and stored.

use vstd::prelude::*;
use vstd::utf8::{encode_utf8, decode_utf8, valid_utf8, is_ascii_chars};
use vstd::string::{StringSliceAdditionalSpecFns, StrSliceExecFns};
use crate::bigint::le_bytes_value;
use byteorder::{ByteOrder, LittleEndian};

verus! {

/// Fewest bytes of a long ticker name (a name of exactly this length is refused).
pub const TICKER_MIN_SIZE: usize = 6;

/// Most bytes of a ticker name.
pub const TICKER_MAX_SIZE: usize = 12;

/// Why a ticker name was refused.
#[derive(Debug, Clone, PartialEq, Eq)]
pub enum Error {
    /// The name has a length that is not accepted.
    Range,
    /// A long name holds a byte outside the ticker alphabet.
    InvalidChar,
}

impl Error {
    /// The message of the error.
    pub fn to_string(&self) -> (r: String)
        ensures
            r@ == (match self {
                Error::Range => "ticker name out of range"@,
                Error::InvalidChar => "ticker characters invalid"@,
            }),
    {
        match self {
            Error::Range => "ticker name out of range".to_owned(),
            Error::InvalidChar => "ticker characters invalid".to_owned(),
        }
    }
}

/// The message of a ticker error.
pub open spec fn ticker_error_text(e: Error) -> Seq<char> {
    match e {
        Error::Range => "ticker name out of range"@,
        Error::InvalidChar => "ticker characters invalid"@,
    }
}

/// Position of a byte in the 63-letter ticker alphabet (`0-9`, `A-Z`, `_`,
/// `a-z`), or 255 for a byte outside it.
pub open spec fn spec_b63(c: u8) -> u8 {
    if 48 <= c <= 57 {
        (c - 48) as u8
    } else if 65 <= c <= 90 {
        (c - 55) as u8
    } else if c == 95 {
        36
    } else if 97 <= c <= 122 {
        (c - 60) as u8
    } else {
        255
    }
}

/// The ticker alphabet as a table lookup.
pub fn ticker_b63(c: u8) -> (r: u8)
    ensures
        r == spec_b63(c),
{
    if 48 <= c && c <= 57 {
        c - 48
    } else if 65 <= c && c <= 90 {
        c - 55
    } else if c == 95 {
        36
    } else if 97 <= c && c <= 122 {
        c - 60
    } else {
        255
    }
}

/// Every byte is in the ticker alphabet.
pub open spec fn all_b63(b: Seq<u8>) -> bool {
    forall|i: int| 0 <= i < b.len() ==> spec_b63(#[trigger] b[i]) <= 63
}

/// The outcome of validating a name given as bytes: names of 4 or 5 bytes are
/// taken as they are; names longer than `TICKER_MIN_SIZE` and at most
/// `TICKER_MAX_SIZE` bytes must be in the ticker alphabet; any other length is
/// out of range.
pub open spec fn ticker_check(b: Seq<u8>) -> Result<(), Error> {
    if b.len() == 4 || b.len() == 5 {
        Ok(())
    } else if TICKER_MIN_SIZE < b.len() <= TICKER_MAX_SIZE {
        if all_b63(b) {
            Ok(())
        } else {
            Err(Error::InvalidChar)
        }
    } else {
        Err(Error::Range)
    }
}

/// What `str::to_lowercase` (full Unicode lowercase mapping) gives for a text.
pub uninterp spec fn unicode_lowercase(s: Seq<char>) -> Seq<char>;

/// The ASCII lowercase of a character: `A` to `Z` become `a` to `z`, any
/// other character is kept.
pub open spec fn ascii_lower(c: char) -> char {
    if 'A' <= c <= 'Z' { ((c as u32) + 32) as char } else { c }
}

/// `str::to_lowercase`: its result is named `unicode_lowercase`; of ASCII
/// text it is the ASCII lowercase, character by character.
#[verifier::external_body]
pub(crate) fn str_to_lowercase(s: &str) -> (r: String)
    ensures
        r@ == unicode_lowercase(s@),
        is_ascii_chars(s@) ==> r@ == s@.map_values(|c: char| ascii_lower(c)),
{
    s.to_lowercase()
}

/// `String::from_utf8`: `None` for bytes that are not UTF-8.
#[verifier::external_body]
pub(crate) fn string_from_utf8(b: Vec<u8>) -> (r: Option<String>)
    ensures
        match r {
            Some(s) => valid_utf8(b@) && s@ == decode_utf8(b@),
            None => !valid_utf8(b@),
        },
{
    match String::from_utf8(b) {
        Ok(s) => Some(s),
        Err(_) => None,
    }
}

/// `LittleEndian::write_u64`.
#[verifier::external_body]
fn u64_to_le(n: u64) -> (r: Vec<u8>)
    ensures
        r@.len() == 8,
        le_bytes_value(r@) == n,
{
    let mut buf = vec![0u8; 8];
    LittleEndian::write_u64(&mut buf, n);
    buf
}

/// `LittleEndian::read_u64` of eight bytes.
#[verifier::external_body]
fn u64_from_le(b: &[u8]) -> (r: u64)
    requires
        b@.len() == 8,
    ensures
        r == le_bytes_value(b@),
{
    LittleEndian::read_u64(b)
}

/// `v` is `b` framed by its length: eight little-endian length bytes, then `b`.
pub open spec fn is_framed(v: Seq<u8>, b: Seq<u8>) -> bool {
    &&& v.len() == 8 + b.len()
    &&& le_bytes_value(v.subrange(0, 8)) == b.len()
    &&& v.subrange(8, v.len() as int) == b
}

/// The bytes that a length-framed record at the start of `v` holds, if `v` is
/// long enough for its length prefix and its contents (later bytes are ignored).
pub open spec fn unframe(v: Seq<u8>) -> Option<Seq<u8>> {
    if v.len() < 8 {
        None
    } else if v.len() - 8 < le_bytes_value(v.subrange(0, 8)) {
        None
    } else {
        Some(v.subrange(8, 8 + le_bytes_value(v.subrange(0, 8)) as int))
    }
}

/// Frames bytes by their length.
pub(crate) fn frame_bytes(b: &[u8]) -> (r: Vec<u8>)
    ensures
        is_framed(r@, b@),
{
    let mut out = u64_to_le(b.len() as u64);
    let ghost head = out@;
    let mut i: usize = 0;
    while i < b.len()
        invariant
            i <= b@.len(),
            head.len() == 8,
            out@ == head + b@.subrange(0, i as int),
        decreases b.len() - i,
    {
        out.push(b[i]);
        i = i + 1;
        assert(out@ =~= head + b@.subrange(0, i as int));
    }
    assert(out@.subrange(0, 8) =~= head);
    assert(out@.subrange(8, out@.len() as int) =~= b@);
    out
}

/// Reads the bytes of a length-framed record.
pub(crate) fn unframe_bytes(v: &[u8]) -> (r: Option<Vec<u8>>)
    ensures
        match r {
            Some(b) => unframe(v@) == Some(b@),
            None => unframe(v@) is None,
        },
{
    if v.len() < 8 {
        return None;
    }
    let mut head: Vec<u8> = Vec::new();
    let mut i: usize = 0;
    while i < 8
        invariant
            8 <= v@.len(),
            i <= 8,
            head@ == v@.subrange(0, i as int),
        decreases 8 - i,
    {
        head.push(v[i]);
        i = i + 1;
        assert(head@ =~= v@.subrange(0, i as int));
    }
    let n = u64_from_le(head.as_slice());
    let avail = (v.len() - 8) as u64;
    if avail < n {
        return None;
    }
    let end: usize = 8 + n as usize;
    let mut out: Vec<u8> = Vec::new();
    let mut k: usize = 8;
    while k < end
        invariant
            8 <= k <= end,
            end <= v@.len(),
            out@ == v@.subrange(8, k as int),
        decreases end - k,
    {
        out.push(v[k]);
        k = k + 1;
        assert(out@ =~= v@.subrange(8, k as int));
    }
    Some(out)
}

/// A ticker name, as written by its deployer.
#[derive(Debug, Clone, PartialEq, Eq, PartialOrd, Ord)]
pub struct BRC20Ticker {
    name: String,
}

impl View for BRC20Ticker {
    type V = Seq<char>;

    closed spec fn view(&self) -> Seq<char> {
        self.name@
    }
}

/// A ticker name in lowercase, the form under which tickers are looked up.
#[derive(Debug, Clone, PartialEq, Eq, PartialOrd, Ord)]
pub struct BRC20LowerCaseTicker {
    name: String,
}

impl View for BRC20LowerCaseTicker {
    type V = Seq<char>;

    closed spec fn view(&self) -> Seq<char> {
        self.name@
    }
}

impl BRC20Ticker {
    /// Validates a name (see `ticker_check`).
    pub fn from_str(s: &str) -> (r: Result<BRC20Ticker, Error>)
        ensures
            match ticker_check(s.spec_bytes()) {
                Ok(_) => r matches Ok(t) && t@ == s@,
                Err(e) => r == Err::<BRC20Ticker, Error>(e),
            },
    {
        let bytes = s.as_bytes();
        let length = bytes.len();
        if length == 4 || length == 5 {
            return Ok(BRC20Ticker { name: s.to_owned() });
        }
        if !(TICKER_MIN_SIZE < length && length <= TICKER_MAX_SIZE) {
            return Err(Error::Range);
        }
        let mut i: usize = 0;
        while i < length
            invariant
                i <= length,
                length != 4 && length != 5,
                TICKER_MIN_SIZE < length <= TICKER_MAX_SIZE,
                length == bytes@.len(),
                bytes@ == s.spec_bytes(),
                forall|j: int| 0 <= j < i ==> spec_b63(#[trigger] bytes@[j]) <= 63,
            decreases length - i,
        {
            if ticker_b63(bytes[i]) > 63 {
                assert(spec_b63(bytes@[i as int]) > 63);
                return Err(Error::InvalidChar);
            }
            i = i + 1;
        }
        Ok(BRC20Ticker { name: s.to_owned() })
    }

    /// The name's UTF-8 bytes.
    pub open spec fn spec_bytes(&self) -> Seq<u8> {
        encode_utf8(self@)
    }

    /// Length in bytes.
    pub fn len(&self) -> (r: usize)
        ensures
            r == self.spec_bytes().len(),
    {
        self.name.as_str().as_bytes().len()
    }

    /// The name.
    pub fn to_string(&self) -> (r: String)
        ensures
            r@ == self@,
    {
        self.name.clone()
    }

    /// The name.
    pub fn as_str(&self) -> (r: &str)
        ensures
            r@ == self@,
    {
        self.name.as_str()
    }

    /// The name in lowercase (full Unicode mapping).
    pub fn to_lowercase(&self) -> (r: BRC20LowerCaseTicker)
        ensures
            r@ == unicode_lowercase(self@),
            is_ascii_chars(self@) ==> r@ == self@.map_values(|c: char| ascii_lower(c))
                && r.spec_bytes().len() == self.spec_bytes().len(),
    {
        let r = BRC20LowerCaseTicker { name: str_to_lowercase(self.name.as_str()) };
        proof {
            if is_ascii_chars(self@) {
                lemma_ascii_lower_keeps_length(self@);
            }
        }
        r
    }

    /// Same name.
    pub fn same(&self, other: &BRC20Ticker) -> (r: bool)
        ensures
            r == (self@ == other@),
    {
        self.name == other.name
    }

    /// A copy.
    pub fn copy(&self) -> (r: BRC20Ticker)
        ensures
            r@ == self@,
    {
        BRC20Ticker { name: self.name.clone() }
    }

    /// The stored form: the name's bytes framed by their length.
    pub fn store(&self) -> (r: Vec<u8>)
        ensures
            is_framed(r@, self.spec_bytes()),
    {
        frame_bytes(self.name.as_str().as_bytes())
    }

    /// Reads a stored ticker: the framed bytes must be UTF-8 and a valid name.
    pub fn load(v: &[u8]) -> (r: Option<BRC20Ticker>)
        ensures
            match r {
                Some(t) => unframe(v@) is Some && valid_utf8(unframe(v@).unwrap())
                    && t@ == decode_utf8(unframe(v@).unwrap())
                    && ticker_check(unframe(v@).unwrap()) is Ok,
                None => unframe(v@) is None || !valid_utf8(unframe(v@).unwrap())
                    || ticker_check(unframe(v@).unwrap()) is Err,
            },
    {
        let b = match unframe_bytes(v) {
            Some(b) => b,
            None => return None,
        };
        let ghost bb = b@;
        let s = match string_from_utf8(b) {
            Some(s) => s,
            None => return None,
        };
        proof {
            vstd::utf8::decode_utf8_encode_utf8(bb);
        }
        assert(encode_utf8(s@) == bb);
        match BRC20Ticker::from_str(s.as_str()) {
            Ok(t) => Some(t),
            Err(_) => None,
        }
    }
}

impl BRC20LowerCaseTicker {
    /// A lowercase ticker from its bytes, which must be UTF-8.
    pub fn from_bytes(b: Vec<u8>) -> (r: Option<BRC20LowerCaseTicker>)
        ensures
            match r {
                Some(t) => valid_utf8(b@) && t@ == decode_utf8(b@),
                None => !valid_utf8(b@),
            },
    {
        match string_from_utf8(b) {
            Some(s) => Some(BRC20LowerCaseTicker { name: s }),
            None => None,
        }
    }

    /// The name's UTF-8 bytes.
    pub open spec fn spec_bytes(&self) -> Seq<u8> {
        encode_utf8(self@)
    }

    /// Length in bytes.
    pub fn len(&self) -> (r: usize)
        ensures
            r == self.spec_bytes().len(),
    {
        self.name.as_str().as_bytes().len()
    }

    /// The name's bytes.
    pub fn to_box(&self) -> (r: Vec<u8>)
        ensures
            r@ == self.spec_bytes(),
    {
        self.name.as_str().as_bytes_vec()
    }

    /// The name.
    pub fn to_string(&self) -> (r: String)
        ensures
            r@ == self@,
    {
        self.name.clone()
    }

    /// The name.
    pub fn as_str(&self) -> (r: &str)
        ensures
            r@ == self@,
    {
        self.name.as_str()
    }

    /// Same name.
    pub fn same(&self, other: &BRC20LowerCaseTicker) -> (r: bool)
        ensures
            r == (self@ == other@),
    {
        self.name == other.name
    }

    /// A copy.
    pub fn copy(&self) -> (r: BRC20LowerCaseTicker)
        ensures
            r@ == self@,
    {
        BRC20LowerCaseTicker { name: self.name.clone() }
    }

    /// The stored form: the name's bytes framed by their length.
    pub fn store(&self) -> (r: Vec<u8>)
        ensures
            is_framed(r@, self.spec_bytes()),
    {
        frame_bytes(self.name.as_str().as_bytes())
    }

    /// Reads a stored lowercase ticker: the framed bytes must be UTF-8.
    pub fn load(v: &[u8]) -> (r: Option<BRC20LowerCaseTicker>)
        ensures
            match r {
                Some(t) => unframe(v@) is Some && valid_utf8(unframe(v@).unwrap())
                    && t@ == decode_utf8(unframe(v@).unwrap()),
                None => unframe(v@) is None || !valid_utf8(unframe(v@).unwrap()),
            },
    {
        match unframe_bytes(v) {
            Some(b) => BRC20LowerCaseTicker::from_bytes(b),
            None => None,
        }
    }
}


/// Framed bytes read back as the bytes that were framed.
pub proof fn lemma_unframe_framed(v: Seq<u8>, b: Seq<u8>)
    requires
        is_framed(v, b),
    ensures
        unframe(v) == Some(b),
{
    assert(v.subrange(8, 8 + b.len() as int) =~= v.subrange(8, v.len() as int));
}

/// What a ticker stores, a load reads back as that ticker: the stored bytes
/// unframe to UTF-8 naming the same ticker, which passes validation again.
pub proof fn lemma_ticker_store_load(t: BRC20Ticker, v: Seq<u8>)
    requires
        ticker_check(t.spec_bytes()) is Ok,
        is_framed(v, t.spec_bytes()),
    ensures
        unframe(v) == Some(t.spec_bytes()),
        valid_utf8(unframe(v).unwrap()),
        decode_utf8(unframe(v).unwrap()) == t@,
        ticker_check(unframe(v).unwrap()) is Ok,
{
    lemma_unframe_framed(v, t.spec_bytes());
    vstd::utf8::encode_utf8_valid_utf8(t@);
    vstd::utf8::encode_utf8_decode_utf8(t@);
}

/// What a lowercase ticker stores, a load reads back as that ticker.
pub proof fn lemma_lowercase_store_load(t: BRC20LowerCaseTicker, v: Seq<u8>)
    requires
        is_framed(v, t.spec_bytes()),
    ensures
        unframe(v) == Some(t.spec_bytes()),
        valid_utf8(unframe(v).unwrap()),
        decode_utf8(unframe(v).unwrap()) == t@,
{
    lemma_unframe_framed(v, t.spec_bytes());
    vstd::utf8::encode_utf8_valid_utf8(t@);
    vstd::utf8::encode_utf8_decode_utf8(t@);
}


/// Lowercasing ASCII text keeps it ASCII and keeps its length in bytes.
pub proof fn lemma_ascii_lower_keeps_length(t: Seq<char>)
    requires
        is_ascii_chars(t),
    ensures
        is_ascii_chars(t.map_values(|c: char| ascii_lower(c))),
        encode_utf8(t.map_values(|c: char| ascii_lower(c))).len() == encode_utf8(t).len(),
{
    let l = t.map_values(|c: char| ascii_lower(c));
    assert forall|i: int| 0 <= i < l.len() implies '\0' <= #[trigger] l[i] <= '\u{7f}' by {
        let c = t[i];
        assert(l[i] == ascii_lower(c));
    }
    vstd::utf8::is_ascii_chars_encode_utf8(t);
    vstd::utf8::is_ascii_chars_encode_utf8(l);
}

} // verus!
