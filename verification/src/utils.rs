//! Reading swap-module ids out of output scripts, and checking ticker texts and
//! ticker pairs given in swap operations.

use vstd::prelude::*;
use vstd::utf8::{encode_utf8, valid_utf8, encode_utf8_valid_utf8, is_char_boundary_start_end_of_seq,
    is_char_boundary_iff_not_is_continuation_byte};
use vstd::string::{StrSliceExecFns, StringSliceAdditionalSpecFns};
use crate::bigint::{big_from_u128, big_to_decimal, nat_digits};
use crate::address::{hash_string, hex_lower, reversed32};
use crate::ticker::{spec_b63, ticker_b63, str_to_lowercase, unicode_lowercase, TICKER_MIN_SIZE, TICKER_MAX_SIZE,
    all_b63, ticker_check, ascii_lower, lemma_ascii_lower_keeps_length};
use vstd::utf8::{is_ascii_chars, encode_scalar, leading_byte_width_2, has_width_2_encoding};
use byteorder::{ByteOrder, LittleEndian};

verus! {

/// `LittleEndian::read_u16` of two bytes.
#[verifier::external_body]
fn read_u16_le(b: &[u8]) -> (r: u16)
    requires
        b@.len() == 2,
    ensures
        r == b@[0] + 256 * b@[1],
{
    LittleEndian::read_u16(b)
}

/// `LittleEndian::read_u32` of four bytes.
#[verifier::external_body]
fn read_u32_le(b: &[u8]) -> (r: u32)
    requires
        b@.len() == 4,
    ensures
        r == b@[0] + 256 * b@[1] + 65536 * b@[2] + 16777216 * b@[3],
{
    LittleEndian::read_u32(b)
}

/// The output index a module script carries after its 32-byte hash.
pub open spec fn module_index(s: Seq<u8>) -> nat {
    if s[1] == 33 {
        s[34] as nat
    } else if s[1] == 34 {
        (s[34] + 256 * s[35]) as nat
    } else if s[1] == 35 {
        (s[34] + 256 * s[35] + 65536 * s[36]) as nat
    } else if s[1] == 36 {
        (s[34] + 256 * s[35] + 65536 * s[36] + 16777216 * s[37]) as nat
    } else {
        0
    }
}

/// A module script: `OP_RETURN`, a push of 32 to 36 bytes (34 to 38 bytes in
/// all) whose last byte is not zero when it is longer than the hash.
pub open spec fn is_module_script(s: Seq<u8>) -> bool {
    &&& 34 <= s.len() <= 38
    &&& s[0] == 0x6a
    &&& s[1] + 2 == s.len()
    &&& !(s.len() > 34 && s[s.len() - 1] == 0)
}

/// The module id a script names: the reversed hash in hex, `i`, the index.
pub open spec fn module_of_script(s: Seq<u8>) -> Seq<char> {
    hex_lower(reversed32(s.subrange(2, 34))) + seq!['i'] + nat_digits(module_index(s))
}

/// The id of the swap module that an output script sends to.
pub fn get_module_from_script(script: &[u8]) -> (r: Result<String, bool>)
    ensures
        is_module_script(script@) ==> (r matches Ok(m) && m@ == module_of_script(script@)),
        !is_module_script(script@) ==> r == Err::<String, bool>(false),
{
    let n = script.len();
    if n < 34 || n > 38 {
        return Err(false);
    }
    if script[0] != 0x6a {
        return Err(false);
    }
    if (script[1] as usize) + 2 != n {
        return Err(false);
    }
    if n > 34 && script[n - 1] == 0 {
        return Err(false);
    }
    let s = script;
    let idx: u32 = if s[1] <= 32 {
        0
    } else if s[1] == 33 {
        s[34] as u32
    } else if s[1] == 34 {
        let b = vstd::slice::slice_subrange(s, 34, 36);
        read_u16_le(b) as u32
    } else if s[1] == 35 {
        let (a, b, c) = (s[34] as u32, s[35] as u32, s[36] as u32);
        assert(a | (b << 8) | (c << 16) == a + 256 * b + 65536 * c) by (bit_vector)
            requires
                a < 256,
                b < 256,
                c < 256,
        ;
        a | (b << 8) | (c << 16)
    } else {
        let b = vstd::slice::slice_subrange(s, 34, 38);
        read_u32_le(b)
    };
    assert(idx == module_index(s@));
    let h = vstd::slice::slice_subrange(s, 2, 34);
    let mut module = hash_string(h);
    proof { reveal_strlit("i"); }
    module.append("i");
    let digits = big_to_decimal(&big_from_u128(idx as u128));
    module.append(digits.as_str());
    Ok(module)
}

/// Why a ticker text or a ticker pair was refused.
#[derive(Debug, Clone, PartialEq, Eq)]
pub enum TickInputError {
    TooShort,
    TooLong,
    Invalid,
    PairInvalid,
    PairNoSlash,
}

impl TickInputError {
    /// The message of the error.
    pub fn to_string(&self) -> (r: String)
        ensures
            r@ == (match self {
                TickInputError::TooShort => "ticker is too short"@,
                TickInputError::TooLong => "ticker is too long"@,
                TickInputError::Invalid => "ticker invalid"@,
                TickInputError::PairInvalid => "tickPair invalid"@,
                TickInputError::PairNoSlash => "tickPair invalid, no slash found"@,
            }),
    {
        match self {
            TickInputError::TooShort => "ticker is too short".to_owned(),
            TickInputError::TooLong => "ticker is too long".to_owned(),
            TickInputError::Invalid => "ticker invalid".to_owned(),
            TickInputError::PairInvalid => "tickPair invalid".to_owned(),
            TickInputError::PairNoSlash => "tickPair invalid, no slash found".to_owned(),
        }
    }
}

/// A character below 256 that is in the ticker alphabet.
pub open spec fn char_in_b63(c: char) -> bool {
    (c as u32) < 256 && spec_b63((c as u32) as u8) <= 63
}

/// Every character at or above 256 comes after a character outside the
/// ticker alphabet (the alphabet is a table of 256 entries, looked up
/// character by character until one is outside it).
pub open spec fn table_safe(t: Seq<char>) -> bool {
    forall|i: int| 0 <= i < t.len() && (t[i] as u32) >= 256 ==> exists|j: int| 0 <= j < i && !char_in_b63(#[trigger] t[j])
}

/// Whether the ticker alphabet can be looked up for the text (see `table_safe`).
pub fn lower_ticker_table_safe(ticker: &str) -> (r: bool)
    ensures
        r == table_safe(ticker@),
{
    let n = ticker.unicode_len();
    let mut i: usize = 0;
    while i < n
        invariant
            n == ticker@.len(),
            i <= n,
            forall|j: int| 0 <= j < i ==> char_in_b63(#[trigger] ticker@[j]),
        decreases n - i,
    {
        let code = ticker.get_char(i) as u32;
        if code >= 256 {
            assert(!table_safe(ticker@)) by {
                if table_safe(ticker@) {
                    let j = choose|j: int| 0 <= j < i && !char_in_b63(#[trigger] ticker@[j]);
                }
            }
            return false;
        }
        if ticker_b63(code as u8) > 63 {
            assert(!char_in_b63(ticker@[i as int]));
            assert forall|k: int| 0 <= k < ticker@.len() && (ticker@[k] as u32) >= 256
                implies exists|j: int| 0 <= j < k && !char_in_b63(#[trigger] ticker@[j]) by {
                if k <= i {
                    assert(char_in_b63(ticker@[k]) || k == i);
                }
                assert(0 <= i < k && !char_in_b63(ticker@[i as int]));
            }
            return true;
        }
        i = i + 1;
    }
    true
}

/// What checking a unique ticker text gives: 6 to 12 bytes, every character
/// in the ticker alphabet; the text is lowercased.
pub open spec fn unique_lower(t: Seq<char>) -> Result<Seq<char>, TickInputError> {
    let n = encode_utf8(t).len();
    if n < TICKER_MIN_SIZE {
        Err(TickInputError::TooShort)
    } else if n > TICKER_MAX_SIZE {
        Err(TickInputError::TooLong)
    } else if forall|i: int| 0 <= i < t.len() ==> char_in_b63(#[trigger] t[i]) {
        Ok(unicode_lowercase(t))
    } else {
        Err(TickInputError::Invalid)
    }
}

/// A unique ticker text is 6 to 12 bytes of the ticker alphabet; it is
/// lowercased. This length rule differs from ticker validation
/// (`ticker_check`), which takes 4- and 5-byte names and refuses 6-byte ones;
/// on 7 to 12 bytes the two agree (`lemma_unique_lower_agrees_with_ticker`).
pub fn get_valid_unique_lower_ticker(ticker: &str) -> (r: Result<String, TickInputError>)
    requires
        TICKER_MIN_SIZE <= ticker.spec_bytes().len() <= TICKER_MAX_SIZE ==> table_safe(ticker@),
    ensures
        ticker.spec_bytes().len() < TICKER_MIN_SIZE ==> r == Err::<String, TickInputError>(TickInputError::TooShort),
        TICKER_MIN_SIZE <= ticker.spec_bytes().len() && ticker.spec_bytes().len() > TICKER_MAX_SIZE
            ==> r == Err::<String, TickInputError>(TickInputError::TooLong),
        TICKER_MIN_SIZE <= ticker.spec_bytes().len() <= TICKER_MAX_SIZE ==> (
            if forall|i: int| 0 <= i < ticker@.len() ==> char_in_b63(#[trigger] ticker@[i]) {
                r matches Ok(s) && s@ == unicode_lowercase(ticker@)
            } else {
                r == Err::<String, TickInputError>(TickInputError::Invalid)
            }),
{
    let len = ticker.as_bytes().len();
    if len < TICKER_MIN_SIZE {
        return Err(TickInputError::TooShort);
    }
    if len > TICKER_MAX_SIZE {
        return Err(TickInputError::TooLong);
    }
    let n = ticker.unicode_len();
    let mut i: usize = 0;
    while i < n
        invariant
            n == ticker@.len(),
            len == ticker.spec_bytes().len(),
            TICKER_MIN_SIZE <= len <= TICKER_MAX_SIZE,
            i <= n,
            forall|j: int| 0 <= j < i ==> char_in_b63(#[trigger] ticker@[j]),
            forall|i: int| 0 <= i < ticker@.len() && (ticker@[i] as u32) >= 256
                ==> exists|j: int| 0 <= j < i && !char_in_b63(#[trigger] ticker@[j]),
        decreases n - i,
    {
        let c = ticker.get_char(i);
        let code = c as u32;
        if code >= 256 {
            proof {
                let j = choose|j: int| 0 <= j < i && !char_in_b63(#[trigger] ticker@[j]);
                assert(false);
            }
            return Err(TickInputError::Invalid);
        }
        if ticker_b63(code as u8) > 63 {
            assert(!char_in_b63(ticker@[i as int]));
            return Err(TickInputError::Invalid);
        }
        i = i + 1;
    }
    Ok(str_to_lowercase(ticker))
}

/// Index of the first byte equal to `x`, or the length when there is none.
pub open spec fn first_byte_index(b: Seq<u8>, x: u8) -> int {
    if exists|i: int| 0 <= i < b.len() && b[i] == x {
        choose|i: int| 0 <= i < b.len() && b[i] == x && forall|j: int| 0 <= j < i ==> b[j] != x
    } else {
        b.len() as int
    }
}

/// Finds the first byte equal to `x`.
pub fn find_byte(b: &[u8], x: u8) -> (r: usize)
    ensures
        r as int == first_byte_index(b@, x),
        r < b@.len() ==> b@[r as int] == x,
        r <= b@.len(),
        forall|j: int| 0 <= j < r ==> b@[j] != x,
{
    let mut i: usize = 0;
    while i < b.len() && b[i] != x
        invariant
            i <= b@.len(),
            forall|j: int| 0 <= j < i ==> b@[j] != x,
        decreases b.len() - i,
    {
        i = i + 1;
    }
    proof {
        if i < b@.len() {
            let c = choose|k: int| 0 <= k < b@.len() && b@[k] == x && forall|j: int| 0 <= j < k ==> b@[j] != x;
            assert(c == i) by {
                if c > i {
                    assert(b@[i as int] != x);
                }
            }
        }
    }
    i
}

/// A ticker pair `token0/token1`: split at the first `/`, each side at least
/// `TICKER_MIN_SIZE` bytes, the first at most `TICKER_MAX_SIZE`, the whole at
/// most `2 * TICKER_MAX_SIZE + 1`.
pub open spec fn pair_ok(b: Seq<u8>) -> bool {
    let k = first_byte_index(b, 47);
    !(b.len() < TICKER_MIN_SIZE * 2 + 1 || b.len() > TICKER_MAX_SIZE * 2 + 1 || k < TICKER_MIN_SIZE
        || k > TICKER_MAX_SIZE || b.len() - (k + 1) < TICKER_MIN_SIZE)
}

/// Splits a ticker pair into its two tickers (see `pair_ok`).
pub fn decode_tokens_from_swap_pair(tick_pair: &str) -> (r: Result<(String, String), TickInputError>)
    ensures
        0 <= first_byte_index(tick_pair.spec_bytes(), 47) <= tick_pair.spec_bytes().len(),
        first_byte_index(tick_pair.spec_bytes(), 47) == tick_pair.spec_bytes().len()
            ==> r == Err::<(String, String), TickInputError>(TickInputError::PairNoSlash),
        first_byte_index(tick_pair.spec_bytes(), 47) < tick_pair.spec_bytes().len() ==> (
            if pair_ok(tick_pair.spec_bytes()) {
                r matches Ok(p) && encode_utf8(p.0@) == tick_pair.spec_bytes().subrange(0, first_byte_index(tick_pair.spec_bytes(), 47))
                    && encode_utf8(p.1@) == tick_pair.spec_bytes().subrange(
                        first_byte_index(tick_pair.spec_bytes(), 47) + 1, tick_pair.spec_bytes().len() as int)
            } else {
                r == Err::<(String, String), TickInputError>(TickInputError::PairInvalid)
            }),
{
    let b = tick_pair.as_bytes();
    let n = b.len();
    let k = find_byte(b, 47);
    if k == n {
        return Err(TickInputError::PairNoSlash);
    }
    if n < TICKER_MIN_SIZE * 2 + 1 || n > TICKER_MAX_SIZE * 2 + 1 || k < TICKER_MIN_SIZE
        || k > TICKER_MAX_SIZE || n - (k + 1) < TICKER_MIN_SIZE {
        return Err(TickInputError::PairInvalid);
    }
    let ghost bs = tick_pair.spec_bytes();
    proof {
        broadcast use encode_utf8_valid_utf8;
        assert(valid_utf8(bs));
        is_char_boundary_iff_not_is_continuation_byte(bs, k as int);
    }
    let (t0, rest) = tick_pair.split_at(k);
    proof {
        vstd::utf8::valid_utf8_split(bs, k as int);
        reveal_with_fuel(vstd::utf8::is_char_boundary, 2);
    }
    let (_slash, t1) = rest.split_at(1);
    assert(t0.spec_bytes() == bs.subrange(0, k as int));
    assert(t1.spec_bytes() == bs.subrange(k + 1, n as int));
    Ok((t0.to_owned(), t1.to_owned()))
}


/// Joining two tickers with `/`, the first holding no `/`, and splitting the
/// result gives the two tickers back.
pub proof fn lemma_pair_split_join(a: Seq<u8>, b: Seq<u8>)
    requires
        forall|i: int| 0 <= i < a.len() ==> a[i] != 47,
    ensures
        first_byte_index(a.push(47) + b, 47) == a.len(),
        (a.push(47) + b).subrange(0, a.len() as int) == a,
        (a.push(47) + b).subrange(a.len() as int + 1, (a.push(47) + b).len() as int) == b,
{
    let j = a.push(47) + b;
    assert(j[a.len() as int] == 47);
    assert(exists|i: int| 0 <= i < j.len() && j[i] == 47);
    let c = choose|i: int| 0 <= i < j.len() && j[i] == 47 && forall|k: int| 0 <= k < i ==> j[k] != 47;
    assert(forall|k: int| 0 <= k < a.len() ==> j[k] == a[k]);
    assert(c == a.len()) by {
        if c > a.len() {
            assert(j[a.len() as int] != 47);
        }
    }
    assert(j.subrange(0, a.len() as int) =~= a);
    assert(j.subrange(a.len() as int + 1, j.len() as int) =~= b);
}

/// A character below 128 is ASCII.
proof fn lemma_char_below_128(c: char)
    requires
        (c as u32) < 128,
    ensures
        '\0' <= c <= '\u{7f}',
{
}

/// Text whose bytes are all in the ticker alphabet, and whose characters are
/// all below 256, is ASCII.
proof fn lemma_b63_bytes_ascii(t: Seq<char>)
    requires
        all_b63(encode_utf8(t)),
        forall|i: int| 0 <= i < t.len() ==> (#[trigger] t[i] as u32) < 256,
    ensures
        is_ascii_chars(t),
    decreases t.len(),
{
    if t.len() > 0 {
        let c = t[0] as u32;
        let rest = t.drop_first();
        let e = encode_scalar(c);
        assert(encode_utf8(t) == e + encode_utf8(rest));
        if c >= 128 {
            assert(has_width_2_encoding(c));
            assert(leading_byte_width_2(c) >= 0xC0) by (bit_vector)
                requires
                    0x80 <= c <= 0x7FF,
            ;
            assert(encode_utf8(t)[0] == e[0]);
            assert(spec_b63(encode_utf8(t)[0]) <= 63);
            assert(false);
        }
        assert(e.len() == 1);
        assert forall|i: int| 0 <= i < encode_utf8(rest).len()
            implies spec_b63(#[trigger] encode_utf8(rest)[i]) <= 63 by {
            assert(encode_utf8(t)[i + 1] == encode_utf8(rest)[i]);
        }
        assert forall|i: int| 0 <= i < rest.len() implies (#[trigger] rest[i] as u32) < 256 by {
            assert(rest[i] == t[i + 1]);
        }
        lemma_b63_bytes_ascii(rest);
        assert forall|i: int| 0 <= i < t.len() implies '\0' <= #[trigger] t[i] <= '\u{7f}' by {
            if i > 0 {
                assert(t[i] == rest[i - 1]);
            } else {
                lemma_char_below_128(t[0]);
            }
        }
    }
}

/// For ASCII text, every character is in the ticker alphabet exactly when
/// every byte is.
proof fn lemma_ascii_b63(t: Seq<char>)
    requires
        is_ascii_chars(t),
    ensures
        (forall|i: int| 0 <= i < t.len() ==> char_in_b63(#[trigger] t[i])) == all_b63(encode_utf8(t)),
{
    vstd::utf8::is_ascii_chars_encode_utf8(t);
    if forall|i: int| 0 <= i < t.len() ==> char_in_b63(#[trigger] t[i]) {
        assert forall|i: int| 0 <= i < encode_utf8(t).len()
            implies spec_b63(#[trigger] encode_utf8(t)[i]) <= 63 by {
            assert(char_in_b63(t[i]));
            assert(t[i] as u8 == encode_utf8(t)[i]);
        }
    }
    if all_b63(encode_utf8(t)) {
        assert forall|i: int| 0 <= i < t.len() implies char_in_b63(#[trigger] t[i]) by {
            assert(t[i] as u8 == encode_utf8(t)[i]);
            assert(spec_b63(encode_utf8(t)[i]) <= 63);
        }
    }
}

/// The unique-ticker check and ticker validation agree on names of more than
/// `TICKER_MIN_SIZE` and at most `TICKER_MAX_SIZE` bytes whose characters are
/// all below 256: one accepts exactly when the other does. An accepted name is
/// ASCII, its result is its lowercase, and its ASCII lowercase is again a
/// valid ticker.
pub proof fn lemma_unique_lower_agrees_with_ticker(t: Seq<char>)
    requires
        forall|i: int| 0 <= i < t.len() ==> (#[trigger] t[i] as u32) < 256,
        TICKER_MIN_SIZE < encode_utf8(t).len() <= TICKER_MAX_SIZE,
    ensures
        (unique_lower(t) is Ok) == (ticker_check(encode_utf8(t)) is Ok),
        unique_lower(t) is Ok ==> unique_lower(t) == Ok::<Seq<char>, TickInputError>(unicode_lowercase(t)),
        unique_lower(t) is Ok ==> is_ascii_chars(t)
            && ticker_check(encode_utf8(t.map_values(|c: char| ascii_lower(c)))) is Ok,
{
    if forall|i: int| 0 <= i < t.len() ==> char_in_b63(#[trigger] t[i]) {
        assert forall|i: int| 0 <= i < t.len() implies '\0' <= #[trigger] t[i] <= '\u{7f}' by {
            assert(char_in_b63(t[i]));
            let v = t[i] as u32;
            assert(v < 256);
            assert((v as u8) as int == v);
            assert(v < 128);
            lemma_char_below_128(t[i]);
        }
        lemma_ascii_b63(t);
        let l = t.map_values(|c: char| ascii_lower(c));
        lemma_ascii_lower_keeps_length(t);
        assert forall|i: int| 0 <= i < l.len() implies char_in_b63(#[trigger] l[i]) by {
            assert(char_in_b63(t[i]));
            assert(l[i] == ascii_lower(t[i]));
        }
        lemma_ascii_b63(l);
    } else if all_b63(encode_utf8(t)) {
        lemma_b63_bytes_ascii(t);
        lemma_ascii_b63(t);
    }
}

/// Joining two ticker names of more than `TICKER_MIN_SIZE` bytes with `/`
/// gives a valid ticker pair, and splitting it gives back exactly the two
/// names.
pub proof fn lemma_pair_round_trip(x: Seq<char>, y: Seq<char>)
    requires
        ticker_check(encode_utf8(x)) is Ok,
        ticker_check(encode_utf8(y)) is Ok,
        encode_utf8(x).len() > TICKER_MIN_SIZE,
        encode_utf8(y).len() > TICKER_MIN_SIZE,
    ensures
        ({
            let j = encode_utf8(x).push(47) + encode_utf8(y);
            &&& first_byte_index(j, 47) == encode_utf8(x).len()
            &&& pair_ok(j)
            &&& forall|p0: Seq<char>, p1: Seq<char>|
                encode_utf8(p0) == j.subrange(0, first_byte_index(j, 47))
                && encode_utf8(p1) == j.subrange(first_byte_index(j, 47) + 1, j.len() as int)
                ==> p0 == x && p1 == y
        }),
{
    let a = encode_utf8(x);
    let b = encode_utf8(y);
    assert forall|i: int| 0 <= i < a.len() implies a[i] != 47 by {
        assert(spec_b63(a[i]) <= 63);
    }
    lemma_pair_split_join(a, b);
    assert forall|p0: Seq<char>, p1: Seq<char>|
        encode_utf8(p0) == a && encode_utf8(p1) == b implies p0 == x && p1 == y by {
        vstd::utf8::encode_utf8_decode_utf8(p0);
        vstd::utf8::encode_utf8_decode_utf8(p1);
        vstd::utf8::encode_utf8_decode_utf8(x);
        vstd::utf8::encode_utf8_decode_utf8(y);
    }
}

/// Where `x` occurs at `i`, the first occurrence is at or before `i`, holds
/// `x`, and nothing before it does.
proof fn lemma_first_byte_found(b: Seq<u8>, x: u8, i: int)
    requires
        0 <= i < b.len(),
        b[i] == x,
    ensures
        0 <= first_byte_index(b, x) <= i,
        b[first_byte_index(b, x)] == x,
        forall|j: int| 0 <= j < first_byte_index(b, x) ==> b[j] != x,
    decreases i,
{
    if exists|j: int| 0 <= j < i && b[j] == x {
        let j = choose|j: int| 0 <= j < i && b[j] == x;
        lemma_first_byte_found(b, x, j);
    } else {
        assert(forall|j: int| 0 <= j < i ==> b[j] != x);
        assert(0 <= i < b.len() && b[i] == x && forall|j: int| 0 <= j < i ==> b[j] != x);
        let c = first_byte_index(b, x);
        assert(c == i) by {
            if c > i {
                assert(b[i] != x);
            }
        }
    }
}

/// A split pair joins back: the first name holds no `/`, and its bytes, a
/// `/`, and the second name's bytes are the pair's bytes.
pub proof fn lemma_pair_split_rejoins(s: Seq<u8>, p0: Seq<char>, p1: Seq<char>)
    requires
        first_byte_index(s, 47) < s.len(),
        encode_utf8(p0) == s.subrange(0, first_byte_index(s, 47)),
        encode_utf8(p1) == s.subrange(first_byte_index(s, 47) + 1, s.len() as int),
    ensures
        encode_utf8(p0).push(47) + encode_utf8(p1) == s,
        forall|i: int| 0 <= i < encode_utf8(p0).len() ==> encode_utf8(p0)[i] != 47,
{
    let k = first_byte_index(s, 47);
    assert(exists|i: int| 0 <= i < s.len() && s[i] == 47);
    let w = choose|i: int| 0 <= i < s.len() && s[i] == 47;
    lemma_first_byte_found(s, 47, w);
    assert(s[k] == 47);
    assert(encode_utf8(p0).push(47) + encode_utf8(p1) =~= s);
}

} // verus!
