//! Owners of balances: an address, or the raw output script when the script
//! has no address form; and the identifiers of inscriptions and their locations.

use vstd::prelude::*;
use vstd::slice::slice_to_vec;
use vstd::string::StringSliceAdditionalSpecFns;
use crate::chain::Chain;
use crate::bigint::{big_from_u128, big_to_decimal, nat_digits};
use bitcoin::{Address, Network, Script, ScriptBuf, ScriptHash};
use std::str::FromStr;

verus! {

/// A lowercase hexadecimal digit.
pub open spec fn hex_digit(n: nat) -> char {
    if n < 10 {
        (48 + n) as char
    } else {
        (87 + n) as char
    }
}

/// Lowercase hexadecimal text of bytes, two digits per byte.
pub open spec fn hex_lower(b: Seq<u8>) -> Seq<char> {
    Seq::new(
        2 * b.len(),
        |i: int|
            if i % 2 == 0 {
                hex_digit((b[i / 2] / 16) as nat)
            } else {
                hex_digit((b[i / 2] % 16) as nat)
            },
    )
}

/// Value of a hexadecimal digit byte of either case, or -1.
pub open spec fn hex_value(c: u8) -> int {
    if 48 <= c <= 57 {
        c - 48
    } else if 97 <= c <= 102 {
        c - 87
    } else if 65 <= c <= 70 {
        c - 55
    } else {
        -1
    }
}

/// Bytes of hexadecimal text: an even number of hexadecimal digits of either case.
pub open spec fn hex_decode(s: Seq<u8>) -> Option<Seq<u8>> {
    if s.len() % 2 == 1 || exists|i: int| 0 <= i < s.len() && hex_value(#[trigger] s[i]) < 0 {
        None
    } else {
        Some(Seq::new(s.len() / 2, |i: int| (hex_value(s[2 * i]) * 16 + hex_value(s[2 * i + 1])) as u8))
    }
}

/// `hex::encode`.
#[verifier::external_body]
pub(crate) fn hex_encode(b: &[u8]) -> (r: String)
    ensures
        r@ == hex_lower(b@),
{
    hex::encode(b)
}

/// `Script::to_hex_string`.
#[verifier::external_body]
pub(crate) fn script_to_hex(b: &[u8]) -> (r: String)
    ensures
        r@ == hex_lower(b@),
{
    Script::from_bytes(b).to_hex_string()
}

/// `ScriptBuf::from_hex`: `None` for text that is not hexadecimal.
#[verifier::external_body]
pub(crate) fn script_from_hex(s: &str) -> (r: Option<Vec<u8>>)
    ensures
        match r {
            Some(b) => hex_decode(s.spec_bytes()) == Some(b@),
            None => hex_decode(s.spec_bytes()) is None,
        },
{
    match ScriptBuf::from_hex(s) {
        Ok(b) => Some(b.into_bytes()),
        Err(_) => None,
    }
}

/// What parsing an address text and requiring the chain's network gives: the
/// address's canonical text and its output script, or the message of the
/// error that stopped it.
pub uninterp spec fn address_parse(s: Seq<char>, chain: Chain) -> Result<(Seq<char>, Seq<u8>), Seq<char>>;

/// What `Address::from_script` gives for an output script on the chain's network: the address text.
pub uninterp spec fn script_address(script: Seq<u8>, chain: Chain) -> Option<Seq<char>>;

/// What `Script::script_hash` (HASH160) gives for a script.
pub uninterp spec fn script_hash_of(script: Seq<u8>) -> Seq<u8>;

/// `Address::from_str` then `require_network` for the chain's network; an
/// error gives the text of the error that stopped it.
#[verifier::external_body]
fn parse_address(s: &str, chain: Chain) -> (r: Result<(String, Vec<u8>), String>)
    ensures
        match r {
            Ok(p) => address_parse(s@, chain) == Ok::<(Seq<char>, Seq<u8>), Seq<char>>((p.0@, p.1@)),
            Err(m) => address_parse(s@, chain) == Err::<(Seq<char>, Seq<u8>), Seq<char>>(m@),
        },
{
    let network = match chain {
        Chain::Mainnet => Network::Bitcoin,
        Chain::Testnet => Network::Testnet,
        Chain::Regtest => Network::Regtest,
        Chain::Signet => Network::Signet,
    };
    match Address::from_str(s) {
        Ok(a) => match a.require_network(network) {
            Ok(c) => Ok((c.to_string(), c.script_pubkey().into_bytes())),
            Err(e) => Err(e.to_string()),
        },
        Err(e) => Err(e.to_string()),
    }
}

/// `Address::from_script` for the chain's network, as address text.
#[verifier::external_body]
fn address_from_script(script: &[u8], chain: Chain) -> (r: Option<String>)
    ensures
        match r {
            Some(t) => script_address(script@, chain) == Some(t@),
            None => script_address(script@, chain) is None,
        },
{
    let network = match chain {
        Chain::Mainnet => Network::Bitcoin,
        Chain::Testnet => Network::Testnet,
        Chain::Regtest => Network::Regtest,
        Chain::Signet => Network::Signet,
    };
    match Address::from_script(Script::from_bytes(script), network) {
        Ok(a) => Some(a.to_string()),
        Err(_) => None,
    }
}

/// `Script::script_hash`.
#[verifier::external_body]
fn script_hash(script: &[u8]) -> (r: Vec<u8>)
    ensures
        r@ == script_hash_of(script@),
        r@.len() == 20,
{
    let h: ScriptHash = Script::from_bytes(script).script_hash();
    bitcoin::hashes::Hash::to_byte_array(h).to_vec()
}

/// The script starts with `OP_RETURN`.
pub open spec fn is_op_return(script: Seq<u8>) -> bool {
    script.len() > 0 && script[0] == 0x6a
}

/// The owner is an `OP_RETURN` script.
pub open spec fn owner_op_return(o: OwnerView) -> bool {
    match o {
        OwnerView::Address(_) => false,
        OwnerView::ScriptHash(op_return, _, _) => op_return,
    }
}

/// The owner of an output script on a chain (see `UtxoAddress::from_script`).
pub open spec fn script_owner(script: Seq<u8>, chain: Chain) -> OwnerView {
    match script_address(script, chain) {
        Some(t) => OwnerView::Address(t),
        None => OwnerView::ScriptHash(is_op_return(script), script_hash_of(script), script),
    }
}

/// Why an address text was refused.
#[derive(Debug, Clone, PartialEq, Eq)]
pub enum AddressError {
    /// The text is not an address of the chain's network (the parser's message).
    Invalid(String),
}

/// The identity of an owner, as its equality sees it.
pub ghost enum OwnerView {
    Address(Seq<char>),
    ScriptHash(bool, Seq<u8>, Seq<u8>),
}

/// An owner of balances.
#[derive(Debug, Clone, PartialEq, Eq)]
pub enum UtxoAddress {
    /// An address (its canonical text), with its output script.
    Address { text: String, script: Vec<u8> },
    /// A script with no address form.
    ScriptHash { op_return: bool, script_hash: Vec<u8>, script_buf: Vec<u8> },
}

impl View for UtxoAddress {
    type V = OwnerView;

    open spec fn view(&self) -> OwnerView {
        match self {
            UtxoAddress::Address { text, .. } => OwnerView::Address(text@),
            UtxoAddress::ScriptHash { op_return, script_hash, script_buf } => OwnerView::ScriptHash(
                *op_return,
                script_hash@,
                script_buf@,
            ),
        }
    }
}

impl UtxoAddress {
    /// The output script of the owner.
    pub open spec fn script(&self) -> Seq<u8> {
        match self {
            UtxoAddress::Address { script, .. } => script@,
            UtxoAddress::ScriptHash { script_buf, .. } => script_buf@,
        }
    }

    /// The owner of an output script: its address when the script has one on
    /// the chain's network, else the script with its hash and `OP_RETURN` flag.
    pub fn from_script(script: &[u8], chain: &Chain) -> (r: UtxoAddress)
        ensures
            r.script() == script@,
            r@ == (match script_address(script@, *chain) {
                Some(t) => OwnerView::Address(t),
                None => OwnerView::ScriptHash(is_op_return(script@), script_hash_of(script@), script@),
            }),
    {
        match address_from_script(script, *chain) {
            Some(text) => UtxoAddress::Address { text, script: slice_to_vec(script) },
            None => {
                let op_return = script.len() > 0 && script[0] == 0x6a;
                UtxoAddress::ScriptHash {
                    op_return,
                    script_hash: script_hash(script),
                    script_buf: slice_to_vec(script),
                }
            },
        }
    }

    /// The owner of an address text of the chain's network.
    pub fn from_str(address: &str, chain: &Chain) -> (r: Result<UtxoAddress, AddressError>)
        ensures
            match address_parse(address@, *chain) {
                Ok(p) => r matches Ok(a) && a@ == OwnerView::Address(p.0) && a.script() == p.1,
                Err(m) => r matches Err(AddressError::Invalid(t)) && t@ == m,
            },
    {
        match parse_address(address, *chain) {
            Ok((text, script)) => Ok(UtxoAddress::Address { text, script }),
            Err(m) => Err(AddressError::Invalid(m)),
        }
    }

    /// The output script of an address text of the chain's network.
    pub fn get_script_by_str(address: &str, chain: &Chain) -> (r: Result<Vec<u8>, AddressError>)
        ensures
            match address_parse(address@, *chain) {
                Ok(p) => r matches Ok(s) && s@ == p.1,
                Err(m) => r matches Err(AddressError::Invalid(t)) && t@ == m,
            },
    {
        let a = Self::from_str(address, chain)?;
        Ok(a.to_script(chain))
    }

    /// The output script.
    pub fn to_script(&self, chain: &Chain) -> (r: Vec<u8>)
        ensures
            r@ == self.script(),
    {
        match self {
            UtxoAddress::Address { script, .. } => slice_to_vec(script.as_slice()),
            UtxoAddress::ScriptHash { script_buf, .. } => slice_to_vec(script_buf.as_slice()),
        }
    }

    /// The owner is an `OP_RETURN` script (its balances are burned).
    pub fn op_return(&self) -> (r: bool)
        ensures
            r == owner_op_return(self@),
    {
        match self {
            UtxoAddress::Address { .. } => false,
            UtxoAddress::ScriptHash { op_return, .. } => *op_return,
        }
    }

    /// Same owner.
    pub fn same(&self, other: &UtxoAddress) -> (r: bool)
        ensures
            r == (self@ == other@),
    {
        match (self, other) {
            (UtxoAddress::Address { text: a, .. }, UtxoAddress::Address { text: b, .. }) => *a == *b,
            (
                UtxoAddress::ScriptHash { op_return: o1, script_hash: h1, script_buf: s1 },
                UtxoAddress::ScriptHash { op_return: o2, script_hash: h2, script_buf: s2 },
            ) => *o1 == *o2 && bytes_eq(h1.as_slice(), h2.as_slice()) && bytes_eq(s1.as_slice(), s2.as_slice()),
            _ => false,
        }
    }

    /// A copy.
    pub fn copy(&self) -> (r: UtxoAddress)
        ensures
            r@ == self@,
            r.script() == self.script(),
    {
        match self {
            UtxoAddress::Address { text, script } => UtxoAddress::Address {
                text: text.clone(),
                script: slice_to_vec(script.as_slice()),
            },
            UtxoAddress::ScriptHash { op_return, script_hash, script_buf } => UtxoAddress::ScriptHash {
                op_return: *op_return,
                script_hash: slice_to_vec(script_hash.as_slice()),
                script_buf: slice_to_vec(script_buf.as_slice()),
            },
        }
    }
}

/// Byte-wise equality.
pub fn bytes_eq(a: &[u8], b: &[u8]) -> (r: bool)
    ensures
        r == (a@ == b@),
{
    if a.len() != b.len() {
        return false;
    }
    let mut i: usize = 0;
    while i < a.len()
        invariant
            a@.len() == b@.len(),
            i <= a@.len(),
            forall|j: int| 0 <= j < i ==> a@[j] == b@[j],
        decreases a.len() - i,
    {
        if a[i] != b[i] {
            return false;
        }
        i = i + 1;
    }
    assert(a@ =~= b@);
    true
}

/// The first 32 bytes reversed.
pub open spec fn reversed32(d: Seq<u8>) -> Seq<u8> {
    Seq::new(32, |i: int| d[31 - i])
}

/// Hexadecimal text of the first 32 bytes in reverse order (how transaction
/// ids are displayed).
pub fn hash_string(data: &[u8]) -> (r: String)
    requires
        data@.len() >= 32,
    ensures
        r@ == hex_lower(reversed32(data@)),
{
    let mut rev: Vec<u8> = Vec::new();
    let mut i: usize = 0;
    while i < 32
        invariant
            data@.len() >= 32,
            i <= 32,
            rev@ == Seq::new(i as nat, |k: int| data@[31 - k]),
        decreases 32 - i,
    {
        rev.push(data[31 - i]);
        i = i + 1;
        assert(rev@ =~= Seq::new(i as nat, |k: int| data@[31 - k]));
    }
    assert(rev@ =~= reversed32(data@));
    hex_encode(rev.as_slice())
}

/// An inscription: the transaction that revealed it and its index there.
#[derive(Debug, Clone, Copy, PartialEq, Eq)]
pub struct InscriptionId {
    pub txid: [u8; 32],
    pub index: u32,
}

/// Text of an inscription id: the reversed transaction id in hex, `i`, the index.
pub open spec fn inscription_id_text(txid: Seq<u8>, index: u32) -> Seq<char> {
    hex_lower(reversed32(txid)) + seq!['i'] + nat_digits(index as nat)
}

impl InscriptionId {
    /// The text form.
    pub fn to_string(&self) -> (r: String)
        ensures
            r@ == inscription_id_text(self.txid@, self.index),
    {
        let mut s = hash_string(self.txid.as_slice());
        proof { reveal_strlit("i"); }
        s.append("i");
        let idx = big_to_decimal(&big_from_u128(self.index as u128));
        s.append(idx.as_str());
        s
    }
}

/// A location of a satoshi: an output and an offset within it.
#[derive(Debug, Clone, Copy, PartialEq, Eq)]
pub struct SatPoint {
    pub txid: [u8; 32],
    pub vout: u32,
    pub offset: u64,
}

/// Text of a satoshi location: the reversed transaction id in hex, `:`, the
/// output index, `:`, the offset.
pub open spec fn satpoint_text(sp: SatPoint) -> Seq<char> {
    hex_lower(reversed32(sp.txid@)) + seq![':'] + nat_digits(sp.vout as nat) + seq![':'] + nat_digits(sp.offset as nat)
}

impl SatPoint {
    /// The text form.
    pub fn to_string(&self) -> (r: String)
        ensures
            r@ == satpoint_text(*self),
    {
        let mut s = hash_string(self.txid.as_slice());
        proof { reveal_strlit(":"); }
        s.append(":");
        let v = big_to_decimal(&big_from_u128(self.vout as u128));
        s.append(v.as_str());
        s.append(":");
        let o = big_to_decimal(&big_from_u128(self.offset as u128));
        s.append(o.as_str());
        s
    }

    /// Same location.
    pub fn same(&self, other: &SatPoint) -> (r: bool)
        ensures
            r == (*self == *other),
    {
        let same_txid = bytes_eq(self.txid.as_slice(), other.txid.as_slice());
        assert(same_txid ==> self.txid == other.txid) by {
            if same_txid {
                assert(self.txid@ == other.txid@);
                vstd::array::lemma_array_index::<u8, 32>(self.txid, 0);
            }
        }
        same_txid && self.vout == other.vout && self.offset == other.offset
    }
}

} // verus!
