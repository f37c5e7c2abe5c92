//! The stored form of a module description: its texts, each framed by its
//! length, the swap fee rate as its decimal text, then the two optional
//! commit ids, each a tag byte (0 for none, 1 for some) and, when present,
//! the framed text.

use vstd::prelude::*;
use vstd::utf8::{encode_utf8, decode_utf8, valid_utf8};
use vstd::string::StrSliceExecFns;
use vstd::slice::slice_to_vec;
use crate::decimal::{Brc20Decimal, big_decimal_parse, format_decimal};
use crate::entry::{BRC20ModuleInfo, opt_text};
use crate::ticker::{is_framed, unframe, frame_bytes, unframe_bytes, string_from_utf8};

verus! {

/// The first framed record of `v` and the bytes after it.
pub open spec fn take_frame(v: Seq<u8>) -> Option<(Seq<u8>, Seq<u8>)> {
    match unframe(v) {
        Some(b) => Some((b, v.subrange(8 + b.len() as int, v.len() as int))),
        None => None,
    }
}

/// The first `n` framed records of `v` and the bytes after them.
pub open spec fn take_frames(v: Seq<u8>, n: nat) -> Option<(Seq<Seq<u8>>, Seq<u8>)>
    decreases n,
{
    if n == 0 {
        Some((Seq::empty(), v))
    } else {
        match take_frame(v) {
            Some((b, rest)) => match take_frames(rest, (n - 1) as nat) {
                Some((bs, tail)) => Some((seq![b] + bs, tail)),
                None => None,
            },
            None => None,
        }
    }
}

/// An optional record at the start of `v`: a tag byte 0 for none, or 1 and a
/// framed record; and the bytes after it.
pub open spec fn take_opt(v: Seq<u8>) -> Option<(Option<Seq<u8>>, Seq<u8>)> {
    if v.len() == 0 {
        None
    } else if v[0] == 0 {
        Some((None, v.drop_first()))
    } else if v[0] == 1 {
        match take_frame(v.drop_first()) {
            Some((b, rest)) => Some((Some(b), rest)),
            None => None,
        }
    } else {
        None
    }
}

/// The records a stored module description holds: eight framed texts (the
/// id, name, the four scripts, the fee rate and the gas ticker) and two
/// optional texts; bytes after them are ignored.
pub open spec fn module_record(v: Seq<u8>) -> Option<(Seq<Seq<u8>>, Option<Seq<u8>>, Option<Seq<u8>>)> {
    match take_frames(v, 8) {
        Some((texts, r1)) => match take_opt(r1) {
            Some((chain, r2)) => match take_opt(r2) {
                Some((commit, _)) => Some((texts, chain, commit)),
                None => None,
            },
            None => None,
        },
        None => None,
    }
}

/// The bytes of an optional text.
pub open spec fn opt_bytes(o: Option<Seq<char>>) -> Option<Seq<u8>> {
    match o {
        Some(t) => Some(encode_utf8(t)),
        None => None,
    }
}

/// The records a module description is stored as.
pub open spec fn module_fields(m: BRC20ModuleInfo) -> (Seq<Seq<u8>>, Option<Seq<u8>>, Option<Seq<u8>>) {
    (
        seq![
            encode_utf8(m.id@),
            encode_utf8(m.name@),
            encode_utf8(m.deployer_pk_script@),
            encode_utf8(m.sequencer_pk_script@),
            encode_utf8(m.gas_to_pk_script@),
            encode_utf8(m.lp_fee_pk_script@),
            encode_utf8(format_decimal(m.fee_rate_swap@)),
            encode_utf8(m.gas_tick@),
        ],
        opt_bytes(opt_text(m.chain_commit_id)),
        opt_bytes(opt_text(m.commit_id)),
    )
}

/// A framed record followed by more bytes reads back as the record and those bytes.
proof fn lemma_take_frame_concat(f: Seq<u8>, b: Seq<u8>, w: Seq<u8>)
    requires
        is_framed(f, b),
    ensures
        take_frame(f + w) == Some((b, w)),
{
    let v = f + w;
    assert(v.subrange(0, 8) =~= f.subrange(0, 8));
    assert(v.subrange(8, 8 + b.len() as int) =~= b);
    assert(v.subrange(8 + b.len() as int, v.len() as int) =~= w);
}

/// One more framed record in front reads back as one more record.
proof fn lemma_take_frames_cons(f: Seq<u8>, b: Seq<u8>, w: Seq<u8>, n: nat)
    requires
        is_framed(f, b),
        take_frames(w, n) is Some,
    ensures
        take_frames(f + w, n + 1) == Some((seq![b] + take_frames(w, n).unwrap().0, take_frames(w, n).unwrap().1)),
{
    lemma_take_frame_concat(f, b, w);
    assert(((n + 1) as nat - 1) as nat == n);
}

/// The framed form of a text.
fn frame_text(s: &str) -> (r: Vec<u8>)
    ensures
        is_framed(r@, encode_utf8(s@)),
{
    frame_bytes(s.as_bytes())
}

/// The stored form of an optional text.
fn frame_opt(o: &Option<String>) -> (r: Vec<u8>)
    ensures
        forall|w: Seq<u8>| #[trigger] take_opt(r@ + w) == Some((opt_bytes(opt_text(*o)), w)),
{
    let mut out: Vec<u8> = Vec::new();
    match o {
        None => {
            out.push(0u8);
            assert forall|w: Seq<u8>| #[trigger] take_opt(out@ + w) == Some((opt_bytes(opt_text(*o)), w)) by {
                assert((out@ + w).drop_first() =~= w);
            }
        },
        Some(s) => {
            out.push(1u8);
            let mut f = frame_text(s.as_str());
            let ghost fs = f@;
            out.append(&mut f);
            assert forall|w: Seq<u8>| #[trigger] take_opt(out@ + w) == Some((opt_bytes(opt_text(*o)), w)) by {
                assert((out@ + w).drop_first() =~= fs + w);
                lemma_take_frame_concat(fs, encode_utf8(s@), w);
            }
        },
    }
    out
}

/// Reads the first framed record and returns it with the bytes after it.
fn read_frame(v: Vec<u8>) -> (r: Option<(Vec<u8>, Vec<u8>)>)
    ensures
        match r {
            Some((b, rest)) => take_frame(v@) == Some((b@, rest@)),
            None => take_frame(v@) is None,
        },
{
    let total = v.len();
    match unframe_bytes(v.as_slice()) {
        Some(b) => {
            assert(b@.len() + 8 <= total);
            let mut rest = v;
            let tail = rest.split_off(8 + b.len());
            Some((b, tail))
        },
        None => None,
    }
}

/// Reads an optional record and returns it with the bytes after it.
fn read_opt(v: Vec<u8>) -> (r: Option<(Option<Vec<u8>>, Vec<u8>)>)
    ensures
        match r {
            Some((b, rest)) => take_opt(v@) == Some((
                match b { Some(x) => Some(x@), None => None::<Seq<u8>> }, rest@)),
            None => take_opt(v@) is None,
        },
{
    if v.len() == 0 {
        return None;
    }
    let tag = v[0];
    let mut head = v;
    let rest = head.split_off(1);
    assert(rest@ =~= v@.drop_first());
    if tag == 0 {
        Some((None, rest))
    } else if tag == 1 {
        match read_frame(rest) {
            Some((b, tail)) => Some((Some(b), tail)),
            None => None,
        }
    } else {
        None
    }
}

/// Decodes UTF-8 bytes into a text.
fn text_of_bytes(b: Vec<u8>) -> (r: Option<String>)
    ensures
        match r {
            Some(s) => valid_utf8(b@) && s@ == decode_utf8(b@),
            None => !valid_utf8(b@),
        },
{
    string_from_utf8(b)
}

/// Decodes optional UTF-8 bytes into an optional text: `None` outside when
/// the bytes are not UTF-8.
fn opt_text_of_bytes(b: Option<Vec<u8>>) -> (r: Option<Option<String>>)
    ensures
        match b {
            None => r == Some(None::<String>),
            Some(x) => match r {
                Some(Some(s)) => valid_utf8(x@) && s@ == decode_utf8(x@),
                Some(None) => false,
                None => !valid_utf8(x@),
            },
        },
{
    match b {
        None => Some(None),
        Some(x) => match text_of_bytes(x) {
            Some(s) => Some(Some(s)),
            None => None,
        },
    }
}

/// Every text of the records is UTF-8.
pub open spec fn record_texts_valid(f: (Seq<Seq<u8>>, Option<Seq<u8>>, Option<Seq<u8>>)) -> bool {
    &&& forall|i: int| 0 <= i < f.0.len() ==> valid_utf8(#[trigger] f.0[i])
    &&& (f.1 matches Some(x) ==> valid_utf8(x))
    &&& (f.2 matches Some(x) ==> valid_utf8(x))
}

/// The module description that records decode to, given its fee rate.
pub open spec fn info_matches(m: BRC20ModuleInfo, f: (Seq<Seq<u8>>, Option<Seq<u8>>, Option<Seq<u8>>)) -> bool {
    &&& f.0.len() == 8
    &&& m.id@ == decode_utf8(f.0[0])
    &&& m.name@ == decode_utf8(f.0[1])
    &&& m.deployer_pk_script@ == decode_utf8(f.0[2])
    &&& m.sequencer_pk_script@ == decode_utf8(f.0[3])
    &&& m.gas_to_pk_script@ == decode_utf8(f.0[4])
    &&& m.lp_fee_pk_script@ == decode_utf8(f.0[5])
    &&& big_decimal_parse(decode_utf8(f.0[6])) == Some(m.fee_rate_swap@)
    &&& m.gas_tick@ == decode_utf8(f.0[7])
    &&& opt_text(m.chain_commit_id) == (match f.1 { Some(x) => Some(decode_utf8(x)), None => None::<Seq<char>> })
    &&& opt_text(m.commit_id) == (match f.2 { Some(x) => Some(decode_utf8(x)), None => None::<Seq<char>> })
}

/// Eight framed texts followed by two stored optional texts read back as
/// those records.
#[verifier::spinoff_prover]
#[verifier::rlimit(50)]
proof fn lemma_record_of_parts(
    fields: (Seq<Seq<u8>>, Option<Seq<u8>>, Option<Seq<u8>>),
    g0: Seq<u8>, g1: Seq<u8>, g2: Seq<u8>, g3: Seq<u8>, g4: Seq<u8>,
    g5: Seq<u8>, g6: Seq<u8>, g7: Seq<u8>, h1: Seq<u8>, h2: Seq<u8>,
)
    requires
        fields.0.len() == 8,
        is_framed(g0, fields.0[0]),
        is_framed(g1, fields.0[1]),
        is_framed(g2, fields.0[2]),
        is_framed(g3, fields.0[3]),
        is_framed(g4, fields.0[4]),
        is_framed(g5, fields.0[5]),
        is_framed(g6, fields.0[6]),
        is_framed(g7, fields.0[7]),
        forall|w: Seq<u8>| #[trigger] take_opt(h1 + w) == Some((fields.1, w)),
        forall|w: Seq<u8>| #[trigger] take_opt(h2 + w) == Some((fields.2, w)),
    ensures
        module_record(g0 + g1 + g2 + g3 + g4 + g5 + g6 + g7 + h1 + h2) == Some(fields),
{
    let t = h1 + h2;
    assert(take_frames(t, 0) == Some((Seq::<Seq<u8>>::empty(), t)));
    lemma_take_frames_cons(g7, fields.0[7], t, 0);
    let w7 = g7 + t;
    lemma_take_frames_cons(g6, fields.0[6], w7, 1);
    let w6 = g6 + w7;
    lemma_take_frames_cons(g5, fields.0[5], w6, 2);
    let w5 = g5 + w6;
    lemma_take_frames_cons(g4, fields.0[4], w5, 3);
    let w4 = g4 + w5;
    lemma_take_frames_cons(g3, fields.0[3], w4, 4);
    let w3 = g3 + w4;
    lemma_take_frames_cons(g2, fields.0[2], w3, 5);
    let w2 = g2 + w3;
    lemma_take_frames_cons(g1, fields.0[1], w2, 6);
    let w1 = g1 + w2;
    lemma_take_frames_cons(g0, fields.0[0], w1, 7);
    let whole = g0 + w1;
    assert(whole =~= g0 + g1 + g2 + g3 + g4 + g5 + g6 + g7 + h1 + h2);
    let got = take_frames(whole, 8).unwrap();
    assert(got.0 =~= fields.0);
    assert(got.1 == t);
    assert(take_opt(h1 + h2) == Some((fields.1, h2)));
    assert(take_opt(h2 + Seq::<u8>::empty()) == Some((fields.2, Seq::<u8>::empty())));
    assert(h2 + Seq::<u8>::empty() =~= h2);
}

/// Reads the eight framed texts at the start of a stored module description.
#[verifier::spinoff_prover]
#[verifier::rlimit(50)]
fn read_eight(v: Vec<u8>) -> (r: Option<(Vec<u8>, Vec<u8>, Vec<u8>, Vec<u8>, Vec<u8>, Vec<u8>, Vec<u8>, Vec<u8>, Vec<u8>)>)
    ensures
        match r {
            Some((b0, b1, b2, b3, b4, b5, b6, b7, rest)) => take_frames(v@, 8)
                == Some((seq![b0@, b1@, b2@, b3@, b4@, b5@, b6@, b7@], rest@)),
            None => take_frames(v@, 8) is None,
        },
{
    proof {
        reveal_with_fuel(take_frames, 9);
    }
    let ghost v0 = v@;
    let (b0, r0) = read_frame(v)?;
    let (b1, r1) = read_frame(r0)?;
    let (b2, r2) = read_frame(r1)?;
    let (b3, r3) = read_frame(r2)?;
    let (b4, r4) = read_frame(r3)?;
    let (b5, r5) = read_frame(r4)?;
    let (b6, r6) = read_frame(r5)?;
    let (b7, r7) = read_frame(r6)?;
    assert(take_frames(v0, 8).unwrap().0 =~= seq![b0@, b1@, b2@, b3@, b4@, b5@, b6@, b7@]);
    Some((b0, b1, b2, b3, b4, b5, b6, b7, r7))
}

/// The texts of two module descriptions agree.
pub open spec fn same_texts(a: BRC20ModuleInfo, b: BRC20ModuleInfo) -> bool {
    &&& a.id@ == b.id@
    &&& a.name@ == b.name@
    &&& a.deployer_pk_script@ == b.deployer_pk_script@
    &&& a.sequencer_pk_script@ == b.sequencer_pk_script@
    &&& a.gas_to_pk_script@ == b.gas_to_pk_script@
    &&& a.lp_fee_pk_script@ == b.lp_fee_pk_script@
    &&& a.gas_tick@ == b.gas_tick@
    &&& opt_text(a.chain_commit_id) == opt_text(b.chain_commit_id)
    &&& opt_text(a.commit_id) == opt_text(b.commit_id)
}

/// What a module description stores, a load reads back: the records are all
/// UTF-8, and a description read from them has the same texts and the fee
/// rate that the stored fee text parses to.
pub proof fn lemma_module_info_store_load(m: BRC20ModuleInfo, v: Seq<u8>)
    requires
        module_record(v) == Some(module_fields(m)),
    ensures
        record_texts_valid(module_fields(m)),
        forall|m2: BRC20ModuleInfo| #[trigger] info_matches(m2, module_fields(m))
            <==> same_texts(m2, m) && big_decimal_parse(format_decimal(m.fee_rate_swap@)) == Some(m2.fee_rate_swap@),
{
    let f = module_fields(m);
    broadcast use vstd::utf8::encode_utf8_valid_utf8, vstd::utf8::encode_utf8_decode_utf8;
    assert(f.0[0] == encode_utf8(m.id@));
    assert(f.0[1] == encode_utf8(m.name@));
    assert(f.0[2] == encode_utf8(m.deployer_pk_script@));
    assert(f.0[3] == encode_utf8(m.sequencer_pk_script@));
    assert(f.0[4] == encode_utf8(m.gas_to_pk_script@));
    assert(f.0[5] == encode_utf8(m.lp_fee_pk_script@));
    assert(f.0[6] == encode_utf8(format_decimal(m.fee_rate_swap@)));
    assert(f.0[7] == encode_utf8(m.gas_tick@));
}

impl BRC20ModuleInfo {
    /// The stored form (see `module_record`); the fee rate is stored as its
    /// decimal text.
    pub fn store(&self) -> (r: Vec<u8>)
        requires
            -(usize::MAX as int) < self.fee_rate_swap@.1 < usize::MAX,
        ensures
            module_record(r@) == Some(module_fields(*self)),
    {
        let fee = self.fee_rate_swap.to_string();
        let mut f0 = frame_text(self.id.as_str());
        let mut f1 = frame_text(self.name.as_str());
        let mut f2 = frame_text(self.deployer_pk_script.as_str());
        let mut f3 = frame_text(self.sequencer_pk_script.as_str());
        let mut f4 = frame_text(self.gas_to_pk_script.as_str());
        let mut f5 = frame_text(self.lp_fee_pk_script.as_str());
        let mut f6 = frame_text(fee.as_str());
        let mut f7 = frame_text(self.gas_tick.as_str());
        let mut o1 = frame_opt(&self.chain_commit_id);
        let mut o2 = frame_opt(&self.commit_id);
        let ghost (g0, g1, g2, g3, g4, g5, g6, g7, h1, h2) =
            (f0@, f1@, f2@, f3@, f4@, f5@, f6@, f7@, o1@, o2@);
        let mut out: Vec<u8> = Vec::new();
        out.append(&mut f0);
        out.append(&mut f1);
        out.append(&mut f2);
        out.append(&mut f3);
        out.append(&mut f4);
        out.append(&mut f5);
        out.append(&mut f6);
        out.append(&mut f7);
        out.append(&mut o1);
        out.append(&mut o2);
        proof {
            lemma_record_of_parts(module_fields(*self), g0, g1, g2, g3, g4, g5, g6, g7, h1, h2);
            assert(out@ =~= g0 + g1 + g2 + g3 + g4 + g5 + g6 + g7 + h1 + h2);
        }
        out
    }

    /// Reads a stored module description: every record must be present and
    /// be UTF-8, and the fee rate's text must be a decimal number.
    pub fn load(v: &[u8]) -> (r: Option<BRC20ModuleInfo>)
        ensures
            match r {
                Some(m) => module_record(v@) matches Some(f) && record_texts_valid(f) && info_matches(m, f),
                None => match module_record(v@) {
                    None => true,
                    Some(f) => !record_texts_valid(f) || big_decimal_parse(decode_utf8(f.0[6])) is None,
                },
            },
    {
        let (b0, b1, b2, b3, b4, b5, b6, b7, r7) = read_eight(slice_to_vec(v))?;
        let (c1, r8) = read_opt(r7)?;
        let (c2, _r9) = read_opt(r8)?;
        let ghost f = module_record(v@).unwrap();
        assert(f.0 =~= seq![b0@, b1@, b2@, b3@, b4@, b5@, b6@, b7@]);
        let id = text_of_bytes(b0)?;
        let name = text_of_bytes(b1)?;
        let deployer_pk_script = text_of_bytes(b2)?;
        let sequencer_pk_script = text_of_bytes(b3)?;
        let gas_to_pk_script = text_of_bytes(b4)?;
        let lp_fee_pk_script = text_of_bytes(b5)?;
        let fee_text = text_of_bytes(b6)?;
        let gas_tick = text_of_bytes(b7)?;
        let chain_commit_id = opt_text_of_bytes(c1)?;
        let commit_id = opt_text_of_bytes(c2)?;
        let fee_rate_swap = match Brc20Decimal::from_str(fee_text.as_str()) {
            Ok(d) => d,
            Err(_) => return None,
        };
        Some(BRC20ModuleInfo {
            id,
            name,
            deployer_pk_script,
            sequencer_pk_script,
            gas_to_pk_script,
            lp_fee_pk_script,
            fee_rate_swap,
            gas_tick,
            chain_commit_id,
            commit_id,
        })
    }
}

} // verus!
