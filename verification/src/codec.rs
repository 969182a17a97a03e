//! Canonical encoding and decoding of the two wire records. Encoding is
//! deterministic: fields are written in field-number order and fields that
//! hold their default value are omitted, so identical field values always
//! produce identical bytes. Decoding accepts any well-formed field sequence
//! and skips unknown fields.

use vstd::prelude::*;
use crate::fields::{
    fields_view, parse_fields, parse_fields_exec, push_bytes_field, push_uint_field,
    serialize_field, serialize_fields, wf_field, lemma_parse_serialize_fields,
    lemma_serialize_fields_add, Field, FieldData, FieldModel, FieldVal,
};
use crate::message::{RawMessage, RawMessageModel, SignedMessage, SignedMessageModel};

verus! {

/// Decoding failed: the bytes are not a well-formed record.
#[derive(Clone, Copy, PartialEq, Eq, Structural, Debug)]
pub enum DecodeError {
    Malformed,
}

pub open spec fn uint_field(num: nat, v: nat) -> FieldModel {
    FieldModel { num, val: FieldVal::Uint(v) }
}

pub open spec fn bytes_field(num: nat, b: Seq<u8>) -> FieldModel {
    FieldModel { num, val: FieldVal::Bytes(b) }
}

/// A varint field, omitted at its default value zero.
pub open spec fn uint_fields(num: nat, v: nat) -> Seq<FieldModel> {
    if v == 0 {
        Seq::empty()
    } else {
        seq![uint_field(num, v)]
    }
}

/// A byte-string field, omitted when empty.
pub open spec fn bytes_fields(num: nat, b: Seq<u8>) -> Seq<FieldModel> {
    if b.len() == 0 {
        Seq::empty()
    } else {
        seq![bytes_field(num, b)]
    }
}

/// A boolean field, omitted when false.
pub open spec fn bool_fields(num: nat, v: bool) -> Seq<FieldModel> {
    if v {
        seq![uint_field(num, 1)]
    } else {
        Seq::empty()
    }
}

/// An optional byte-string field, written whenever present, even if empty.
pub open spec fn opt_bytes_fields(num: nat, o: Option<Seq<u8>>) -> Seq<FieldModel> {
    match o {
        Some(b) => seq![bytes_field(num, b)],
        None => Seq::empty(),
    }
}

proof fn lemma_fold_raw_single(m: RawMessageModel, f: FieldModel, m2: RawMessageModel)
    requires
        apply_raw_field(m, f) == Some(m2),
    ensures
        fold_raw(m, seq![f]) == Some(m2),
{
    assert(seq![f].first() == f);
    assert(seq![f].drop_first() =~= Seq::<FieldModel>::empty());
    assert(fold_raw(m2, seq![f].drop_first()) == Some(m2));
}

proof fn lemma_fold_signed_single(m: SignedMessageModel, f: FieldModel, m2: SignedMessageModel)
    requires
        apply_signed_field(m, f) == Some(m2),
    ensures
        fold_signed(m, seq![f]) == Some(m2),
{
    assert(seq![f].first() == f);
    assert(seq![f].drop_first() =~= Seq::<FieldModel>::empty());
    assert(fold_signed(m2, seq![f].drop_first()) == Some(m2));
}

proof fn lemma_serialize_singleton(f: FieldModel)
    ensures
        serialize_fields(seq![f]) == serialize_field(f),
{
    assert(seq![f].drop_first() =~= Seq::<FieldModel>::empty());
    assert(serialize_fields(seq![f]) == serialize_field(f) + serialize_fields(
        Seq::<FieldModel>::empty(),
    ));
    assert(serialize_field(f) + Seq::<u8>::empty() =~= serialize_field(f));
}

// ------------------------------------------------------------------
// RawMessage
// ------------------------------------------------------------------

/// The field sequence of a raw message, in field-number order.
pub open spec fn raw_fields(m: RawMessageModel) -> Seq<FieldModel> {
    uint_fields(1, m.timestamp as nat) + bytes_fields(2, m.from_address) + bytes_fields(
        3,
        m.to_address,
    ) + bool_fields(4, m.encrypted) + bytes_fields(5, m.payload) + opt_bytes_fields(6, m.iv)
        + opt_bytes_fields(7, m.w3b)
}

/// The canonical encoding of a raw message.
pub open spec fn encode_raw(m: RawMessageModel) -> Seq<u8> {
    serialize_fields(raw_fields(m))
}

/// The raw message whose every field holds its default value.
pub open spec fn raw_default() -> RawMessageModel {
    RawMessageModel {
        timestamp: 0,
        from_address: Seq::empty(),
        to_address: Seq::empty(),
        encrypted: false,
        payload: Seq::empty(),
        iv: None,
        w3b: None,
    }
}

/// Merges one parsed field into a raw message; `None` when a known field
/// arrives with the wrong wire type.
pub open spec fn apply_raw_field(m: RawMessageModel, f: FieldModel) -> Option<RawMessageModel> {
    match f.val {
        FieldVal::Uint(v) => if f.num == 1 {
            Some(RawMessageModel { timestamp: v as u64, ..m })
        } else if f.num == 4 {
            Some(RawMessageModel { encrypted: v != 0, ..m })
        } else if f.num == 2 || f.num == 3 || f.num == 5 || f.num == 6 || f.num == 7 {
            None
        } else {
            Some(m)
        },
        FieldVal::Bytes(b) => if f.num == 2 {
            Some(RawMessageModel { from_address: b, ..m })
        } else if f.num == 3 {
            Some(RawMessageModel { to_address: b, ..m })
        } else if f.num == 5 {
            Some(RawMessageModel { payload: b, ..m })
        } else if f.num == 6 {
            Some(RawMessageModel { iv: Some(b), ..m })
        } else if f.num == 7 {
            Some(RawMessageModel { w3b: Some(b), ..m })
        } else if f.num == 1 || f.num == 4 {
            None
        } else {
            Some(m)
        },
        FieldVal::Fixed64 => if 1 <= f.num && f.num <= 7 {
            None
        } else {
            Some(m)
        },
        FieldVal::Fixed32 => if 1 <= f.num && f.num <= 7 {
            None
        } else {
            Some(m)
        },
    }
}

/// Merges a sequence of parsed fields, later occurrences overriding earlier
/// ones.
pub open spec fn fold_raw(m: RawMessageModel, fs: Seq<FieldModel>) -> Option<RawMessageModel>
    decreases fs.len(),
{
    if fs.len() == 0 {
        Some(m)
    } else {
        match apply_raw_field(m, fs.first()) {
            Some(m2) => fold_raw(m2, fs.drop_first()),
            None => None,
        }
    }
}

/// What decoding a byte string as a raw message yields.
pub open spec fn decode_raw(b: Seq<u8>) -> Option<RawMessageModel> {
    match parse_fields(b) {
        Some(fs) => fold_raw(raw_default(), fs),
        None => None,
    }
}

proof fn lemma_fold_raw_add(m: RawMessageModel, a: Seq<FieldModel>, b: Seq<FieldModel>)
    ensures
        fold_raw(m, a + b) == (match fold_raw(m, a) {
            Some(x) => fold_raw(x, b),
            None => None::<RawMessageModel>,
        }),
    decreases a.len(),
{
    if a.len() == 0 {
        assert(a + b =~= b);
    } else {
        assert((a + b).first() == a.first());
        assert((a + b).drop_first() =~= a.drop_first() + b);
        match apply_raw_field(m, a.first()) {
            Some(m2) => {
                lemma_fold_raw_add(m2, a.drop_first(), b);
            },
            None => {},
        }
    }
}

/// A raw message that the machine can hold: every byte-string field fits a
/// 64-bit length.
pub open spec fn raw_wf(m: RawMessageModel) -> bool {
    &&& m.from_address.len() <= u64::MAX as nat
    &&& m.to_address.len() <= u64::MAX as nat
    &&& m.payload.len() <= u64::MAX as nat
    &&& match m.iv {
        Some(b) => b.len() <= u64::MAX as nat,
        None => true,
    }
    &&& match m.w3b {
        Some(b) => b.len() <= u64::MAX as nat,
        None => true,
    }
}

/// Decoding a canonical encoding returns exactly the encoded message: the
/// codec round-trips on every representable raw message.
#[verifier::rlimit(60)]
pub proof fn lemma_raw_round_trip(m: RawMessageModel)
    requires
        raw_wf(m),
    ensures
        decode_raw(encode_raw(m)) == Some(m),
{
    let fs = raw_fields(m);
    assert forall|k: int| 0 <= k < fs.len() implies wf_field(#[trigger] fs[k]) by {
        assert(fs[k].num <= 7);
    }
    lemma_parse_serialize_fields(fs);
    let g1 = uint_fields(1, m.timestamp as nat);
    let g2 = bytes_fields(2, m.from_address);
    let g3 = bytes_fields(3, m.to_address);
    let g4 = bool_fields(4, m.encrypted);
    let g5 = bytes_fields(5, m.payload);
    let g6 = opt_bytes_fields(6, m.iv);
    let g7 = opt_bytes_fields(7, m.w3b);
    let m0 = raw_default();
    let m1 = RawMessageModel { timestamp: m.timestamp, ..m0 };
    let m2 = RawMessageModel { from_address: m.from_address, ..m1 };
    let m3 = RawMessageModel { to_address: m.to_address, ..m2 };
    let m4 = RawMessageModel { encrypted: m.encrypted, ..m3 };
    let m5 = RawMessageModel { payload: m.payload, ..m4 };
    let m6 = RawMessageModel { iv: m.iv, ..m5 };
    let m7 = RawMessageModel { w3b: m.w3b, ..m6 };
    if m.timestamp != 0 {
        lemma_fold_raw_single(m0, uint_field(1, m.timestamp as nat), m1);
    } else {
        assert(m1 =~= m0);
    }
    assert(fold_raw(m0, g1) == Some(m1));
    if m.from_address.len() != 0 {
        lemma_fold_raw_single(m1, bytes_field(2, m.from_address), m2);
    } else {
        assert(m.from_address =~= Seq::<u8>::empty());
        assert(m2 =~= m1);
    }
    assert(fold_raw(m1, g2) == Some(m2));
    if m.to_address.len() != 0 {
        lemma_fold_raw_single(m2, bytes_field(3, m.to_address), m3);
    } else {
        assert(m.to_address =~= Seq::<u8>::empty());
        assert(m3 =~= m2);
    }
    assert(fold_raw(m2, g3) == Some(m3));
    if m.encrypted {
        lemma_fold_raw_single(m3, uint_field(4, 1), m4);
    } else {
        assert(m4 =~= m3);
    }
    assert(fold_raw(m3, g4) == Some(m4));
    if m.payload.len() != 0 {
        lemma_fold_raw_single(m4, bytes_field(5, m.payload), m5);
    } else {
        assert(m.payload =~= Seq::<u8>::empty());
        assert(m5 =~= m4);
    }
    assert(fold_raw(m4, g5) == Some(m5));
    match m.iv {
        Some(b) => {
            lemma_fold_raw_single(m5, bytes_field(6, b), m6);
        },
        None => {
            assert(m6 =~= m5);
        },
    }
    assert(fold_raw(m5, g6) == Some(m6));
    match m.w3b {
        Some(b) => {
            lemma_fold_raw_single(m6, bytes_field(7, b), m7);
        },
        None => {
            assert(m7 =~= m6);
        },
    }
    assert(fold_raw(m6, g7) == Some(m7));
    let a2 = g1 + g2;
    let a3 = a2 + g3;
    let a4 = a3 + g4;
    let a5 = a4 + g5;
    let a6 = a5 + g6;
    let a7 = a6 + g7;
    lemma_fold_raw_add(m0, g1, g2);
    assert(fold_raw(m0, a2) == Some(m2));
    lemma_fold_raw_add(m0, a2, g3);
    assert(fold_raw(m0, a3) == Some(m3));
    lemma_fold_raw_add(m0, a3, g4);
    assert(fold_raw(m0, a4) == Some(m4));
    lemma_fold_raw_add(m0, a4, g5);
    assert(fold_raw(m0, a5) == Some(m5));
    lemma_fold_raw_add(m0, a5, g6);
    assert(fold_raw(m0, a6) == Some(m6));
    lemma_fold_raw_add(m0, a6, g7);
    assert(fold_raw(m0, a7) == Some(m7));
    assert(a7 == fs);
    assert(m7 =~= m);
}

impl RawMessage {
    /// The canonical wire bytes of this message.
    pub fn encode_to_vec(&self) -> (r: Vec<u8>)
        ensures
            r@ == encode_raw(self@),
    {
        let ghost m = self@;
        let mut out: Vec<u8> = Vec::new();
        let ghost g1 = uint_fields(1, m.timestamp as nat);
        let ghost g2 = bytes_fields(2, m.from_address);
        let ghost g3 = bytes_fields(3, m.to_address);
        let ghost g4 = bool_fields(4, m.encrypted);
        let ghost g5 = bytes_fields(5, m.payload);
        let ghost g6 = opt_bytes_fields(6, m.iv);
        let ghost g7 = opt_bytes_fields(7, m.w3b);
        if self.timestamp != 0 {
            push_uint_field(&mut out, 1, self.timestamp);
        }
        proof {
            if m.timestamp != 0 {
                lemma_serialize_singleton(uint_field(1, m.timestamp as nat));
            }
            assert(out@ =~= serialize_fields(g1));
        }
        let ghost d1 = g1;
        if self.from_address.len() != 0 {
            push_bytes_field(&mut out, 2, self.from_address.as_slice());
        }
        proof {
            if m.from_address.len() != 0 {
                lemma_serialize_singleton(bytes_field(2, m.from_address));
            }
            lemma_serialize_fields_add(d1, g2);
            assert(out@ =~= serialize_fields(d1 + g2));
        }
        let ghost d2 = d1 + g2;
        if self.to_address.len() != 0 {
            push_bytes_field(&mut out, 3, self.to_address.as_slice());
        }
        proof {
            if m.to_address.len() != 0 {
                lemma_serialize_singleton(bytes_field(3, m.to_address));
            }
            lemma_serialize_fields_add(d2, g3);
            assert(out@ =~= serialize_fields(d2 + g3));
        }
        let ghost d3 = d2 + g3;
        if self.encrypted {
            push_uint_field(&mut out, 4, 1);
        }
        proof {
            if m.encrypted {
                lemma_serialize_singleton(uint_field(4, 1));
            }
            lemma_serialize_fields_add(d3, g4);
            assert(out@ =~= serialize_fields(d3 + g4));
        }
        let ghost d4 = d3 + g4;
        if self.payload.len() != 0 {
            push_bytes_field(&mut out, 5, self.payload.as_slice());
        }
        proof {
            if m.payload.len() != 0 {
                lemma_serialize_singleton(bytes_field(5, m.payload));
            }
            lemma_serialize_fields_add(d4, g5);
            assert(out@ =~= serialize_fields(d4 + g5));
        }
        let ghost d5 = d4 + g5;
        match &self.iv {
            Some(b) => {
                proof {
                    vstd::std_specs::vec::axiom_spec_len(b);
                }
                push_bytes_field(&mut out, 6, b.as_slice());
            },
            None => {},
        }
        proof {
            match m.iv {
                Some(b) => {
                    lemma_serialize_singleton(bytes_field(6, b));
                },
                None => {},
            }
            lemma_serialize_fields_add(d5, g6);
            assert(out@ =~= serialize_fields(d5 + g6));
        }
        let ghost d6 = d5 + g6;
        match &self.w3b {
            Some(b) => {
                proof {
                    vstd::std_specs::vec::axiom_spec_len(b);
                }
                push_bytes_field(&mut out, 7, b.as_slice());
            },
            None => {},
        }
        proof {
            match m.w3b {
                Some(b) => {
                    lemma_serialize_singleton(bytes_field(7, b));
                },
                None => {},
            }
            lemma_serialize_fields_add(d6, g7);
            assert(out@ =~= serialize_fields(d6 + g7));
            assert(d6 + g7 == raw_fields(m));
        }
        out
    }

    /// Decodes wire bytes into a raw message; fails exactly on bytes that
    /// are not a well-formed record.
    pub fn decode(data: &[u8]) -> (r: Result<RawMessage, DecodeError>)
        ensures
            match r {
                Ok(m) => decode_raw(data@) == Some(m@),
                Err(_) => decode_raw(data@) is None,
            },
    {
        let mut fields: Vec<Field> = match parse_fields_exec(data) {
            Some(fs) => fs,
            None => {
                return Err(DecodeError::Malformed);
            },
        };
        let ghost all = fields_view(fields@);
        let mut m = RawMessage {
            timestamp: 0,
            from_address: Vec::new(),
            to_address: Vec::new(),
            encrypted: false,
            payload: Vec::new(),
            iv: None,
            w3b: None,
        };
        proof {
            assert(m@ =~= raw_default());
        }
        while fields.len() > 0
            invariant
                fold_raw(raw_default(), all) == fold_raw(m@, fields_view(fields@)),
                parse_fields(data@) == Some(all),
            decreases fields.len(),
        {
            let ghost mpre = m@;
            let ghost before = fields_view(fields@);
            let f = fields.remove(0);
            let ghost fv = f@;
            proof {
                assert(before =~= seq![fv] + fields_view(fields@));
                assert((seq![fv] + fields_view(fields@)).first() == fv);
                assert((seq![fv] + fields_view(fields@)).drop_first() =~= fields_view(fields@));
            }
            let num = f.num;
            match f.data {
                FieldData::Uint(v) => {
                    if num == 1 {
                        m.timestamp = v;
                    } else if num == 4 {
                        m.encrypted = v != 0;
                    } else if num == 2 || num == 3 || num == 5 || num == 6 || num == 7 {
                        proof {
                            assert(apply_raw_field(mpre, fv) is None);
                        }
                        return Err(DecodeError::Malformed);
                    }
                },
                FieldData::Bytes(b) => {
                    if num == 2 {
                        m.from_address = b;
                    } else if num == 3 {
                        m.to_address = b;
                    } else if num == 5 {
                        m.payload = b;
                    } else if num == 6 {
                        m.iv = Some(b);
                    } else if num == 7 {
                        m.w3b = Some(b);
                    } else if num == 1 || num == 4 {
                        proof {
                            assert(apply_raw_field(mpre, fv) is None);
                        }
                        return Err(DecodeError::Malformed);
                    }
                },
                FieldData::Fixed64 => {
                    if 1 <= num && num <= 7 {
                        proof {
                            assert(apply_raw_field(mpre, fv) is None);
                        }
                        return Err(DecodeError::Malformed);
                    }
                },
                FieldData::Fixed32 => {
                    if 1 <= num && num <= 7 {
                        proof {
                            assert(apply_raw_field(mpre, fv) is None);
                        }
                        return Err(DecodeError::Malformed);
                    }
                },
            }
            proof {
                assert(apply_raw_field(mpre, fv) == Some(m@));
            }
        }
        proof {
            assert(fields_view(fields@) =~= Seq::<FieldModel>::empty());
        }
        Ok(m)
    }
}

// ------------------------------------------------------------------
// SignedMessage
// ------------------------------------------------------------------

/// The field sequence of a signed message, in field-number order.
pub open spec fn signed_fields(m: SignedMessageModel) -> Seq<FieldModel> {
    bytes_fields(1, m.raw) + bytes_fields(2, m.hash) + uint_fields(3, m.nonce as nat)
        + bytes_fields(4, m.signature) + opt_bytes_fields(5, m.last_edge_addr)
}

/// The canonical encoding of a signed message.
pub open spec fn encode_signed(m: SignedMessageModel) -> Seq<u8> {
    serialize_fields(signed_fields(m))
}

/// The signed message whose every field holds its default value.
pub open spec fn signed_default() -> SignedMessageModel {
    SignedMessageModel {
        raw: Seq::empty(),
        hash: Seq::empty(),
        nonce: 0,
        signature: Seq::empty(),
        last_edge_addr: None,
    }
}

/// Merges one parsed field into a signed message; `None` when a known field
/// arrives with the wrong wire type.
pub open spec fn apply_signed_field(m: SignedMessageModel, f: FieldModel) -> Option<
    SignedMessageModel,
> {
    match f.val {
        FieldVal::Uint(v) => if f.num == 3 {
            Some(SignedMessageModel { nonce: v as u64, ..m })
        } else if f.num == 1 || f.num == 2 || f.num == 4 || f.num == 5 {
            None
        } else {
            Some(m)
        },
        FieldVal::Bytes(b) => if f.num == 1 {
            Some(SignedMessageModel { raw: b, ..m })
        } else if f.num == 2 {
            Some(SignedMessageModel { hash: b, ..m })
        } else if f.num == 4 {
            Some(SignedMessageModel { signature: b, ..m })
        } else if f.num == 5 {
            Some(SignedMessageModel { last_edge_addr: Some(b), ..m })
        } else if f.num == 3 {
            None
        } else {
            Some(m)
        },
        FieldVal::Fixed64 => if 1 <= f.num && f.num <= 5 {
            None
        } else {
            Some(m)
        },
        FieldVal::Fixed32 => if 1 <= f.num && f.num <= 5 {
            None
        } else {
            Some(m)
        },
    }
}

/// Merges a sequence of parsed fields, later occurrences overriding earlier
/// ones.
pub open spec fn fold_signed(m: SignedMessageModel, fs: Seq<FieldModel>) -> Option<
    SignedMessageModel,
>
    decreases fs.len(),
{
    if fs.len() == 0 {
        Some(m)
    } else {
        match apply_signed_field(m, fs.first()) {
            Some(m2) => fold_signed(m2, fs.drop_first()),
            None => None,
        }
    }
}

/// What decoding a byte string as a signed message yields.
pub open spec fn decode_signed(b: Seq<u8>) -> Option<SignedMessageModel> {
    match parse_fields(b) {
        Some(fs) => fold_signed(signed_default(), fs),
        None => None,
    }
}

proof fn lemma_fold_signed_add(m: SignedMessageModel, a: Seq<FieldModel>, b: Seq<FieldModel>)
    ensures
        fold_signed(m, a + b) == (match fold_signed(m, a) {
            Some(x) => fold_signed(x, b),
            None => None::<SignedMessageModel>,
        }),
    decreases a.len(),
{
    if a.len() == 0 {
        assert(a + b =~= b);
    } else {
        assert((a + b).first() == a.first());
        assert((a + b).drop_first() =~= a.drop_first() + b);
        match apply_signed_field(m, a.first()) {
            Some(m2) => {
                lemma_fold_signed_add(m2, a.drop_first(), b);
            },
            None => {},
        }
    }
}

/// A signed message that the machine can hold: every byte-string field fits
/// a 64-bit length.
pub open spec fn signed_wf(m: SignedMessageModel) -> bool {
    &&& m.raw.len() <= u64::MAX as nat
    &&& m.hash.len() <= u64::MAX as nat
    &&& m.signature.len() <= u64::MAX as nat
    &&& match m.last_edge_addr {
        Some(b) => b.len() <= u64::MAX as nat,
        None => true,
    }
}

/// Decoding a canonical encoding returns exactly the encoded message: the
/// codec round-trips on every representable signed message.
#[verifier::rlimit(60)]
pub proof fn lemma_signed_round_trip(m: SignedMessageModel)
    requires
        signed_wf(m),
    ensures
        decode_signed(encode_signed(m)) == Some(m),
{
    let fs = signed_fields(m);
    assert forall|k: int| 0 <= k < fs.len() implies wf_field(#[trigger] fs[k]) by {
        assert(fs[k].num <= 5);
    }
    lemma_parse_serialize_fields(fs);
    let g1 = bytes_fields(1, m.raw);
    let g2 = bytes_fields(2, m.hash);
    let g3 = uint_fields(3, m.nonce as nat);
    let g4 = bytes_fields(4, m.signature);
    let g5 = opt_bytes_fields(5, m.last_edge_addr);
    let m0 = signed_default();
    let m1 = SignedMessageModel { raw: m.raw, ..m0 };
    let m2 = SignedMessageModel { hash: m.hash, ..m1 };
    let m3 = SignedMessageModel { nonce: m.nonce, ..m2 };
    let m4 = SignedMessageModel { signature: m.signature, ..m3 };
    let m5 = SignedMessageModel { last_edge_addr: m.last_edge_addr, ..m4 };
    if m.raw.len() != 0 {
        lemma_fold_signed_single(m0, bytes_field(1, m.raw), m1);
    } else {
        assert(m.raw =~= Seq::<u8>::empty());
        assert(m1 =~= m0);
    }
    assert(fold_signed(m0, g1) == Some(m1));
    if m.hash.len() != 0 {
        lemma_fold_signed_single(m1, bytes_field(2, m.hash), m2);
    } else {
        assert(m.hash =~= Seq::<u8>::empty());
        assert(m2 =~= m1);
    }
    assert(fold_signed(m1, g2) == Some(m2));
    if m.nonce != 0 {
        lemma_fold_signed_single(m2, uint_field(3, m.nonce as nat), m3);
    } else {
        assert(m3 =~= m2);
    }
    assert(fold_signed(m2, g3) == Some(m3));
    if m.signature.len() != 0 {
        lemma_fold_signed_single(m3, bytes_field(4, m.signature), m4);
    } else {
        assert(m.signature =~= Seq::<u8>::empty());
        assert(m4 =~= m3);
    }
    assert(fold_signed(m3, g4) == Some(m4));
    match m.last_edge_addr {
        Some(b) => {
            lemma_fold_signed_single(m4, bytes_field(5, b), m5);
        },
        None => {
            assert(m5 =~= m4);
        },
    }
    assert(fold_signed(m4, g5) == Some(m5));
    let a2 = g1 + g2;
    let a3 = a2 + g3;
    let a4 = a3 + g4;
    let a5 = a4 + g5;
    lemma_fold_signed_add(m0, g1, g2);
    assert(fold_signed(m0, a2) == Some(m2));
    lemma_fold_signed_add(m0, a2, g3);
    assert(fold_signed(m0, a3) == Some(m3));
    lemma_fold_signed_add(m0, a3, g4);
    assert(fold_signed(m0, a4) == Some(m4));
    lemma_fold_signed_add(m0, a4, g5);
    assert(fold_signed(m0, a5) == Some(m5));
    assert(a5 == fs);
    assert(m5 =~= m);
}

impl SignedMessage {
    /// The canonical wire bytes of this message.
    pub fn encode_to_vec(&self) -> (r: Vec<u8>)
        ensures
            r@ == encode_signed(self@),
    {
        let ghost m = self@;
        let mut out: Vec<u8> = Vec::new();
        let ghost g1 = bytes_fields(1, m.raw);
        let ghost g2 = bytes_fields(2, m.hash);
        let ghost g3 = uint_fields(3, m.nonce as nat);
        let ghost g4 = bytes_fields(4, m.signature);
        let ghost g5 = opt_bytes_fields(5, m.last_edge_addr);
        if self.raw.len() != 0 {
            push_bytes_field(&mut out, 1, self.raw.as_slice());
        }
        proof {
            if m.raw.len() != 0 {
                lemma_serialize_singleton(bytes_field(1, m.raw));
            }
            assert(out@ =~= serialize_fields(g1));
        }
        let ghost d1 = g1;
        if self.hash.len() != 0 {
            push_bytes_field(&mut out, 2, self.hash.as_slice());
        }
        proof {
            if m.hash.len() != 0 {
                lemma_serialize_singleton(bytes_field(2, m.hash));
            }
            lemma_serialize_fields_add(d1, g2);
            assert(out@ =~= serialize_fields(d1 + g2));
        }
        let ghost d2 = d1 + g2;
        if self.nonce != 0 {
            push_uint_field(&mut out, 3, self.nonce);
        }
        proof {
            if m.nonce != 0 {
                lemma_serialize_singleton(uint_field(3, m.nonce as nat));
            }
            lemma_serialize_fields_add(d2, g3);
            assert(out@ =~= serialize_fields(d2 + g3));
        }
        let ghost d3 = d2 + g3;
        if self.signature.len() != 0 {
            push_bytes_field(&mut out, 4, self.signature.as_slice());
        }
        proof {
            if m.signature.len() != 0 {
                lemma_serialize_singleton(bytes_field(4, m.signature));
            }
            lemma_serialize_fields_add(d3, g4);
            assert(out@ =~= serialize_fields(d3 + g4));
        }
        let ghost d4 = d3 + g4;
        match &self.last_edge_addr {
            Some(b) => {
                proof {
                    vstd::std_specs::vec::axiom_spec_len(b);
                }
                push_bytes_field(&mut out, 5, b.as_slice());
            },
            None => {},
        }
        proof {
            match m.last_edge_addr {
                Some(b) => {
                    lemma_serialize_singleton(bytes_field(5, b));
                },
                None => {},
            }
            lemma_serialize_fields_add(d4, g5);
            assert(out@ =~= serialize_fields(d4 + g5));
            assert(d4 + g5 == signed_fields(m));
        }
        out
    }

    /// Decodes wire bytes into a signed message; fails exactly on bytes
    /// that are not a well-formed record.
    pub fn decode(data: &[u8]) -> (r: Result<SignedMessage, DecodeError>)
        ensures
            match r {
                Ok(m) => decode_signed(data@) == Some(m@),
                Err(_) => decode_signed(data@) is None,
            },
    {
        let mut fields: Vec<Field> = match parse_fields_exec(data) {
            Some(fs) => fs,
            None => {
                return Err(DecodeError::Malformed);
            },
        };
        let ghost all = fields_view(fields@);
        let mut m = SignedMessage {
            raw: Vec::new(),
            hash: Vec::new(),
            nonce: 0,
            signature: Vec::new(),
            last_edge_addr: None,
        };
        proof {
            assert(m@ =~= signed_default());
        }
        while fields.len() > 0
            invariant
                fold_signed(signed_default(), all) == fold_signed(m@, fields_view(fields@)),
                parse_fields(data@) == Some(all),
            decreases fields.len(),
        {
            let ghost mpre = m@;
            let ghost before = fields_view(fields@);
            let f = fields.remove(0);
            let ghost fv = f@;
            proof {
                assert(before =~= seq![fv] + fields_view(fields@));
                assert((seq![fv] + fields_view(fields@)).first() == fv);
                assert((seq![fv] + fields_view(fields@)).drop_first() =~= fields_view(fields@));
            }
            let num = f.num;
            match f.data {
                FieldData::Uint(v) => {
                    if num == 3 {
                        m.nonce = v;
                    } else if num == 1 || num == 2 || num == 4 || num == 5 {
                        proof {
                            assert(apply_signed_field(mpre, fv) is None);
                        }
                        return Err(DecodeError::Malformed);
                    }
                },
                FieldData::Bytes(b) => {
                    if num == 1 {
                        m.raw = b;
                    } else if num == 2 {
                        m.hash = b;
                    } else if num == 4 {
                        m.signature = b;
                    } else if num == 5 {
                        m.last_edge_addr = Some(b);
                    } else if num == 3 {
                        proof {
                            assert(apply_signed_field(mpre, fv) is None);
                        }
                        return Err(DecodeError::Malformed);
                    }
                },
                FieldData::Fixed64 => {
                    if 1 <= num && num <= 5 {
                        proof {
                            assert(apply_signed_field(mpre, fv) is None);
                        }
                        return Err(DecodeError::Malformed);
                    }
                },
                FieldData::Fixed32 => {
                    if 1 <= num && num <= 5 {
                        proof {
                            assert(apply_signed_field(mpre, fv) is None);
                        }
                        return Err(DecodeError::Malformed);
                    }
                },
            }
            proof {
                assert(apply_signed_field(mpre, fv) == Some(m@));
            }
        }
        proof {
            assert(fields_view(fields@) =~= Seq::<FieldModel>::empty());
        }
        Ok(m)
    }
}

} // verus!
