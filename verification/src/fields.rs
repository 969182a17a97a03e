//! The field layer of the wire format: a message body is a sequence of
//! tagged fields, each a key varint (field number and wire type) followed by
//! a varint scalar, a length-delimited byte string, or a fixed-width value
//! that is only ever skipped. Unknown field numbers are tolerated and
//! skipped, which keeps the format forward-compatible.

use vstd::prelude::*;
use crate::varint::{
    parse_varint, parse_varint_exec, push_varint, varint, lemma_parse_varint_consumes,
    lemma_parse_varint_inverse,
};

verus! {

/// The value carried by one wire-format field.
pub enum FieldVal {
    /// A varint scalar (wire type 0).
    Uint(nat),
    /// A length-delimited byte string (wire type 2).
    Bytes(Seq<u8>),
    /// A 64-bit fixed-width value (wire type 1); only skipped, never kept.
    Fixed64,
    /// A 32-bit fixed-width value (wire type 5); only skipped, never kept.
    Fixed32,
}

/// One parsed field: its field number and its value.
pub struct FieldModel {
    pub num: nat,
    pub val: FieldVal,
}

/// An executable field as the decoder produces it.
pub enum FieldData {
    Uint(u64),
    Bytes(Vec<u8>),
    Fixed64,
    Fixed32,
}

pub struct Field {
    pub num: u64,
    pub data: FieldData,
}

impl View for Field {
    type V = FieldModel;

    open spec fn view(&self) -> FieldModel {
        FieldModel {
            num: self.num as nat,
            val: match self.data {
                FieldData::Uint(v) => FieldVal::Uint(v as nat),
                FieldData::Bytes(b) => FieldVal::Bytes(b@),
                FieldData::Fixed64 => FieldVal::Fixed64,
                FieldData::Fixed32 => FieldVal::Fixed32,
            },
        }
    }
}

/// The field sequence that a vector of executable fields stands for.
pub open spec fn fields_view(fs: Seq<Field>) -> Seq<FieldModel> {
    fs.map_values(|f: Field| f@)
}

/// Prepends a field to the result of parsing the remaining bytes.
pub open spec fn cons_field(f: FieldModel, rest: Option<Seq<FieldModel>>) -> Option<
    Seq<FieldModel>,
> {
    match rest {
        Some(fs) => Some(seq![f] + fs),
        None => None,
    }
}

/// Splits a byte string into its sequence of fields; `None` when the bytes
/// are not a well-formed field sequence.
pub open spec fn parse_fields(b: Seq<u8>) -> Option<Seq<FieldModel>>
    decreases b.len(),
    via parse_fields_decreases
{
    if b.len() == 0 {
        Some(Seq::empty())
    } else {
        match parse_varint(b) {
            None => None,
            Some(kp) => {
                let num = kp.0 / 8;
                let wire = kp.0 % 8;
                if wire == 0 {
                    match parse_varint(kp.1) {
                        None => None,
                        Some(vp) => cons_field(
                            FieldModel { num, val: FieldVal::Uint(vp.0) },
                            parse_fields(vp.1),
                        ),
                    }
                } else if wire == 2 {
                    match parse_varint(kp.1) {
                        None => None,
                        Some(lp) => if lp.1.len() < lp.0 {
                            None
                        } else {
                            cons_field(
                                FieldModel { num, val: FieldVal::Bytes(lp.1.take(lp.0 as int)) },
                                parse_fields(lp.1.skip(lp.0 as int)),
                            )
                        },
                    }
                } else if wire == 1 {
                    if kp.1.len() < 8 {
                        None
                    } else {
                        cons_field(FieldModel { num, val: FieldVal::Fixed64 }, parse_fields(kp.1.skip(8)))
                    }
                } else if wire == 5 {
                    if kp.1.len() < 4 {
                        None
                    } else {
                        cons_field(FieldModel { num, val: FieldVal::Fixed32 }, parse_fields(kp.1.skip(4)))
                    }
                } else {
                    None
                }
            },
        }
    }
}

#[via_fn]
proof fn parse_fields_decreases(b: Seq<u8>) {
    lemma_parse_varint_consumes(b, 0);
    match parse_varint(b) {
        None => {},
        Some(kp) => {
            lemma_parse_varint_consumes(kp.1, 0);
        },
    }
}

/// A field that the serializer can write: a known wire type, a field number
/// whose key fits a 64-bit varint, and byte strings no longer than a 64-bit
/// length.
pub open spec fn wf_field(f: FieldModel) -> bool {
    &&& 1 <= f.num
    &&& f.num * 8 + 7 <= u64::MAX as nat
    &&& match f.val {
        FieldVal::Uint(v) => v <= u64::MAX as nat,
        FieldVal::Bytes(b) => b.len() <= u64::MAX as nat,
        FieldVal::Fixed64 => false,
        FieldVal::Fixed32 => false,
    }
}

/// The wire bytes of one field.
pub open spec fn serialize_field(f: FieldModel) -> Seq<u8> {
    match f.val {
        FieldVal::Uint(v) => varint(f.num * 8) + varint(v),
        FieldVal::Bytes(b) => varint(f.num * 8 + 2) + varint(b.len()) + b,
        FieldVal::Fixed64 => Seq::empty(),
        FieldVal::Fixed32 => Seq::empty(),
    }
}

/// The wire bytes of a field sequence.
pub open spec fn serialize_fields(fs: Seq<FieldModel>) -> Seq<u8>
    decreases fs.len(),
{
    if fs.len() == 0 {
        Seq::empty()
    } else {
        serialize_field(fs.first()) + serialize_fields(fs.drop_first())
    }
}

/// Serialization distributes over concatenation of field sequences.
pub proof fn lemma_serialize_fields_add(a: Seq<FieldModel>, b: Seq<FieldModel>)
    ensures
        serialize_fields(a + b) == serialize_fields(a) + serialize_fields(b),
    decreases a.len(),
{
    if a.len() == 0 {
        assert(a + b =~= b);
        assert(Seq::<u8>::empty() + serialize_fields(b) =~= serialize_fields(b));
    } else {
        assert((a + b).first() == a.first());
        assert((a + b).drop_first() =~= a.drop_first() + b);
        lemma_serialize_fields_add(a.drop_first(), b);
        assert(serialize_field(a.first()) + (serialize_fields(a.drop_first())
            + serialize_fields(b)) =~= (serialize_field(a.first()) + serialize_fields(
            a.drop_first(),
        )) + serialize_fields(b));
    }
}

/// Parsing one serialized field from the front of a byte string yields that
/// field and continues with the rest.
proof fn lemma_parse_one_field(f: FieldModel, rest: Seq<u8>)
    requires
        wf_field(f),
    ensures
        parse_fields(serialize_field(f) + rest) == cons_field(f, parse_fields(rest)),
{
    match f.val {
        FieldVal::Uint(v) => {
            let key = (f.num * 8) as u64;
            assert(serialize_field(f) + rest =~= varint(key as nat) + (varint(v) + rest));
            lemma_parse_varint_inverse(key, varint(v) + rest);
            assert((key as nat) / 8 == f.num);
            assert((key as nat) % 8 == 0);
            let vv = (v as u64);
            assert(vv as nat == v);
            lemma_parse_varint_inverse(vv, rest);
            let b = serialize_field(f) + rest;
            assert(b.len() > 0) by {
                crate::varint::lemma_varint_len_pos(key as nat);
            }
            assert(parse_fields(b) == cons_field(
                FieldModel { num: f.num, val: FieldVal::Uint(v) },
                parse_fields(rest),
            ));
        },
        FieldVal::Bytes(bs) => {
            let key = (f.num * 8 + 2) as u64;
            let len = bs.len() as u64;
            assert(serialize_field(f) + rest =~= varint(key as nat) + (varint(len as nat) + (bs
                + rest)));
            lemma_parse_varint_inverse(key, varint(len as nat) + (bs + rest));
            assert((key as nat) / 8 == f.num);
            assert((key as nat) % 8 == 2);
            lemma_parse_varint_inverse(len, bs + rest);
            let b = serialize_field(f) + rest;
            assert(b.len() > 0) by {
                crate::varint::lemma_varint_len_pos(key as nat);
            }
            assert((bs + rest).len() >= len as nat);
            assert((bs + rest).take(len as int) =~= bs);
            assert((bs + rest).skip(len as int) =~= rest);
            assert(parse_fields(b) == cons_field(
                FieldModel { num: f.num, val: FieldVal::Bytes(bs) },
                parse_fields(rest),
            ));
        },
        FieldVal::Fixed64 => {
            assert(false);
        },
        FieldVal::Fixed32 => {
            assert(false);
        },
    }
}

/// Parsing is the inverse of serialization for any sequence of writable
/// fields.
pub proof fn lemma_parse_serialize_fields(fs: Seq<FieldModel>)
    requires
        forall|k: int| 0 <= k < fs.len() ==> wf_field(#[trigger] fs[k]),
    ensures
        parse_fields(serialize_fields(fs)) == Some(fs),
    decreases fs.len(),
{
    if fs.len() == 0 {
        assert(parse_fields(serialize_fields(fs)) == Some(Seq::<FieldModel>::empty()));
        assert(fs =~= Seq::<FieldModel>::empty());
    } else {
        let f = fs.first();
        assert(wf_field(f));
        lemma_parse_serialize_fields(fs.drop_first());
        lemma_parse_one_field(f, serialize_fields(fs.drop_first()));
        assert(seq![f] + fs.drop_first() =~= fs);
    }
}

/// Appends the wire bytes of a varint-scalar field.
pub fn push_uint_field(out: &mut Vec<u8>, num: u64, v: u64)
    requires
        1 <= num,
        num * 8 + 7 <= u64::MAX,
    ensures
        final(out)@ == old(out)@ + serialize_field(
            FieldModel { num: num as nat, val: FieldVal::Uint(v as nat) },
        ),
{
    push_varint(out, num * 8);
    push_varint(out, v);
    proof {
        assert(final(out)@ =~= old(out)@ + (varint((num * 8) as nat) + varint(v as nat)));
    }
}

/// Appends the wire bytes of a length-delimited field.
pub fn push_bytes_field(out: &mut Vec<u8>, num: u64, bs: &[u8])
    requires
        1 <= num,
        num * 8 + 7 <= u64::MAX,
        bs@.len() <= u64::MAX,
    ensures
        final(out)@ == old(out)@ + serialize_field(
            FieldModel { num: num as nat, val: FieldVal::Bytes(bs@) },
        ),
{
    push_varint(out, num * 8 + 2);
    push_varint(out, bs.len() as u64);
    crate::bytesops::extend_bytes(out, bs);
    proof {
        assert(final(out)@ =~= old(out)@ + (varint((num * 8 + 2) as nat) + varint(bs@.len())
            + bs@));
    }
}

/// Splits a byte string into its fields; `None` when the bytes are not a
/// well-formed field sequence.
pub fn parse_fields_exec(data: &[u8]) -> (r: Option<Vec<Field>>)
    ensures
        match r {
            Some(fs) => parse_fields(data@) == Some(fields_view(fs@)),
            None => parse_fields(data@) is None,
        },
{
    let n: usize = data.len();
    let mut out: Vec<Field> = Vec::new();
    let mut i: usize = 0;
    proof {
        assert(data@.skip(0) =~= data@);
        assert(fields_view(out@) =~= Seq::<FieldModel>::empty());
    }
    while i < n
        invariant
            i <= n,
            n == data@.len(),
            parse_fields(data@) == (match parse_fields(data@.skip(i as int)) {
                Some(fs) => Some(fields_view(out@) + fs),
                None => None::<Seq<FieldModel>>,
            }),
        decreases n - i,
    {
        let ghost prefix = fields_view(out@);
        let ghost i0 = i as int;
        let kp = match parse_varint_exec(data, i) {
            Some(p) => p,
            None => {
                return None;
            },
        };
        let key = kp.0;
        let j = kp.1;
        let num = key / 8;
        let wire = key % 8;
        let ghost mut fm: FieldModel = FieldModel { num: 0, val: FieldVal::Fixed64 };
        if wire == 0 {
            let vp = match parse_varint_exec(data, j) {
                Some(p) => p,
                None => {
                    return None;
                },
            };
            out.push(Field { num, data: FieldData::Uint(vp.0) });
            proof {
                fm = FieldModel { num: num as nat, val: FieldVal::Uint(vp.0 as nat) };
            }
            i = vp.1;
        } else if wire == 2 {
            let lp = match parse_varint_exec(data, j) {
                Some(p) => p,
                None => {
                    return None;
                },
            };
            let k = lp.1;
            if lp.0 > (n - k) as u64 {
                proof {
                    assert(data@.skip(k as int).len() < lp.0 as nat);
                }
                return None;
            }
            let l: usize = lp.0 as usize;
            let bs = crate::bytesops::bytes_range(data, k, k + l);
            proof {
                assert(data@.skip(k as int).take(lp.0 as int) =~= data@.subrange(
                    k as int,
                    k as int + lp.0 as int,
                ));
                assert(data@.skip(k as int).skip(lp.0 as int) =~= data@.skip(k as int + lp.0 as int));
                fm = FieldModel { num: num as nat, val: FieldVal::Bytes(bs@) };
            }
            out.push(Field { num, data: FieldData::Bytes(bs) });
            i = k + l;
        } else if wire == 1 {
            if n - j < 8 {
                proof {
                    assert(data@.skip(j as int).len() < 8);
                }
                return None;
            }
            out.push(Field { num, data: FieldData::Fixed64 });
            proof {
                fm = FieldModel { num: num as nat, val: FieldVal::Fixed64 };
                assert(data@.skip(j as int).skip(8) =~= data@.skip(j as int + 8));
            }
            i = j + 8;
        } else if wire == 5 {
            if n - j < 4 {
                proof {
                    assert(data@.skip(j as int).len() < 4);
                }
                return None;
            }
            out.push(Field { num, data: FieldData::Fixed32 });
            proof {
                fm = FieldModel { num: num as nat, val: FieldVal::Fixed32 };
                assert(data@.skip(j as int).skip(4) =~= data@.skip(j as int + 4));
            }
            i = j + 4;
        } else {
            return None;
        }
        proof {
            assert(fields_view(out@) =~= prefix + seq![fm]);
            assert(parse_fields(data@.skip(i0)) == cons_field(fm, parse_fields(data@.skip(i as int))));
            assert(match parse_fields(data@.skip(i as int)) {
                Some(fs) => (prefix + seq![fm]) + fs =~= prefix + (seq![fm] + fs),
                None => true,
            });
        }
    }
    proof {
        assert(data@.skip(n as int) =~= Seq::<u8>::empty());
        assert(fields_view(out@) + Seq::<FieldModel>::empty() =~= fields_view(out@));
    }
    Some(out)
}

} // verus!
