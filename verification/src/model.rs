use crate::encoder::Encoder;
use crate::encoders::dlist::Dlist;
use crate::encoders::dynamic::Dynamic;
use crate::encoders::fixed::Fixed;
use crate::error::Error;
use crate::nest::NestValue;
use crate::template::Template;
use crate::template_ids::{lemma_id_byte_round_trip, TemplateId};
use crate::wire::{
    lemma_le_bytes_len, lemma_le_bytes_of_le_value, lemma_le_value_bound,
    lemma_le_value_of_le_bytes, pow256, spec_le_bytes, spec_le_value,
};
use vstd::prelude::*;

verus! {

/// The mathematical shape of a template tree: one constructor per encoder
/// variant, with a Dlist node owning the model of its inner template. Two
/// templates behave alike exactly when their models are equal.
pub enum TemplateModel {
    Fixed { id: TemplateId, length: nat },
    Dynamic { id: TemplateId, width: nat, max: nat },
    Dlist { id: TemplateId, width: nat, max: nat, inner: Box<TemplateModel> },
}

pub open spec fn fixed_model(f: Fixed) -> TemplateModel {
    TemplateModel::Fixed { id: f.template_id, length: f.length as nat }
}

pub open spec fn dynamic_model(d: Dynamic) -> TemplateModel {
    TemplateModel::Dynamic {
        id: d.template_id,
        width: d.length_encoding_length as nat,
        max: d.max_length as nat,
    }
}

pub open spec fn dlist_model(d: Dlist) -> TemplateModel
    decreases d,
{
    TemplateModel::Dlist {
        id: d.template_id,
        width: d.length_encoding_length as nat,
        max: d.max_length as nat,
        inner: Box::new(template_model(*d.template)),
    }
}

pub open spec fn encoder_model(e: Encoder) -> TemplateModel
    decreases e,
{
    match e {
        Encoder::Fixed(f) => fixed_model(f),
        Encoder::Dynamic(d) => dynamic_model(d),
        Encoder::Dlist(l) => dlist_model(l),
    }
}

pub open spec fn template_model(t: Template) -> TemplateModel
    decreases t,
{
    encoder_model(t.encoder)
}

impl TemplateModel {
    /// The id of the template's own root node.
    pub open spec fn id(self) -> TemplateId {
        match self {
            TemplateModel::Fixed { id, .. } => id,
            TemplateModel::Dynamic { id, .. } => id,
            TemplateModel::Dlist { id, .. } => id,
        }
    }

    /// The wire value of the root node's id.
    pub open spec fn id_byte(self) -> u8 {
        self.id().spec_byte()
    }

    /// Well-formedness of the whole tree: each node's id names its own
    /// variant, its derived fields follow the id, a Fixed length sits within
    /// the bounds of its id, and every inner template is well formed too.
    pub open spec fn wf(self) -> bool
        decreases self,
    {
        match self {
            TemplateModel::Fixed { id, length } => {
                ||| (id == TemplateId::FixedAlpha && 1 <= length <= 256)
                ||| (id == TemplateId::FixedBeta && 257 <= length <= 65792)
            },
            TemplateModel::Dynamic { id, width, max } => {
                &&& id.is_dynamic()
                &&& width == id.spec_prefix_width()
                &&& max == id.spec_max_len()
            },
            TemplateModel::Dlist { id, width, max, inner } => {
                &&& id.is_dlist()
                &&& width == id.spec_prefix_width()
                &&& max == id.spec_max_len()
                &&& inner.wf()
            },
        }
    }
}

/// The bytes that encoding nest `n` under template `t` appends after the
/// template's id byte, or the error that the attempt raises. A Dlist element
/// on the wire carries the inner template's id byte before its body.
pub open spec fn spec_encode(t: TemplateModel, n: NestValue) -> Result<Seq<u8>, Error>
    decreases t, 0nat,
{
    match t {
        TemplateModel::Fixed { id, length } => match n {
            NestValue::Bytes(b) => if b.len() == length {
                Ok(b)
            } else {
                Err(Error::fixed__encode_to__bytes_length_should_match_self_length)
            },
            NestValue::Nests(_) => Err(Error::fixed__encode_to__unsupported_nest_shape),
        },
        TemplateModel::Dynamic { id, width, max } => match n {
            NestValue::Bytes(b) => if b.len() > max {
                Err(Error::dynamic__encode_to__bytes_length_should_be_lte_max_length)
            } else {
                Ok(spec_le_bytes(b.len(), width) + b)
            },
            NestValue::Nests(_) => Err(Error::dynamic__encode_to__unsupported_nest_shape),
        },
        TemplateModel::Dlist { id, width, max, inner } => match n {
            NestValue::Nests(elems) => if elems.len() > max {
                Err(Error::dlist__encode_to__nests_length_should_be_lte_max_length)
            } else {
                match spec_encode_list(*inner, elems) {
                    Ok(body) => Ok(spec_le_bytes(elems.len(), width) + body),
                    Err(e) => Err(e),
                }
            },
            NestValue::Bytes(_) => Err(Error::dlist__encode_to__unsupported_nest_shape),
        },
    }
}

/// The concatenated encodings of `elems` under inner template `t`, each
/// element led by `t`'s id byte; or the first error, elements in order.
pub open spec fn spec_encode_list(t: TemplateModel, elems: Seq<NestValue>) -> Result<
    Seq<u8>,
    Error,
>
    decreases t, elems.len(),
{
    if elems.len() == 0 {
        Ok(Seq::empty())
    } else {
        match spec_encode(t, elems[0]) {
            Ok(head) => match spec_encode_list(t, elems.skip(1)) {
                Ok(tail) => Ok(seq![t.id_byte()] + head + tail),
                Err(e) => Err(e),
            },
            Err(e) => Err(e),
        }
    }
}

/// The nest that decoding `s` under template `t` yields, together with the
/// unconsumed remainder of `s`; or the error that the attempt raises.
pub open spec fn spec_decode(t: TemplateModel, s: Seq<u8>) -> Result<(NestValue, Seq<u8>), Error>
    decreases t, 0nat,
{
    match t {
        TemplateModel::Fixed { id, length } => if s.len() < length {
            Err(Error::fixed__decode_with_remainder__bytes_length_should_be_gte_self_length)
        } else {
            Ok((NestValue::Bytes(s.subrange(0, length as int)), s.skip(length as int)))
        },
        TemplateModel::Dynamic { id, width, max } => if s.len() < width {
            Err(Error::dynamic__decode_with_remainder__bytes_length_should_be_gte_length_encoding_length)
        } else {
            let l = spec_le_value(s.subrange(0, width as int));
            if s.len() < width + l {
                Err(Error::dynamic__decode_with_remainder__bytes_length_should_be_gte_length_encoding_length_plus_length)
            } else {
                Ok(
                    (
                        NestValue::Bytes(s.subrange(width as int, (width + l) as int)),
                        s.skip((width + l) as int),
                    ),
                )
            }
        },
        TemplateModel::Dlist { id, width, max, inner } => if s.len() < width {
            Err(Error::dlist__decode_with_remainder__bytes_length_should_be_gte_length_encoding_length)
        } else {
            let count = spec_le_value(s.subrange(0, width as int));
            match spec_decode_list(*inner, count, s.skip(width as int)) {
                Ok((elems, rest)) => Ok((NestValue::Nests(elems), rest)),
                Err(e) => Err(e),
            }
        },
    }
}

/// Decodes `count` elements from `s` under inner template `t`: each element
/// is `t`'s id byte followed by a body that `t` decodes.
pub open spec fn spec_decode_list(t: TemplateModel, count: nat, s: Seq<u8>) -> Result<
    (Seq<NestValue>, Seq<u8>),
    Error,
>
    decreases t, count,
{
    if count == 0 {
        Ok((Seq::empty(), s))
    } else if s.len() < 1 {
        Err(Error::dlist__decode_with_remainder__missing_inner_template_id)
    } else if s[0] != t.id_byte() {
        Err(Error::dlist__decode_with_remainder__unexpected_inner_template_id)
    } else {
        match spec_decode(t, s.skip(1)) {
            Ok((n, rest)) => match spec_decode_list(t, (count - 1) as nat, rest) {
                Ok((tail, fin)) => Ok((seq![n] + tail, fin)),
                Err(e) => Err(e),
            },
            Err(e) => Err(e),
        }
    }
}

/// The full schema bytes of `t`: the id byte, then the id-specific payload.
pub open spec fn spec_export(t: TemplateModel) -> Seq<u8>
    decreases t, 1nat,
{
    seq![t.id_byte()] + spec_export_payload(t)
}

/// The schema bytes that follow the id byte: `length − 1` in one byte for
/// Fixed-α, `length − 257` in two little-endian bytes for Fixed-β, nothing
/// for Dynamic, and the inner template's full schema for Dlist.
pub open spec fn spec_export_payload(t: TemplateModel) -> Seq<u8>
    decreases t, 0nat,
{
    match t {
        TemplateModel::Fixed { id, length } => if id == TemplateId::FixedAlpha {
            seq![(length - 1) as u8]
        } else {
            spec_le_bytes((length - 257) as nat, 2)
        },
        TemplateModel::Dynamic { .. } => Seq::empty(),
        TemplateModel::Dlist { inner, .. } => spec_export(*inner),
    }
}

/// The template that schema bytes `s` describe, with the unconsumed
/// remainder; or the error that the attempt raises. The id byte fully
/// determines the shape of what follows it.
pub open spec fn spec_parse(s: Seq<u8>) -> Result<(TemplateModel, Seq<u8>), Error>
    decreases s.len(),
{
    if s.len() < 1 {
        Err(Error::template__from_jinyang__insufficient_bytes)
    } else {
        match TemplateId::spec_from_byte(s[0]) {
            None => Err(Error::template__from_jinyang__invalid_template_id),
            Some(id) => if id == TemplateId::FixedAlpha {
                if s.len() < 2 {
                    Err(Error::template__from_jinyang__insufficient_bytes)
                } else {
                    Ok((TemplateModel::Fixed { id, length: s[1] as nat + 1 }, s.skip(2)))
                }
            } else if id == TemplateId::FixedBeta {
                if s.len() < 3 {
                    Err(Error::template__from_jinyang__insufficient_bytes)
                } else {
                    Ok(
                        (
                            TemplateModel::Fixed {
                                id,
                                length: spec_le_value(s.subrange(1, 3)) + 257,
                            },
                            s.skip(3),
                        ),
                    )
                }
            } else if id.is_dynamic() {
                Ok(
                    (
                        TemplateModel::Dynamic {
                            id,
                            width: id.spec_prefix_width(),
                            max: id.spec_max_len(),
                        },
                        s.skip(1),
                    ),
                )
            } else {
                match spec_parse(s.skip(1)) {
                    Ok((inner, rest)) => Ok(
                        (
                            TemplateModel::Dlist {
                                id,
                                width: id.spec_prefix_width(),
                                max: id.spec_max_len(),
                                inner: Box::new(inner),
                            },
                            rest,
                        ),
                    ),
                    Err(e) => Err(e),
                }
            },
        }
    }
}

/// For every Dynamic or Dlist id, the cap is the largest value that the
/// id's prefix width can spell.
pub proof fn lemma_max_fits_prefix(id: TemplateId)
    requires
        id.is_dynamic() || id.is_dlist(),
    ensures
        id.spec_max_len() == pow256(id.spec_prefix_width()) - 1,
{
    reveal_with_fuel(pow256, 5);
}

/// Round-trip law: decoding what a well-formed template encoded yields the
/// original nest, consumes exactly the encoding, and leaves any appended
/// bytes as the remainder.
pub proof fn lemma_encode_then_decode(t: TemplateModel, n: NestValue, rest: Seq<u8>)
    requires
        t.wf(),
        spec_encode(t, n) is Ok,
    ensures
        spec_decode(t, spec_encode(t, n)->Ok_0 + rest) == Ok::<(NestValue, Seq<u8>), Error>(
            (n, rest),
        ),
    decreases t, 0nat,
{
    let enc = spec_encode(t, n)->Ok_0;
    let s = enc + rest;
    match t {
        TemplateModel::Fixed { id, length } => {
            let b = n->Bytes_0;
            assert(n is Bytes);
            assert(s.subrange(0, length as int) =~= b);
            assert(s.skip(length as int) =~= rest);
        },
        TemplateModel::Dynamic { id, width, max } => {
            let b = n->Bytes_0;
            assert(n is Bytes);
            let pre = spec_le_bytes(b.len(), width);
            lemma_le_bytes_len(b.len(), width);
            lemma_max_fits_prefix(id);
            lemma_le_value_of_le_bytes(b.len(), width);
            assert(s.subrange(0, width as int) =~= pre);
            assert(s.len() >= width + b.len());
            assert(s.subrange(width as int, (width + b.len()) as int) =~= b);
            assert(s.skip((width + b.len()) as int) =~= rest);
        },
        TemplateModel::Dlist { id, width, max, inner } => {
            let elems = n->Nests_0;
            assert(n is Nests);
            let body = spec_encode_list(*inner, elems)->Ok_0;
            let pre = spec_le_bytes(elems.len(), width);
            lemma_le_bytes_len(elems.len(), width);
            lemma_max_fits_prefix(id);
            lemma_le_value_of_le_bytes(elems.len(), width);
            assert(s.subrange(0, width as int) =~= pre);
            assert(s.skip(width as int) =~= body + rest);
            lemma_encode_then_decode_list(*inner, elems, rest);
        },
    }
}

/// Element-list half of the round-trip law: decoding `elems.len()` elements
/// from their concatenated encodings yields the elements back in order.
pub proof fn lemma_encode_then_decode_list(t: TemplateModel, elems: Seq<NestValue>, rest: Seq<u8>)
    requires
        t.wf(),
        spec_encode_list(t, elems) is Ok,
    ensures
        spec_decode_list(t, elems.len(), spec_encode_list(t, elems)->Ok_0 + rest) == Ok::<
            (Seq<NestValue>, Seq<u8>),
            Error,
        >((elems, rest)),
    decreases t, elems.len(),
{
    let enc = spec_encode_list(t, elems)->Ok_0;
    let s = enc + rest;
    if elems.len() == 0 {
        assert(s =~= rest);
        assert(elems =~= Seq::<NestValue>::empty());
    } else {
        let head = spec_encode(t, elems[0])->Ok_0;
        let tail = spec_encode_list(t, elems.skip(1))->Ok_0;
        assert(enc == seq![t.id_byte()] + head + tail);
        assert(s.len() >= 1);
        assert(s[0] == t.id_byte());
        assert(s.skip(1) =~= head + (tail + rest));
        lemma_encode_then_decode(t, elems[0], tail + rest);
        lemma_encode_then_decode_list(t, elems.skip(1), rest);
        assert(elems.skip(1).len() == elems.len() - 1);
        assert(seq![elems[0]] + elems.skip(1) =~= elems);
    }
}

/// Round-trip law with nothing appended: decoding the encoding of `n`
/// consumes the whole buffer and yields `n` with an empty remainder.
pub proof fn lemma_encode_then_decode_exact(t: TemplateModel, n: NestValue)
    requires
        t.wf(),
        spec_encode(t, n) is Ok,
    ensures
        spec_decode(t, spec_encode(t, n)->Ok_0) == Ok::<(NestValue, Seq<u8>), Error>(
            (n, Seq::empty()),
        ),
{
    lemma_encode_then_decode(t, n, Seq::empty());
    assert(spec_encode(t, n)->Ok_0 + Seq::<u8>::empty() =~= spec_encode(t, n)->Ok_0);
}

/// Schema round-trip law: parsing the exported schema of a well-formed
/// template yields that template back, structurally equal, with any
/// appended bytes as the remainder.
pub proof fn lemma_parse_of_export(t: TemplateModel, rest: Seq<u8>)
    requires
        t.wf(),
    ensures
        spec_parse(spec_export(t) + rest) == Ok::<(TemplateModel, Seq<u8>), Error>((t, rest)),
    decreases t,
{
    let s = spec_export(t) + rest;
    assert(s[0] == t.id_byte());
    lemma_id_byte_round_trip(t.id());
    match t {
        TemplateModel::Fixed { id, length } => {
            if id == TemplateId::FixedAlpha {
                assert(s.len() >= 2);
                assert(s[1] == (length - 1) as u8);
                assert(s[1] as nat + 1 == length);
                assert(s.skip(2) =~= rest);
            } else {
                lemma_le_bytes_len((length - 257) as nat, 2);
                assert(s.subrange(1, 3) =~= spec_le_bytes((length - 257) as nat, 2));
                reveal_with_fuel(pow256, 3);
                lemma_le_value_of_le_bytes((length - 257) as nat, 2);
                assert(s.skip(3) =~= rest);
            }
        },
        TemplateModel::Dynamic { .. } => {
            assert(s.skip(1) =~= rest);
        },
        TemplateModel::Dlist { id, width, max, inner } => {
            assert(s.skip(1) =~= spec_export(*inner) + rest);
            lemma_parse_of_export(*inner, rest);
        },
    }
}

/// Schema round-trip law with nothing appended: parsing an exported schema
/// consumes it whole and rebuilds the template exactly.
pub proof fn lemma_parse_of_export_exact(t: TemplateModel)
    requires
        t.wf(),
    ensures
        spec_parse(spec_export(t)) == Ok::<(TemplateModel, Seq<u8>), Error>((t, Seq::empty())),
{
    lemma_parse_of_export(t, Seq::empty());
    assert(spec_export(t) + Seq::<u8>::empty() =~= spec_export(t));
}

/// Schema exactness law: any schema bytes that parse successfully are
/// exactly the exported schema of the parsed template — which is well
/// formed — followed by the returned remainder. In particular, every
/// reachable schema string re-exports to itself.
pub proof fn lemma_export_of_parse(s: Seq<u8>)
    requires
        spec_parse(s) is Ok,
    ensures
        spec_parse(s)->Ok_0.0.wf(),
        spec_export(spec_parse(s)->Ok_0.0) + spec_parse(s)->Ok_0.1 == s,
    decreases s.len(),
{
    let p = spec_parse(s)->Ok_0;
    match TemplateId::spec_from_byte(s[0]) {
        None => {},
        Some(id) => {
            if id == TemplateId::FixedAlpha {
                assert(spec_export(p.0) + p.1 =~= s);
            } else if id == TemplateId::FixedBeta {
                let w = spec_le_value(s.subrange(1, 3));
                lemma_le_value_bound(s.subrange(1, 3));
                reveal_with_fuel(pow256, 3);
                lemma_le_bytes_of_le_value(s.subrange(1, 3));
                assert(spec_le_bytes(((w + 257) - 257) as nat, 2) == s.subrange(1, 3));
                assert(spec_export(p.0) + p.1 =~= s);
            } else if id.is_dynamic() {
                assert(spec_export(p.0) + p.1 =~= s);
            } else {
                assert(id.is_dlist());
                assert(id.spec_byte() == s[0]);
                lemma_export_of_parse(s.skip(1));
                let q = spec_parse(s.skip(1))->Ok_0;
                assert(p.0 == TemplateModel::Dlist {
                    id,
                    width: id.spec_prefix_width(),
                    max: id.spec_max_len(),
                    inner: Box::new(q.0),
                });
                assert(p.1 == q.1);
                assert(spec_export(q.0) + q.1 == s.skip(1));
                assert(spec_export(p.0) =~= seq![s[0]] + spec_export(q.0));
                assert(spec_export(p.0).len() == 1 + spec_export(q.0).len());
                assert(spec_export(p.0) + p.1 =~= s) by {
                    assert forall|i: int| 0 <= i < s.len() implies (spec_export(p.0) + p.1)[i]
                        == s[i] by {
                        if i >= 1 {
                            assert((spec_export(p.0) + p.1)[i] == (spec_export(q.0) + q.1)[i - 1]);
                            assert(s[i] == s.skip(1)[i - 1]);
                        }
                    }
                }
            }
        },
    }
}

} // verus!
