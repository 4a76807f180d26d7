use crate::error::Error;
use crate::nest::{Nest, NestValue};
use crate::template_ids::TemplateId;
use crate::wire;
use crate::wire::{spec_le_bytes, spec_le_value};
use vstd::prelude::*;
use vstd::slice::{slice_index_get, slice_subrange, slice_to_vec};

verus! {

/// The encoder of a payload with a fixed, construction-time length: exactly
/// `length` raw bytes on the wire, nothing else.
pub struct Fixed {
    pub template_id: TemplateId,
    pub length: usize,
}

impl Fixed {
    /// The length bounds that the id prescribes: 1..=256 for Fixed-α,
    /// 257..=65792 for Fixed-β.
    pub open spec fn wf(&self) -> bool {
        ||| (self.template_id == TemplateId::FixedAlpha && 1 <= self.length <= 256)
        ||| (self.template_id == TemplateId::FixedBeta && 257 <= self.length <= 65792)
    }

    pub fn new(template_id: TemplateId, length: usize) -> (r: Result<Fixed, Error>)
        ensures
            match r {
                Ok(f) => f == (Fixed { template_id, length }) && f.wf(),
                Err(e) => {
                    &&& !(Fixed { template_id, length }).wf()
                    &&& e == if !template_id.is_fixed() {
                        Error::fixed__new__invalid_template_id
                    } else if template_id == TemplateId::FixedAlpha {
                        if length < 1 {
                            Error::fixed__new__alpha__length_too_small
                        } else {
                            Error::fixed__new__alpha__length_too_big
                        }
                    } else {
                        if length < 257 {
                            Error::fixed__new__beta__length_too_small
                        } else {
                            Error::fixed__new__beta__length_too_big
                        }
                    }
                },
            },
    {
        match template_id {
            TemplateId::FixedAlpha => {
                if length < 1 {
                    Err(Error::fixed__new__alpha__length_too_small)
                } else if length > 256 {
                    Err(Error::fixed__new__alpha__length_too_big)
                } else {
                    Ok(Fixed { template_id, length })
                }
            },
            TemplateId::FixedBeta => {
                if length < 257 {
                    Err(Error::fixed__new__beta__length_too_small)
                } else if length > 65792 {
                    Err(Error::fixed__new__beta__length_too_big)
                } else {
                    Ok(Fixed { template_id, length })
                }
            },
            _ => Err(Error::fixed__new__invalid_template_id),
        }
    }

    /// Reads a Fixed encoder back from its schema payload (the bytes after
    /// the id byte): one byte `length − 1` for Fixed-α, two little-endian
    /// bytes `length − 257` for Fixed-β.
    pub fn from_jinyang_with_remainder<'a>(template_id: TemplateId, jinyang: &'a [u8]) -> (r:
        Result<(Fixed, &'a [u8]), Error>)
        requires
            template_id.is_fixed(),
        ensures
            match r {
                Ok(p) => {
                    &&& p.0.wf()
                    &&& p.0.template_id == template_id
                    &&& template_id == TemplateId::FixedAlpha ==> {
                        &&& jinyang@.len() >= 1
                        &&& p.0.length == jinyang@[0] + 1
                        &&& p.1@ == jinyang@.skip(1)
                    }
                    &&& template_id == TemplateId::FixedBeta ==> {
                        &&& jinyang@.len() >= 2
                        &&& p.0.length == spec_le_value(jinyang@.subrange(0, 2)) + 257
                        &&& p.1@ == jinyang@.skip(2)
                    }
                },
                Err(e) => {
                    &&& e == Error::template__from_jinyang__insufficient_bytes
                    &&& jinyang@.len() < if template_id == TemplateId::FixedAlpha {
                        1int
                    } else {
                        2int
                    }
                },
            },
    {
        match template_id {
            TemplateId::FixedAlpha => {
                if jinyang.len() < 1 {
                    Err(Error::template__from_jinyang__insufficient_bytes)
                } else {
                    let b: u8 = *slice_index_get(jinyang, 0);
                    let f = match Fixed::new(template_id, b as usize + 1) {
                        Ok(f) => f,
                        Err(_) => vstd::pervasive::unreached(),
                    };
                    Ok((f, slice_subrange(jinyang, 1, jinyang.len())))
                }
            },
            TemplateId::FixedBeta => {
                if jinyang.len() < 2 {
                    Err(Error::template__from_jinyang__insufficient_bytes)
                } else {
                    let v = wire::read_le_prefix(jinyang, 2);
                    proof {
                        wire::lemma_le_value_bound(jinyang@.subrange(0, 2));
                        reveal_with_fuel(wire::pow256, 3);
                    }
                    let f = match Fixed::new(template_id, v + 257) {
                        Ok(f) => f,
                        Err(_) => vstd::pervasive::unreached(),
                    };
                    Ok((f, slice_subrange(jinyang, 2, jinyang.len())))
                }
            },
            _ => vstd::pervasive::unreached(),
        }
    }

    pub fn length(&self) -> (r: usize)
        ensures
            r == self.length,
    {
        self.length
    }

    pub fn template_id(&self) -> (b: u8)
        ensures
            b == self.template_id.spec_byte(),
    {
        self.template_id.byte()
    }

    /// Appends the nest's bytes to `to`, verbatim. The payload must be a
    /// `Bytes` nest of exactly `length` bytes.
    pub fn encode_to(&self, nest: &Nest, to: &mut Vec<u8>) -> (r: Result<(), Error>)
        requires
            self.wf(),
        ensures
            match r {
                Ok(_) => match nest@ {
                    NestValue::Bytes(b) => b.len() == self.length && final(to)@ == old(to)@ + b,
                    NestValue::Nests(_) => false,
                },
                Err(e) => final(to)@ == old(to)@ && match nest@ {
                    NestValue::Bytes(b) => b.len() != self.length && e
                        == Error::fixed__encode_to__bytes_length_should_match_self_length,
                    NestValue::Nests(_) => e == Error::fixed__encode_to__unsupported_nest_shape,
                },
            },
    {
        match nest {
            Nest::Bytes(v) => {
                if v.len() != self.length {
                    Err(Error::fixed__encode_to__bytes_length_should_match_self_length)
                } else {
                    wire::append_slice(to, v.as_slice());
                    Ok(())
                }
            },
            Nest::Nests(_) => Err(Error::fixed__encode_to__unsupported_nest_shape),
        }
    }

    /// Splits `length` bytes off the front of `bytes`, or fails when fewer
    /// are there. Decoding consumes exactly `length` bytes: the remainder
    /// holds all the rest.
    pub fn decode_with_remainder<'a>(&self, bytes: &'a [u8]) -> (r: Result<
        (Nest, &'a [u8]),
        Error,
    >)
        requires
            self.wf(),
        ensures
            match r {
                Ok(p) => {
                    &&& bytes@.len() >= self.length
                    &&& p.0@ == NestValue::Bytes(bytes@.subrange(0, self.length as int))
                    &&& p.1@ == bytes@.skip(self.length as int)
                    &&& p.1@.len() == bytes@.len() - self.length
                },
                Err(e) => {
                    &&& bytes@.len() < self.length
                    &&& e == Error::fixed__decode_with_remainder__bytes_length_should_be_gte_self_length
                },
            },
    {
        if bytes.len() < self.length {
            Err(Error::fixed__decode_with_remainder__bytes_length_should_be_gte_self_length)
        } else {
            let payload = slice_subrange(bytes, 0, self.length);
            let rest = slice_subrange(bytes, self.length, bytes.len());
            proof {
                assert(rest@ =~= bytes@.skip(self.length as int));
            }
            Ok((Nest::Bytes(slice_to_vec(payload)), rest))
        }
    }

    /// The schema bytes that follow the id byte: `length − 1` in one byte
    /// for Fixed-α, `length − 257` in two little-endian bytes for Fixed-β.
    pub open spec fn spec_jinyang_payload(&self) -> Seq<u8> {
        if self.template_id == TemplateId::FixedAlpha {
            seq![(self.length - 1) as u8]
        } else {
            spec_le_bytes((self.length - 257) as nat, 2)
        }
    }

    pub fn export_jinyang_to(&self, to: &mut Vec<u8>)
        requires
            self.wf(),
        ensures
            final(to)@ == old(to)@ + self.spec_jinyang_payload(),
    {
        match self.template_id {
            TemplateId::FixedAlpha => {
                to.push((self.length - 1) as u8);
                proof {
                    assert(old(to)@ + self.spec_jinyang_payload() =~= old(to)@.push(
                        (self.length - 1) as u8,
                    ));
                }
            },
            TemplateId::FixedBeta => {
                wire::append_le_bytes(to, self.length - 257, 2);
            },
            _ => vstd::pervasive::unreached(),
        }
    }
}

} // verus!
