use crate::error::Error;
use crate::nest::{Nest, NestValue};
use crate::template_ids::TemplateId;
use crate::wire;
use crate::wire::{spec_le_bytes, spec_le_value};
use vstd::prelude::*;
use vstd::slice::{slice_subrange, slice_to_vec};

verus! {

/// The encoder of a variable-length byte payload: a little-endian length
/// prefix of `length_encoding_length` bytes, then the payload itself.
pub struct Dynamic {
    pub template_id: TemplateId,
    pub length_encoding_length: usize,
    pub max_length: usize,
}

impl Dynamic {
    /// The prefix width and payload cap both follow from the id: width 1 to
    /// 4 bytes for Dynamic-α through Dynamic-δ, cap one less than what the
    /// prefix can spell.
    pub open spec fn wf(&self) -> bool {
        &&& self.template_id.is_dynamic()
        &&& self.length_encoding_length == self.template_id.spec_prefix_width()
        &&& self.max_length == self.template_id.spec_max_len()
    }

    pub fn new(template_id: TemplateId) -> (r: Result<Dynamic, Error>)
        ensures
            match r {
                Ok(d) => template_id.is_dynamic() && d.wf() && d.template_id == template_id,
                Err(e) => !template_id.is_dynamic() && e
                    == Error::dynamic__new__invalid_template_id,
            },
    {
        match template_id {
            TemplateId::DynamicAlpha => Ok(
                Dynamic { template_id, length_encoding_length: 1, max_length: 255 },
            ),
            TemplateId::DynamicBeta => Ok(
                Dynamic { template_id, length_encoding_length: 2, max_length: 65535 },
            ),
            TemplateId::DynamicGamma => Ok(
                Dynamic { template_id, length_encoding_length: 3, max_length: 16777215 },
            ),
            TemplateId::DynamicDelta => Ok(
                Dynamic { template_id, length_encoding_length: 4, max_length: 4294967295 },
            ),
            _ => Err(Error::dynamic__new__invalid_template_id),
        }
    }

    /// A Dynamic template's schema is the id byte alone, so reading it back
    /// consumes nothing after the id.
    pub fn from_jinyang_with_remainder<'a>(template_id: TemplateId, jinyang: &'a [u8]) -> (r:
        Result<(Dynamic, &'a [u8]), Error>)
        requires
            template_id.is_dynamic(),
        ensures
            match r {
                Ok(p) => p.0.wf() && p.0.template_id == template_id && p.1@ == jinyang@,
                Err(_) => false,
            },
    {
        match Dynamic::new(template_id) {
            Ok(d) => Ok((d, jinyang)),
            Err(_) => vstd::pervasive::unreached(),
        }
    }

    pub fn length_encoding_length(&self) -> (r: usize)
        ensures
            r == self.length_encoding_length,
    {
        self.length_encoding_length
    }

    pub fn template_id(&self) -> (b: u8)
        ensures
            b == self.template_id.spec_byte(),
    {
        self.template_id.byte()
    }

    /// Appends the low `length_encoding_length` bytes of `length`, little
    /// endian, to `to`.
    pub fn encode_length_to(&self, length: usize, to: &mut Vec<u8>)
        requires
            length <= u32::MAX as usize,
        ensures
            final(to)@ == old(to)@ + spec_le_bytes(
                length as nat,
                self.length_encoding_length as nat,
            ),
    {
        wire::append_le_bytes(to, length, self.length_encoding_length);
    }

    /// Appends the length prefix and then the payload. The payload must be a
    /// `Bytes` nest of at most `max_length` bytes, which keeps the dropped
    /// high bytes of the 32-bit length at zero.
    pub fn encode_to(&self, nest: &Nest, to: &mut Vec<u8>) -> (r: Result<(), Error>)
        requires
            self.wf(),
        ensures
            match r {
                Ok(_) => match nest@ {
                    NestValue::Bytes(b) => b.len() <= self.max_length && final(to)@ == old(to)@
                        + spec_le_bytes(b.len(), self.length_encoding_length as nat) + b,
                    NestValue::Nests(_) => false,
                },
                Err(e) => final(to)@ == old(to)@ && match nest@ {
                    NestValue::Bytes(b) => b.len() > self.max_length && e
                        == Error::dynamic__encode_to__bytes_length_should_be_lte_max_length,
                    NestValue::Nests(_) => e == Error::dynamic__encode_to__unsupported_nest_shape,
                },
            },
    {
        match nest {
            Nest::Bytes(v) => {
                if v.len() > self.max_length {
                    Err(Error::dynamic__encode_to__bytes_length_should_be_lte_max_length)
                } else {
                    self.encode_length_to(v.len(), to);
                    wire::append_slice(to, v.as_slice());
                    Ok(())
                }
            },
            Nest::Nests(_) => Err(Error::dynamic__encode_to__unsupported_nest_shape),
        }
    }

    /// Reads the length prefix, then splits that many payload bytes off. The
    /// decoded payload length always equals the integer read from the
    /// prefix; a buffer short of the prefix and a buffer short of the
    /// payload fail differently.
    pub fn decode_with_remainder<'a>(&self, bytes: &'a [u8]) -> (r: Result<
        (Nest, &'a [u8]),
        Error,
    >)
        requires
            self.wf(),
        ensures
            ({
                let w = self.length_encoding_length as int;
                let l = spec_le_value(bytes@.subrange(0, w)) as int;
                match r {
                    Ok(p) => {
                        &&& bytes@.len() >= w + l
                        &&& p.0@ == NestValue::Bytes(bytes@.subrange(w, w + l))
                        &&& p.0@->Bytes_0.len() == l
                        &&& p.1@ == bytes@.skip(w + l)
                    },
                    Err(e) => if bytes@.len() < w {
                        e == Error::dynamic__decode_with_remainder__bytes_length_should_be_gte_length_encoding_length
                    } else {
                        bytes@.len() < w + l && e
                            == Error::dynamic__decode_with_remainder__bytes_length_should_be_gte_length_encoding_length_plus_length
                    },
                }
            }),
    {
        let w = self.length_encoding_length;
        if bytes.len() < w {
            return Err(
                Error::dynamic__decode_with_remainder__bytes_length_should_be_gte_length_encoding_length,
            );
        }
        let l = wire::read_le_prefix(bytes, w);
        if bytes.len() - w < l {
            return Err(
                Error::dynamic__decode_with_remainder__bytes_length_should_be_gte_length_encoding_length_plus_length,
            );
        }
        let payload = slice_subrange(bytes, w, w + l);
        let rest = slice_subrange(bytes, w + l, bytes.len());
        proof {
            assert(rest@ =~= bytes@.skip(w + l));
        }
        Ok((Nest::Bytes(slice_to_vec(payload)), rest))
    }
}

} // verus!
