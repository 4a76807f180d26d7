use crate::encoder::Encoder;
use crate::encoders::dlist::Dlist;
use crate::encoders::dynamic::Dynamic;
use crate::encoders::fixed::Fixed;
use crate::error::Error;
use crate::model::{
    spec_decode, spec_encode, spec_export, spec_parse, template_model,
    TemplateModel,
};
use crate::nest::Nest;
use crate::template_ids::TemplateId;
use crate::wire::{lemma_append_keeps_prefix, lemma_prefix_chain};
use vstd::prelude::*;
use vstd::slice::{slice_index_get, slice_subrange};

verus! {

/// A template wraps exactly one encoder and is the uniform façade over the
/// codec: it frames payloads with the template-id byte, checks remainders,
/// and reads and writes schema bytes.
pub struct Template {
    pub encoder: Encoder,
}

impl View for Template {
    type V = TemplateModel;

    open spec fn view(&self) -> TemplateModel {
        template_model(*self)
    }
}

impl Template {
    pub open spec fn wf(&self) -> bool {
        self@.wf()
    }

    pub fn new(encoder: Encoder) -> (r: Template)
        ensures
            r == (Template { encoder }),
    {
        Template { encoder }
    }

    /// The wire value of this template's id.
    pub fn id(&self) -> (b: u8)
        ensures
            b == self@.id_byte(),
    {
        self.encoder.template_id()
    }

    pub fn encoder(&self) -> (r: &Encoder)
        ensures
            r == &self.encoder,
    {
        &self.encoder
    }

    /// Appends this template's id byte, then the body encoding of `nest`,
    /// to the caller's sink. On failure the sink may keep an
    /// already-appended prefix, but what stood in it before the call is
    /// never disturbed.
    pub fn encode_to(&self, nest: &Nest, to: &mut Vec<u8>) -> (r: Result<(), Error>)
        requires
            self.wf(),
        ensures
            match spec_encode(self@, nest@) {
                Ok(s) => r is Ok && final(to)@ == old(to)@ + seq![self@.id_byte()] + s,
                Err(e) => r == Err::<(), Error>(e),
            },
            final(to)@.len() >= old(to)@.len(),
            final(to)@.subrange(0, old(to)@.len() as int) == old(to)@,
        decreases *self,
    {
        to.push(self.encoder.template_id());
        let ghost mid: Seq<u8> = to@;
        let r = self.encoder.encode_to(nest, to);
        proof {
            assert(mid =~= old(to)@ + seq![self@.id_byte()]);
            lemma_append_keeps_prefix(old(to)@, seq![self@.id_byte()]);
            lemma_prefix_chain(old(to)@, mid, to@);
            match spec_encode(self@, nest@) {
                Ok(s) => {
                    assert(to@ =~= old(to)@ + seq![self@.id_byte()] + s);
                },
                Err(_) => {},
            }
        }
        r
    }

    /// Decodes one nest from the front of `bytes` and returns it together
    /// with the unconsumed remainder.
    pub fn decode_with_remainder<'a>(&self, bytes: &'a [u8]) -> (r: Result<
        (Nest, &'a [u8]),
        Error,
    >)
        requires
            self.wf(),
        ensures
            match spec_decode(self@, bytes@) {
                Ok(p) => r is Ok && r->Ok_0.0@ == p.0 && r->Ok_0.1@ == p.1,
                Err(e) => r is Err && r->Err_0 == e,
            },
        decreases *self,
    {
        self.encoder.decode_with_remainder(bytes)
    }

    /// Encodes `nest` into a fresh buffer: the encoder's body only, with no
    /// id byte in front.
    pub fn encode(&self, nest: &Nest) -> (r: Result<Vec<u8>, Error>)
        requires
            self.wf(),
        ensures
            match spec_encode(self@, nest@) {
                Ok(s) => r is Ok && r->Ok_0@ == s,
                Err(e) => r is Err && r->Err_0 == e,
            },
    {
        let mut encoding: Vec<u8> = Vec::new();
        let result = self.encoder.encode_to(nest, &mut encoding);
        proof {
            match spec_encode(self@, nest@) {
                Ok(s) => {
                    assert(Seq::<u8>::empty() + s =~= s);
                },
                Err(_) => {},
            }
        }
        match result {
            Err(error) => Err(error),
            Ok(_) => Ok(encoding),
        }
    }

    /// Decodes one nest that must span all of `bytes`: a non-empty
    /// remainder is an error of its own.
    pub fn decode<'a>(&self, bytes: &'a [u8]) -> (r: Result<Nest, Error>)
        requires
            self.wf(),
        ensures
            match spec_decode(self@, bytes@) {
                Ok(p) => if p.1.len() == 0 {
                    r is Ok && r->Ok_0@ == p.0
                } else {
                    r is Err && r->Err_0 == Error::template__decode__should_not_have_any_remainder
                },
                Err(e) => r is Err && r->Err_0 == e,
            },
    {
        match self.encoder.decode_with_remainder(bytes) {
            Err(error) => Err(error),
            Ok(p) => {
                let (n, rem) = p;
                if rem.len() > 0 {
                    Err(Error::template__decode__should_not_have_any_remainder)
                } else {
                    Ok(n)
                }
            },
        }
    }

    /// Appends this template's full schema bytes: the id byte, then the
    /// encoder's schema payload.
    pub fn export_jinyang_to(&self, to: &mut Vec<u8>)
        requires
            self.wf(),
        ensures
            final(to)@ == old(to)@ + spec_export(self@),
        decreases *self,
    {
        to.push(self.encoder.template_id());
        self.encoder.export_jinyang_to(to);
        proof {
            assert(to@ =~= old(to)@ + spec_export(self@));
        }
    }

    /// The template's full schema bytes in a fresh buffer.
    pub fn export_jinyang(&self) -> (r: Vec<u8>)
        requires
            self.wf(),
        ensures
            r@ == spec_export(self@),
    {
        let mut jinyang: Vec<u8> = Vec::new();
        self.export_jinyang_to(&mut jinyang);
        proof {
            assert(Seq::<u8>::empty() + spec_export(self@) =~= spec_export(self@));
        }
        jinyang
    }

    /// Rebuilds a template from the front of its schema bytes: the id byte
    /// picks the encoder variant, which then reads its own payload. The
    /// unconsumed remainder is returned alongside.
    pub fn from_jinyang_with_remainder<'a>(jinyang: &'a [u8]) -> (r: Result<
        (Template, &'a [u8]),
        Error,
    >)
        ensures
            match spec_parse(jinyang@) {
                Ok(p) => {
                    &&& r is Ok
                    &&& r->Ok_0.0@ == p.0
                    &&& r->Ok_0.0.wf()
                    &&& r->Ok_0.1@ == p.1
                },
                Err(e) => r is Err && r->Err_0 == e,
            },
        decreases jinyang@.len(), 0int,
    {
        if jinyang.len() < 1 {
            return Err(Error::template__from_jinyang__insufficient_bytes);
        }
        let idb = *slice_index_get(jinyang, 0);
        let id = match TemplateId::from_byte(idb) {
            Some(id) => id,
            None => {
                return Err(Error::template__from_jinyang__invalid_template_id);
            },
        };
        let rest0 = slice_subrange(jinyang, 1, jinyang.len());
        proof {
            assert(rest0@ =~= jinyang@.skip(1));
        }
        match id {
            TemplateId::FixedAlpha | TemplateId::FixedBeta => {
                match Fixed::from_jinyang_with_remainder(id, rest0) {
                    Ok(p) => {
                        proof {
                            if id == TemplateId::FixedAlpha {
                                assert(rest0@[0] == jinyang@[1]);
                                assert(rest0@.skip(1) =~= jinyang@.skip(2));
                            } else {
                                assert(rest0@.subrange(0, 2) =~= jinyang@.subrange(1, 3));
                                assert(rest0@.skip(2) =~= jinyang@.skip(3));
                            }
                        }
                        Ok((Template::new(Encoder::Fixed(p.0)), p.1))
                    },
                    Err(e) => Err(e),
                }
            },
            TemplateId::DynamicAlpha
            | TemplateId::DynamicBeta
            | TemplateId::DynamicGamma
            | TemplateId::DynamicDelta => {
                match Dynamic::from_jinyang_with_remainder(id, rest0) {
                    Ok(p) => Ok((Template::new(Encoder::Dynamic(p.0)), p.1)),
                    Err(_) => vstd::pervasive::unreached(),
                }
            },
            TemplateId::DlistAlpha
            | TemplateId::DlistBeta
            | TemplateId::DlistGamma
            | TemplateId::DlistDelta => {
                match Dlist::from_jinyang_with_remainder(id, rest0) {
                    Ok(p) => Ok((Template::new(Encoder::Dlist(p.0)), p.1)),
                    Err(e) => Err(e),
                }
            },
        }
    }

    /// Rebuilds a template from schema bytes that must describe it exactly:
    /// a non-empty remainder is an error of its own.
    pub fn from_jinyang(jinyang: &[u8]) -> (r: Result<Template, Error>)
        ensures
            match spec_parse(jinyang@) {
                Ok(p) => if p.1.len() == 0 {
                    r is Ok && r->Ok_0@ == p.0 && r->Ok_0.wf()
                } else {
                    r is Err && r->Err_0
                        == Error::template__from_jinyang__should_not_have_any_remainder
                },
                Err(e) => r is Err && r->Err_0 == e,
            },
    {
        match Template::from_jinyang_with_remainder(jinyang) {
            Err(e) => Err(e),
            Ok(p) => {
                let (t, rem) = p;
                if rem.len() > 0 {
                    Err(Error::template__from_jinyang__should_not_have_any_remainder)
                } else {
                    Ok(t)
                }
            },
        }
    }
}

} // verus!
