use crate::encoders::dlist::Dlist;
use crate::encoders::dynamic::Dynamic;
use crate::encoders::fixed::Fixed;
use crate::error::Error;
use crate::model::{encoder_model, spec_decode, spec_encode, spec_export_payload, TemplateModel};
use crate::nest::Nest;
use crate::wire::lemma_append_keeps_prefix;
use vstd::prelude::*;

verus! {

/// The closed union of encoder variants. The variant set is fixed by the
/// wire format, so a tagged union replaces runtime dispatch: every match
/// over it is checkably exhaustive.
pub enum Encoder {
    Fixed(Fixed),
    Dynamic(Dynamic),
    Dlist(Dlist),
}

impl View for Encoder {
    type V = TemplateModel;

    open spec fn view(&self) -> TemplateModel {
        encoder_model(*self)
    }
}

impl Encoder {
    pub open spec fn wf(&self) -> bool {
        self@.wf()
    }

    pub fn template_id(&self) -> (b: u8)
        ensures
            b == self@.id_byte(),
    {
        match self {
            Encoder::Fixed(f) => f.template_id(),
            Encoder::Dynamic(d) => d.template_id(),
            Encoder::Dlist(l) => l.template_id(),
        }
    }

    /// Appends the body encoding of `nest` (no id byte) to `to`. On failure
    /// the sink may keep an already-appended prefix, but what stood in it
    /// before the call is never disturbed.
    pub fn encode_to(&self, nest: &Nest, to: &mut Vec<u8>) -> (r: Result<(), Error>)
        requires
            self.wf(),
        ensures
            match spec_encode(self@, nest@) {
                Ok(s) => r is Ok && final(to)@ == old(to)@ + s,
                Err(e) => r == Err::<(), Error>(e),
            },
            final(to)@.len() >= old(to)@.len(),
            final(to)@.subrange(0, old(to)@.len() as int) == old(to)@,
        decreases *self,
    {
        match self {
            Encoder::Fixed(f) => {
                let r = f.encode_to(nest, to);
                proof {
                    match spec_encode(self@, nest@) {
                        Ok(s) => lemma_append_keeps_prefix(old(to)@, s),
                        Err(_) => assert(to@.subrange(0, old(to)@.len() as int) =~= old(to)@),
                    }
                }
                r
            },
            Encoder::Dynamic(d) => {
                let r = d.encode_to(nest, to);
                proof {
                    match spec_encode(self@, nest@) {
                        Ok(s) => {
                            assert(to@ =~= old(to)@ + s);
                            lemma_append_keeps_prefix(old(to)@, s);
                        },
                        Err(_) => assert(to@.subrange(0, old(to)@.len() as int) =~= old(to)@),
                    }
                }
                r
            },
            Encoder::Dlist(l) => l.encode_to(nest, to),
        }
    }

    /// Decodes one nest from the front of `bytes` (no id byte expected) and
    /// returns it with the unconsumed remainder.
    pub fn decode_with_remainder<'a>(&self, bytes: &'a [u8]) -> (r: Result<
        (Nest, &'a [u8]),
        Error,
    >)
        requires
            self.wf(),
        ensures
            match spec_decode(self@, bytes@) {
                Ok(p) => r is Ok && r->Ok_0.0@ == p.0 && r->Ok_0.1@ == p.1,
                Err(e) => r is Err && r->Err_0 == e,
            },
        decreases *self,
    {
        match self {
            Encoder::Fixed(f) => f.decode_with_remainder(bytes),
            Encoder::Dynamic(d) => d.decode_with_remainder(bytes),
            Encoder::Dlist(l) => l.decode_with_remainder(bytes),
        }
    }

    /// Appends this encoder's schema payload (the bytes after its own id
    /// byte) to `to`.
    pub fn export_jinyang_to(&self, to: &mut Vec<u8>)
        requires
            self.wf(),
        ensures
            final(to)@ == old(to)@ + spec_export_payload(self@),
        decreases *self,
    {
        match self {
            Encoder::Fixed(f) => f.export_jinyang_to(to),
            Encoder::Dynamic(_) => {
                proof {
                    assert(to@ =~= old(to)@ + spec_export_payload(self@));
                }
            },
            Encoder::Dlist(l) => l.export_jinyang_to(to),
        }
    }
}

} // verus!
