use crate::error::Error;
use crate::model::{
    dlist_model, spec_decode, spec_decode_list, spec_encode, spec_encode_list, spec_export_payload,
    spec_parse, template_model, TemplateModel,
};
use crate::nest::{lemma_nests_view_push, nest_view, nests_view, Nest, NestValue};
use crate::template::Template;
use crate::template_ids::TemplateId;
use crate::wire;
use crate::wire::{lemma_append_keeps_prefix, lemma_prefix_chain, spec_le_bytes, spec_le_value};
use vstd::prelude::*;
use vstd::slice::{slice_index_get, slice_subrange};

verus! {

/// The encoder of a length-prefixed sequence of sub-payloads: a
/// little-endian count prefix of `length_encoding_length` bytes, then each
/// element encoded by the owned inner template, id byte included.
pub struct Dlist {
    pub template_id: TemplateId,
    pub length_encoding_length: usize,
    pub max_length: usize,
    pub template: Box<Template>,
}

impl View for Dlist {
    type V = TemplateModel;

    open spec fn view(&self) -> TemplateModel {
        dlist_model(*self)
    }
}

impl Dlist {
    pub open spec fn wf(&self) -> bool {
        self@.wf()
    }

    pub fn new(template_id: TemplateId, template: Template) -> (r: Result<Dlist, Error>)
        ensures
            match r {
                Ok(d) => {
                    &&& template_id.is_dlist()
                    &&& d@ == TemplateModel::Dlist {
                        id: template_id,
                        width: template_id.spec_prefix_width(),
                        max: template_id.spec_max_len(),
                        inner: Box::new(template_model(template)),
                    }
                },
                Err(e) => !template_id.is_dlist() && e == Error::dlist__new__invalid_template_id,
            },
    {
        match template_id {
            TemplateId::DlistAlpha => Ok(
                Dlist {
                    template_id,
                    length_encoding_length: 1,
                    max_length: 255,
                    template: Box::new(template),
                },
            ),
            TemplateId::DlistBeta => Ok(
                Dlist {
                    template_id,
                    length_encoding_length: 2,
                    max_length: 65535,
                    template: Box::new(template),
                },
            ),
            TemplateId::DlistGamma => Ok(
                Dlist {
                    template_id,
                    length_encoding_length: 3,
                    max_length: 16777215,
                    template: Box::new(template),
                },
            ),
            TemplateId::DlistDelta => Ok(
                Dlist {
                    template_id,
                    length_encoding_length: 4,
                    max_length: 4294967295,
                    template: Box::new(template),
                },
            ),
            _ => Err(Error::dlist__new__invalid_template_id),
        }
    }

    pub fn length_encoding_length(&self) -> (r: usize)
        ensures
            r == self.length_encoding_length,
    {
        self.length_encoding_length
    }

    pub fn template_id(&self) -> (b: u8)
        ensures
            b == self.template_id.spec_byte(),
    {
        self.template_id.byte()
    }

    /// Appends the low `length_encoding_length` bytes of `length`, little
    /// endian, to `to`.
    pub fn encode_length_to(&self, length: usize, to: &mut Vec<u8>)
        requires
            length <= u32::MAX as usize,
        ensures
            final(to)@ == old(to)@ + spec_le_bytes(
                length as nat,
                self.length_encoding_length as nat,
            ),
    {
        wire::append_le_bytes(to, length, self.length_encoding_length);
    }

    /// Appends the count prefix, then every element of a `Nests` nest in
    /// order, each written by the inner template with its own id byte. An
    /// inner failure aborts and propagates; the sink then keeps what was
    /// already appended, but what stood in it before the call is never
    /// disturbed.
    pub fn encode_to(&self, nest: &Nest, to: &mut Vec<u8>) -> (r: Result<(), Error>)
        requires
            self.wf(),
        ensures
            match spec_encode(self@, nest@) {
                Ok(s) => r is Ok && final(to)@ == old(to)@ + s,
                Err(e) => r == Err::<(), Error>(e),
            },
            final(to)@.len() >= old(to)@.len(),
            final(to)@.subrange(0, old(to)@.len() as int) == old(to)@,
        decreases *self,
    {
        match nest {
            Nest::Bytes(_) => {
                proof {
                    assert(to@.subrange(0, old(to)@.len() as int) =~= old(to)@);
                }
                Err(Error::dlist__encode_to__unsupported_nest_shape)
            },
            Nest::Nests(ns) => {
                if ns.len() > self.max_length {
                    proof {
                        assert(to@.subrange(0, old(to)@.len() as int) =~= old(to)@);
                    }
                    return Err(Error::dlist__encode_to__nests_length_should_be_lte_max_length);
                }
                let ghost elems = nests_view(ns@);
                let ghost inner = template_model(*self.template);
                let n = ns.len();
                self.encode_length_to(n, to);
                let ghost prefix_done = to@;
                proof {
                    lemma_append_keeps_prefix(
                        old(to)@,
                        spec_le_bytes(n as nat, self.length_encoding_length as nat),
                    );
                    assert(to@.subrange(0, prefix_done.len() as int) =~= prefix_done);
                    assert(to@.skip(prefix_done.len() as int) =~= Seq::<u8>::empty());
                    assert(elems.skip(0) =~= elems);
                    match spec_encode_list(inner, elems) {
                        Ok(tail) => {
                            assert(Seq::<u8>::empty() + tail =~= tail);
                        },
                        Err(_) => {},
                    }
                }
                let mut i: usize = 0;
                while i < n
                    invariant
                        i <= n,
                        n == ns@.len(),
                        n <= self.max_length,
                        self.wf(),
                        inner == template_model(*self.template),
                        elems == nests_view(ns@),
                        elems.len() == n,
                        nest@ == NestValue::Nests(elems),
                        to@.len() >= prefix_done.len(),
                        to@.subrange(0, prefix_done.len() as int) == prefix_done,
                        prefix_done.len() >= old(to)@.len(),
                        prefix_done.subrange(0, old(to)@.len() as int) == old(to)@,
                        match spec_encode_list(inner, elems.skip(i as int)) {
                            Ok(tail) => spec_encode_list(inner, elems) == Ok::<Seq<u8>, Error>(
                                to@.skip(prefix_done.len() as int) + tail,
                            ),
                            Err(e) => spec_encode_list(inner, elems) == Err::<Seq<u8>, Error>(e),
                        },
                    decreases n - i,
                {
                    let ghost to_before = to@;
                    let r_i = self.template.encode_to(&ns[i], to);
                    proof {
                        assert(elems.skip(i as int).len() > 0);
                        assert(elems.skip(i as int)[0] == nest_view(ns@[i as int]));
                        assert(elems.skip(i as int).skip(1) =~= elems.skip(i + 1));
                        lemma_prefix_chain(prefix_done, to_before, to@);
                        lemma_prefix_chain(old(to)@, prefix_done, to@);
                    }
                    match r_i {
                        Err(e) => {
                            proof {
                                assert(spec_encode_list(inner, elems.skip(i as int))
                                    == Err::<Seq<u8>, Error>(e));
                                assert(spec_encode(self@, nest@) == Err::<Seq<u8>, Error>(e));
                            }
                            return Err(e);
                        },
                        Ok(_) => {},
                    }
                    proof {
                        let pd = prefix_done.len() as int;
                        let idb = seq![inner.id_byte()];
                        let head = spec_encode(inner, elems.skip(i as int)[0])->Ok_0;
                        assert(to@ == to_before + idb + head);
                        assert(to@.skip(pd) =~= to_before.skip(pd) + idb + head);
                        match spec_encode_list(inner, elems.skip(i + 1)) {
                            Ok(tail) => {
                                assert(spec_encode_list(inner, elems.skip(i as int))
                                    == Ok::<Seq<u8>, Error>(idb + head + tail));
                                assert(to_before.skip(pd) + (idb + head + tail) =~= to@.skip(pd)
                                    + tail);
                            },
                            Err(e) => {
                                assert(spec_encode_list(inner, elems.skip(i as int))
                                    == Err::<Seq<u8>, Error>(e));
                            },
                        }
                    }
                    i += 1;
                }
                proof {
                    assert(elems.skip(n as int) =~= Seq::<NestValue>::empty());
                    let built = to@.skip(prefix_done.len() as int);
                    assert(built + Seq::<u8>::empty() =~= built);
                    assert(spec_encode_list(inner, elems) == Ok::<Seq<u8>, Error>(built));
                    assert(nest@ == NestValue::Nests(elems));
                    assert(to@ =~= prefix_done + built);
                    assert(to@ =~= old(to)@ + (spec_le_bytes(
                        elems.len(),
                        self.length_encoding_length as nat,
                    ) + built));
                    lemma_prefix_chain(old(to)@, prefix_done, to@);
                }
                Ok(())
            },
        }
    }

    /// Reads the count prefix, then decodes that many elements with the
    /// inner template, each led by the inner template's id byte. The number
    /// of children always equals the integer read from the count prefix.
    pub fn decode_with_remainder<'a>(&self, bytes: &'a [u8]) -> (r: Result<
        (Nest, &'a [u8]),
        Error,
    >)
        requires
            self.wf(),
        ensures
            match spec_decode(self@, bytes@) {
                Ok(p) => r is Ok && r->Ok_0.0@ == p.0 && r->Ok_0.1@ == p.1,
                Err(e) => r is Err && r->Err_0 == e,
            },
            r is Ok ==> r->Ok_0.0@->Nests_0.len() == spec_le_value(
                bytes@.subrange(0, self.length_encoding_length as int),
            ),
        decreases *self,
    {
        let w = self.length_encoding_length;
        if bytes.len() < w {
            return Err(
                Error::dlist__decode_with_remainder__bytes_length_should_be_gte_length_encoding_length,
            );
        }
        let count = wire::read_le_prefix(bytes, w);
        let ghost inner = template_model(*self.template);
        let ghost s0 = bytes@.skip(w as int);
        let mut rest: &[u8] = slice_subrange(bytes, w, bytes.len());
        let mut nests: Vec<Nest> = Vec::new();
        let mut i: usize = 0;
        proof {
            assert(rest@ =~= s0);
            assert(nests_view(nests@) =~= Seq::<NestValue>::empty());
            match spec_decode_list(inner, count as nat, s0) {
                Ok(p) => {
                    assert(Seq::<NestValue>::empty() + p.0 =~= p.0);
                },
                Err(_) => {},
            }
        }
        while i < count
            invariant
                i <= count,
                self.wf(),
                inner == template_model(*self.template),
                w == self.length_encoding_length,
                bytes@.len() >= w,
                count as nat == spec_le_value(bytes@.subrange(0, w as int)),
                s0 == bytes@.skip(w as int),
                nests@.len() == i,
                match spec_decode_list(inner, (count - i) as nat, rest@) {
                    Ok(p) => spec_decode_list(inner, count as nat, s0) == Ok::<
                        (Seq<NestValue>, Seq<u8>),
                        Error,
                    >((nests_view(nests@) + p.0, p.1)),
                    Err(e) => spec_decode_list(inner, count as nat, s0) == Err::<
                        (Seq<NestValue>, Seq<u8>),
                        Error,
                    >(e),
                },
            decreases count - i,
        {
            if rest.len() < 1 {
                return Err(Error::dlist__decode_with_remainder__missing_inner_template_id);
            }
            let idb = *slice_index_get(rest, 0);
            if idb != self.template.id() {
                return Err(Error::dlist__decode_with_remainder__unexpected_inner_template_id);
            }
            let body = slice_subrange(rest, 1, rest.len());
            proof {
                assert(body@ =~= rest@.skip(1));
            }
            match self.template.decode_with_remainder(body) {
                Err(e) => {
                    return Err(e);
                },
                Ok(p) => {
                    let (n_elem, rem2) = p;
                    proof {
                        let sp = spec_decode(inner, rest@.skip(1))->Ok_0;
                        assert(spec_decode_list(inner, (count - i) as nat, rest@) == (
                        match spec_decode_list(inner, (count - i - 1) as nat, sp.1) {
                            Ok((tail, fin)) => Ok::<(Seq<NestValue>, Seq<u8>), Error>(
                                (seq![sp.0] + tail, fin),
                            ),
                            Err(e) => Err::<(Seq<NestValue>, Seq<u8>), Error>(e),
                        }));
                        lemma_nests_view_push(nests@, n_elem);
                        match spec_decode_list(inner, (count - i - 1) as nat, sp.1) {
                            Ok((tail, fin)) => {
                                assert(nests_view(nests@) + (seq![sp.0] + tail) =~= nests_view(
                                    nests@.push(n_elem),
                                ) + tail);
                            },
                            Err(_) => {},
                        }
                    }
                    nests.push(n_elem);
                    rest = rem2;
                    i += 1;
                },
            }
        }
        proof {
            assert(spec_decode_list(inner, 0, rest@) == Ok::<(Seq<NestValue>, Seq<u8>), Error>(
                (Seq::<NestValue>::empty(), rest@),
            ));
            assert(nests_view(nests@) + Seq::<NestValue>::empty() =~= nests_view(nests@));
        }
        Ok((Nest::Nests(nests), rest))
    }

    /// Appends this encoder's schema payload: the inner template's full
    /// schema, id byte included, recursively.
    pub fn export_jinyang_to(&self, to: &mut Vec<u8>)
        requires
            self.wf(),
        ensures
            final(to)@ == old(to)@ + spec_export_payload(self@),
        decreases *self,
    {
        self.template.export_jinyang_to(to);
    }

    /// Reads a Dlist encoder back from its schema payload: the inner
    /// template's full schema, parsed recursively, then wrapped under
    /// `template_id`.
    pub fn from_jinyang_with_remainder<'a>(template_id: TemplateId, jinyang: &'a [u8]) -> (r:
        Result<(Dlist, &'a [u8]), Error>)
        requires
            template_id.is_dlist(),
        ensures
            match spec_parse(jinyang@) {
                Ok(p) => {
                    &&& r is Ok
                    &&& r->Ok_0.0@ == TemplateModel::Dlist {
                        id: template_id,
                        width: template_id.spec_prefix_width(),
                        max: template_id.spec_max_len(),
                        inner: Box::new(p.0),
                    }
                    &&& r->Ok_0.0.wf()
                    &&& r->Ok_0.1@ == p.1
                },
                Err(e) => r is Err && r->Err_0 == e,
            },
        decreases jinyang@.len(), 1int,
    {
        match Template::from_jinyang_with_remainder(jinyang) {
            Ok(p) => {
                let (t, rem) = p;
                match Dlist::new(template_id, t) {
                    Ok(d) => Ok((d, rem)),
                    Err(_) => vstd::pervasive::unreached(),
                }
            },
            Err(e) => Err(e),
        }
    }
}

} // verus!
