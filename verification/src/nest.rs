use vstd::prelude::*;

verus! {

broadcast use vstd::std_specs::vec::axiom_vec_index_decreases;

/// The mathematical shape of a nest: a byte leaf, or an ordered sequence of
/// nested values.
pub enum NestValue {
    Bytes(Seq<u8>),
    Nests(Seq<NestValue>),
}

/// The in-memory value that encoders consume and decoders produce: either a
/// raw byte payload or an ordered sequence of nests (no unique-key
/// constraint). Equality is structural and recursive.
#[derive(Debug)]
pub enum Nest {
    Bytes(Vec<u8>),
    Nests(Vec<Nest>),
}

/// The view of one nest.
pub open spec fn nest_view(n: Nest) -> NestValue
    decreases n,
{
    match n {
        Nest::Bytes(v) => NestValue::Bytes(v@),
        Nest::Nests(ns) => NestValue::Nests(nests_view(ns@)),
    }
}

/// The views of a sequence of nests, elementwise. The range test keeps the
/// recursion with `nest_view` well-founded: only an in-range element of `s`
/// stands below `s` itself.
pub open spec fn nests_view(s: Seq<Nest>) -> Seq<NestValue>
    decreases s,
{
    Seq::new(
        s.len(),
        |i: int|
            if 0 <= i < s.len() {
                nest_view(s[i])
            } else {
                NestValue::Bytes(Seq::empty())
            },
    )
}

impl View for Nest {
    type V = NestValue;

    open spec fn view(&self) -> NestValue {
        nest_view(*self)
    }
}

pub proof fn lemma_nests_view_push(s: Seq<Nest>, n: Nest)
    ensures
        nests_view(s.push(n)) == nests_view(s).push(nest_view(n)),
{
    assert(nests_view(s.push(n)) =~= nests_view(s).push(nest_view(n)));
}

impl Nest {
    /// The byte payload of a `Bytes` nest.
    pub fn bytes(&self) -> (r: &Vec<u8>)
        requires
            self is Bytes,
        ensures
            self@ == NestValue::Bytes(r@),
    {
        match self {
            Nest::Bytes(v) => v,
            Nest::Nests(_) => vstd::pervasive::unreached(),
        }
    }

    /// The children of a `Nests` nest.
    pub fn nests(&self) -> (r: &Vec<Nest>)
        requires
            self is Nests,
        ensures
            self@ == NestValue::Nests(nests_view(r@)),
    {
        match self {
            Nest::Nests(ns) => ns,
            Nest::Bytes(_) => vstd::pervasive::unreached(),
        }
    }
}

/// Structural equality of two nests: equal byte sequences for two leaves,
/// equal length and equal children in order for two sequences, and a leaf is
/// never equal to a sequence.
pub fn nest_eq(a: &Nest, b: &Nest) -> (r: bool)
    ensures
        r == (a@ == b@),
    decreases *a,
{
    match a {
        Nest::Bytes(x) => match b {
            Nest::Bytes(y) => {
                let r = x == y;
                proof {
                    if r {
                        assert(x@ =~= y@);
                    } else {
                        assert(!(x@ =~= y@));
                    }
                }
                r
            },
            Nest::Nests(_) => false,
        },
        Nest::Nests(x) => match b {
            Nest::Nests(y) => {
                let n = x.len();
                if y.len() != n {
                    proof {
                        assert(a@->Nests_0.len() == n);
                        assert(b@->Nests_0.len() == y@.len());
                    }
                    return false;
                }
                let mut i: usize = 0;
                while i < n
                    invariant
                        i <= n,
                        n == x@.len(),
                        n == y@.len(),
                        *a == Nest::Nests(*x),
                        *b == Nest::Nests(*y),
                        a@ == NestValue::Nests(nests_view(x@)),
                        b@ == NestValue::Nests(nests_view(y@)),
                        forall|j: int| 0 <= j < i ==> nest_view(x@[j]) == nest_view(y@[j]),
                    decreases n - i,
                {
                    proof {
                        assert(a->Nests_0 == *x);
                        assert(decreases_to!(*a => a->Nests_0));
                        assert(decreases_to!(a->Nests_0 => a->Nests_0[i as int]));
                    }
                    if !nest_eq(&x[i], &y[i]) {
                        proof {
                            assert(a@->Nests_0[i as int] != b@->Nests_0[i as int]);
                        }
                        return false;
                    }
                    i += 1;
                }
                proof {
                    assert(a@->Nests_0 =~= b@->Nests_0);
                }
                true
            },
            Nest::Bytes(_) => false,
        },
    }
}

impl PartialEq for Nest {
    fn eq(&self, other: &Nest) -> bool {
        nest_eq(self, other)
    }
}

impl vstd::std_specs::cmp::PartialEqSpecImpl for Nest {
    open spec fn obeys_eq_spec() -> bool {
        true
    }

    open spec fn eq_spec(&self, other: &Nest) -> bool {
        self@ == other@
    }
}

} // verus!
