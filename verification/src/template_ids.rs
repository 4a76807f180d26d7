use vstd::prelude::*;

verus! {

/// The single-byte tag that identifies each template variant on the wire.
///
/// The numeric value of each variant is part of the wire format: `byte` and
/// `from_byte` give the fixed assignment, from `FixedAlpha` at 0 up to
/// `DlistDelta` at 9.
#[derive(Clone, Copy, Debug, PartialEq, Eq, Structural)]
pub enum TemplateId {
    FixedAlpha,
    FixedBeta,
    DynamicAlpha,
    DynamicBeta,
    DynamicGamma,
    DynamicDelta,
    DlistAlpha,
    DlistBeta,
    DlistGamma,
    DlistDelta,
}

impl TemplateId {
    /// The wire value of this id.
    pub open spec fn spec_byte(self) -> u8 {
        match self {
            TemplateId::FixedAlpha => 0,
            TemplateId::FixedBeta => 1,
            TemplateId::DynamicAlpha => 2,
            TemplateId::DynamicBeta => 3,
            TemplateId::DynamicGamma => 4,
            TemplateId::DynamicDelta => 5,
            TemplateId::DlistAlpha => 6,
            TemplateId::DlistBeta => 7,
            TemplateId::DlistGamma => 8,
            TemplateId::DlistDelta => 9,
        }
    }

    pub fn byte(self) -> (b: u8)
        ensures
            b == self.spec_byte(),
    {
        match self {
            TemplateId::FixedAlpha => 0,
            TemplateId::FixedBeta => 1,
            TemplateId::DynamicAlpha => 2,
            TemplateId::DynamicBeta => 3,
            TemplateId::DynamicGamma => 4,
            TemplateId::DynamicDelta => 5,
            TemplateId::DlistAlpha => 6,
            TemplateId::DlistBeta => 7,
            TemplateId::DlistGamma => 8,
            TemplateId::DlistDelta => 9,
        }
    }

    /// The id whose wire value is `b`, if any.
    pub open spec fn spec_from_byte(b: u8) -> Option<TemplateId> {
        if b == 0 {
            Some(TemplateId::FixedAlpha)
        } else if b == 1 {
            Some(TemplateId::FixedBeta)
        } else if b == 2 {
            Some(TemplateId::DynamicAlpha)
        } else if b == 3 {
            Some(TemplateId::DynamicBeta)
        } else if b == 4 {
            Some(TemplateId::DynamicGamma)
        } else if b == 5 {
            Some(TemplateId::DynamicDelta)
        } else if b == 6 {
            Some(TemplateId::DlistAlpha)
        } else if b == 7 {
            Some(TemplateId::DlistBeta)
        } else if b == 8 {
            Some(TemplateId::DlistGamma)
        } else if b == 9 {
            Some(TemplateId::DlistDelta)
        } else {
            None
        }
    }

    pub fn from_byte(b: u8) -> (r: Option<TemplateId>)
        ensures
            r == TemplateId::spec_from_byte(b),
    {
        if b == 0 {
            Some(TemplateId::FixedAlpha)
        } else if b == 1 {
            Some(TemplateId::FixedBeta)
        } else if b == 2 {
            Some(TemplateId::DynamicAlpha)
        } else if b == 3 {
            Some(TemplateId::DynamicBeta)
        } else if b == 4 {
            Some(TemplateId::DynamicGamma)
        } else if b == 5 {
            Some(TemplateId::DynamicDelta)
        } else if b == 6 {
            Some(TemplateId::DlistAlpha)
        } else if b == 7 {
            Some(TemplateId::DlistBeta)
        } else if b == 8 {
            Some(TemplateId::DlistGamma)
        } else if b == 9 {
            Some(TemplateId::DlistDelta)
        } else {
            None
        }
    }

    pub open spec fn is_fixed(self) -> bool {
        self == TemplateId::FixedAlpha || self == TemplateId::FixedBeta
    }

    pub open spec fn is_dynamic(self) -> bool {
        ||| self == TemplateId::DynamicAlpha
        ||| self == TemplateId::DynamicBeta
        ||| self == TemplateId::DynamicGamma
        ||| self == TemplateId::DynamicDelta
    }

    pub open spec fn is_dlist(self) -> bool {
        ||| self == TemplateId::DlistAlpha
        ||| self == TemplateId::DlistBeta
        ||| self == TemplateId::DlistGamma
        ||| self == TemplateId::DlistDelta
    }

    /// The width in bytes of the length or count prefix that a Dynamic or
    /// Dlist id prescribes.
    pub open spec fn spec_prefix_width(self) -> nat {
        match self {
            TemplateId::DynamicAlpha => 1,
            TemplateId::DynamicBeta => 2,
            TemplateId::DynamicGamma => 3,
            TemplateId::DynamicDelta => 4,
            TemplateId::DlistAlpha => 1,
            TemplateId::DlistBeta => 2,
            TemplateId::DlistGamma => 3,
            TemplateId::DlistDelta => 4,
            _ => 0,
        }
    }

    /// The greatest payload length (Dynamic) or item count (Dlist) that the
    /// prefix of a Dynamic or Dlist id can announce.
    pub open spec fn spec_max_len(self) -> nat {
        match self {
            TemplateId::DynamicAlpha => 255,
            TemplateId::DynamicBeta => 65535,
            TemplateId::DynamicGamma => 16777215,
            TemplateId::DynamicDelta => 4294967295,
            TemplateId::DlistAlpha => 255,
            TemplateId::DlistBeta => 65535,
            TemplateId::DlistGamma => 16777215,
            TemplateId::DlistDelta => 4294967295,
            _ => 0,
        }
    }
}

/// Reading back the wire value of an id yields that id.
pub proof fn lemma_id_byte_round_trip(id: TemplateId)
    ensures
        TemplateId::spec_from_byte(id.spec_byte()) == Some(id),
{
}

} // verus!
