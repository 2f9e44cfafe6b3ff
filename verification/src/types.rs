use vstd::prelude::*;

verus! {

/// The three positions a jamo can take inside a Hangul syllable block.
#[derive(Clone, Copy, PartialEq, Eq, Structural, PartialOrd, Ord, Hash, Debug)]
pub enum HangulComponent {
    Cho,
    Jung,
    Jong,
}

/// Numeric code of a component: 0 for the initial, 1 for the medial, 2 for the final.
pub open spec fn spec_kind(c: HangulComponent) -> u8 {
    match c {
        HangulComponent::Cho => 0,
        HangulComponent::Jung => 1,
        HangulComponent::Jong => 2,
    }
}

impl HangulComponent {
    pub fn kind(self) -> (k: u8)
        ensures
            k == spec_kind(self),
    {
        match self {
            HangulComponent::Cho => 0,
            HangulComponent::Jung => 1,
            HangulComponent::Jong => 2,
        }
    }

    pub fn from_kind(k: u8) -> (r: Option<Self>)
        ensures
            k <= 2 <==> r is Some,
            r matches Some(c) ==> spec_kind(c) == k,
    {
        match k {
            0 => Some(HangulComponent::Cho),
            1 => Some(HangulComponent::Jung),
            2 => Some(HangulComponent::Jong),
            _ => None,
        }
    }
}

/// The Korean name of a component position.
pub open spec fn component_name(kind: HangulComponent) -> Seq<char> {
    match kind {
        HangulComponent::Cho => "초성"@,
        HangulComponent::Jung => "중성"@,
        HangulComponent::Jong => "종성"@,
    }
}

pub fn kind_to_name(kind: HangulComponent) -> (r: &'static str)
    ensures
        r@ == component_name(kind),
{
    match kind {
        HangulComponent::Cho => "초성",
        HangulComponent::Jung => "중성",
        HangulComponent::Jong => "종성",
    }
}

} // verus!
