//! The rarity classifier: from a free-form rarity label to one of seven
//! canonical tiers, and the progression that a trade-up climbs.

use vstd::prelude::*;
use crate::error::EngineError;
use crate::models::text_view;
use crate::text::{has_substring, lowercase_of};
use crate::text;

verus! {

/// A canonical rarity tier. The first seven are listed from lowest to highest;
/// `Unknown` stands for every label that names none of them and has no place
/// in the progression.
#[derive(Clone, Copy, Debug, PartialEq, Eq, Structural)]
pub enum Tier {
    Consumer,
    Industrial,
    MilSpec,
    Restricted,
    Classified,
    Covert,
    RareSpecial,
    Unknown,
}

/// A colour, by its red, green and blue parts.
#[derive(Clone, Copy, Debug, PartialEq, Eq, Structural)]
pub struct Rgb {
    pub red: u8,
    pub green: u8,
    pub blue: u8,
}

/// The tier that a lowercase label names. The tiers are tried from lowest to
/// highest and the first whose name occurs in the label wins: "consumer",
/// "industrial", "mil-spec", "restricted", "classified", "covert",
/// "rare-special". A label that holds none of the seven names is of the
/// unknown tier.
pub open spec fn tier_of_lowercase(label: Seq<char>) -> Tier {
    if has_substring(label, "consumer"@) {
        Tier::Consumer
    } else if has_substring(label, "industrial"@) {
        Tier::Industrial
    } else if has_substring(label, "mil-spec"@) {
        Tier::MilSpec
    } else if has_substring(label, "restricted"@) {
        Tier::Restricted
    } else if has_substring(label, "classified"@) {
        Tier::Classified
    } else if has_substring(label, "covert"@) {
        Tier::Covert
    } else if has_substring(label, "rare-special"@) {
        Tier::RareSpecial
    } else {
        Tier::Unknown
    }
}

/// The tier that a label names, whatever its letter case.
pub open spec fn tier_of_label(label: Seq<char>) -> Tier {
    tier_of_lowercase(lowercase_of(label))
}

/// The tier of a catalog item's optional rarity label; an item without a
/// label is of the unknown tier.
pub open spec fn tier_of_rarity(rarity: Option<Seq<char>>) -> Tier {
    match rarity {
        Some(label) => tier_of_label(label),
        None => Tier::Unknown,
    }
}

impl Tier {
    /// The name of the tier: for each of the seven tiers the name by which
    /// labels are classified.
    pub open spec fn spec_name(self) -> Seq<char> {
        match self {
            Tier::Consumer => "consumer"@,
            Tier::Industrial => "industrial"@,
            Tier::MilSpec => "mil-spec"@,
            Tier::Restricted => "restricted"@,
            Tier::Classified => "classified"@,
            Tier::Covert => "covert"@,
            Tier::RareSpecial => "rare-special"@,
            Tier::Unknown => "unknown"@,
        }
    }

    /// The position of the tier in the progression, lowest first; `Unknown`
    /// has none.
    pub open spec fn spec_rank(self) -> Option<u8> {
        match self {
            Tier::Consumer => Some(0u8),
            Tier::Industrial => Some(1u8),
            Tier::MilSpec => Some(2u8),
            Tier::Restricted => Some(3u8),
            Tier::Classified => Some(4u8),
            Tier::Covert => Some(5u8),
            Tier::RareSpecial => Some(6u8),
            Tier::Unknown => None,
        }
    }

    /// The tier that this tier trades up to, or why it trades up to none.
    pub open spec fn spec_successor(self) -> Result<Tier, EngineError> {
        match self {
            Tier::Consumer => Ok(Tier::Industrial),
            Tier::Industrial => Ok(Tier::MilSpec),
            Tier::MilSpec => Ok(Tier::Restricted),
            Tier::Restricted => Ok(Tier::Classified),
            Tier::Classified => Ok(Tier::Covert),
            Tier::Covert => Ok(Tier::RareSpecial),
            Tier::RareSpecial => Err(EngineError::NoHigherTier),
            Tier::Unknown => Err(EngineError::UnsupportedTier),
        }
    }

    /// The colour in which the tier is shown.
    pub open spec fn spec_color(self) -> Rgb {
        match self {
            Tier::Consumer => Rgb { red: 200, green: 200, blue: 200 },
            Tier::Industrial => Rgb { red: 102, green: 178, blue: 255 },
            Tier::MilSpec => Rgb { red: 40, green: 120, blue: 255 },
            Tier::Restricted => Rgb { red: 178, green: 102, blue: 255 },
            Tier::Classified => Rgb { red: 255, green: 102, blue: 178 },
            Tier::Covert => Rgb { red: 255, green: 60, blue: 60 },
            Tier::RareSpecial => Rgb { red: 255, green: 200, blue: 0 },
            Tier::Unknown => Rgb { red: 180, green: 180, blue: 180 },
        }
    }

    /// The name of the tier.
    pub fn name(self) -> (n: &'static str)
        ensures
            n@ == self.spec_name(),
    {
        match self {
            Tier::Consumer => "consumer",
            Tier::Industrial => "industrial",
            Tier::MilSpec => "mil-spec",
            Tier::Restricted => "restricted",
            Tier::Classified => "classified",
            Tier::Covert => "covert",
            Tier::RareSpecial => "rare-special",
            Tier::Unknown => "unknown",
        }
    }

    /// The position of the tier in the progression, lowest first.
    #[verifier::when_used_as_spec(spec_rank)]
    pub fn rank(self) -> (r: Option<u8>)
        ensures
            r == self.spec_rank(),
    {
        match self {
            Tier::Consumer => Some(0u8),
            Tier::Industrial => Some(1u8),
            Tier::MilSpec => Some(2u8),
            Tier::Restricted => Some(3u8),
            Tier::Classified => Some(4u8),
            Tier::Covert => Some(5u8),
            Tier::RareSpecial => Some(6u8),
            Tier::Unknown => None,
        }
    }

    /// The tier that this tier trades up to. The top tier fails with
    /// `NoHigherTier`, the unknown tier with `UnsupportedTier`.
    #[verifier::when_used_as_spec(spec_successor)]
    pub fn successor(self) -> (r: Result<Tier, EngineError>)
        ensures
            r == self.spec_successor(),
    {
        match self {
            Tier::Consumer => Ok(Tier::Industrial),
            Tier::Industrial => Ok(Tier::MilSpec),
            Tier::MilSpec => Ok(Tier::Restricted),
            Tier::Restricted => Ok(Tier::Classified),
            Tier::Classified => Ok(Tier::Covert),
            Tier::Covert => Ok(Tier::RareSpecial),
            Tier::RareSpecial => Err(EngineError::NoHigherTier),
            Tier::Unknown => Err(EngineError::UnsupportedTier),
        }
    }

    /// The colour in which the tier is shown.
    #[verifier::when_used_as_spec(spec_color)]
    pub fn color(self) -> (c: Rgb)
        ensures
            c == self.spec_color(),
    {
        match self {
            Tier::Consumer => Rgb { red: 200, green: 200, blue: 200 },
            Tier::Industrial => Rgb { red: 102, green: 178, blue: 255 },
            Tier::MilSpec => Rgb { red: 40, green: 120, blue: 255 },
            Tier::Restricted => Rgb { red: 178, green: 102, blue: 255 },
            Tier::Classified => Rgb { red: 255, green: 102, blue: 178 },
            Tier::Covert => Rgb { red: 255, green: 60, blue: 60 },
            Tier::RareSpecial => Rgb { red: 255, green: 200, blue: 0 },
            Tier::Unknown => Rgb { red: 180, green: 180, blue: 180 },
        }
    }
}

/// Classifies a label that is already in lowercase.
pub fn classify_lowercase(label: &str) -> (tier: Tier)
    ensures
        tier == tier_of_lowercase(label@),
{
    if text::contains(label, "consumer") {
        Tier::Consumer
    } else if text::contains(label, "industrial") {
        Tier::Industrial
    } else if text::contains(label, "mil-spec") {
        Tier::MilSpec
    } else if text::contains(label, "restricted") {
        Tier::Restricted
    } else if text::contains(label, "classified") {
        Tier::Classified
    } else if text::contains(label, "covert") {
        Tier::Covert
    } else if text::contains(label, "rare-special") {
        Tier::RareSpecial
    } else {
        Tier::Unknown
    }
}

/// Classifies a free-form rarity label: the label is lowercased and then
/// matched as `classify_lowercase` does.
pub fn canonical_rarity(s: &str) -> (tier: Tier)
    ensures
        tier == tier_of_label(s@),
{
    let lower = text::to_lowercase(s);
    classify_lowercase(lower.as_str())
}

/// Classifies a catalog item's optional rarity label.
pub fn rarity_tier(rarity: &Option<String>) -> (tier: Tier)
    ensures
        tier == tier_of_rarity(text_view(*rarity)),
{
    match rarity {
        Some(label) => canonical_rarity(label.as_str()),
        None => Tier::Unknown,
    }
}

/// The colour in which a rarity label is shown: that of its tier.
pub fn rarity_color(r: &str) -> (c: Rgb)
    ensures
        c == tier_of_label(r@).spec_color(),
{
    canonical_rarity(r).color()
}

/// The tiers of the progression are ranked in the order in which they trade
/// up: a tier's successor, where it has one, has the next rank, and only the
/// top rank has no successor among the ranked tiers.
pub proof fn lemma_successor_climbs_one_rank(t: Tier)
    ensures
        t.spec_successor() is Ok ==> t.spec_rank() is Some
            && t.spec_successor()->Ok_0.spec_rank() == Some((t.spec_rank()->Some_0 + 1) as u8),
        t.spec_successor() == Err::<Tier, EngineError>(EngineError::UnsupportedTier) <==> t == Tier::Unknown,
        t.spec_successor() == Err::<Tier, EngineError>(EngineError::NoHigherTier) <==> t == Tier::RareSpecial,
{
}

/// At this position of the text, one of the other text's first three
/// characters is not in its place.
spec fn misfits(hay: Seq<char>, needle: Seq<char>, at: int) -> bool {
    hay[at] != needle[0] || hay[at + 1] != needle[1] || hay[at + 2] != needle[2]
}

/// A text of at most twelve characters does not hold another of at least
/// three where the other misfits at every position at which it would fit.
proof fn lemma_holds_no(hay: Seq<char>, needle: Seq<char>)
    requires
        needle.len() >= 3,
        hay.len() <= 12,
        hay.len() >= needle.len() ==> misfits(hay, needle, 0),
        hay.len() >= needle.len() + 1 ==> misfits(hay, needle, 1),
        hay.len() >= needle.len() + 2 ==> misfits(hay, needle, 2),
        hay.len() >= needle.len() + 3 ==> misfits(hay, needle, 3),
        hay.len() >= needle.len() + 4 ==> misfits(hay, needle, 4),
        hay.len() >= needle.len() + 5 ==> misfits(hay, needle, 5),
        hay.len() >= needle.len() + 6 ==> misfits(hay, needle, 6),
        hay.len() >= needle.len() + 7 ==> misfits(hay, needle, 7),
        hay.len() >= needle.len() + 8 ==> misfits(hay, needle, 8),
        hay.len() >= needle.len() + 9 ==> misfits(hay, needle, 9),
    ensures
        !has_substring(hay, needle),
{
    assert forall|at: int| !crate::text::occurs_at(hay, needle, at) by {
        if 0 <= at && at + needle.len() <= hay.len() {
            let part = hay.subrange(at, at + needle.len());
            assert(part[0] == hay[at] && part[1] == hay[at + 1] && part[2] == hay[at + 2]);
            assert(at == 0 || at == 1 || at == 2 || at == 3 || at == 4 || at == 5 || at == 6 || at == 7 || at == 8
                || at == 9);
            assert(misfits(hay, needle, at));
        }
    }
}

/// Each tier's own name classifies to that tier, and the name of the unknown
/// tier to the unknown tier.
pub proof fn lemma_names_classify_to_their_tiers(tier: Tier)
    ensures
        tier_of_lowercase(tier.spec_name()) == tier,
{
    reveal_strlit("consumer");
    reveal_strlit("industrial");
    reveal_strlit("mil-spec");
    reveal_strlit("restricted");
    reveal_strlit("classified");
    reveal_strlit("covert");
    reveal_strlit("rare-special");
    reveal_strlit("unknown");
    let name = tier.spec_name();
    assert(name.subrange(0, name.len() as int) =~= name);
    assert(crate::text::occurs_at(name, name, 0));
    match tier {
        Tier::Consumer => {},
        Tier::Industrial => {
            lemma_holds_no(name, "consumer"@);
        },
        Tier::MilSpec => {
            lemma_holds_no(name, "consumer"@);
            lemma_holds_no(name, "industrial"@);
        },
        Tier::Restricted => {
            lemma_holds_no(name, "consumer"@);
            lemma_holds_no(name, "industrial"@);
            lemma_holds_no(name, "mil-spec"@);
        },
        Tier::Classified => {
            lemma_holds_no(name, "consumer"@);
            lemma_holds_no(name, "industrial"@);
            lemma_holds_no(name, "mil-spec"@);
            lemma_holds_no(name, "restricted"@);
        },
        Tier::Covert => {
            lemma_holds_no(name, "consumer"@);
            lemma_holds_no(name, "industrial"@);
            lemma_holds_no(name, "mil-spec"@);
            lemma_holds_no(name, "restricted"@);
            lemma_holds_no(name, "classified"@);
        },
        Tier::RareSpecial => {
            lemma_holds_no(name, "consumer"@);
            lemma_holds_no(name, "industrial"@);
            lemma_holds_no(name, "mil-spec"@);
            lemma_holds_no(name, "restricted"@);
            lemma_holds_no(name, "classified"@);
            lemma_holds_no(name, "covert"@);
        },
        Tier::Unknown => {
            lemma_holds_no(name, "consumer"@);
            lemma_holds_no(name, "industrial"@);
            lemma_holds_no(name, "mil-spec"@);
            lemma_holds_no(name, "restricted"@);
            lemma_holds_no(name, "classified"@);
            lemma_holds_no(name, "covert"@);
            lemma_holds_no(name, "rare-special"@);
        },
    }
}

/// A lowercase label of fewer than six characters, the empty label among
/// them, is too short to hold the name of a tier and is of the unknown tier.
pub proof fn lemma_short_labels_are_unknown(label: Seq<char>)
    requires
        label.len() < 6,
    ensures
        tier_of_lowercase(label) == Tier::Unknown,
{
    reveal_strlit("consumer");
    reveal_strlit("industrial");
    reveal_strlit("mil-spec");
    reveal_strlit("restricted");
    reveal_strlit("classified");
    reveal_strlit("covert");
    reveal_strlit("rare-special");
}

} // verus!
