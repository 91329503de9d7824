use cs_trade_up::error::{EngineError, ErrorKind};
use cs_trade_up::rarity::{canonical_rarity, classify_lowercase, rarity_color, rarity_tier, Rgb, Tier};

#[test]
fn classifies_the_seven_tiers_whatever_the_case() {
    assert_eq!(canonical_rarity("Consumer Grade"), Tier::Consumer);
    assert_eq!(canonical_rarity("CONSUMER"), Tier::Consumer);
    assert_eq!(canonical_rarity("Industrial Grade"), Tier::Industrial);
    assert_eq!(canonical_rarity("Mil-Spec"), Tier::MilSpec);
    assert_eq!(canonical_rarity("mil-spec grade"), Tier::MilSpec);
    assert_eq!(canonical_rarity("Restricted"), Tier::Restricted);
    assert_eq!(canonical_rarity("Classified"), Tier::Classified);
    assert_eq!(canonical_rarity("Covert"), Tier::Covert);
    assert_eq!(canonical_rarity("Rare-Special"), Tier::RareSpecial);
    assert_eq!(canonical_rarity("a rare-special item"), Tier::RareSpecial);
}

#[test]
fn unrecognised_and_empty_labels_are_unknown() {
    assert_eq!(canonical_rarity(""), Tier::Unknown);
    assert_eq!(canonical_rarity("contraband"), Tier::Unknown);
    assert_eq!(canonical_rarity("   "), Tier::Unknown);
    assert_eq!(rarity_tier(&None), Tier::Unknown);
}

#[test]
fn only_the_seven_names_are_matched() {
    assert_eq!(canonical_rarity("Uncommon"), Tier::Unknown);
    assert_eq!(canonical_rarity("common"), Tier::Unknown);
    assert_eq!(canonical_rarity("rare"), Tier::Unknown);
    assert_eq!(canonical_rarity("Rare Special"), Tier::Unknown);
    assert_eq!(canonical_rarity("milspec"), Tier::Unknown);
    assert_eq!(canonical_rarity("military"), Tier::Unknown);
    assert_eq!(canonical_rarity("mil spec"), Tier::Unknown);
    assert_eq!(canonical_rarity("consume"), Tier::Unknown);
}

#[test]
fn the_first_tier_in_priority_order_wins() {
    assert_eq!(canonical_rarity("covert consumer"), Tier::Consumer);
    assert_eq!(canonical_rarity("rare-special industrial"), Tier::Industrial);
    assert_eq!(canonical_rarity("classified mil-spec"), Tier::MilSpec);
    assert_eq!(canonical_rarity("covert classified restricted"), Tier::Restricted);
    assert_eq!(canonical_rarity("rare-special covert"), Tier::Covert);
}

#[test]
fn labels_are_lowercased_before_matching() {
    assert_eq!(canonical_rarity("COVERT"), Tier::Covert);
    assert_eq!(classify_lowercase("COVERT"), Tier::Unknown);
    assert_eq!(classify_lowercase("covert"), Tier::Covert);
    assert_eq!(rarity_tier(&Some("ReStRiCtEd".to_string())), Tier::Restricted);
}

#[test]
fn each_tier_trades_up_to_the_next() {
    assert_eq!(Tier::Consumer.successor(), Ok(Tier::Industrial));
    assert_eq!(Tier::Industrial.successor(), Ok(Tier::MilSpec));
    assert_eq!(Tier::MilSpec.successor(), Ok(Tier::Restricted));
    assert_eq!(Tier::Restricted.successor(), Ok(Tier::Classified));
    assert_eq!(Tier::Classified.successor(), Ok(Tier::Covert));
    assert_eq!(Tier::Covert.successor(), Ok(Tier::RareSpecial));
    assert_eq!(Tier::RareSpecial.successor(), Err(EngineError::NoHigherTier));
    assert_eq!(Tier::Unknown.successor(), Err(EngineError::UnsupportedTier));
}

#[test]
fn ranks_follow_the_progression() {
    assert_eq!(Tier::Consumer.rank(), Some(0));
    assert_eq!(Tier::Industrial.rank(), Some(1));
    assert_eq!(Tier::MilSpec.rank(), Some(2));
    assert_eq!(Tier::Restricted.rank(), Some(3));
    assert_eq!(Tier::Classified.rank(), Some(4));
    assert_eq!(Tier::Covert.rank(), Some(5));
    assert_eq!(Tier::RareSpecial.rank(), Some(6));
    assert_eq!(Tier::Unknown.rank(), None);
}

#[test]
fn colours_go_by_tier() {
    assert_eq!(rarity_color("Consumer Grade"), Rgb { red: 200, green: 200, blue: 200 });
    assert_eq!(rarity_color("industrial"), Rgb { red: 102, green: 178, blue: 255 });
    assert_eq!(rarity_color("MIL-SPEC"), Rgb { red: 40, green: 120, blue: 255 });
    assert_eq!(rarity_color("restricted"), Rgb { red: 178, green: 102, blue: 255 });
    assert_eq!(rarity_color("classified"), Rgb { red: 255, green: 102, blue: 178 });
    assert_eq!(rarity_color("covert"), Rgb { red: 255, green: 60, blue: 60 });
    assert_eq!(rarity_color("rare-special"), Rgb { red: 255, green: 200, blue: 0 });
    assert_eq!(rarity_color("something else"), Rgb { red: 180, green: 180, blue: 180 });
    assert_eq!(Tier::Unknown.color(), Rgb { red: 180, green: 180, blue: 180 });
}

#[test]
fn errors_fall_into_their_classes() {
    assert_eq!(EngineError::AccountNotFound.kind(), ErrorKind::NotFound);
    assert_eq!(EngineError::ItemNotFound.kind(), ErrorKind::NotFound);
    assert_eq!(EngineError::RecordNotFound.kind(), ErrorKind::NotFound);
    assert_eq!(EngineError::NotOwned(3).kind(), ErrorKind::NotFound);
    assert_eq!(EngineError::DanglingItem(3).kind(), ErrorKind::NotFound);
    assert_eq!(EngineError::EmptyCatalog.kind(), ErrorKind::NotFound);
    assert_eq!(EngineError::NoCandidates.kind(), ErrorKind::NotFound);
    assert_eq!(EngineError::HandleTaken.kind(), ErrorKind::Conflict);
    assert_eq!(EngineError::EmptyCandidateSet.kind(), ErrorKind::InvalidInput);
    assert_eq!(EngineError::InvalidInputCount.kind(), ErrorKind::InvalidInput);
    assert_eq!(EngineError::MixedTiers.kind(), ErrorKind::InvalidInput);
    assert_eq!(EngineError::UnsupportedTier.kind(), ErrorKind::InvalidInput);
    assert_eq!(EngineError::NoHigherTier.kind(), ErrorKind::InvalidInput);
    assert_eq!(EngineError::InsufficientFunds.kind(), ErrorKind::InsufficientFunds);
    assert_eq!(EngineError::ConsumptionFailed(1).kind(), ErrorKind::InconsistentState);
    assert_eq!(EngineError::BalanceOverflow.kind(), ErrorKind::CapacityExceeded);
    assert_eq!(EngineError::IdSpaceExhausted.kind(), ErrorKind::CapacityExceeded);
}

#[test]
fn each_tier_has_its_name_and_the_name_names_the_tier() {
    let tiers = [
        (Tier::Consumer, "consumer"),
        (Tier::Industrial, "industrial"),
        (Tier::MilSpec, "mil-spec"),
        (Tier::Restricted, "restricted"),
        (Tier::Classified, "classified"),
        (Tier::Covert, "covert"),
        (Tier::RareSpecial, "rare-special"),
        (Tier::Unknown, "unknown"),
    ];
    for (tier, name) in tiers {
        assert_eq!(tier.name(), name);
        assert_eq!(classify_lowercase(name), tier);
        assert_eq!(canonical_rarity(&name.to_uppercase()), tier);
    }
}
