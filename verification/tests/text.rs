use treasuror::model::ministry::Ministry;
use treasuror::model::{Amount, Currency, FullUnit};
use treasuror::text::{decimal_string, replace_all, trim_end_string, trim_string};

#[test]
fn replace_all_matches() {
    assert_eq!(replace_all("a{x}b{x}", "{x}", "--"), "a--b--");
    assert_eq!(replace_all("aaa", "aa", "b"), "ba");
    assert_eq!(replace_all("none here", "{x}", "y"), "none here");
}

#[test]
fn trimming() {
    assert_eq!(trim_end_string("  a b  \n"), "  a b");
    assert_eq!(trim_string("  a b  \n"), "a b");
}

#[test]
fn numbers_and_case() {
    assert_eq!(decimal_string(0), "0");
    assert_eq!(decimal_string(1203), "1203");
}

#[test]
fn ministries() {
    assert_eq!(Ministry::from_abbr("ECON"), Some(Ministry::Economy));
    assert_eq!(Ministry::from_abbr("w"), Some(Ministry::Legacy));
    assert_eq!(Ministry::from_abbr("Part"), Some(Ministry::Participation));
    assert_eq!(Ministry::from_abbr("legis"), Some(Ministry::Legislation));
    assert_eq!(Ministry::from_abbr("co"), Some(Ministry::Compliance));
    assert_eq!(Ministry::from_abbr("x"), None);
}

#[test]
fn currencies() {
    assert_eq!(Currency::from_abbr("cn"), Some(Currency::Coin));
    assert_eq!(Currency::from_abbr("vo"), Some(Currency::Votive));
    assert_eq!(Currency::from_abbr("zz"), None);
    assert_eq!(Currency::Pendant.abbr(), "pd");
    assert!(Currency::VoteCard.is_card());
    assert!(!Currency::Coin.is_card());
    assert_eq!(FullUnit::Boatload(Currency::Coin).currency(), Currency::Coin);
}

#[test]
fn amounts_written_out() {
    assert_eq!(Amount::Everything.pretty(), "everything");
    assert_eq!(Amount::AllOf(Currency::WinCard).pretty(), "all of wc");
    assert_eq!(Amount::PartOf(FullUnit::Bare(Currency::Coin), 5).pretty(), "5cn");
    assert_eq!(Amount::PartOf(FullUnit::Boatload(Currency::Coin), 12).pretty(), "12bl:cn");
}
