use treasuror::clock::{Date, DateTime, Time};
use treasuror::model::report::{AssetTable, Report};
use treasuror::model::{Context, ContractParams, Currency, Entity, EntityKind, PlayerParams};
use treasuror::parser::directive::Directive;
use treasuror::parser::Line;

fn ledger() -> Context {
    let end = DateTime { date: Date { year: 2021, month: 3, day: 31 }, time: Time { hour: 23, minute: 59 } };
    let mut ctx = Context::from_datetime(end);
    for l in [
        "ASSETS cn wc",
        "FORBES 12",
        "ENT P Alice 100cn 2wc",
        r#"ENT P Bob_B "Robert Roberts" 50cn"#,
        "ENT C 3 Shop 21cn",
    ] {
        ctx.process(&Directive::with_source(l).unwrap()).unwrap();
    }
    let day = Date { year: 2021, month: 3, day: 1 };
    for l in ["[09:05] Alice 10cn>Bob_B", "[10:00] #report"] {
        assert_eq!(ctx.enter(Line::with_date_from_str(day, l).unwrap()), Ok(true));
    }
    ctx
}

#[test]
fn asset_table_layout() {
    let mut t = AssetTable::new(&[Currency::Coin, Currency::WinCard], EntityKind::Player(PlayerParams { is_active: true })).unwrap();
    let e = Entity::player("Bob_B".to_string(), "Robert Roberts".to_string());
    t.add_entity(&e);
    let text = t.text();
    let lines: Vec<&str> = text.lines().collect();
    assert_eq!(lines[0], "   Player(+a)      cn     wc ");
    assert_eq!(lines[1], " ==============  ======  ====");
    assert_eq!(lines[2], " Bob B      [0]       0     0");
    assert_eq!(lines[3], "");
    assert_eq!(lines[4], "0. Robert Roberts");
}

#[test]
fn contract_heading() {
    let t = AssetTable::new(&[Currency::Coin], EntityKind::Contract(ContractParams { donation_level: 3 })).unwrap();
    assert!(t.text().starts_with("  Contract(03)  "));
}

#[test]
fn report_text() {
    let ctx = ledger();
    let r = Report::with_context(&ctx).unwrap();
    let text = r.format("{bar}\n{forbes}\n{date}\n{tables}\n{history}\n{buoyancy}").unwrap();
    let lines: Vec<&str> = text.lines().collect();
    assert_eq!(lines[0], "=".repeat(72));
    assert_eq!(lines[1].trim(), "FORBES ELEVEN");
    assert_eq!(lines[1].len(), 72);
    assert_eq!(lines[2], "31 March 2021");
    assert!(text.contains("Alice"));
    assert!(text.contains("Bob B"));
    assert!(text.contains("1. Robert Roberts") || text.contains("0. Robert Roberts"));
    assert!(text.contains("*** Mon 1 March 2021"));
    assert!(text.contains("[10:00]   WEEKLY REPORT"));
    assert!(text.contains("Alice:"));
    assert!(text.contains("(Transfer Bob B)"));
    assert!(text.contains("Unit of Flotation: 1.0000"));
    assert!(text.contains("Total Buoyancy:    0"));
}

#[test]
fn history_stops_two_months_back() {
    let end = DateTime { date: Date { year: 2021, month: 5, day: 31 }, time: Time { hour: 0, minute: 0 } };
    let mut ctx = Context::from_datetime(end);
    ctx.process(&Directive::with_source("ASSETS cn").unwrap()).unwrap();
    let old = Date { year: 2021, month: 2, day: 10 };
    let recent = Date { year: 2021, month: 5, day: 2 };
    ctx.enter(Line::with_date_from_str(old, r#"#message "old news""#).unwrap()).unwrap();
    ctx.enter(Line::with_date_from_str(recent, r#"#message "fresh news""#).unwrap()).unwrap();
    let r = Report::with_context(&ctx).unwrap();
    let text = r.format("{history}").unwrap();
    assert!(text.contains("fresh news"));
    assert!(!text.contains("old news"));
}

#[test]
fn long_full_names_wrap() {
    let mut t = AssetTable::new(&[Currency::Coin], EntityKind::Other).unwrap();
    let name = "The Honourable Society of Keepers of Lost Property and Other Forgotten Things of Agora";
    t.add_entity(&Entity::contract("Keepers".to_string(), name.to_string()));
    let text = t.text();
    let lines: Vec<&str> = text.lines().collect();
    assert_eq!(lines[3], "");
    assert!(lines[4].starts_with("0. The Honourable Society"));
    assert!(lines[4].len() <= 72);
    assert!(lines[5].starts_with("   "));
    assert!(lines[5].trim_end().ends_with("Agora"));
}

#[test]
fn forbes_in_words() {
    let mut ctx = ledger();
    ctx.process(&Directive::with_source("FORBES 127").unwrap()).unwrap();
    let text = Report::with_context(&ctx).unwrap().format("{forbes}").unwrap();
    assert_eq!(text.trim(), "FORBES ONE HUNDRED TWENTY-SEVEN");
}

#[test]
fn asset_tables_are_always_made() {
    for n in 0..12 {
        let assets = vec![Currency::Coin; n];
        assert!(AssetTable::new(&assets, EntityKind::Other).is_some());
    }
    let text = AssetTable::new(&[], EntityKind::Other).unwrap().text();
    let lines: Vec<&str> = text.lines().collect();
    assert_eq!(lines.len(), 2);
    assert_eq!(lines[0].trim(), "Entity");
    assert_eq!(lines[1].trim(), "==============");
}

#[test]
fn flotation_is_shown_rounded_to_four_places() {
    let mut ctx = ledger();
    ctx.process(&Directive::with_source("FLOTATION 1.23456").unwrap()).unwrap();
    let text = Report::with_context(&ctx).unwrap().format("{buoyancy}").unwrap();
    assert!(text.contains("Unit of Flotation: 1.2346"));
    ctx.process(&Directive::with_source("FLOTATION 0.99996").unwrap()).unwrap();
    let text = Report::with_context(&ctx).unwrap().format("{buoyancy}").unwrap();
    assert!(text.contains("Unit of Flotation: 1.0000"));
}
