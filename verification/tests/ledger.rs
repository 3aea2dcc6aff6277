use treasuror::clock::{Date, DateTime, Time};
use treasuror::model::history::HistoryEntry;
use treasuror::model::{Amount, Context, Currency, EntityKind, FullUnit, LedgerError};
use treasuror::parser::directive::Directive;
use treasuror::parser::{Line, Operator, Trade, Transaction};

fn moment(year: i32, month: u32, day: u32, hour: u32, minute: u32) -> DateTime {
    DateTime { date: Date { year, month, day }, time: Time { hour, minute } }
}

fn day() -> Date {
    Date { year: 2021, month: 3, day: 1 }
}

fn state(ctx: &mut Context, lines: &[&str]) {
    for l in lines {
        let d = Directive::with_source(l).unwrap();
        ctx.process(&d).unwrap();
    }
}

fn ledger() -> Context {
    let mut ctx = Context::from_datetime(moment(2021, 12, 31, 23, 59));
    state(
        &mut ctx,
        &[
            "ASSETS cn wc jc",
            "ENT P Alice 100cn 2wc",
            "ENT P Bob 50cn",
            r#"ENT C 3 Shop "The Corner Shop" 21cn"#,
            r#"ENT O L&F_Dept. "Lost and Found Department""#,
        ],
    );
    ctx
}

fn enter(ctx: &mut Context, text: &str) -> Result<bool, LedgerError> {
    ctx.enter(Line::with_date_from_str(day(), text).unwrap())
}

fn balance(ctx: &Context, id: &str, c: Currency) -> u32 {
    ctx.entity(id).balance(c)
}

fn total(ctx: &Context, c: Currency) -> u32 {
    ctx.entities().currency_total(c)
}

#[test]
fn fresh_ledger() {
    let ctx = Context::from_datetime(moment(2021, 1, 1, 0, 0));
    assert_eq!(ctx.forbes(), 500);
    assert_eq!(ctx.flotation(), 1_000_000_000_000_000_000);
    assert_eq!(ctx.entities().len(), 0);
    assert_eq!(ctx.history().len(), 0);
    assert_eq!(ctx.max_datetime(), moment(2021, 1, 1, 0, 0));
    assert_eq!(ctx.datetime(), DateTime { date: Date { year: -262143, month: 1, day: 1 }, time: Time { hour: 0, minute: 0 } });
}

#[test]
fn state_file_directives() {
    let mut ctx = ledger();
    state(&mut ctx, &["FLOTATION 2.5", "FORBES 7", "DATE [2021-02-28]"]);
    assert_eq!(ctx.assets(), &vec![Currency::Coin, Currency::WinCard, Currency::JusticeCard]);
    assert_eq!(ctx.flotation(), 2_500_000_000_000_000_000);
    assert_eq!(ctx.forbes(), 7);
    assert_eq!(ctx.datetime(), moment(2021, 2, 28, 0, 0));
    assert_eq!(balance(&ctx, "Alice", Currency::WinCard), 2);
    assert_eq!(ctx.entity("Shop").kind(), EntityKind::Contract(treasuror::model::ContractParams { donation_level: 3 }));
    assert_eq!(ctx.entity("Shop").full_name(), "The Corner Shop");
}

#[test]
fn transfer_moves_coins() {
    let mut ctx = ledger();
    let before = total(&ctx, Currency::Coin);
    assert_eq!(enter(&mut ctx, r#"[10:00] Alice 10cn>Bob "gift""#), Ok(true));
    assert_eq!(balance(&ctx, "Alice", Currency::Coin), 90);
    assert_eq!(balance(&ctx, "Bob", Currency::Coin), 60);
    assert_eq!(total(&ctx, Currency::Coin), before);
    assert_eq!(ctx.history().len(), 2);
    match ctx.history()[0].entry() {
        HistoryEntry::Transaction(t) => {
            assert_eq!(t.agent(), "Alice");
            assert_eq!(t.amount(), -10);
            assert_eq!(t.comment(), "Transfer Bob: gift");
        }
        _ => panic!("expected a change"),
    }
    assert_eq!(ctx.datetime(), moment(2021, 3, 1, 10, 0));
}

#[test]
fn transfer_of_everything() {
    let mut ctx = ledger();
    assert_eq!(enter(&mut ctx, "Alice *>Bob"), Ok(true));
    assert_eq!(balance(&ctx, "Alice", Currency::Coin), 0);
    assert_eq!(balance(&ctx, "Alice", Currency::WinCard), 0);
    assert_eq!(balance(&ctx, "Bob", Currency::Coin), 150);
    assert_eq!(balance(&ctx, "Bob", Currency::WinCard), 2);
}

#[test]
fn boatloads_round_up() {
    let mut ctx = ledger();
    state(&mut ctx, &["FLOTATION 2.5"]);
    assert_eq!(ctx.boatloads(3), 8);
    assert_eq!(ctx.boatloads(0), 0);
    assert_eq!(enter(&mut ctx, "Bob 2bl:cn+"), Ok(true));
    assert_eq!(balance(&ctx, "Bob", Currency::Coin), 55);
}

#[test]
fn boatloads_saturate() {
    let mut ctx = ledger();
    state(&mut ctx, &["FLOTATION 100000.0"]);
    assert_eq!(ctx.boatloads(u32::MAX), u32::MAX);
}

#[test]
fn revoke_below_zero_leaves_a_note() {
    let mut ctx = ledger();
    assert_eq!(enter(&mut ctx, "Bob 70cn-"), Ok(true));
    assert_eq!(balance(&ctx, "Bob", Currency::Coin), 0);
    let notes = ctx.take_notes();
    assert_eq!(notes, vec!["attempt to retract from Bob below zero: 50 < 70 (cn)".to_string()]);
    assert!(ctx.take_notes().is_empty());
}

#[test]
fn everything_minus_adds_the_balances() {
    let mut ctx = ledger();
    assert_eq!(enter(&mut ctx, "Alice *-"), Ok(true));
    assert_eq!(balance(&ctx, "Alice", Currency::Coin), 200);
    assert_eq!(balance(&ctx, "Alice", Currency::WinCard), 4);
}

#[test]
fn all_of_a_currency_minus() {
    let mut ctx = ledger();
    assert_eq!(enter(&mut ctx, "Alice *wc-"), Ok(true));
    assert_eq!(balance(&ctx, "Alice", Currency::WinCard), 0);
    assert_eq!(balance(&ctx, "Alice", Currency::Coin), 100);
}

#[test]
fn refused_transactions() {
    let mut ctx = ledger();
    assert_eq!(enter(&mut ctx, "Alice *+"), Err(LedgerError::CannotAddEverything));
    assert_eq!(enter(&mut ctx, "Alice *cn+"), Err(LedgerError::CannotAddAllOf));
    assert_eq!(enter(&mut ctx, "Nobody *cn+"), Err(LedgerError::NoSuchEntity("Nobody".to_string())));
    assert_eq!(enter(&mut ctx, "Alice 5cn>Nobody"), Err(LedgerError::NoSuchEntity("Nobody".to_string())));
    assert_eq!(enter(&mut ctx, "Bob 4294967295cn+"), Err(LedgerError::Overflow));
}

#[test]
fn time_travel_is_refused() {
    let mut ctx = ledger();
    assert_eq!(enter(&mut ctx, "[12:00] #report"), Ok(true));
    let forbes = ctx.forbes();
    assert_eq!(enter(&mut ctx, "[11:59] #report"), Err(LedgerError::TimeTravel));
    assert_eq!(ctx.forbes(), forbes);
    assert_eq!(ctx.datetime(), moment(2021, 3, 1, 12, 0));
}

#[test]
fn lines_after_the_end_are_skipped() {
    let mut ctx = Context::from_datetime(moment(2021, 3, 1, 9, 0));
    state(&mut ctx, &["ASSETS cn", "ENT P Alice 100cn"]);
    assert_eq!(enter(&mut ctx, "[10:00] Alice 5cn-"), Ok(false));
    assert_eq!(balance(&ctx, "Alice", Currency::Coin), 100);
    assert_eq!(ctx.datetime(), moment(2021, 3, 1, 10, 0));
    assert!(!ctx.verify_max_datetime(moment(2021, 3, 1, 10, 0)));
    assert!(ctx.verify_datetime(moment(2021, 3, 1, 10, 0)));
}

#[test]
fn report_counts_down() {
    let mut ctx = ledger();
    state(&mut ctx, &["FORBES 1"]);
    assert_eq!(enter(&mut ctx, "#report"), Ok(true));
    assert_eq!(ctx.forbes(), 0);
    assert_eq!(enter(&mut ctx, "#revision"), Err(LedgerError::ForbesExhausted));
    match ctx.history().last().unwrap().entry() {
        HistoryEntry::Event(m) => assert_eq!(m, "  WEEKLY REPORT"),
        _ => panic!("expected an event"),
    }
}

#[test]
fn norecord_keeps_events_out_of_the_history() {
    let mut ctx = ledger();
    assert_eq!(enter(&mut ctx, "#norecord report"), Ok(true));
    assert_eq!(ctx.forbes(), 499);
    assert_eq!(ctx.history().len(), 0);
}

#[test]
fn payday() {
    let mut ctx = ledger();
    state(&mut ctx, &["FLOTATION 1.5"]);
    assert_eq!(enter(&mut ctx, "#payday"), Ok(true));
    // Players get ten boatloads: 15 coins.
    assert_eq!(balance(&ctx, "Alice", Currency::Coin), 115);
    assert_eq!(balance(&ctx, "Bob", Currency::Coin), 65);
    // The shop loses half its 21 coins (10), then gets three boatloads (5).
    assert_eq!(balance(&ctx, "Shop", Currency::Coin), 16);
    assert_eq!(balance(&ctx, "L&F_Dept.", Currency::Coin), 0);
    // Nothing but coins moved.
    assert_eq!(balance(&ctx, "Alice", Currency::WinCard), 2);
}

#[test]
fn inactive_players_get_no_pay() {
    let mut ctx = ledger();
    assert_eq!(enter(&mut ctx, "#deactivate Bob"), Ok(true));
    assert_eq!(enter(&mut ctx, "#payday"), Ok(true));
    assert_eq!(balance(&ctx, "Bob", Currency::Coin), 50);
    assert_eq!(enter(&mut ctx, "#activate Bob"), Ok(true));
    assert_eq!(enter(&mut ctx, "#payday"), Ok(true));
    assert_eq!(balance(&ctx, "Bob", Currency::Coin), 60);
}

#[test]
fn nuke() {
    let mut ctx = ledger();
    assert_eq!(enter(&mut ctx, "#nuke"), Ok(true));
    assert_eq!(balance(&ctx, "Alice", Currency::Coin), 100);
    assert_eq!(balance(&ctx, "Alice", Currency::WinCard), 1);
    assert_eq!(balance(&ctx, "Alice", Currency::JusticeCard), 1);
    assert_eq!(balance(&ctx, "Shop", Currency::JusticeCard), 0);
    assert_eq!(balance(&ctx, "Shop", Currency::Coin), 21);
}

#[test]
fn relevel() {
    let mut ctx = ledger();
    assert_eq!(enter(&mut ctx, "#relevel 5000"), Ok(true));
    assert_eq!(ctx.flotation(), 2_000_000_000_000_000_000);
    assert_eq!(ctx.total_buoyancy(), 5000);
    match ctx.history().last().unwrap().entry() {
        HistoryEntry::Event(m) => assert_eq!(m, "  RELEVELING: TB=5000, UF=2.0000"),
        _ => panic!("expected an event"),
    }
    assert_eq!(enter(&mut ctx, "#relevel"), Ok(true));
    assert_eq!(ctx.total_buoyancy(), 171);
    assert_eq!(ctx.flotation(), 68_400_000_000_000_000);
}

#[test]
fn relevel_from_the_cutoff_follows_the_target() {
    let mut ctx = ledger();
    ctx.set_relevel_cutoff(Some(moment(2021, 1, 1, 0, 0)));
    assert_eq!(enter(&mut ctx, "#bt 6000"), Ok(true));
    assert_eq!(ctx.buoyancy_target(), 6000);
    assert_eq!(enter(&mut ctx, "#relevel 5000"), Ok(true));
    assert_eq!(ctx.total_buoyancy(), 6000);
    assert_eq!(ctx.flotation(), 3_000_000_000_000_000_000);
}

#[test]
fn deregister_hands_holdings_to_lost_and_found() {
    let mut ctx = ledger();
    let before = total(&ctx, Currency::Coin);
    assert_eq!(enter(&mut ctx, "#deregister Bob"), Ok(true));
    assert_eq!(balance(&ctx, "L&F_Dept.", Currency::Coin), 50);
    assert_eq!(total(&ctx, Currency::Coin), before);
    assert!(ctx.entities().get("Bob").is_none());
    assert_eq!(enter(&mut ctx, "#deregister Bob"), Err(LedgerError::NoSuchEntity("Bob".to_string())));
}

#[test]
fn new_entities() {
    let mut ctx = ledger();
    assert_eq!(enter(&mut ctx, r#"#newplayer Carol "Carol C""#), Ok(true));
    assert_eq!(ctx.entity("Carol").full_name(), "Carol C");
    assert_eq!(enter(&mut ctx, "#newcontract Bank"), Ok(true));
    assert_eq!(ctx.entity("Bank").kind(), EntityKind::Contract(treasuror::model::ContractParams { donation_level: 0 }));
    assert_eq!(enter(&mut ctx, "#newplayer Alice"), Err(LedgerError::EntityExists("Alice".to_string())));
    assert_eq!(ctx.add_player("Bob".to_string(), "Bob".to_string()), Err(LedgerError::EntityExists("Bob".to_string())));
}

#[test]
fn rename_moves_holdings() {
    let mut ctx = ledger();
    assert_eq!(enter(&mut ctx, "#rename wc jc"), Ok(true));
    assert_eq!(ctx.assets(), &vec![Currency::Coin, Currency::JusticeCard, Currency::JusticeCard]);
    assert_eq!(balance(&ctx, "Alice", Currency::JusticeCard), 2);
    assert_eq!(balance(&ctx, "Alice", Currency::WinCard), 0);
}

#[test]
fn message_event() {
    let mut ctx = ledger();
    assert_eq!(enter(&mut ctx, r#"[08:15] #message "hello""#), Ok(true));
    assert_eq!(ctx.history().len(), 1);
    assert_eq!(ctx.history()[0].datetime(), moment(2021, 3, 1, 8, 15));
    match ctx.history()[0].entry() {
        HistoryEntry::Event(m) => assert_eq!(m, "  hello"),
        _ => panic!("expected an event"),
    }
}

#[test]
fn bad_flotation_is_refused() {
    let mut ctx = ledger();
    let d = Directive::with_source("FLOTATION 999999999999999999999.0").unwrap();
    assert_eq!(ctx.process(&d), Err(LedgerError::BadFlotation));
    let d = Directive::with_source("FLOTATION 1.23456").unwrap();
    assert_eq!(ctx.process(&d), Ok(()));
    assert_eq!(ctx.flotation(), 1_234_560_000_000_000_000);
    assert_eq!(ctx.boatloads(25), 31);
    let d = Directive::with_source("FLOTATION 1.2").unwrap();
    assert_eq!(ctx.process(&d), Ok(()));
    assert_eq!(ctx.boatloads(25), 30);
    let d = Directive::with_source("FLOTATION 0.0000000000000000019").unwrap();
    assert_eq!(ctx.process(&d), Ok(()));
    assert_eq!(ctx.flotation(), 1);
    assert_eq!(ctx.boatloads(7), 1);
}

#[test]
fn duplicate_entity_directive_is_refused() {
    let mut ctx = ledger();
    let d = Directive::with_source("ENT P Alice").unwrap();
    assert_eq!(ctx.process(&d), Err(LedgerError::EntityExists("Alice".to_string())));
}

#[test]
fn trade_expands_into_two_transfers() {
    let ctx = ledger();
    let t = Transaction::new(
        "Alice".to_string(),
        Amount::PartOf(FullUnit::Bare(Currency::Coin), 5),
        Operator::Trade(Trade::new(Amount::AllOf(Currency::Coin), "Bob".to_string())),
        String::new(),
    );
    let atoms = ctx.expand_transaction(&t).unwrap();
    let amounts: Vec<(String, i32)> = atoms.iter().map(|a| (a.agent().to_string(), a.amount())).collect();
    assert_eq!(
        amounts,
        vec![
            ("Alice".to_string(), -5),
            ("Bob".to_string(), 5),
            ("Bob".to_string(), -50),
            ("Alice".to_string(), 50),
        ]
    );
    let net: i32 = atoms.iter().map(|a| a.amount()).sum();
    assert_eq!(net, 0);
}

#[test]
fn entity_mut_changes_the_ledger() {
    let mut ctx = ledger();
    ctx.entity_mut("Bob").grant(Currency::Coin, 5);
    assert_eq!(balance(&ctx, "Bob", Currency::Coin), 55);
}

#[test]
fn sorted_entities() {
    let ctx = ledger();
    let ids: Vec<String> = ctx.entities_vec_sorted().iter().map(|e| e.identifier().clone()).collect();
    assert_eq!(ids, vec!["Alice", "Bob", "L&F_Dept.", "Shop"]);
}

#[test]
fn history_only_grows() {
    let mut ctx = ledger();
    assert_eq!(enter(&mut ctx, "[09:00] Alice 1cn>Bob"), Ok(true));
    let before: Vec<String> = ctx.history().iter().map(|h| format!("{:?}", h)).collect();
    assert_eq!(enter(&mut ctx, "[09:30] #payday"), Ok(true));
    let after: Vec<String> = ctx.history().iter().map(|h| format!("{:?}", h)).collect();
    assert!(after.len() > before.len());
    assert_eq!(&after[..before.len()], &before[..]);
    assert!(before_moment().le(&ctx.datetime()));
}

fn before_moment() -> DateTime {
    moment(2021, 3, 1, 9, 0)
}

#[test]
fn whole_holdings_cannot_be_added() {
    let ctx = ledger();
    let t = |agent: &str, amount: Amount, op: Operator| Transaction::new(agent.to_string(), amount, op, String::new());
    assert_eq!(
        ctx.unaddable(&t("Alice", Amount::AllOf(Currency::Coin), Operator::Plus)),
        Some(LedgerError::CannotAddAllOf)
    );
    assert_eq!(
        ctx.unaddable(&t("Nobody", Amount::AllOf(Currency::Coin), Operator::Plus)),
        Some(LedgerError::NoSuchEntity("Nobody".to_string()))
    );
    assert_eq!(ctx.unaddable(&t("Alice", Amount::Everything, Operator::Plus)), Some(LedgerError::CannotAddEverything));
    assert_eq!(ctx.unaddable(&t("Alice", Amount::AllOf(Currency::Coin), Operator::Minus)), None);
    let atoms = ctx.expand_transaction(&t("Alice", Amount::AllOf(Currency::Coin), Operator::Minus)).unwrap();
    assert_eq!(atoms.len(), 1);
    assert_eq!(atoms[0].amount(), -100);
}
