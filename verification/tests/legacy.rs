use treasuror::model::{Amount, Currency, FullUnit};
use treasuror::parser::directive::Directive;
use treasuror::parser::{AnyError, ErrorKind, Operator, Token, TokenIterator, Transaction};

#[test]
fn transfer_halves() {
    let t = Transaction::new(
        "Alice".to_string(),
        Amount::PartOf(FullUnit::Bare(Currency::Coin), 5),
        Operator::Transfer("Bob".to_string()),
        "gift".to_string(),
    );
    let halves = t.expand();
    assert_eq!(halves.len(), 2);
    assert_eq!(halves[0].agent(), "Alice");
    assert_eq!(halves[0].operator(), &Operator::Minus);
    assert_eq!(halves[0].comment(), "Transfer Bob: gift");
    assert_eq!(halves[1].agent(), "Bob");
    assert_eq!(halves[1].operator(), &Operator::Plus);
    assert_eq!(halves[1].comment(), "Transfer Alice: gift");
    let plain = Transaction::new("Alice".to_string(), Amount::Everything, Operator::Minus, String::new());
    assert_eq!(plain.expand().len(), 1);
}

#[test]
fn blank_state_lines() {
    assert!(Directive::from_str("   ").is_none());
    assert!(matches!(Directive::from_str("FORBES 3"), Some(Ok(Directive::Forbes(3)))));
}

#[test]
fn old_style_parsers() {
    let mut tokens = TokenIterator::from_str("12bl:cn").collect_all().unwrap();
    assert_eq!(Amount::from_vec(&mut tokens).unwrap(), Amount::PartOf(FullUnit::Boatload(Currency::Coin), 12));
    assert!(tokens.is_empty());
    let mut tokens = TokenIterator::from_str("xx:cn").collect_all().unwrap();
    match FullUnit::from_vec(&mut tokens) {
        Err(e) => {
            assert_eq!(e.kind, ErrorKind::InvalidPrefix);
            assert_eq!(e.message, "invalid prefix \"xx\" in unit");
        }
        r => panic!("unexpected {:?}", r),
    }
}

#[test]
fn token_extraction() {
    assert_eq!(Token::Integer(7).extract_int(), 7);
    assert_eq!(Token::Command("report".to_string()).extract_string(), "report");
    assert_eq!(Token::Op(Operator::Minus).extract_operator(), Operator::Minus);
}

#[test]
fn line_getters() {
    let day = treasuror::clock::Date { year: 2021, month: 1, day: 2 };
    let l = treasuror::parser::Line::with_date_from_str(day, "[03:04] #payday").unwrap();
    assert_eq!(l.get_datetime().time.minute, 4);
    assert!(matches!(l.get_action(), treasuror::parser::Command::Payday));
    assert!(matches!(
        treasuror::parser::Line::with_date_from_str(day, "  "),
        Err(AnyError::Syntax(_))
    ));
}
