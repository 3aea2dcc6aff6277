use treasuror::clock::Time;
use treasuror::parser::{Operator, Token, TokenIterator};

#[test]
fn test_tll_1() {
    assert_eq!(
        TokenIterator::with_source("[01:23] Trigon 5bl:cn+").collect_all(),
        Ok(vec![
            Token::Time(Time { hour: 1, minute: 23 }),
            Token::Identifier("Trigon".to_string()),
            Token::Integer(5),
            Token::Identifier("bl".to_string()),
            Token::Separator,
            Token::Identifier("cn".to_string()),
            Token::Op(Operator::Plus),
        ])
    )
}

#[test]
fn test_tll_2() {
    assert_eq!(
        TokenIterator::with_source("[21:52] Cuddlebeam *>CB_Locker").collect_all(),
        Ok(vec![
            Token::Time(Time { hour: 21, minute: 52 }),
            Token::Identifier("Cuddlebeam".to_string()),
            Token::Blob,
            Token::Op(Operator::Transfer("CB_Locker".to_string())),
        ])
    )
}

#[test]
fn test_gdsl_1() {
    let tokens = TokenIterator::with_source("FLOTATION 10.0000").collect_all().unwrap();
    assert_eq!(tokens.len(), 2);
    assert_eq!(tokens[0], Token::Identifier("FLOTATION".to_string()));
    match &tokens[1] {
        Token::Float(d) => {
            assert_eq!(format!("{}.{}", d.whole, d.fraction).parse::<f32>().unwrap(), 10.0f32)
        }
        t => panic!("not a float token: {:?}", t),
    }
}

#[test]
fn test_gdsl_2() {
    assert_eq!(
        TokenIterator::with_source(r#"ENT P L&F_Dept. "Lost and Found Department" 12024cn"#)
            .collect_all(),
        Ok(vec![
            Token::Identifier("ENT".to_string()),
            Token::Identifier("P".to_string()),
            Token::Identifier("L&F_Dept.".to_string()),
            Token::String("Lost and Found Department".to_string()),
            Token::Integer(12024),
            Token::Identifier("cn".to_string()),
        ])
    )
}

#[test]
fn iterator_yields_tokens_one_by_one() {
    let mut it = TokenIterator::with_source("Trigon +");
    assert_eq!(it.next(), Some(Ok(Token::Identifier("Trigon".to_string()))));
    assert_eq!(it.next(), Some(Ok(Token::Op(Operator::Plus))));
    assert_eq!(it.next(), None);
}

#[test]
fn untokenizable_text_is_an_error() {
    assert!(TokenIterator::with_source("Trigon ? 5cn").collect_all().is_err());
}
