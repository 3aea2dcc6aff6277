use treasuror::clock::Time;
use treasuror::parser::combinators::{
    bracketed, identifier, token_blob, token_command, token_float, token_identifier,
    token_integer, token_operator, token_separator, token_string, token_time,
};
use treasuror::parser::{Operator, Token};

fn float_value(t: &Token) -> f32 {
    match t {
        Token::Float(d) => format!("{}.{}", d.whole, d.fraction).parse::<f32>().unwrap(),
        _ => panic!("not a float token: {:?}", t),
    }
}

#[test]
fn combinators_bracketed_test() {
    assert_eq!(bracketed("[arst]dhneio"), Ok(("dhneio", "arst")))
}

#[test]
fn combinators_bracketed_test_fail() {
    assert!(bracketed("(arst)dhneio").is_err())
}

#[test]
fn combinators_time_test() {
    assert_eq!(token_time("[12:34]"), Ok(("", Token::Time(Time { hour: 12, minute: 34 }))))
}

#[test]
fn combinators_time_test_invalid_time() {
    assert!(token_time("[32:33]").is_err())
}

#[test]
fn combinators_time_test_bad_format() {
    assert!(token_time("[12;34").is_err())
}

#[test]
fn identifier_str_test() {
    assert_eq!(identifier("Trigon 5cn>Aris"), Ok((" 5cn>Aris", "Trigon")))
}

#[test]
fn combinators_identifier_test() {
    assert_eq!(
        token_identifier("Trigon 5cn>Aris"),
        Ok((" 5cn>Aris", Token::Identifier("Trigon".to_string())))
    )
}

#[test]
fn combinators_identifier_test_weird_chars() {
    assert_eq!(
        token_identifier("L&F_Dept. 331cn+"),
        Ok((" 331cn+", Token::Identifier("L&F_Dept.".to_string())))
    )
}

#[test]
fn combinators_identifier_test_numbers() {
    assert_eq!(token_identifier("Trigon12"), Ok(("12", Token::Identifier("Trigon".to_string()))))
}

#[test]
fn combinators_integer_test() {
    assert_eq!(token_integer("112"), Ok(("", Token::Integer(112))))
}

#[test]
fn combinators_integer_test_float() {
    assert_eq!(token_integer("1.205"), Ok((".205", Token::Integer(1))))
}

#[test]
fn combinators_integer_test_currency() {
    assert_eq!(token_integer("15bl:cn"), Ok(("bl:cn", Token::Integer(15))))
}

#[test]
fn combinators_blob_test() {
    assert_eq!(token_blob("*cn"), Ok(("cn", Token::Blob)))
}

#[test]
fn combinators_separator_test() {
    assert_eq!(token_separator(":cn"), Ok(("cn", Token::Separator)))
}

#[test]
fn combinators_float_test() {
    let (rest, token) = token_float("123.321").unwrap();
    assert_eq!(rest, "");
    assert_eq!(float_value(&token), 123.321f32);
}

#[test]
fn combinators_string_test() {
    assert_eq!(token_string(r#""boatload""#), Ok(("", Token::String("boatload".to_string()))))
}

#[test]
fn plus_test() {
    assert_eq!(token_operator("+5cn"), Ok(("5cn", Token::Op(Operator::Plus))))
}

#[test]
fn minus_test() {
    assert_eq!(token_operator("-10cn"), Ok(("10cn", Token::Op(Operator::Minus))))
}

#[test]
fn transfer_test() {
    assert_eq!(
        token_operator(">Cuddlebeam"),
        Ok(("", Token::Op(Operator::Transfer("Cuddlebeam".to_string()))))
    )
}

#[test]
fn command_test() {
    assert_eq!(token_command("#report"), Ok(("", Token::Command("report".to_string()))),)
}
