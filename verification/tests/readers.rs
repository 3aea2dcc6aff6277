use treasuror::clock::Date;
use treasuror::parser::directive::Directive;
use treasuror::parser::gsdl::{GsdlEvent, Parser as StateParser};
use treasuror::parser::tll::{Parser as LogParser, TllEvent};
use treasuror::parser::{AnyError, Command, ErrorKind};

#[test]
fn state_reader_skips_blank_lines() {
    let mut p = StateParser::new();
    assert!(matches!(p.feed("   \n"), GsdlEvent::Skip));
    match p.feed("FORBES 12\n") {
        GsdlEvent::Directive(Ok(Directive::Forbes(12))) => {}
        e => panic!("unexpected {:?}", e),
    }
    assert_eq!(p.linum(), 2);
}

#[test]
fn state_reader_reports_bad_directives() {
    let mut p = StateParser::new();
    match p.feed("WHATEVER 1") {
        GsdlEvent::Directive(Err(AnyError::Syntax(e))) => {
            assert_eq!(e.kind, ErrorKind::UnrecognizedDirective);
            assert_eq!(e.message, "no such directive: whatever");
        }
        e => panic!("unexpected {:?}", e),
    }
}

#[test]
fn directive_errors() {
    match Directive::with_source("FORBES many") {
        Err(AnyError::Syntax(e)) => {
            assert_eq!(e.kind, ErrorKind::ExpectedInteger);
            assert_eq!(e.message, "FORBES requires an integer argunent");
        }
        r => panic!("unexpected {:?}", r),
    }
    match Directive::with_source("ASSETS cn zz") {
        Err(AnyError::Syntax(e)) => assert_eq!(e.kind, ErrorKind::InvalidCurrency),
        r => panic!("unexpected {:?}", r),
    }
    match Directive::with_source("") {
        Err(AnyError::Syntax(e)) => assert_eq!(e.kind, ErrorKind::Empty),
        r => panic!("unexpected {:?}", r),
    }
    match Directive::with_source("date [2021-03-01]") {
        Ok(Directive::Date(d)) => assert_eq!(d, Date { year: 2021, month: 3, day: 1 }),
        r => panic!("unexpected {:?}", r),
    }
}

#[test]
fn log_reader_blocks() {
    let mut p = LogParser::new();
    assert!(matches!(p.feed("2021-03-01\n"), TllEvent::Skip));
    assert_eq!(p.date(), Some(Date { year: 2021, month: 3, day: 1 }));
    match p.feed("[10:30] #report\n") {
        TllEvent::Line(Ok(l)) => {
            assert_eq!(l.datetime().time.hour, 10);
            assert!(matches!(l.action(), Command::Report));
        }
        e => panic!("unexpected {:?}", e),
    }
    assert!(matches!(p.feed("\n"), TllEvent::Skip));
    assert_eq!(p.date(), None);
    assert!(matches!(p.feed("not a date\n"), TllEvent::Stray));
    assert_eq!(p.linum(), 5);
}

#[test]
fn log_reader_reports_bad_lines() {
    let mut p = LogParser::new();
    p.feed("2021-03-01");
    match p.feed("#nosuchthing") {
        TllEvent::Line(Err(AnyError::Syntax(e))) => {
            assert_eq!(e.kind, ErrorKind::UnrecognizedCommand)
        }
        e => panic!("unexpected {:?}", e),
    }
}
