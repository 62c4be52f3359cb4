use eos::fmt::{ParseError, Parser};
use eos::isoformat::IsoParser;

#[test]
fn fmt_test_parse_year() {
    let mut parser = Parser::new("2012-02-13");
    assert_eq!(parser.parse_year(), Ok(2012));
    assert_eq!(parser.advance(), Some(b'-'));

    let mut parser = Parser::new("-2012-02-13");
    assert_eq!(parser.parse_year(), Ok(-2012));
    assert_eq!(parser.advance(), Some(b'-'));

    let mut parser = Parser::new("-45678-02-13");
    assert_eq!(parser.parse_year(), Err(ParseError::OutOfBounds));

    let mut parser = Parser::new("234");
    assert_eq!(parser.parse_year(), Err(ParseError::UnexpectedEnd));

    let mut parser = Parser::new("234a");
    assert_eq!(parser.parse_year(), Err(ParseError::UnexpectedNonDigit));
}

#[test]
fn isoformat_test_parse_year() {
    let mut parser = IsoParser::new("2012-02-13");
    assert_eq!(parser.parse_year(), Ok(2012));
    assert_eq!(parser.advance(), Some(b'-'));

    let mut parser = IsoParser::new("-2012-02-13");
    assert_eq!(parser.parse_year(), Ok(-2012));
    assert_eq!(parser.advance(), Some(b'-'));

    let mut parser = IsoParser::new("-45678-02-13");
    assert_eq!(parser.parse_year(), Err(ParseError::OutOfBounds));

    let mut parser = IsoParser::new("234");
    assert_eq!(parser.parse_year(), Err(ParseError::UnexpectedEnd));

    let mut parser = IsoParser::new("234a");
    assert_eq!(parser.parse_year(), Err(ParseError::UnexpectedNonDigit));
}
