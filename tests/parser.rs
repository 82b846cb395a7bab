use baby_names::decimal::{chars_of, parse_unsigned, strip_commas};
use baby_names::export::{parse_cells, Field, ParseError, YearNames};

fn cells(texts: &[&str]) -> Vec<String> {
    texts.iter().map(|t| t.to_string()).collect()
}

fn unsigned(text: &str) -> Option<usize> {
    parse_unsigned(&chars_of(text))
}

const PAGE: &str = "<html><body><table>\
<tr><th>Rank</th><th>Male name</th><th>Number</th><th>Female name</th><th>Number</th></tr>\
<tr align=\"right\"><td>1</td><td>John</td><td>9,655</td><td>Mary</td><td>7,065</td></tr>\
<tr align=\"right\"><td>2</td><td>William</td><td>9,532</td><td>Anna</td><td>2,604</td></tr>\
<tr><td>Total</td><td>1</td><td>2</td><td>3</td><td>4</td></tr>\
</table></body></html>";

#[test]
fn reads_plain_and_signed_numbers() {
    assert_eq!(unsigned("0"), Some(0));
    assert_eq!(unsigned("1000"), Some(1000));
    assert_eq!(unsigned("+42"), Some(42));
    assert_eq!(unsigned("18446744073709551615"), Some(usize::MAX));
}

#[test]
fn refuses_non_numbers() {
    assert_eq!(unsigned(""), None);
    assert_eq!(unsigned("+"), None);
    assert_eq!(unsigned("-3"), None);
    assert_eq!(unsigned("12a"), None);
    assert_eq!(unsigned("18446744073709551616"), None);
}

#[test]
fn strips_thousands_separators() {
    let digits = strip_commas(&chars_of("1,234,567"));
    assert_eq!(digits.iter().collect::<String>(), "1234567");
    assert_eq!(parse_unsigned(&digits), Some(1234567));
}

#[test]
fn parses_rows_into_both_sexes() {
    let y = parse_cells(&cells(&["1", "John", "9,655", "Mary", "7,065", "2", "William", "9,532", "Anna", "2,604"])).unwrap();
    assert_eq!(y.male.len(), 2);
    assert_eq!(y.female.len(), 2);
    assert_eq!((y.male[0].rank, y.male[0].name.as_str(), y.male[0].uses), (1, "John", 9655));
    assert_eq!((y.male[1].rank, y.male[1].name.as_str(), y.male[1].uses), (2, "William", 9532));
    assert_eq!((y.female[0].rank, y.female[0].name.as_str(), y.female[0].uses), (1, "Mary", 7065));
    assert_eq!((y.female[1].rank, y.female[1].name.as_str(), y.female[1].uses), (2, "Anna", 2604));
}

#[test]
fn no_cells_give_no_names() {
    let y = parse_cells(&Vec::new()).unwrap();
    assert!(y.male.is_empty());
    assert!(y.female.is_empty());
}

#[test]
fn partial_row_is_malformed() {
    match parse_cells(&cells(&["1", "John", "9,655", "Mary", "7,065", "2", "William"])) {
        Err(ParseError::Malformed { leftover }) => assert_eq!(leftover, 2),
        other => panic!("unexpected {:?}", other),
    }
}

#[test]
fn partial_row_is_malformed_before_bad_numbers() {
    match parse_cells(&cells(&["x", "John", "y", "Mary", "z", "1"])) {
        Err(ParseError::Malformed { leftover }) => assert_eq!(leftover, 1),
        other => panic!("unexpected {:?}", other),
    }
}

#[test]
fn empty_male_name_keeps_female_record() {
    let y = parse_cells(&cells(&["998", "", "", "Zelma", "5"])).unwrap();
    assert!(y.male.is_empty());
    assert_eq!(y.female.len(), 1);
    assert_eq!((y.female[0].rank, y.female[0].name.as_str(), y.female[0].uses), (998, "Zelma", 5));
}

#[test]
fn empty_female_name_keeps_male_record() {
    let y = parse_cells(&cells(&["999", "Zeke", "1,001", "", "n/a"])).unwrap();
    assert!(y.female.is_empty());
    assert_eq!(y.male.len(), 1);
    assert_eq!((y.male[0].rank, y.male[0].name.as_str(), y.male[0].uses), (999, "Zeke", 1001));
}

#[test]
fn bad_rank_is_a_number_error() {
    match parse_cells(&cells(&["one", "John", "5", "Mary", "6"])) {
        Err(ParseError::Number { field, text }) => {
            assert_eq!(field, Field::Rank);
            assert_eq!(text, "one");
        }
        other => panic!("unexpected {:?}", other),
    }
}

#[test]
fn bad_uses_is_a_number_error() {
    match parse_cells(&cells(&["1", "John", "5", "Mary", "6x"])) {
        Err(ParseError::Number { field, text }) => {
            assert_eq!(field, Field::FemaleUses);
            assert_eq!(text, "6x");
        }
        other => panic!("unexpected {:?}", other),
    }
    match parse_cells(&cells(&["1", "John", "", "Mary", "6"])) {
        Err(ParseError::Number { field, .. }) => assert_eq!(field, Field::MaleUses),
        other => panic!("unexpected {:?}", other),
    }
}

#[test]
fn parses_html_page() {
    let y = YearNames::parse_request(PAGE.to_string()).unwrap();
    assert_eq!(y.male.len(), 2);
    assert_eq!(y.female.len(), 2);
    assert_eq!((y.male[1].rank, y.male[1].name.as_str(), y.male[1].uses), (2, "William", 9532));
    assert_eq!((y.female[0].rank, y.female[0].name.as_str(), y.female[0].uses), (1, "Mary", 7065));
}

#[test]
fn page_without_table_has_no_names() {
    let y = YearNames::parse_request("<html><body><p>none</p></body></html>".to_string()).unwrap();
    assert!(y.male.is_empty());
    assert!(y.female.is_empty());
}

#[test]
fn parsing_twice_gives_the_same_names() {
    let a = YearNames::parse_request(PAGE.to_string()).unwrap();
    let b = YearNames::parse_request(PAGE.to_string()).unwrap();
    assert_eq!(format!("{:?}", a), format!("{:?}", b));
}

#[test]
fn cell_attributes_keep_source_order() {
    let page = "<table><tr align=\"right\"><td>3</td><td><b id=\"m\" class=\"x\" title=\"t\">Ann</b></td><td>1</td><td></td><td></td></tr></table>";
    for _ in 0..20 {
        let y = YearNames::parse_request(page.to_string()).unwrap();
        assert_eq!(y.male.len(), 1);
        assert_eq!(y.male[0].name, "<b id=\"m\" class=\"x\" title=\"t\">Ann</b>");
        assert!(y.female.is_empty());
    }
}
