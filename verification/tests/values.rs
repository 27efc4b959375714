use eldiron::types::{Currency, Date, Position, TileData, TileId, TileUsage};
use eldiron::value::{truncate_float_bits, FloatNumber, Value};
use eldiron::text::int_to_text;
use eldiron::scan::{parse_i32, replace_target_variables, text_contains, trim_end_char};
use eldiron::arith::really_complicated_code;

#[test]
fn integer_value_converts_to_integer() {
    assert_eq!(Value::Integer(42).to_integer(), Some(42));
    assert_eq!(Value::Integer(-7).to_integer(), Some(-7));
}

#[test]
fn float_value_converts_truncated() {
    let f = 3.75f32;
    let v = Value::Float(FloatNumber { bits: f.to_bits(), text: format!("{:?}", f) });
    assert_eq!(v.to_integer(), Some(3));
    assert_eq!(v.to_string_value(), "3.75".to_string());
}

#[test]
fn non_numbers_do_not_convert_to_integer() {
    assert_eq!(Value::Bool(true).to_integer(), None);
    assert_eq!(Value::String("12".to_string()).to_integer(), None);
    assert_eq!(Value::Empty.to_integer(), None);
}

#[test]
fn string_value_to_string() {
    assert_eq!(Value::String("hello".to_string()).to_string(), Some("hello".to_string()));
    assert_eq!(Value::Integer(1).to_string(), None);
}

#[test]
fn string_value_of_integers_is_decimal() {
    assert_eq!(Value::Integer(0).to_string_value(), "0");
    assert_eq!(Value::Integer(1234).to_string_value(), "1234");
    assert_eq!(Value::Integer(-56).to_string_value(), "-56");
    assert_eq!(Value::Integer(i32::MIN).to_string_value(), "-2147483648");
    assert_eq!(Value::Bool(true).to_string_value(), "");
}

#[test]
fn int_to_text_matches_debug_format() {
    for v in [0, 9, 10, 99, 100, -1, -10, i32::MAX, i32::MIN, 12345] {
        assert_eq!(int_to_text(v), format!("{:?}", v));
    }
}

#[test]
fn position_and_tile_conversions() {
    let p = Position::new(7, 3, -4);
    assert_eq!(Value::Position(p).to_position(), Some(p));
    assert_eq!(Value::Integer(3).to_position(), None);
    let t = TileData { tilemap: 5, x_off: 1, y_off: 2, usage: TileUsage::Water };
    assert_eq!(Value::TileData(t).to_tile_data(), Some(t));
    assert_eq!(Value::TileData(t).to_tile_id(), Some(TileId::new(5, 1, 2)));
    assert_eq!(Value::Tile(9, 3, 4).to_tile_id(), Some(TileId::new(9, 3, 4)));
    assert_eq!(Value::TileId(TileId::new(1, 2, 3)).to_tile_id(), Some(TileId::new(1, 2, 3)));
    assert_eq!(Value::Empty.to_tile_id(), None);
    let d = Date { day: 2, hours: 13, minutes: 5 };
    assert_eq!(Value::Date(d).to_date(), Some(d));
}

#[test]
fn value_clone_is_equal() {
    let v = Value::String("abc".to_string());
    match v.clone() {
        Value::String(s) => assert_eq!(s, "abc"),
        _ => panic!("clone changed the variant"),
    }
}

#[test]
fn currency_of_gold_and_silver() {
    let v = Value::String("10g 5s".to_string());
    assert_eq!(v.to_currency(), Some(Currency::new(10, 5)));
}

#[test]
fn currency_of_gold_only() {
    assert_eq!(Value::String("buy for 25g".to_string()).to_currency(), Some(Currency::new(25, 0)));
}

#[test]
fn currency_of_silver_only() {
    assert_eq!(Value::String("3s".to_string()).to_currency(), Some(Currency::new(0, 3)));
}

#[test]
fn currency_takes_first_amounts() {
    assert_eq!(Value::String("1g 2g 7s 8s".to_string()).to_currency(), Some(Currency::new(1, 7)));
}

#[test]
fn no_currency_without_amounts() {
    assert_eq!(Value::String("nothing".to_string()).to_currency(), None);
    assert_eq!(Value::Integer(10).to_currency(), None);
}

#[test]
fn checked_currency_refuses_overflowing_amounts() {
    assert_eq!(Value::String("99999999999g".to_string()).checked_currency(), None);
    assert_eq!(Value::String("7g".to_string()).checked_currency(), Some(Some(Currency::new(7, 0))));
    assert_eq!(Value::Bool(false).checked_currency(), Some(None));
}

#[test]
fn parse_i32_reads_like_from_str() {
    for s in ["0", "42", "-42", "+7", "2147483647", "-2147483648", "2147483648", "", "-", "+", "1a", " 1", "007"] {
        assert_eq!(parse_i32(s), s.parse::<i32>().ok(), "text {:?}", s);
    }
}

#[test]
fn trim_end_removes_all_trailing() {
    assert_eq!(trim_end_char("12ggg", 'g'), "12");
    assert_eq!(trim_end_char("g1g", 'g'), "g1");
    assert_eq!(trim_end_char("", 'g'), "");
    assert_eq!(trim_end_char("ggg", 'g'), "");
}

#[test]
fn text_contains_finds_substrings() {
    assert!(text_contains("let a = ${Target}.hp;", "${Target}"));
    assert!(text_contains("abc", ""));
    assert!(!text_contains("abc", "abcd"));
    assert!(!text_contains("a$b", "${"));
}

#[test]
fn target_variables_are_replaced() {
    assert_eq!(
        replace_target_variables("${Target}.health - 1".to_string()),
        "target[\"health\"] - 1".to_string()
    );
    assert_eq!(
        replace_target_variables("${Target}.a + ${Target}.b".to_string()),
        "target[\"a\"] + target[\"b\"]".to_string()
    );
}

#[test]
fn scripts_without_target_stay() {
    assert_eq!(replace_target_variables("x + 1".to_string()), "x + 1".to_string());
}

#[test]
fn really_complicated_code_adds() {
    assert!(matches!(really_complicated_code(2, 2), Ok(4)));
    assert!(matches!(really_complicated_code(200, 55), Ok(255)));
}

#[test]
fn integer_text_reads_back() {
    for v in [0, 1, -1, 42, -2147483648, 2147483647, 1000000] {
        assert_eq!(parse_i32(&int_to_text(v)), Some(v));
    }
}

#[test]
fn float_bits_truncate_as_casts_do() {
    let samples = [
        0.0f32, -0.0, 0.5, -0.99, 1.0, -1.0, 3.75, -3.75, 255.9, 8388607.5, 16777216.0, -123456789.0,
        2147483520.0, 2147483648.0, -2147483648.0, -3.0e9, 1.0e30, -1.0e-30,
        f32::MAX, f32::MIN, f32::INFINITY, f32::NEG_INFINITY, f32::NAN, f32::MIN_POSITIVE,
    ];
    for f in samples {
        assert_eq!(truncate_float_bits(f.to_bits()), f as i32, "{:?}", f);
    }
}
