use neolisp::digits::int_text_i32;
use neolisp::digits::nat_text_u64;
use neolisp::float::f32bits_of_i32;
use neolisp::float::f32bits_of_u64;
use neolisp::float::f32bits_to_i32;
use neolisp::float::float_text;
use neolisp::location::DirectLocation;
use neolisp::location::Location;
use neolisp::object::Object;
use neolisp::object::ObjectInfo;

#[test]
fn truthiness_follows_the_table() {
    assert_eq!(Object::nil().to_bool(), false);
    assert_eq!(Object::bool(true).to_bool(), true);
    assert_eq!(Object::bool(false).to_bool(), false);
    assert_eq!(Object::integer(0).to_bool(), false);
    assert_eq!(Object::integer(5).to_bool(), true);
    assert_eq!(Object::float(0.0f32.to_bits()).to_bool(), false);
    assert_eq!(Object::float((-0.0f32).to_bits()).to_bool(), false);
    assert_eq!(Object::float(1.0f32.to_bits()).to_bool(), true);
    assert_eq!(Object::char('\0').to_bool(), false);
    assert_eq!(Object::char('a').to_bool(), true);
    assert_eq!(Object::string(String::new()).to_bool(), false);
    assert_eq!(Object::string("x".to_string()).to_bool(), true);
    assert_eq!(Object::keyword(String::new()).to_bool(), false);
    assert_eq!(Object::keyword("k".to_string()).to_bool(), true);
    assert_eq!(Object::symbol("s".to_string()).to_bool(), true);
    assert_eq!(Object::list(vec![]).to_bool(), false);
    assert_eq!(Object::list(vec![Object::nil()]).to_bool(), true);
}

#[test]
fn integer_conversion_matches_the_host_casts() {
    assert_eq!(Object::nil().to_integer(), 0);
    assert_eq!(Object::bool(true).to_integer(), 1);
    assert_eq!(Object::char('A').to_integer(), 65);
    assert_eq!(Object::string("four".to_string()).to_integer(), 4);
    assert_eq!(Object::list(vec![Object::nil(), Object::nil()]).to_integer(), 2);
    for f in [0.0f32, 1.5, -2.9, 3.999, -0.1, 1.0e10, -1.0e10, f32::NAN, f32::INFINITY] {
        assert_eq!(Object::float(f.to_bits()).to_integer(), f as i32);
    }
}

#[test]
fn float_conversion_matches_the_host_casts() {
    for n in [0i32, 1, -1, 7, 100, 16_777_217, -16_777_219, i32::MAX, i32::MIN] {
        assert_eq!(f32bits_of_i32(n), (n as f32).to_bits());
    }
    for n in [0u64, 1, 42, 1 << 24, (1 << 24) + 1, (1 << 24) + 3, u64::MAX / 3] {
        assert_eq!(f32bits_of_u64(n), (n as f32).to_bits());
    }
    for f in [0.5f32, -8.25, 1.0e20, -1.0e20, f32::NAN] {
        assert_eq!(f32bits_to_i32(f.to_bits()), f as i32);
    }
    assert_eq!(Object::string("four".to_string()).to_float(), 4.0f32.to_bits());
}

#[test]
fn char_conversion_takes_code_points_and_lengths() {
    assert_eq!(Object::integer(65).to_char(), 'A');
    assert_eq!(Object::integer(-1).to_char(), '\0');
    assert_eq!(Object::string("zap".to_string()).to_char(), '\u{3}');
    assert_eq!(Object::string(String::new()).to_char(), '\0');
    assert_eq!(Object::keyword("keys".to_string()).to_char(), '\u{4}');
    assert_eq!(Object::list(vec![Object::nil(), Object::nil()]).to_char(), '\u{2}');
    assert_eq!(Object::list(vec![]).to_char(), '\0');
    assert_eq!(Object::bool(true).to_char(), '\u{1}');
    assert_eq!(Object::float(66.9f32.to_bits()).to_char(), 'B');
}

#[test]
fn text_conversion_renders_values_plainly() {
    assert_eq!(Object::nil().to_string(), "nil");
    assert_eq!(Object::bool(false).to_string(), "false");
    assert_eq!(Object::integer(-12).to_string(), "-12");
    assert_eq!(Object::char('x').to_string(), "x");
    assert_eq!(Object::string("raw".to_string()).to_string(), "raw");
    assert_eq!(Object::keyword("key".to_string()).to_string(), "key");
    let l = Object::list(vec![Object::integer(1), Object::integer(2)]);
    assert_eq!(l.to_string(), "(1 2 )");
    assert_eq!(l.to_keyword(), "(1 2 )");
    assert_eq!(l.to_symbol(), "(1 2 )");
}

#[test]
fn float_text_is_the_exact_decimal_expansion() {
    assert_eq!(float_text(1.5f32.to_bits()), "1.5");
    assert_eq!(float_text(0.25f32.to_bits()), "0.25");
    assert_eq!(float_text(7.0f32.to_bits()), "7");
    assert_eq!(float_text((-2.0f32).to_bits()), "-2");
    assert_eq!(float_text(0.0f32.to_bits()), "0");
    assert_eq!(float_text((-0.0f32).to_bits()), "-0");
    assert_eq!(float_text(f32::NAN.to_bits()), "NaN");
    assert_eq!(float_text(f32::INFINITY.to_bits()), "inf");
    assert_eq!(float_text(f32::NEG_INFINITY.to_bits()), "-inf");
    assert_eq!(float_text(0.1f32.to_bits()), "0.100000001490116119384765625");
}

#[test]
fn display_quotes_strings_and_names_control_chars() {
    assert_eq!(Object::string("a\"b".to_string()).display_string(), "\"a\\\"b\"");
    assert_eq!(Object::char('\n').display_string(), "#newline");
    assert_eq!(Object::char(' ').display_string(), "#space");
    assert_eq!(Object::char('y').display_string(), "#y");
    assert_eq!(Object::keyword("k".to_string()).display_string(), ":k");
    let l = Object::list(vec![Object::integer(1), Object::integer(2)]);
    assert_eq!(l.display_string(), "(1 2)");
}

#[test]
fn stringify_collapses_lists_past_the_depth_limit() {
    let inner = Object::list(vec![Object::integer(2)]);
    let l = Object::list(vec![Object::integer(1), inner]);
    assert_eq!(l.stringify(1), "(1 (...))");
    assert_eq!(l.stringify(2), "(1 (2))");
    assert_eq!(l.stringify(0), "(...)");
}

#[test]
fn list_conversion_wraps_or_unwraps() {
    assert_eq!(Object::nil().to_list().len(), 0);
    let single = Object::integer(9).to_list();
    assert_eq!(single.len(), 1);
    assert_eq!(single[0].as_integer(), Some(9));
    let l = Object::list(vec![Object::integer(1)]);
    assert_eq!(l.to_list().len(), 1);
}

#[test]
fn decimal_text_helpers_render_exactly() {
    assert_eq!(nat_text_u64(0), "0");
    assert_eq!(nat_text_u64(90125), "90125");
    assert_eq!(int_text_i32(-123), "-123");
    assert_eq!(int_text_i32(i32::MIN), "-2147483648");
}

#[test]
fn completing_a_location_counts_lines_and_columns() {
    let source = "ab\ncd\nefg";
    let mut d = DirectLocation::new_light(7, 9);
    assert_eq!(d.length, 2);
    d.complete("file.nl", source);
    assert_eq!(d.file, "file.nl");
    assert_eq!(d.line, 3);
    // The column counts from the last newline itself, one based.
    assert_eq!(d.column, 3);
    let mut first = DirectLocation::new_light(0, 2);
    first.complete("file.nl", source);
    assert_eq!(first.line, 1);
    assert_eq!(first.column, 1);
}

#[test]
fn completing_a_tree_fills_every_direct_location() {
    let source = "a\nbc";
    let leaf = Object::Symbol(
        ObjectInfo::new(Location::new_direct(2, 4)),
        "bc".to_string(),
    );
    let mut tree = Object::List(ObjectInfo::new(Location::new_direct(0, 4)), vec![leaf]);
    tree.complete_location("in.nl", source);
    let top = tree.get_info().location.as_direct().unwrap();
    assert_eq!(top.line, 1);
    assert_eq!(top.file, "in.nl");
    let inner = tree.get_list()[0].get_info().location.as_direct().unwrap();
    assert_eq!(inner.line, 2);
    assert_eq!(inner.column, 2);
}

#[test]
fn kind_names_match_their_kinds() {
    assert_eq!(Object::nil().kind_string(), "Nil");
    assert_eq!(Object::float(0).kind_string(), "Float");
    assert_eq!(Object::list(vec![]).kind_string(), "List");
}
