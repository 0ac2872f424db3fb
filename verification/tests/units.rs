use sfz_parser::control::{add_define_directives, add_include_directives, add_label_ccns,
    add_set_ccns, parse_cc_label, parse_cc_var, parse_default_path, parse_set_ccn, split_label,
    Control};
use sfz_parser::lexer::{parse_identifier, parse_value, take_to_newline, white_space,
    scan_quoted_value, is_alphanumeric_underscore};
use sfz_parser::numbers::{parse_dec, parse_int, parse_uint, Decimal};
use sfz_parser::preprocess::{parse_define_line, parse_include_line, preprocess, ContentProvider,
    DefineDirective, DefScan, IncScan, MacroTable};
use sfz_parser::refinements::{EightThousandOneNinetyTwoNegToPos, FloatZeroToFiveHundred,
    FloatZeroToOne, FloatZeroToOneHundred, FloatZeroToThirtyTwo, NegOneToU32BitMax,
    OneToOneHundred, ZeroToOneTwentySeven, ZeroToSixteen, ZeroToU32BitMax};
use sfz_parser::taxonomy::{classify, Classified};
use sfz_parser::tokenizer::{tokenize, tag_of, HeaderType, RawOpcode};

fn cv(s: &str) -> Vec<char> {
    s.chars().collect()
}

fn sv(v: &[char]) -> String {
    v.iter().collect()
}

#[test]
fn identifier_scanning_skips_leading_whitespace() {
    let s = cv("  key=1");
    let (start, end) = parse_identifier(&s, 0);
    assert_eq!((start, end), (2, 5));
}

#[test]
fn identifier_scanning_accepts_a_zero_length_run() {
    let s = cv("  =x");
    let (start, end) = parse_identifier(&s, 0);
    assert_eq!(start, end);
}

#[test]
fn bare_value_stops_at_whitespace_and_equals() {
    let s = cv("abc=def ghi");
    assert_eq!(parse_value(&s, 0), 3);
    assert_eq!(parse_value(&s, 4), 7);
}

#[test]
fn take_to_newline_stops_at_the_line_feed() {
    let s = cv("one\ntwo");
    assert_eq!(take_to_newline(&s, 0), 3);
    assert_eq!(take_to_newline(&s, 4), 7);
}

#[test]
fn whitespace_scan_returns_first_dark_position() {
    let s = cv("\t\r\n x");
    assert_eq!(white_space(&s, 0), 4);
}

#[test]
fn quoted_value_honors_escapes() {
    // the backslash escapes a quote or a backslash; otherwise it is literal
    let s = cv("a \\\" b\\\\c\" rest");
    let (content, end) = scan_quoted_value(&s, 0).unwrap();
    assert_eq!(sv(&content), "a \" b\\c");
    assert_eq!(s[end - 1], '"');
}

#[test]
fn unterminated_quote_fails() {
    let s = cv("abc");
    assert!(scan_quoted_value(&s, 0).is_none());
}

#[test]
fn ident_chars_are_alphanumeric_or_underscore() {
    assert!(is_alphanumeric_underscore('a'));
    assert!(is_alphanumeric_underscore('Z'));
    assert!(is_alphanumeric_underscore('7'));
    assert!(is_alphanumeric_underscore('_'));
    assert!(!is_alphanumeric_underscore('-'));
    assert!(!is_alphanumeric_underscore('$'));
}

#[test]
fn unsigned_and_signed_parsing() {
    let s = cv("00127");
    assert_eq!(parse_uint(&s, 0, 5), Some(127));
    let neg = cv("-42");
    assert_eq!(parse_int(&neg, 0, 3), Some(-42));
    let bad = cv("4x2");
    assert_eq!(parse_int(&bad, 0, 3), None);
    let empty = cv("");
    assert_eq!(parse_uint(&empty, 0, 0), None);
}

#[test]
fn decimal_parsing_keeps_the_written_form() {
    let s = cv("-3.250");
    assert_eq!(
        parse_dec(&s, 0, 6),
        Some(Decimal { neg: true, mantissa: 3250, scale: 3 })
    );
    let plain = cv("12");
    assert_eq!(
        parse_dec(&plain, 0, 2),
        Some(Decimal { neg: false, mantissa: 12, scale: 0 })
    );
    let dot_only = cv(".5");
    assert_eq!(parse_dec(&dot_only, 0, 2), None);
    let trailing_dot = cv("5.");
    assert_eq!(parse_dec(&trailing_dot, 0, 2), None);
}

#[test]
fn define_line_scanning() {
    let line = cv("#define $EXT wav");
    match parse_define_line(&line) {
        DefScan::Binding(DefineDirective { define_name, define_value }) => {
            assert_eq!(sv(&define_name), "EXT");
            assert_eq!(sv(&define_value), "wav");
        }
        other => panic!("expected a binding, got {:?}", other),
    }
    assert!(matches!(parse_define_line(&cv("#define EXT wav")), DefScan::Bad));
    assert!(matches!(parse_define_line(&cv("lokey=1")), DefScan::NotDirective));
}

#[test]
fn include_line_scanning() {
    let line = cv("#include \"data/a.sfz\"");
    match parse_include_line(&line) {
        IncScan::Path(p) => assert_eq!(sv(&p), "data/a.sfz"),
        other => panic!("expected a path, got {:?}", other),
    }
    assert!(matches!(parse_include_line(&cv("#include nope")), IncScan::Bad));
    assert!(matches!(parse_include_line(&cv("lokey=1")), IncScan::NotDirective));
}

#[test]
fn shadowing_definition_wins() {
    let text = cv("#define $A one\n#define $A two\nk=$A\n");
    let provider = ContentProvider::new();
    let out = preprocess(&text, &provider).unwrap();
    assert!(sv(&out.text).contains("k=two"));
    let table: &MacroTable = &out.table;
    assert_eq!(sv(table.get(&cv("A")).unwrap()), "two");
}

#[test]
fn tokenizer_splits_blocks_in_order() {
    let text = cv("<global>\nvolume=1\n<region>\nlokey=1\nhikey=2\n");
    let blocks = tokenize(&text).unwrap();
    assert_eq!(blocks.len(), 2);
    assert_eq!(blocks[0].tag, HeaderType::Global);
    assert_eq!(blocks[1].tag, HeaderType::Region);
    assert_eq!(blocks[1].opcodes.len(), 2);
    assert_eq!(sv(&blocks[1].opcodes[0].key), "lokey");
    assert_eq!(sv(&blocks[1].opcodes[1].value), "2");
}

#[test]
fn tag_names_map_to_header_kinds() {
    assert_eq!(tag_of(&cv("control")), Some(HeaderType::Control));
    assert_eq!(tag_of(&cv("global")), Some(HeaderType::Global));
    assert_eq!(tag_of(&cv("master")), Some(HeaderType::Master));
    assert_eq!(tag_of(&cv("group")), Some(HeaderType::Group));
    assert_eq!(tag_of(&cv("region")), Some(HeaderType::Region));
    assert_eq!(tag_of(&cv("curve")), Some(HeaderType::Curve));
    assert_eq!(tag_of(&cv("effect")), Some(HeaderType::Effect));
    assert_eq!(tag_of(&cv("midi")), None);
    assert_eq!(tag_of(&cv("sample")), None);
}

#[test]
fn classification_is_unknown_for_foreign_keys() {
    let op = RawOpcode { key: cv("vendor_x"), value: cv("1"), pos: 0 };
    assert_eq!(classify(&op).unwrap(), Classified::Unknown);
}

#[test]
fn control_helpers_extract_indices() {
    assert_eq!(parse_cc_var(&cv("label_cc30"), "label_cc"), Some(30));
    assert_eq!(parse_cc_var(&cv("label_ccx"), "label_cc"), None);
    assert_eq!(parse_cc_var(&cv("label_cc"), "label_cc"), None);
    match parse_cc_label(&cv("label_cc30"), &cv("Bass vol")) {
        Some((30, p, Some(q))) => {
            assert_eq!(sv(&p), "Bass");
            assert_eq!(sv(&q), "vol");
        }
        other => panic!("unexpected {:?}", other),
    }
    assert_eq!(parse_set_ccn(&cv("set_cc40"), &cv("127")), Some(Ok((40, 127))));
    assert_eq!(parse_set_ccn(&cv("set_cc40"), &cv("128")), Some(Err(())));
    assert_eq!(parse_set_ccn(&cv("lokey"), &cv("1")), None);
    assert_eq!(parse_default_path(&cv("default_path"), &cv("S/")), Some(cv("S/")));
    assert_eq!(parse_default_path(&cv("lokey"), &cv("S/")), None);
}

#[test]
fn label_splitting_takes_the_second_token_as_qualifier() {
    let (p, q) = split_label(&cv("Bass vol extra"));
    assert_eq!(sv(&p), "Bass");
    assert_eq!(sv(&q.unwrap()), "vol");
    let (p2, q2) = split_label(&cv("Mute"));
    assert_eq!(sv(&p2), "Mute");
    assert!(q2.is_none());
}

#[test]
fn control_record_accumulators() {
    let mut c = Control::new();
    add_set_ccns(&mut c, vec![(40, 10), (40, 127), (100, 30)]);
    assert_eq!(*c.set_ccn.get(40).unwrap(), 127u8);
    assert_eq!(*c.set_ccn.get(100).unwrap(), 30u8);
    add_label_ccns(&mut c, vec![(30, cv("Bass vol")), (33, cv("Mute"))]);
    let l = c.label_ccn.get(30).unwrap();
    assert_eq!(sv(&l.0), "Bass");
    assert_eq!(sv(l.1.as_ref().unwrap()), "vol");
    add_include_directives(&mut c, vec![cv("a.sfz"), cv("b.sfz")]);
    assert_eq!(c.include_directives.len(), 2);
    add_define_directives(
        &mut c,
        vec![DefineDirective { define_name: cv("EXT"), define_value: cv("wav") }],
    );
    assert_eq!(sv(c.define_directives.get(&cv("EXT")).unwrap()), "wav");
}

#[test]
fn range_predicates_decide_membership() {
    assert!(ZeroToSixteen::test(&16));
    assert!(!ZeroToSixteen::test(&17));
    assert!(ZeroToOneTwentySeven::test(&127));
    assert!(!ZeroToOneTwentySeven::test(&128));
    assert!(EightThousandOneNinetyTwoNegToPos::test(&-8192));
    assert!(!EightThousandOneNinetyTwoNegToPos::test(&8193));
    assert!(OneToOneHundred::test(&1));
    assert!(!OneToOneHundred::test(&0));
    assert!(ZeroToU32BitMax::test(&u32::MAX));
    assert!(NegOneToU32BitMax::test(&-1));
    assert!(!NegOneToU32BitMax::test(&-2));
    let one = Decimal { neg: false, mantissa: 10, scale: 1 };
    assert!(FloatZeroToOne::test(&one));
    let over_one = Decimal { neg: false, mantissa: 101, scale: 2 };
    assert!(!FloatZeroToOne::test(&over_one));
    let bpm = Decimal { neg: false, mantissa: 5000, scale: 1 };
    assert!(FloatZeroToFiveHundred::test(&bpm));
    let pct = Decimal { neg: false, mantissa: 100, scale: 0 };
    assert!(FloatZeroToOneHundred::test(&pct));
    let xf = Decimal { neg: false, mantissa: 3201, scale: 2 };
    assert!(!FloatZeroToThirtyTwo::test(&xf));
}
