use rusty_uxn::uxnasmlib::assembler::prog_state::Label;
use rusty_uxn::uxnasmlib::assembler::text::{split_to_token_strings, strip_comments};
use rusty_uxn::uxnasmlib::assembler::tokens::{LabelRef, ParseError, UxnToken};
use rusty_uxn::uxnasmlib::assembler::{validate_tokens, Asm, AsmError};

fn strings(v: Vec<&str>) -> Vec<String> {
    v.into_iter().map(|t| t.to_owned()).collect::<Vec<_>>()
}

fn label_with_subs(address: u16, subs: Vec<(&str, u16)>) -> Label {
    let mut label = Label::new(address);
    for (name, a) in subs {
        label.sub_labels.push((name.to_owned(), a));
    }
    label
}

// test `split_to_token_strings` function; create input with bracket separators and assert
// that it is split as expected into token strings
#[test]
fn test_split_to_token_strings() {
    let input = vec![
        "tokenA tokenB tokenC{tokenD".to_owned(),
        "}tokenE               (tokenF            tokenG".to_owned(),
    ];

    assert_eq!(
        split_to_token_strings(&input),
        strings(vec!["tokenA", "tokenB", "tokenC", "{", "tokenD", "}", "tokenE", "(", "tokenF", "tokenG"])
    );
}

// test `strip_comments` function; create token string input and assert that token strings
// laying between '(' ')' tokens are removed from the input
#[test]
fn test_strip_comments() {
    let input = strings(vec![
        "tokenA", "tokenB", "tokenC", "(", "here", "is", "a", "comment", ")", "tokenG",
    ]);

    assert_eq!(strip_comments(input), strings(vec!["tokenA", "tokenB", "tokenC", "tokenG"]));
}

// test `validate_tokens` function; test simplest happy path, create token input and assert
// that function successfully runs
#[test]
fn test_validate_tokens_happy() {
    let mut labels = Vec::new();
    let input = vec![
        Ok(UxnToken::PadAbs(0x100)),
        Ok(UxnToken::RawByte(0xff)),
        Ok(UxnToken::RawByte(0xaa)),
        Ok(UxnToken::RawShort(0xbbcc)),
    ];

    let output = validate_tokens(input, &mut labels);

    let expected_output: Vec<Result<UxnToken, AsmError>> = vec![
        Ok(UxnToken::PadAbs(0x100)),
        Ok(UxnToken::RawByte(0xff)),
        Ok(UxnToken::RawByte(0xaa)),
        Ok(UxnToken::RawShort(0xbbcc)),
    ];

    assert_eq!(output, expected_output);
    assert_eq!(labels, Vec::new());
}

// test `validate_tokens` function, with multiple paddings (both relative and absolute) and
// assert that function successfully runs
#[test]
fn test_validate_tokens_happy_multi_padding() {
    let mut labels = Vec::new();
    let input = vec![
        Ok(UxnToken::PadRel(0x80)),
        Ok(UxnToken::PadAbs(0xc0)),
        Ok(UxnToken::PadRel(0x40)),
        Ok(UxnToken::RawByte(0xff)),
        Ok(UxnToken::RawByte(0xaa)),
        Ok(UxnToken::RawShort(0xbbcc)),
    ];

    let output = validate_tokens(input, &mut labels);

    let expected_output: Vec<Result<UxnToken, AsmError>> = vec![
        Ok(UxnToken::PadRel(0x80)),
        Ok(UxnToken::PadAbs(0xc0)),
        Ok(UxnToken::PadRel(0x40)),
        Ok(UxnToken::RawByte(0xff)),
        Ok(UxnToken::RawByte(0xaa)),
        Ok(UxnToken::RawShort(0xbbcc)),
    ];

    assert_eq!(output, expected_output);
    assert_eq!(labels, Vec::new());
}

// test `validate_tokens` function with labels; test having labels in the token stream and
// check their location is stored as expected
#[test]
fn test_validate_tokens_happy_label() {
    let mut labels = Vec::new();
    let input = vec![
        Ok(UxnToken::PadAbs(0x100)),
        Ok(UxnToken::LabelDefine("test_label".to_owned())),
        Ok(UxnToken::RawByte(0xaa)),
        Ok(UxnToken::RawAbsAddr("test_label2".parse::<LabelRef>().unwrap())),
        Ok(UxnToken::RawShort(0xbbcc)),
        Ok(UxnToken::LabelDefine("test_label2".to_owned())),
        Ok(UxnToken::RawShort(0xbbcc)),
        Ok(UxnToken::RawAbsAddr("test_label".parse::<LabelRef>().unwrap())),
    ];

    let output = validate_tokens(input, &mut labels);

    let expected_output: Vec<Result<UxnToken, AsmError>> = vec![
        Ok(UxnToken::PadAbs(0x100)),
        Ok(UxnToken::LabelDefine("test_label".to_owned())),
        Ok(UxnToken::RawByte(0xaa)),
        Ok(UxnToken::RawAbsAddr("test_label2".parse::<LabelRef>().unwrap())),
        Ok(UxnToken::RawShort(0xbbcc)),
        Ok(UxnToken::LabelDefine("test_label2".to_owned())),
        Ok(UxnToken::RawShort(0xbbcc)),
        Ok(UxnToken::RawAbsAddr("test_label".parse::<LabelRef>().unwrap())),
    ];

    assert_eq!(output, expected_output);

    let expected_labels = vec![
        ("test_label".to_owned(), Label::new(0x100)),
        ("test_label2".to_owned(), Label::new(0x105)),
    ];
    assert_eq!(labels, expected_labels);
}

// test `validate_tokens` function with sub-labels; test having sub-labels in the token stream
// and check their location is stored as expected
#[test]
fn test_validate_tokens_happy_sub_label() {
    let mut labels = Vec::new();
    let input = vec![
        Ok(UxnToken::PadAbs(0x100)),
        Ok(UxnToken::LabelDefine("test_label".to_owned())),
        Ok(UxnToken::RawByte(0xaa)),
        Ok(UxnToken::RawAbsAddr("test_label2".parse::<LabelRef>().unwrap())),
        Ok(UxnToken::RawShort(0xbbcc)),
        Ok(UxnToken::SubLabelDefine("test_sub_label".to_owned())),
        Ok(UxnToken::RawByte(0xaa)),
        Ok(UxnToken::SubLabelDefine("test_sub_label2".to_owned())),
        Ok(UxnToken::LabelDefine("test_label2".to_owned())),
        Ok(UxnToken::RawShort(0xbbcc)),
        Ok(UxnToken::RawAbsAddr("test_label".parse::<LabelRef>().unwrap())),
        Ok(UxnToken::SubLabelDefine("test_sub_label".to_owned())),
    ];

    let output = validate_tokens(input, &mut labels);

    let expected_output: Vec<Result<UxnToken, AsmError>> = vec![
        Ok(UxnToken::PadAbs(0x100)),
        Ok(UxnToken::LabelDefine("test_label".to_owned())),
        Ok(UxnToken::RawByte(0xaa)),
        Ok(UxnToken::RawAbsAddr("test_label2".parse::<LabelRef>().unwrap())),
        Ok(UxnToken::RawShort(0xbbcc)),
        Ok(UxnToken::SubLabelDefine("test_sub_label".to_owned())),
        Ok(UxnToken::RawByte(0xaa)),
        Ok(UxnToken::SubLabelDefine("test_sub_label2".to_owned())),
        Ok(UxnToken::LabelDefine("test_label2".to_owned())),
        Ok(UxnToken::RawShort(0xbbcc)),
        Ok(UxnToken::RawAbsAddr("test_label".parse::<LabelRef>().unwrap())),
        Ok(UxnToken::SubLabelDefine("test_sub_label".to_owned())),
    ];

    assert_eq!(output, expected_output);

    let expected_labels = vec![
        ("test_label".to_owned(), label_with_subs(0x100, vec![("test_sub_label", 0x105), ("test_sub_label2", 0x106)])),
        ("test_label2".to_owned(), label_with_subs(0x106, vec![("test_sub_label", 0x10a)])),
    ];

    assert_eq!(labels, expected_labels);
}

// test `validate_tokens` function sub-labels without labels error; test having a sub-label in
// the token stream before any label is defined and check the correct error is returned
#[test]
fn test_validate_tokens_sub_label_without_label() {
    let mut labels = Vec::new();

    let input = vec![
        Ok(UxnToken::PadAbs(0x100)),
        Ok(UxnToken::SubLabelDefine("test_sub_label".to_owned())),
    ];

    let output = validate_tokens(input, &mut labels).into_iter().collect::<Result<Vec<_>, AsmError>>();

    assert_eq!(
        output,
        Err(AsmError::SubLabelWithNoLabel { sub_label_name: "test_sub_label".to_owned() })
    );
}

// test `validate_tokens` function padding regression error; test having two absolute
// paddings, one padding to before current program location. Assert the correct error is
// received
#[test]
fn test_validate_tokens_padding_regression() {
    let mut labels = Vec::new();
    let input = vec![
        Ok(UxnToken::PadAbs(0x100)),
        Ok(UxnToken::RawByte(0xaa)),
        Ok(UxnToken::RawShort(0xbbcc)),
        Ok(UxnToken::PadAbs(0x101)),
    ];

    let output = validate_tokens(input, &mut labels).into_iter().collect::<Result<Vec<_>, AsmError>>();

    assert_eq!(output, Err(AsmError::AbsPaddingRegression));
}

// test `validate_tokens` function zero page write error; test that attempting to write to the
// zero page results in the correct error
#[test]
fn test_validate_tokens_zero_page_write() {
    let mut labels = Vec::new();
    let input = vec![Ok(UxnToken::PadAbs(0xff)), Ok(UxnToken::RawByte(0xaa))];

    let output = validate_tokens(input, &mut labels).into_iter().collect::<Result<Vec<_>, AsmError>>();

    assert_eq!(output, Err(AsmError::ZeroPageWrite));
}

// test `validate_tokens` function token parse error; test that a parse error in the input
// stream is correctly propagated as a AsmError::TokenParseError
#[test]
fn test_validate_tokens_token_parse_error() {
    let mut labels = Vec::new();
    let input = vec![
        Ok(UxnToken::PadAbs(0xff)),
        Err(ParseError::RuneAbsentArg { rune: "|".to_owned() }),
    ];

    let output = validate_tokens(input, &mut labels).into_iter().collect::<Result<Vec<_>, AsmError>>();

    assert_eq!(
        output,
        Err(AsmError::TokenParseError {
            parse_error: ParseError::RuneAbsentArg { rune: "|".to_owned() },
        })
    );
}

#[test]
fn test_output_happy() {
    let input = Asm::new(
        vec![
            UxnToken::PadAbs(0x102),
            UxnToken::RawByte(0x1),
            UxnToken::LitShort(0xaabb),
            UxnToken::PadAbs(0x109),
            UxnToken::LitByte(0x22),
            UxnToken::PadRel(0x5),
            UxnToken::LitByte(0x33),
        ],
        Vec::new(),
    );

    let expected_output = vec![
        0x00, 0x00, 0x1, 0xa0, 0xaa, 0xbb, 0x00, 0x00, 0x00, 0x80, 0x22, 0x00, 0x00, 0x00, 0x00,
        0x00, 0x80, 0x33,
    ];

    let res = input.output();

    assert_eq!(res, Ok(expected_output));
}

#[test]
fn test_output_unrecognised_label() {
    let input = Asm::new(vec![UxnToken::RawAbsAddr("unrecognised".parse::<LabelRef>().unwrap())], Vec::new());

    let output = input.output();

    assert_eq!(output, Err(AsmError::UndefinedLabel { label_name: "unrecognised".to_owned() }));
}

#[test]
fn assemble_and_output_a_program() {
    let lines = strings(vec![
        "( a small program )",
        "|0100 @start #22 #33 ADD",
        "  ;start POP2 BRK",
    ]);
    assert!(Asm::words_start_ascii(&lines));
    let program = Asm::assemble(lines).unwrap();
    assert_eq!(
        program.output(),
        Ok(vec![0x80, 0x22, 0x80, 0x33, 0x18, 0xa0, 0x01, 0x00, 0x22, 0x00])
    );
}

#[test]
fn assemble_reports_the_first_error() {
    let lines = strings(vec!["|0100 #123 #"]);
    assert_eq!(
        Asm::assemble(lines).err(),
        Some(AsmError::TokenParseError {
            parse_error: ParseError::RuneInvalidArg { rune: "#".to_owned(), supplied_arg: "123".to_owned() }
        })
    );
}

#[test]
fn words_starting_outside_ascii_are_flagged() {
    let lines = strings(vec!["|0100 \u{e9}t\u{e9}"]);
    assert!(!Asm::words_start_ascii(&lines));
    let commented = strings(vec!["|0100 ( \u{e9}t\u{e9} ) BRK"]);
    assert!(Asm::words_start_ascii(&commented));
}

// a label is placed where the bytes after its definition land in the output
#[test]
fn label_address_is_where_its_bytes_land() {
    let words = strings(vec!["|0100", "#01", "$3", "@here", "#02", ";here"]);
    let input = words
        .iter()
        .map(|w| w.parse::<UxnToken>())
        .collect::<Vec<_>>();
    let mut labels = Vec::new();
    let program = validate_tokens(input, &mut labels)
        .into_iter()
        .collect::<Result<Vec<_>, AsmError>>()
        .unwrap();
    assert_eq!(labels.len(), 1);
    assert_eq!(labels[0].0, "here");
    let address = labels[0].1.address;
    assert_eq!(address, 0x0105);
    let rom = Asm::new(program, labels).output().unwrap();
    assert_eq!(rom[(address - 0x100) as usize], 0x80);
    assert_eq!(rom[(address - 0x100) as usize + 1], 0x02);
    assert_eq!(rom[(address - 0x100) as usize + 2..].to_vec(), vec![0xa0, 0x01, 0x05]);
}

#[test]
fn asm_error_messages() {
    assert_eq!(AsmError::ZeroPageWrite.message(), "zero page write");
    assert_eq!(
        AsmError::UndefinedSubLabel { label_name: "a".to_owned(), sub_label_name: "b".to_owned() }.message(),
        "undefined sub-label: a/b"
    );
    assert_eq!(
        AsmError::TokenParseError { parse_error: ParseError::RuneAbsentArg { rune: "#".to_owned() } }.message(),
        "failed to parse token: '#' missing argument"
    );
}
