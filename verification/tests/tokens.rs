use rusty_uxn::ops::OpObject;
use rusty_uxn::uxnasmlib::assembler::prog_state::{Label, ProgState};
use rusty_uxn::uxnasmlib::assembler::tokens::{GetBytesError, LabelRef, ParseError, UxnToken};

fn label_with_subs(address: u16, subs: Vec<(&str, u16)>) -> Label {
    let mut label = Label::new(address);
    for (name, a) in subs {
        label.sub_labels.push((name.to_owned(), a));
    }
    label
}

fn lref(s: &str) -> LabelRef {
    s.parse::<LabelRef>().unwrap()
}

// test `from_str()` for `LabelRef`; test that each type of label
// can be correctly parsed
#[test]
fn test_label_ref_from_str() {
    let inputs = [
        (
            "test_label",
            LabelRef::Label {
                label_name: "test_label".to_owned(),
            },
        ),
        (
            "&sub_label",
            LabelRef::SubLabel {
                sub_label_name: "sub_label".to_owned(),
            },
        ),
        (
            "test_label/sub_label",
            LabelRef::FullSubLabel {
                label_name: "test_label".to_owned(),
                sub_label_name: "sub_label".to_owned(),
            },
        ),
    ];

    for (input, expected) in inputs.into_iter() {
        let returned = input.parse::<LabelRef>();
        assert_eq!(returned, Ok(expected));
    }
}

#[test]
fn test_get_bytes_not_writable() {
    let inputs = [
        UxnToken::MacroDefine("blah".to_owned()),
        UxnToken::MacroStartDelimiter,
        UxnToken::MacroEndDelimiter,
        UxnToken::MacroInvocation("blah".to_owned()),
        UxnToken::PadAbs(0xff),
        UxnToken::PadRel(0xff),
        UxnToken::LabelDefine("blah".to_owned()),
        UxnToken::SubLabelDefine("blah".to_owned()),
    ];

    let labels = Vec::new();
    let prog_state = ProgState {
        counter: 0x0,
        labels: &labels,
        current_label: "".to_owned(),
    };

    for input in inputs.into_iter() {
        let returned = input.get_bytes(&prog_state);
        assert_eq!(returned, Err(GetBytesError::NotWritableToken));
    }
}

// test `get_bytes` function; for each possible input token,
// verify that the correct sequence of bytes is produced for it
#[test]
fn tokens_test_get_bytes_happy() {
    let labels = vec![
        (
            "test_label_zp".to_owned(),
            label_with_subs(0x0012, vec![("sub_label", 0x0015), ("sub_label2", 0x0076)]),
        ),
        ("test_label".to_owned(), Label::new(0x1234)),
        (
            "test_label2".to_owned(),
            label_with_subs(0x1235, vec![("sub_label", 0x4576)]),
        ),
    ];

    let prog_state = ProgState {
        counter: 0x0,
        labels: &labels,
        current_label: "test_label_zp".to_owned(),
    };

    let inputs = [
        (UxnToken::Op("DEO".parse::<OpObject>().unwrap()), vec![0x17]),
        (UxnToken::RawByte(0xab), vec![0xab]),
        (UxnToken::RawShort(0xabcd), vec![0xab, 0xcd]),
        (UxnToken::LitByte(0xab), vec![0x80, 0xab]),
        (UxnToken::LitShort(0xabcd), vec![0xA0, 0xab, 0xcd]),
        (UxnToken::LitAddressZeroPage(lref("test_label_zp")), vec![0x80, 0x12]),
        (UxnToken::LitAddressZeroPage(lref("test_label_zp/sub_label")), vec![0x80, 0x15]),
        (UxnToken::LitAddressZeroPage(lref("&sub_label2")), vec![0x80, 0x76]),
        (UxnToken::LitAddressRel(lref("test_label_zp")), vec![0x80, 0x0f]),
        (UxnToken::LitAddressRel(lref("test_label_zp/sub_label")), vec![0x80, 0x12]),
        (UxnToken::LitAddressRel(lref("&sub_label2")), vec![0x80, 0x73]),
        (UxnToken::LitAddressAbs(lref("test_label_zp")), vec![0xa0, 0x00, 0x12]),
        (UxnToken::LitAddressAbs(lref("test_label_zp/sub_label")), vec![0xa0, 0x00, 0x15]),
        (UxnToken::LitAddressAbs(lref("&sub_label2")), vec![0xa0, 0x00, 0x76]),
        (UxnToken::RawAbsAddr(lref("test_label")), vec![0x12, 0x34]),
        (UxnToken::RawAbsAddr(lref("test_label2/sub_label")), vec![0x45, 0x76]),
        (UxnToken::RawAbsAddr(lref("&sub_label2")), vec![0x00, 0x76]),
        (
            UxnToken::RawWord("hello world".as_bytes().iter().copied().collect()),
            vec![0x68, 0x65, 0x6c, 0x6c, 0x6f, 0x20, 0x77, 0x6f, 0x72, 0x6c, 0x64],
        ),
    ];

    for (token, expected) in inputs.into_iter() {
        let returned = token.get_bytes(&prog_state);
        assert_eq!(returned, Ok(expected));
    }
}

// test `get_bytes` function with a label that hasn't been defined
#[test]
fn test_get_bytes_unrecognised_label() {
    let labels = vec![("test_label".to_owned(), Label::new(0x1234))];

    let inputs = [
        UxnToken::RawAbsAddr(lref("test_label_xyz")),
        UxnToken::LitAddressZeroPage(lref("test_label_xyz")),
        UxnToken::LitAddressRel(lref("test_label_xyz")),
        UxnToken::LitAddressAbs(lref("test_label_xyz")),
    ];

    for input in inputs.into_iter() {
        let output = input.get_bytes(&ProgState {
            counter: 0,
            labels: &labels,
            current_label: "".to_owned(),
        });

        assert_eq!(
            output,
            Err(GetBytesError::UndefinedLabel {
                label_name: "test_label_xyz".to_owned(),
            })
        );
    }
}

// test `get_bytes` function with a full sub-label that hasn't been defined
#[test]
fn test_get_bytes_unrecognised_sub_label_full() {
    let labels = vec![(
        "test_label".to_owned(),
        label_with_subs(0x1234, vec![("sub_label", 0x4576)]),
    )];

    let inputs = [
        UxnToken::RawAbsAddr(lref("test_label/sub_label_xyz")),
        UxnToken::LitAddressZeroPage(lref("test_label/sub_label_xyz")),
        UxnToken::LitAddressRel(lref("test_label/sub_label_xyz")),
        UxnToken::LitAddressAbs(lref("test_label/sub_label_xyz")),
    ];

    for input in inputs.into_iter() {
        let output = input.get_bytes(&ProgState {
            counter: 0,
            labels: &labels,
            current_label: "".to_owned(),
        });

        assert_eq!(
            output,
            Err(GetBytesError::UndefinedSubLabel {
                label_name: "test_label".to_owned(),
                sub_label_name: "sub_label_xyz".to_owned(),
            })
        );
    }
}

// test `get_bytes` function with a partial sub-label that hasn't been defined
#[test]
fn test_get_bytes_unrecognised_sub_label_partial() {
    let labels = vec![
        (
            "test_label".to_owned(),
            label_with_subs(0x1234, vec![("sub_label", 0x4576)]),
        ),
        ("test_label2".to_owned(), Label::new(0x1234)),
    ];

    let inputs = [
        UxnToken::RawAbsAddr(lref("&sub_label")),
        UxnToken::LitAddressZeroPage(lref("&sub_label")),
        UxnToken::LitAddressRel(lref("&sub_label")),
        UxnToken::LitAddressAbs(lref("&sub_label")),
    ];

    for input in inputs.into_iter() {
        let output = input.get_bytes(&ProgState {
            counter: 0,
            labels: &labels,
            current_label: "test_label2".to_owned(),
        });

        assert_eq!(
            output,
            Err(GetBytesError::UndefinedSubLabel {
                label_name: "test_label2".to_owned(),
                sub_label_name: "sub_label".to_owned(),
            })
        );
    }
}

fn counter_cases() -> Vec<(UxnToken, u16)> {
    vec![
        (UxnToken::Op("DEO".parse::<OpObject>().unwrap()), 0x1),
        (UxnToken::MacroDefine("blah".to_owned()), 0x00),
        (UxnToken::MacroStartDelimiter, 0x00),
        (UxnToken::MacroEndDelimiter, 0x00),
        (UxnToken::MacroInvocation("blah".to_owned()), 0x00),
        (UxnToken::RawByte(0xfe), 0x1),
        (UxnToken::RawShort(0xabcd), 0x2),
        (
            UxnToken::RawWord("hello world".as_bytes().iter().copied().collect()),
            0xb,
        ),
        (UxnToken::LitByte(0xab), 0x2),
        (UxnToken::LitShort(0xabcd), 0x3),
        (UxnToken::LitAddressZeroPage(lref("test_label")), 0x2),
        (UxnToken::LitAddressRel(lref("test_label")), 0x2),
        (UxnToken::LitAddressAbs(lref("test_label")), 0x3),
        (UxnToken::LabelDefine("test_label".to_owned()), 0x0),
        (UxnToken::SubLabelDefine("test_sub_label".to_owned()), 0x0),
        (UxnToken::RawAbsAddr(lref("test_label")), 0x2),
    ]
}

#[test]
fn test_update_prog_counter() {
    let prog_counter = 0;

    assert_eq!(UxnToken::PadAbs(0x1ff).update_prog_counter(prog_counter), 0x1ff);
    assert_eq!(UxnToken::PadRel(0x1fe).update_prog_counter(prog_counter), 0x1fe);
    for (token, expected) in counter_cases().into_iter() {
        let returned = token.update_prog_counter(prog_counter);
        assert_eq!(returned, expected);
    }
}

// test update_prog_counter function when the program counter is not 0
#[test]
fn test_update_prog_counter_non_zero() {
    let prog_counter = 0x5;

    assert_eq!(UxnToken::PadAbs(0x1ff).update_prog_counter(prog_counter), 0x01ff);
    assert_eq!(UxnToken::PadRel(0x1fe).update_prog_counter(prog_counter), 0x203);
    for (token, expected) in counter_cases().into_iter() {
        let returned = token.update_prog_counter(prog_counter);
        assert_eq!(returned, expected + 0x5);
    }
}

#[test]
fn test_get_bytes_lit_address_rel() {
    let labels = vec![("test_label".to_owned(), Label::new(0x70))];
    let mut prog_state = ProgState {
        counter: 0x70,
        labels: &labels,
        current_label: "".to_owned(),
    };

    let token = UxnToken::LitAddressRel(lref("test_label"));
    let returned = token.get_bytes(&prog_state);
    assert_eq!(returned, Ok(vec![0x80, (-3i8).to_be_bytes()[0]]));

    let labels = vec![("test_label".to_owned(), Label::new(0x7f + 3))];
    prog_state.counter = 0x0;
    prog_state.labels = &labels;

    let token = UxnToken::LitAddressRel(lref("test_label"));
    let returned = token.get_bytes(&prog_state);
    assert_eq!(returned, Ok(vec![0x80, 0x7f]));

    let labels = vec![("test_label".to_owned(), Label::new(0x00))];
    prog_state.counter = 0x7f - 2;
    prog_state.labels = &labels;

    let token = UxnToken::LitAddressRel(lref("test_label"));
    let returned = token.get_bytes(&prog_state);
    assert_eq!(returned, Ok(vec![0x80, 0x80]));
}

#[test]
fn test_get_bytes_lit_address_rel_failed() {
    let labels = vec![("test_label".to_owned(), Label::new(0x00))];
    let mut prog_state = ProgState {
        counter: 0x7f + 3,
        labels: &labels,
        current_label: "".to_owned(),
    };

    let token = UxnToken::LitAddressRel(lref("test_label"));
    let returned = token.get_bytes(&prog_state);
    assert_eq!(
        returned,
        Err(GetBytesError::RelLabelNotInRange {
            label_name: "test_label".to_owned()
        })
    );

    let labels = vec![("test_label".to_owned(), Label::new(0x00))];
    prog_state.counter = 0x7f - 1;
    prog_state.labels = &labels;

    let token = UxnToken::LitAddressRel(lref("test_label"));
    let returned = token.get_bytes(&prog_state);

    assert_eq!(
        returned,
        Err(GetBytesError::RelLabelNotInRange {
            label_name: "test_label".to_owned()
        })
    );
}

// a zero-page reference to a label outside the zero page is refused
#[test]
fn get_bytes_zero_page_refused() {
    let labels = vec![("far".to_owned(), label_with_subs(0x0100, vec![("inner", 0x0101)]))];
    let prog_state = ProgState {
        counter: 0,
        labels: &labels,
        current_label: "far".to_owned(),
    };
    assert_eq!(
        UxnToken::LitAddressZeroPage(lref("far")).get_bytes(&prog_state),
        Err(GetBytesError::LabelNotInZeroPage { label_name: "far".to_owned() })
    );
    assert_eq!(
        UxnToken::LitAddressZeroPage(lref("&inner")).get_bytes(&prog_state),
        Err(GetBytesError::SubLabelNotInZeroPage {
            label_name: "far".to_owned(),
            sub_label_name: "inner".to_owned()
        })
    );
}

// the number of bytes a token writes is the amount it advances the program counter
#[test]
fn get_bytes_length_matches_counter_advance() {
    let labels = vec![("test_label".to_owned(), Label::new(0x0010))];
    let prog_state = ProgState {
        counter: 0x0008,
        labels: &labels,
        current_label: "test_label".to_owned(),
    };
    for (token, _) in counter_cases().into_iter() {
        if let Ok(bytes) = token.get_bytes(&prog_state) {
            assert_eq!(token.update_prog_counter(0) as usize, bytes.len());
        }
    }
}

// test from_str for UxnToken with an input that should be parsed as a raw byte
#[test]
fn test_from_str_raw_byte() {
    let input = "ab";
    let output = input.parse::<UxnToken>();
    let expected = UxnToken::RawByte(0xab);
    assert_eq!(output, Ok(expected));
}

// test from_str for UxnToken with an input that should be parsed as a macro define
#[test]
fn test_from_str_macro_define() {
    let input = "%test_macro";
    let output = input.parse::<UxnToken>();
    let expected = UxnToken::MacroDefine("test_macro".to_owned());
    assert_eq!(output, Ok(expected));
}

// test from_str for UxnToken with an input that should be parsed as a macro start delimiter
#[test]
fn test_from_str_macro_start_delimiter() {
    let input = "{";
    let output = input.parse::<UxnToken>();
    let expected = UxnToken::MacroStartDelimiter;
    assert_eq!(output, Ok(expected));
}

// test from_str for UxnToken with an input that should be parsed as a macro end delimiter
#[test]
fn test_from_str_macro_end_delimiter() {
    let input = "}";
    let output = input.parse::<UxnToken>();
    let expected = UxnToken::MacroEndDelimiter;
    assert_eq!(output, Ok(expected));
}

// test from_str for UxnToken with an input that should be parsed as a macro invocation
#[test]
fn test_from_str_macro_invocation() {
    let input = "test_macro";
    let output = input.parse::<UxnToken>();
    let expected = UxnToken::MacroInvocation("test_macro".to_string());
    assert_eq!(output, Ok(expected));
}

// test from_str for UxnToken with an input that should be parsed as absolute padding
#[test]
fn test_from_str_pad_abs() {
    let input = "|abcd";
    let output = input.parse::<UxnToken>();
    let expected = UxnToken::PadAbs(0xabcd);
    assert_eq!(output, Ok(expected));
}

// test from_str for UxnToken with an input that should be parsed as relative padding
#[test]
fn test_from_str_pad_rel() {
    let input = "$abcd";
    let output = input.parse::<UxnToken>();
    let expected = UxnToken::PadRel(0xabcd);
    assert_eq!(output, Ok(expected));
}

// test from_str for UxnToken with an input that should be parsed as literal bytes/shorts
#[test]
fn test_from_str_lit_byte_short() {
    let input = "#cd";
    let output = input.parse::<UxnToken>();
    let expected = UxnToken::LitByte(0xcd);
    assert_eq!(output, Ok(expected));

    let input = "#abcd";
    let output = input.parse::<UxnToken>();
    let expected = UxnToken::LitShort(0xabcd);
    assert_eq!(output, Ok(expected));
}

// test from_str for UxnToken with an input that should be parsed as a raw word
#[test]
fn test_from_str_raw_word() {
    let input = "\"helloWorld";
    let output = input.parse::<UxnToken>();

    let expected = UxnToken::RawWord(vec![
        0x68, 0x65, 0x6c, 0x6c, 0x6f, 0x57, 0x6f, 0x72, 0x6c, 0x64,
    ]);
    assert_eq!(output, Ok(expected));
}

// test from_str for UxnToken with an input that should be parsed as a literal address in the
// zero page
#[test]
fn test_from_str_lit_address_zero_page() {
    let input = ".test_label";
    let output = input.parse::<UxnToken>();
    let expected = UxnToken::LitAddressZeroPage(lref("test_label"));
    assert_eq!(output, Ok(expected));
}

// test from_str for UxnToken with an input that should be parsed as a literal relative address
#[test]
fn test_from_str_lit_address_rel() {
    let input = ",test_label";
    let output = input.parse::<UxnToken>();
    let expected = UxnToken::LitAddressRel(lref("test_label"));
    assert_eq!(output, Ok(expected));
}

// test from_str for UxnToken with an input that should be parsed from a character
#[test]
fn test_from_str_char() {
    let input = "'X";
    let output = input.parse::<UxnToken>();
    let expected = UxnToken::RawByte(0x58);
    assert_eq!(output, Ok(expected));
}

// test from_str for UxnToken with an input that should be parsed as a label define
#[test]
fn test_from_str_label_define() {
    let input = "@test_label";
    let output = input.parse::<UxnToken>();
    let expected = UxnToken::LabelDefine("test_label".to_owned());
    assert_eq!(output, Ok(expected));
}

// test from_str for UxnToken with an input that should be parsed as a sub-label define
#[test]
fn test_from_str_sub_label_define() {
    let input = "&test_sub_label";
    let output = input.parse::<UxnToken>();
    let expected = UxnToken::SubLabelDefine("test_sub_label".to_owned());
    assert_eq!(output, Ok(expected));
}

// test from_str for UxnToken with an input that should be parsed as a raw absolute address
#[test]
fn test_from_str_raw_abs_address() {
    let input = ":test_label";
    let output = input.parse::<UxnToken>();
    let expected = UxnToken::RawAbsAddr(lref("test_label"));
    assert_eq!(output, Ok(expected));
}

// a literal absolute address and an op with mode flags
#[test]
fn from_str_lit_address_abs_and_op() {
    assert_eq!(";x".parse::<UxnToken>(), Ok(UxnToken::LitAddressAbs(lref("x"))));
    assert_eq!(
        "DEO2".parse::<UxnToken>(),
        Ok(UxnToken::Op("DEO2".parse::<OpObject>().unwrap()))
    );
    assert_eq!("abcd".parse::<UxnToken>(), Ok(UxnToken::RawShort(0xabcd)));
}

// test from_str for UxnToken with an input that should trigger an error because a rune has no
// argument attached
#[test]
fn test_from_str_rune_absent() {
    let inputs = ["|", "$", "#", "'", "@", ":", ".", ",", "\""];

    for input in inputs {
        let output = input.parse::<UxnToken>();
        let expected = Err(ParseError::RuneAbsentArg {
            rune: input.to_owned(),
        });

        assert_eq!(output, expected);
    }
}

// test from_str for UxnToken with an input that should trigger an error because a rune has
// invalid argument attached
#[test]
fn test_from_str_rune_invalid_arg() {
    let inputs = [
        "|zz",
        "$uu",
        "#abcdd",
        "#ax",
        "#abxd",
        "'aa",
        "'???",
        // a raw word holding characters outside ASCII
        "\"h\u{e9}\u{e9}\u{e9}lloWorld",
    ];

    for input in inputs {
        let output = input.parse::<UxnToken>();
        let expected = Err(ParseError::RuneInvalidArg {
            rune: input[0..1].to_owned(),
            supplied_arg: input[1..].to_owned(),
        });

        assert_eq!(output, expected);
    }
}
