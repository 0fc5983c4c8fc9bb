use rusty_uxn::ops::{OpCode, OpObject, ParseOpObjectError};

// test `get_bytes` function; for each possible op code,
// verify that the correct sequence of bytes is produced for it
#[test]
fn ops_test_get_bytes_happy() {
    let inputs = [
        (OpCode::Brk, vec![0x00]),
        (OpCode::Inc, vec![0x01]),
        (OpCode::Pop, vec![0x02]),
        (OpCode::Dup, vec![0x03]),
        (OpCode::Nip, vec![0x04]),
        (OpCode::Swp, vec![0x05]),
        (OpCode::Ovr, vec![0x06]),
        (OpCode::Rot, vec![0x07]),
        (OpCode::Equ, vec![0x08]),
        (OpCode::Neq, vec![0x09]),
        (OpCode::Gth, vec![0x0a]),
        (OpCode::Lth, vec![0x0b]),
        (OpCode::Jmp, vec![0x0c]),
        (OpCode::Jcn, vec![0x0d]),
        (OpCode::Jsr, vec![0x0e]),
        (OpCode::Sth, vec![0x0f]),
        (OpCode::Ldz, vec![0x10]),
        (OpCode::Stz, vec![0x11]),
        (OpCode::Ldr, vec![0x12]),
        (OpCode::Str, vec![0x13]),
        (OpCode::Lda, vec![0x14]),
        (OpCode::Sta, vec![0x15]),
        (OpCode::Dei, vec![0x16]),
        (OpCode::Deo, vec![0x17]),
        (OpCode::Add, vec![0x18]),
        (OpCode::Sub, vec![0x19]),
        (OpCode::Mul, vec![0x1a]),
        (OpCode::Div, vec![0x1b]),
        (OpCode::And, vec![0x1c]),
        (OpCode::Ora, vec![0x1d]),
        (OpCode::Eor, vec![0x1e]),
        (OpCode::Sft, vec![0x1f]),];

    for (input, expected_output) in inputs.into_iter() {
        let input = OpObject {
            keep: false,
            ret: false,
            short: false,
            op_code: input,
            handler_index: 0,
        };

        let output = input.get_bytes();
        assert_eq!(output, expected_output);
    }
}

// test `get_bytes` function; verify that a selection
// of modifier flags leads to the correct output
#[test]
fn ops_test_get_bytes_happy_with_modifiers() {
    let input = OpObject {
        keep: true,
        ret: false,
        short: true,
        op_code: OpCode::Deo,
        handler_index: 0,
    };
    let expected_output = vec![0xb7];
    let output = input.get_bytes();

    assert_eq!(output, expected_output);

    let input = OpObject {
        keep: true,
        ret: true,
        short: false,
        op_code: OpCode::Deo,
        handler_index: 0,
    };
    let expected_output = vec![0xd7];
    let output = input.get_bytes();

    assert_eq!(output, expected_output);
}

// test `from_str` function for operation
// strings with no modifier flags
#[test]
fn ops_test_from_str_happy() {
    let inputs = [
        ("BRK", (OpCode::Brk, 0)),
        ("INC", (OpCode::Inc, 1)),
        ("POP", (OpCode::Pop, 2)),
        ("DUP", (OpCode::Dup, 3)),
        ("NIP", (OpCode::Nip, 4)),
        ("SWP", (OpCode::Swp, 5)),
        ("OVR", (OpCode::Ovr, 6)),
        ("ROT", (OpCode::Rot, 7)),
        ("EQU", (OpCode::Equ, 8)),
        ("NEQ", (OpCode::Neq, 9)),
        ("GTH", (OpCode::Gth, 10)),
        ("LTH", (OpCode::Lth, 11)),
        ("JMP", (OpCode::Jmp, 12)),
        ("JCN", (OpCode::Jcn, 13)),
        ("JSR", (OpCode::Jsr, 14)),
        ("STH", (OpCode::Sth, 15)),
        ("LDZ", (OpCode::Ldz, 16)),
        ("STZ", (OpCode::Stz, 17)),
        ("LDR", (OpCode::Ldr, 18)),
        ("STR", (OpCode::Str, 19)),
        ("LDA", (OpCode::Lda, 20)),
        ("STA", (OpCode::Sta, 21)),
        ("DEI", (OpCode::Dei, 22)),
        ("DEO", (OpCode::Deo, 23)),
        ("ADD", (OpCode::Add, 24)),
        ("SUB", (OpCode::Sub, 25)),
        ("MUL", (OpCode::Mul, 26)),
        ("DIV", (OpCode::Div, 27)),
        ("AND", (OpCode::And, 28)),
        ("ORA", (OpCode::Ora, 29)),
        ("EOR", (OpCode::Eor, 30)),
        ("SFT", (OpCode::Sft, 31)),
    ];

    for (input, expected_output) in inputs {
        let output = input.parse::<OpObject>();
        let expected_output = Ok(OpObject {
            keep: false,
            ret: false,
            short: false,
            op_code: expected_output.0,
            handler_index: expected_output.1,
        });

        assert_eq!(output, expected_output);
    }
}

// test `from_str` function for LIT operation
// string with no modifier flags
#[test]
fn ops_test_from_str_happy_lit() {
    let output = "LIT".parse::<OpObject>();
    let expected_output = Ok(OpObject {
        keep: true,
        ret: false,
        short: false,
        op_code: OpCode::Brk,
        handler_index: 0,
    });

    assert_eq!(output, expected_output);
}

#[test]
fn ops_test_from_str_happy_mode_flags() {
    let input = "DEO2rk";
    let expected_output = Ok(OpObject {
        keep: true,
        ret: true,
        short: true,
        op_code: OpCode::Deo,
        handler_index: 23,
    });

    let output = input.parse::<OpObject>();
    assert_eq!(output, expected_output);

    let input = "DEOkr2";
    let expected_output = Ok(OpObject {
        keep: true,
        ret: true,
        short: true,
        op_code: OpCode::Deo,
        handler_index: 23,
    });

    let output = input.parse::<OpObject>();
    assert_eq!(output, expected_output);

    let input = "DEOr2";
    let expected_output = Ok(OpObject {
        keep: false,
        ret: true,
        short: true,
        op_code: OpCode::Deo,
        handler_index: 23,
    });

    let output = input.parse::<OpObject>();
    assert_eq!(output, expected_output);
}

#[test]
fn ops_test_from_str_forbidden_mode_flags() {
    let inputs = ["BRKr", "BRKk", "BRK2", "LITk"];

    for input in inputs {
        let output = input.parse::<OpObject>();
        assert_eq!(output, Err(ParseOpObjectError {}));
    }
}

#[test]
fn ops_test_from_str_unrecognised_op_string() {
    let inputs = ["BRKK", "BOK", "BK"];

    for input in inputs {
        let output = input.parse::<OpObject>();
        assert_eq!(output, Err(ParseOpObjectError {}));
    }
}
