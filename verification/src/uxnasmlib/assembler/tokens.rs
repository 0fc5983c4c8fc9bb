use vstd::prelude::*;

use crate::emulators::devices::mouse::{be_bytes, hi_byte, lo_byte};
use crate::ops::{op_object_byte, parse_op_object, OpObject};
use crate::uxnasmlib::assembler::prog_state::{
    find_label, find_sub_label, first_named, labels_view, lemma_first_named_unique, lookup, Label,
    LabelModel, ProgState,
};
use crate::uxnasmlib::assembler::chars::to_chars;

verus! {

/// Value of a hexadecimal digit, in either case.
pub open spec fn hex_digit_value(c: char) -> Option<int> {
    if '0' <= c <= '9' {
        Some(c as int - '0' as int)
    } else if 'a' <= c <= 'f' {
        Some(c as int - 'a' as int + 10)
    } else if 'A' <= c <= 'F' {
        Some(c as int - 'A' as int + 10)
    } else {
        None
    }
}

pub open spec fn all_hex(s: Seq<char>) -> bool {
    forall|i: int| 0 <= i < s.len() ==> #[trigger] hex_digit_value(s[i]) is Some
}

/// The number that a string of hexadecimal digits writes.
pub open spec fn hex_value(s: Seq<char>) -> int
    decreases s.len(),
{
    if s.len() == 0 {
        0
    } else {
        hex_value(s.drop_last()) * 16 + hex_digit_value(s.last())->0
    }
}

/// Hexadecimal is positional: digits written after others shift those others up by a factor of
/// sixteen for each digit added.
pub proof fn lemma_hex_value_concat(s: Seq<char>, t: Seq<char>)
    ensures
        hex_value(s + t) == hex_value(s) * vstd::arithmetic::power::pow(16, t.len()) + hex_value(t),
    decreases t.len(),
{
    reveal(vstd::arithmetic::power::pow);
    if t.len() == 0 {
        assert(s + t =~= s);
    } else {
        let t0 = t.drop_last();
        lemma_hex_value_concat(s, t0);
        assert((s + t).drop_last() =~= s + t0);
        assert((s + t).last() == t.last());
        let p = vstd::arithmetic::power::pow(16, t0.len());
        assert(vstd::arithmetic::power::pow(16, t.len()) == 16 * p);
        assert((hex_value(s) * p + hex_value(t0)) * 16 == hex_value(s) * (16 * p) + hex_value(t0) * 16)
            by (nonlinear_arith);
    }
}

/// A number written in hexadecimal, as Rust's `from_str_radix` with radix 16 reads it for an
/// unsigned type whose largest value is `max`: an optional `+`, then one or more digits, with
/// a value no larger than `max`.
pub open spec fn parse_hex(s: Seq<char>, max: int) -> Option<int> {
    let digits = if s.len() > 0 && s[0] == '+' { s.drop_first() } else { s };
    if digits.len() == 0 || !all_hex(digits) || hex_value(digits) > max {
        None
    } else {
        Some(hex_value(digits))
    }
}

proof fn lemma_hex_value_grows(s: Seq<char>, k: int)
    requires
        0 <= k <= s.len(),
        all_hex(s),
    ensures
        hex_value(s.take(k)) <= hex_value(s),
        hex_value(s) >= 0,
    decreases s.len(),
{
    if s.len() > 0 {
        assert(s.drop_last().len() < s.len());
        lemma_hex_value_grows(s.drop_last(), if k == s.len() { 0 } else { k });
        if k < s.len() {
            assert(s.drop_last().take(k) =~= s.take(k));
        } else {
            assert(s.take(k) =~= s);
        }
    } else {
        assert(s.take(k) =~= s);
    }
}

fn hex_digit_exec(c: char) -> (r: Option<u32>)
    ensures
        match r {
            Some(v) => hex_digit_value(c) == Some(v as int) && v < 16,
            None => hex_digit_value(c) is None,
        },
{
    if '0' <= c && c <= '9' {
        Some(c as u32 - '0' as u32)
    } else if 'a' <= c && c <= 'f' {
        Some(c as u32 - 'a' as u32 + 10)
    } else if 'A' <= c && c <= 'F' {
        Some(c as u32 - 'A' as u32 + 10)
    } else {
        None
    }
}

/// Reads `s[start..]` as a hexadecimal number no larger than `max`.
pub fn parse_hex_exec(s: &Vec<char>, start: usize, max: u32) -> (r: Option<u32>)
    requires
        start <= s@.len(),
    ensures
        match r {
            Some(v) => parse_hex(s@.skip(start as int), max as int) == Some(v as int),
            None => parse_hex(s@.skip(start as int), max as int) is None,
        },
{
    let ghost t = s@.skip(start as int);
    let mut i = start;
    if i < s.len() && s[i] == '+' {
        i = i + 1;
    }
    let ghost digits = s@.skip(i as int);
    assert(digits =~= (if t.len() > 0 && t[0] == '+' { t.drop_first() } else { t }));
    if i >= s.len() {
        return None;
    }
    let mut acc: u32 = 0;
    let mut j = i;
    assert(s@.subrange(i as int, i as int) =~= Seq::<char>::empty());
    while j < s.len()
        invariant
            i < s@.len(),
            i <= j <= s@.len(),
            digits == s@.skip(i as int),
            parse_hex(s@.skip(start as int), max as int) == (if !all_hex(digits) || hex_value(digits) > max { None } else { Some(hex_value(digits)) }),
            all_hex(s@.subrange(i as int, j as int)),
            acc as int == hex_value(s@.subrange(i as int, j as int)),
            acc <= max,
        decreases s.len() - j,
    {
        let d = match hex_digit_exec(s[j]) {
            Some(d) => d,
            None => {
                assert(!all_hex(digits)) by {
                    assert(digits[j - i] == s@[j as int]);
                    assert(hex_digit_value(digits[j - i]) is None);
                }
                return None;
            },
        };
        let ghost prefix = s@.subrange(i as int, j as int + 1);
        assert(prefix.drop_last() =~= s@.subrange(i as int, j as int));
        if d > max || acc > (max - d) / 16 {
            proof {
                assert(hex_value(prefix) == acc * 16 + d);
                assert(acc * 16 + d > max) by (nonlinear_arith)
                    requires
                        d > max || acc > (max - d) / 16,
                        acc >= 0,
                ;
                if all_hex(digits) {
                    assert(prefix =~= digits.take(j - i + 1));
                    lemma_hex_value_grows(digits, j - i + 1);
                }
            }
            return None;
        }
        assert(acc * 16 + d <= max) by (nonlinear_arith)
            requires
                acc <= (max - d) / 16,
                d <= max,
        ;
        acc = acc * 16 + d;
        j = j + 1;
    }
    assert(s@.subrange(i as int, j as int) =~= digits);
    Some(acc)
}


/// A reference to a label: a label, a sub-label of a named label (`label/sub`), or a
/// sub-label of the label last defined (`&sub`).
#[derive(Debug, PartialEq, Eq, Clone)]
pub enum LabelRef {
    Label { label_name: String },
    FullSubLabel { label_name: String, sub_label_name: String },
    SubLabel { sub_label_name: String },
}

pub enum LabelRefModel {
    Label(Seq<char>),
    FullSubLabel(Seq<char>, Seq<char>),
    SubLabel(Seq<char>),
}

impl View for LabelRef {
    type V = LabelRefModel;

    open spec fn view(&self) -> LabelRefModel {
        match self {
            LabelRef::Label { label_name } => LabelRefModel::Label(label_name@),
            LabelRef::FullSubLabel { label_name, sub_label_name } => LabelRefModel::FullSubLabel(
                label_name@,
                sub_label_name@,
            ),
            LabelRef::SubLabel { sub_label_name } => LabelRefModel::SubLabel(sub_label_name@),
        }
    }
}

/// `i` is the first position of `c` in `s`.
pub open spec fn is_first(s: Seq<char>, c: char, i: int) -> bool {
    &&& 0 <= i < s.len()
    &&& s[i] == c
    &&& forall|k: int| 0 <= k < i ==> s[k] != c
}

/// How a label reference reads: `&sub` names a sub-label of the current label, `label/sub`
/// (split at the first `/`) a sub-label of a named label, anything else a label.
pub open spec fn parse_label_ref(s: Seq<char>) -> LabelRefModel {
    if s.len() > 0 && s[0] == '&' {
        LabelRefModel::SubLabel(s.drop_first())
    } else if exists|i: int| is_first(s, '/', i) {
        let i = choose|i: int| is_first(s, '/', i);
        LabelRefModel::FullSubLabel(s.take(i), s.skip(i + 1))
    } else {
        LabelRefModel::Label(s)
    }
}

/// The text of `s` from character `from` to character `to`.
fn sub_string(s: &str, from: usize, to: usize) -> (r: String)
    requires
        from <= to <= s@.len(),
    ensures
        r@ == s@.subrange(from as int, to as int),
{
    String::from_str(s.substring_char(from, to))
}

impl LabelRef {
    /// Reads a label reference; never fails.
    pub fn parse(s: &str) -> (r: Result<LabelRef, ParseError>)
        ensures
            r matches Ok(l) && l@ == parse_label_ref(s@),
    {
        let chars = to_chars(s);
        let n = chars.len();
        if n > 0 && chars[0] == '&' {
            let name = sub_string(s, 1, n);
            assert(name@ =~= s@.drop_first());
            return Ok(LabelRef::SubLabel { sub_label_name: name });
        }
        let mut j: usize = 0;
        while j < n
            invariant
                n == s@.len(),
                chars@ == s@,
                j <= n,
                !(n > 0 && s@[0] == '&'),
                forall|k: int| 0 <= k < j ==> s@[k] != '/',
            decreases n - j,
        {
            if chars[j] == '/' {
                assert forall|i: int| is_first(s@, '/', i) implies i == j by {
                    if i < j {
                    } else if i > j {
                        assert(s@[j as int] == '/');
                    }
                }
                assert(is_first(s@, '/', j as int));
                let label_name = sub_string(s, 0, j);
                let sub_label_name = sub_string(s, j + 1, n);
                assert(label_name@ =~= s@.take(j as int));
                assert(sub_label_name@ =~= s@.skip(j as int + 1));
                return Ok(LabelRef::FullSubLabel { label_name, sub_label_name });
            }
            j = j + 1;
        }
        let name = String::from_str(s);
        Ok(LabelRef::Label { label_name: name })
    }
}

impl std::str::FromStr for LabelRef {
    type Err = ParseError;

    fn from_str(s: &str) -> (r: Result<Self, Self::Err>)
        ensures
            r matches Ok(l) && l@ == parse_label_ref(s@),
    {
        LabelRef::parse(s)
    }
}

/// An error in reading a token: a rune with nothing after it, or with something it cannot take.
#[derive(Debug, PartialEq, Eq, Clone)]
pub enum ParseError {
    RuneAbsentArg { rune: String },
    RuneInvalidArg { rune: String, supplied_arg: String },
}

pub enum ParseErrorModel {
    RuneAbsentArg(Seq<char>),
    RuneInvalidArg(Seq<char>, Seq<char>),
}

impl View for ParseError {
    type V = ParseErrorModel;

    open spec fn view(&self) -> ParseErrorModel {
        match self {
            ParseError::RuneAbsentArg { rune } => ParseErrorModel::RuneAbsentArg(rune@),
            ParseError::RuneInvalidArg { rune, supplied_arg } => ParseErrorModel::RuneInvalidArg(
                rune@,
                supplied_arg@,
            ),
        }
    }
}

/// The description of a parse error.
pub open spec fn parse_error_text(e: ParseErrorModel) -> Seq<char> {
    match e {
        ParseErrorModel::RuneAbsentArg(rune) => "'"@ + rune + "' missing argument"@,
        ParseErrorModel::RuneInvalidArg(rune, arg) => "'"@ + rune + "' has invalid argument '"@ + arg + "'"@,
    }
}

impl ParseError {
    /// Human readable description of the error.
    pub fn message(&self) -> (r: String)
        ensures
            r@ == parse_error_text(self@),
    {
        match self {
            ParseError::RuneAbsentArg { rune } => {
                String::from_str("'").concat(rune.as_str()).concat("' missing argument")
            },
            ParseError::RuneInvalidArg { rune, supplied_arg } => {
                String::from_str("'").concat(rune.as_str()).concat("' has invalid argument '").concat(
                    supplied_arg.as_str(),
                ).concat("'")
            },
        }
    }
}


/// A token of the assembly language.
#[derive(Debug, PartialEq, Eq, Clone)]
pub enum UxnToken {
    Op(OpObject),
    MacroDefine(String),
    MacroStartDelimiter,
    MacroEndDelimiter,
    PadAbs(u16),
    PadRel(u16),
    LabelDefine(String),
    SubLabelDefine(String),
    LitByte(u8),
    LitShort(u16),
    LitAddressZeroPage(LabelRef),
    LitAddressRel(LabelRef),
    LitAddressAbs(LabelRef),
    RawAbsAddr(LabelRef),
    MacroInvocation(String),
    RawByte(u8),
    RawShort(u16),
    RawWord(Vec<u8>),
}

pub enum TokenModel {
    Op(OpObject),
    MacroDefine(Seq<char>),
    MacroStartDelimiter,
    MacroEndDelimiter,
    PadAbs(u16),
    PadRel(u16),
    LabelDefine(Seq<char>),
    SubLabelDefine(Seq<char>),
    LitByte(u8),
    LitShort(u16),
    LitAddressZeroPage(LabelRefModel),
    LitAddressRel(LabelRefModel),
    LitAddressAbs(LabelRefModel),
    RawAbsAddr(LabelRefModel),
    MacroInvocation(Seq<char>),
    RawByte(u8),
    RawShort(u16),
    RawWord(Seq<u8>),
}

impl View for UxnToken {
    type V = TokenModel;

    open spec fn view(&self) -> TokenModel {
        match self {
            UxnToken::Op(o) => TokenModel::Op(*o),
            UxnToken::MacroDefine(n) => TokenModel::MacroDefine(n@),
            UxnToken::MacroStartDelimiter => TokenModel::MacroStartDelimiter,
            UxnToken::MacroEndDelimiter => TokenModel::MacroEndDelimiter,
            UxnToken::PadAbs(n) => TokenModel::PadAbs(*n),
            UxnToken::PadRel(n) => TokenModel::PadRel(*n),
            UxnToken::LabelDefine(n) => TokenModel::LabelDefine(n@),
            UxnToken::SubLabelDefine(n) => TokenModel::SubLabelDefine(n@),
            UxnToken::LitByte(b) => TokenModel::LitByte(*b),
            UxnToken::LitShort(v) => TokenModel::LitShort(*v),
            UxnToken::LitAddressZeroPage(r) => TokenModel::LitAddressZeroPage(r@),
            UxnToken::LitAddressRel(r) => TokenModel::LitAddressRel(r@),
            UxnToken::LitAddressAbs(r) => TokenModel::LitAddressAbs(r@),
            UxnToken::RawAbsAddr(r) => TokenModel::RawAbsAddr(r@),
            UxnToken::MacroInvocation(n) => TokenModel::MacroInvocation(n@),
            UxnToken::RawByte(b) => TokenModel::RawByte(*b),
            UxnToken::RawShort(v) => TokenModel::RawShort(*v),
            UxnToken::RawWord(w) => TokenModel::RawWord(w@),
        }
    }
}

pub open spec fn is_ascii_char(c: char) -> bool {
    c <= '\x7f'
}

/// The bytes of text known to be ASCII.
pub open spec fn ascii_bytes(s: Seq<char>) -> Seq<u8> {
    s.map_values(|c: char| c as u8)
}

/// How a token reads. An operation, two or four hexadecimal digits (a raw byte or short), or
/// a rune and what follows it: `%` macro definition, `{` and `}` macro delimiters, `"` raw
/// ASCII text, `|` and `$` absolute and relative padding, `#` literal byte or short, `.` `,`
/// `;` literal zero page, relative and absolute label addresses, `'` raw ASCII character,
/// `@` label, `&` sub-label, `:` raw absolute label address; any other word is a macro
/// invocation.
pub open spec fn parse_token(s: Seq<char>) -> Result<TokenModel, ParseErrorModel> {
    let c = s[0];
    let rest = s.drop_first();
    let rune = seq![c];
    if parse_op_object(s) is Some {
        Ok(TokenModel::Op(parse_op_object(s)->0))
    } else if s.len() == 2 && parse_hex(s, 0xff) is Some {
        Ok(TokenModel::RawByte(parse_hex(s, 0xff)->0 as u8))
    } else if s.len() == 4 && parse_hex(s, 0xffff) is Some {
        Ok(TokenModel::RawShort(parse_hex(s, 0xffff)->0 as u16))
    } else if c == '%' {
        if rest.len() == 0 {
            Err(ParseErrorModel::RuneAbsentArg(rune))
        } else {
            Ok(TokenModel::MacroDefine(rest))
        }
    } else if s == seq!['{'] {
        Ok(TokenModel::MacroStartDelimiter)
    } else if s == seq!['}'] {
        Ok(TokenModel::MacroEndDelimiter)
    } else if c == '"' {
        if rest.len() == 0 {
            Err(ParseErrorModel::RuneAbsentArg(rune))
        } else if exists|k: int| 0 <= k < rest.len() && !is_ascii_char(#[trigger] rest[k]) {
            Err(ParseErrorModel::RuneInvalidArg(rune, rest))
        } else {
            Ok(TokenModel::RawWord(ascii_bytes(rest)))
        }
    } else if c == '|' || c == '$' {
        if rest.len() == 0 {
            Err(ParseErrorModel::RuneAbsentArg(rune))
        } else if parse_hex(rest, 0xffff) is Some {
            let v = parse_hex(rest, 0xffff)->0 as u16;
            Ok(if c == '|' { TokenModel::PadAbs(v) } else { TokenModel::PadRel(v) })
        } else {
            Err(ParseErrorModel::RuneInvalidArg(rune, rest))
        }
    } else if c == '#' {
        if rest.len() == 0 {
            Err(ParseErrorModel::RuneAbsentArg(rune))
        } else if rest.len() == 2 && parse_hex(rest, 0xff) is Some {
            Ok(TokenModel::LitByte(parse_hex(rest, 0xff)->0 as u8))
        } else if rest.len() == 4 && parse_hex(rest, 0xffff) is Some {
            Ok(TokenModel::LitShort(parse_hex(rest, 0xffff)->0 as u16))
        } else {
            Err(ParseErrorModel::RuneInvalidArg(rune, rest))
        }
    } else if c == '.' || c == ',' || c == ';' || c == ':' {
        if rest.len() == 0 {
            Err(ParseErrorModel::RuneAbsentArg(rune))
        } else {
            let r = parse_label_ref(rest);
            Ok(
                if c == '.' {
                    TokenModel::LitAddressZeroPage(r)
                } else if c == ',' {
                    TokenModel::LitAddressRel(r)
                } else if c == ';' {
                    TokenModel::LitAddressAbs(r)
                } else {
                    TokenModel::RawAbsAddr(r)
                },
            )
        }
    } else if c == '\'' {
        if rest.len() == 0 {
            Err(ParseErrorModel::RuneAbsentArg(rune))
        } else if rest.len() == 1 && is_ascii_char(rest[0]) {
            Ok(TokenModel::RawByte(rest[0] as u8))
        } else {
            Err(ParseErrorModel::RuneInvalidArg(rune, rest))
        }
    } else if c == '@' || c == '&' {
        if rest.len() == 0 {
            Err(ParseErrorModel::RuneAbsentArg(rune))
        } else if c == '@' {
            Ok(TokenModel::LabelDefine(rest))
        } else {
            Ok(TokenModel::SubLabelDefine(rest))
        }
    } else {
        Ok(TokenModel::MacroInvocation(s))
    }
}

/// The view of a parse result.
pub open spec fn parsed_view(r: Result<UxnToken, ParseError>) -> Result<TokenModel, ParseErrorModel> {
    match r {
        Ok(t) => Ok(t@),
        Err(e) => Err(e@),
    }
}

/// Whether `c` is one of the runes that take an argument.
pub open spec fn is_rune(c: char) -> bool {
    c == '%' || c == '"' || c == '|' || c == '$' || c == '#' || c == '.' || c == ','
        || c == ';' || c == ':' || c == '\'' || c == '@' || c == '&'
}

/// The one character text of a rune.
fn rune_string(c: char) -> (r: String)
    requires
        is_rune(c),
    ensures
        r@ == seq![c],
{
    if c == '%' {
        proof { reveal_strlit("%"); }
        String::from_str("%")
    } else if c == '"' {
        proof { reveal_strlit("\""); }
        String::from_str("\"")
    } else if c == '|' {
        proof { reveal_strlit("|"); }
        String::from_str("|")
    } else if c == '$' {
        proof { reveal_strlit("$"); }
        String::from_str("$")
    } else if c == '#' {
        proof { reveal_strlit("#"); }
        String::from_str("#")
    } else if c == '.' {
        proof { reveal_strlit("."); }
        String::from_str(".")
    } else if c == ',' {
        proof { reveal_strlit(","); }
        String::from_str(",")
    } else if c == ';' {
        proof { reveal_strlit(";"); }
        String::from_str(";")
    } else if c == ':' {
        proof { reveal_strlit(":"); }
        String::from_str(":")
    } else if c == '\'' {
        proof { reveal_strlit("'"); }
        String::from_str("'")
    } else if c == '@' {
        proof { reveal_strlit("@"); }
        String::from_str("@")
    } else {
        proof { reveal_strlit("&"); }
        String::from_str("&")
    }
}

/// Whether every character of `s` from `start` on is ASCII.
fn all_ascii_from(s: &Vec<char>, start: usize) -> (r: bool)
    requires
        start <= s@.len(),
    ensures
        r == !(exists|k: int| 0 <= k < s@.skip(start as int).len() && !is_ascii_char(#[trigger] s@.skip(start as int)[k])),
{
    let mut j = start;
    while j < s.len()
        invariant
            start <= j <= s@.len(),
            forall|k: int| start <= k < j ==> is_ascii_char(#[trigger] s@[k]),
        decreases s.len() - j,
    {
        if s[j] > '\x7f' {
            assert(s@.skip(start as int)[j - start] == s@[j as int]);
            return false;
        }
        j = j + 1;
    }
    assert forall|k: int| 0 <= k < s@.skip(start as int).len() implies is_ascii_char(#[trigger] s@.skip(start as int)[k]) by {
        assert(s@.skip(start as int)[k] == s@[start + k]);
    }
    true
}

/// The bytes of the ASCII characters of `s` from `start` on.
fn ascii_bytes_from(s: &Vec<char>, start: usize) -> (r: Vec<u8>)
    requires
        start <= s@.len(),
    ensures
        r@ == ascii_bytes(s@.skip(start as int)),
{
    let mut out: Vec<u8> = Vec::new();
    let mut j = start;
    while j < s.len()
        invariant
            start <= j <= s@.len(),
            out@ == ascii_bytes(s@.subrange(start as int, j as int)),
        decreases s.len() - j,
    {
        out.push(s[j] as u8);
        assert(ascii_bytes(s@.subrange(start as int, j + 1)) =~= ascii_bytes(s@.subrange(start as int, j as int)).push(s@[j as int] as u8));
        j = j + 1;
    }
    assert(s@.subrange(start as int, j as int) =~= s@.skip(start as int));
    out
}

impl UxnToken {
    /// Reads a token. The token must not be empty, and must start with an ASCII character.
    pub fn parse(s: &str) -> (r: Result<UxnToken, ParseError>)
        requires
            s@.len() > 0,
            is_ascii_char(s@[0]),
        ensures
            parsed_view(r) == parse_token(s@),
    {
        match OpObject::parse_str(s) {
            Ok(op) => {
                return Ok(UxnToken::Op(op));
            },
            Err(_) => {},
        }
        let chars = to_chars(s);
        let n = chars.len();
        assert(chars@.skip(0) =~= chars@);
        if n == 2 {
            match parse_hex_exec(&chars, 0, 0xff) {
                Some(v) => {
                    return Ok(UxnToken::RawByte(v as u8));
                },
                None => {},
            }
        }
        if n == 4 {
            match parse_hex_exec(&chars, 0, 0xffff) {
                Some(v) => {
                    return Ok(UxnToken::RawShort(v as u16));
                },
                None => {},
            }
        }
        let c = chars[0];
        let ghost rest = s@.drop_first();
        assert(chars@.skip(1) =~= rest);
        if c == '%' {
            if n < 2 {
                return Err(ParseError::RuneAbsentArg { rune: rune_string(c) });
            }
            let name = sub_string(s, 1, n);
            assert(name@ =~= rest);
            return Ok(UxnToken::MacroDefine(name));
        }
        if n == 1 && c == '{' {
            assert(s@ =~= seq!['{']);
            return Ok(UxnToken::MacroStartDelimiter);
        }
        if n == 1 && c == '}' {
            assert(s@ =~= seq!['}']);
            return Ok(UxnToken::MacroEndDelimiter);
        }
        assert(s@ != seq!['{'] && s@ != seq!['}']) by {
            if s@ == seq!['{'] || s@ == seq!['}'] {
                assert(s@.len() == 1);
            }
        }
        if c == '"' {
            if n < 2 {
                return Err(ParseError::RuneAbsentArg { rune: rune_string(c) });
            }
            if !all_ascii_from(&chars, 1) {
                let arg = sub_string(s, 1, n);
                assert(arg@ =~= rest);
                return Err(ParseError::RuneInvalidArg { rune: rune_string(c), supplied_arg: arg });
            }
            return Ok(UxnToken::RawWord(ascii_bytes_from(&chars, 1)));
        }
        if c == '|' || c == '$' {
            if n < 2 {
                return Err(ParseError::RuneAbsentArg { rune: rune_string(c) });
            }
            match parse_hex_exec(&chars, 1, 0xffff) {
                Some(v) => {
                    if c == '|' {
                        return Ok(UxnToken::PadAbs(v as u16));
                    } else {
                        return Ok(UxnToken::PadRel(v as u16));
                    }
                },
                None => {
                    let arg = sub_string(s, 1, n);
                    assert(arg@ =~= rest);
                    return Err(ParseError::RuneInvalidArg { rune: rune_string(c), supplied_arg: arg });
                },
            }
        }
        if c == '#' {
            if n < 2 {
                return Err(ParseError::RuneAbsentArg { rune: rune_string(c) });
            }
            if n == 3 {
                match parse_hex_exec(&chars, 1, 0xff) {
                    Some(v) => {
                        return Ok(UxnToken::LitByte(v as u8));
                    },
                    None => {},
                }
            }
            if n == 5 {
                match parse_hex_exec(&chars, 1, 0xffff) {
                    Some(v) => {
                        return Ok(UxnToken::LitShort(v as u16));
                    },
                    None => {},
                }
            }
            let arg = sub_string(s, 1, n);
            assert(arg@ =~= rest);
            return Err(ParseError::RuneInvalidArg { rune: rune_string(c), supplied_arg: arg });
        }
        if c == '.' || c == ',' || c == ';' || c == ':' {
            if n < 2 {
                return Err(ParseError::RuneAbsentArg { rune: rune_string(c) });
            }
            let target = s.substring_char(1, n);
            assert(target@ =~= rest);
            let r = match LabelRef::parse(target) {
                Ok(r) => r,
                Err(e) => {
                    return Err(e);
                },
            };
            if c == '.' {
                return Ok(UxnToken::LitAddressZeroPage(r));
            } else if c == ',' {
                return Ok(UxnToken::LitAddressRel(r));
            } else if c == ';' {
                return Ok(UxnToken::LitAddressAbs(r));
            } else {
                return Ok(UxnToken::RawAbsAddr(r));
            }
        }
        if c == '\'' {
            if n < 2 {
                return Err(ParseError::RuneAbsentArg { rune: rune_string(c) });
            }
            if n == 2 && chars[1] <= '\x7f' {
                return Ok(UxnToken::RawByte(chars[1] as u8));
            }
            let arg = sub_string(s, 1, n);
            assert(arg@ =~= rest);
            return Err(ParseError::RuneInvalidArg { rune: rune_string(c), supplied_arg: arg });
        }
        if c == '@' || c == '&' {
            if n < 2 {
                return Err(ParseError::RuneAbsentArg { rune: rune_string(c) });
            }
            let name = sub_string(s, 1, n);
            assert(name@ =~= rest);
            if c == '@' {
                return Ok(UxnToken::LabelDefine(name));
            } else {
                return Ok(UxnToken::SubLabelDefine(name));
            }
        }
        Ok(UxnToken::MacroInvocation(String::from_str(s)))
    }
}


/// Why a token gives no bytes: a label or sub-label that is not defined, an address out of
/// reach of a zero page or relative reference, or a token that writes nothing itself.
#[derive(Debug, PartialEq, Eq, Clone)]
pub enum GetBytesError {
    UndefinedLabel { label_name: String },
    UndefinedSubLabel { label_name: String, sub_label_name: String },
    LabelNotInZeroPage { label_name: String },
    SubLabelNotInZeroPage { label_name: String, sub_label_name: String },
    RelLabelNotInRange { label_name: String },
    RelSubLabelNotInRange { label_name: String, sub_label_name: String },
    NotWritableToken,
}

pub enum GetBytesErrorModel {
    UndefinedLabel(Seq<char>),
    UndefinedSubLabel(Seq<char>, Seq<char>),
    LabelNotInZeroPage(Seq<char>),
    SubLabelNotInZeroPage(Seq<char>, Seq<char>),
    RelLabelNotInRange(Seq<char>),
    RelSubLabelNotInRange(Seq<char>, Seq<char>),
    NotWritableToken,
}

impl View for GetBytesError {
    type V = GetBytesErrorModel;

    open spec fn view(&self) -> GetBytesErrorModel {
        match self {
            GetBytesError::UndefinedLabel { label_name } => GetBytesErrorModel::UndefinedLabel(label_name@),
            GetBytesError::UndefinedSubLabel { label_name, sub_label_name } => GetBytesErrorModel::UndefinedSubLabel(label_name@, sub_label_name@),
            GetBytesError::LabelNotInZeroPage { label_name } => GetBytesErrorModel::LabelNotInZeroPage(label_name@),
            GetBytesError::SubLabelNotInZeroPage { label_name, sub_label_name } => GetBytesErrorModel::SubLabelNotInZeroPage(label_name@, sub_label_name@),
            GetBytesError::RelLabelNotInRange { label_name } => GetBytesErrorModel::RelLabelNotInRange(label_name@),
            GetBytesError::RelSubLabelNotInRange { label_name, sub_label_name } => GetBytesErrorModel::RelSubLabelNotInRange(label_name@, sub_label_name@),
            GetBytesError::NotWritableToken => GetBytesErrorModel::NotWritableToken,
        }
    }
}

/// The address that a label reference names, given the labels of the program and the label
/// defined last.
pub open spec fn label_address(
    r: LabelRefModel,
    labels: Seq<(Seq<char>, LabelModel)>,
    current: Seq<char>,
) -> Result<u16, GetBytesErrorModel> {
    match r {
        LabelRefModel::Label(n) => match lookup(labels, n) {
            Some(l) => Ok(l.address),
            None => Err(GetBytesErrorModel::UndefinedLabel(n)),
        },
        LabelRefModel::SubLabel(sn) => match lookup(labels, current) {
            Some(l) => match lookup(l.sub_labels, sn) {
                Some(a) => Ok(a),
                None => Err(GetBytesErrorModel::UndefinedSubLabel(current, sn)),
            },
            None => Err(GetBytesErrorModel::UndefinedSubLabel(current, sn)),
        },
        LabelRefModel::FullSubLabel(ln, sn) => match lookup(labels, ln) {
            Some(l) => match lookup(l.sub_labels, sn) {
                Some(a) => Ok(a),
                None => Err(GetBytesErrorModel::UndefinedSubLabel(ln, sn)),
            },
            None => Err(GetBytesErrorModel::UndefinedSubLabel(ln, sn)),
        },
    }
}

/// The error for a reference whose address is out of zero page.
pub open spec fn zero_page_error(r: LabelRefModel, current: Seq<char>) -> GetBytesErrorModel {
    match r {
        LabelRefModel::Label(n) => GetBytesErrorModel::LabelNotInZeroPage(n),
        LabelRefModel::SubLabel(sn) => GetBytesErrorModel::SubLabelNotInZeroPage(current, sn),
        LabelRefModel::FullSubLabel(ln, sn) => GetBytesErrorModel::SubLabelNotInZeroPage(ln, sn),
    }
}

/// The error for a reference too far away for a relative address.
pub open spec fn relative_error(r: LabelRefModel, current: Seq<char>) -> GetBytesErrorModel {
    match r {
        LabelRefModel::Label(n) => GetBytesErrorModel::RelLabelNotInRange(n),
        LabelRefModel::SubLabel(sn) => GetBytesErrorModel::RelSubLabelNotInRange(current, sn),
        LabelRefModel::FullSubLabel(ln, sn) => GetBytesErrorModel::RelSubLabelNotInRange(ln, sn),
    }
}

/// The bytes that a token writes at address `counter`: an operation's byte, raw bytes, a
/// short big endian, a literal (LIT or LIT2 and its value), or a label's address as a
/// literal zero page byte, a literal signed offset from the end of the literal, a literal
/// short or a raw short. Tokens that shape the program without writing give an error.
pub open spec fn token_bytes(
    t: TokenModel,
    counter: u16,
    labels: Seq<(Seq<char>, LabelModel)>,
    current: Seq<char>,
) -> Result<Seq<u8>, GetBytesErrorModel> {
    match t {
        TokenModel::Op(o) => Ok(seq![op_object_byte(o)]),
        TokenModel::RawByte(b) => Ok(seq![b]),
        TokenModel::RawShort(v) => Ok(seq![hi_byte(v), lo_byte(v)]),
        TokenModel::RawWord(w) => Ok(w),
        TokenModel::LitByte(b) => Ok(seq![0x80u8, b]),
        TokenModel::LitShort(v) => Ok(seq![0xa0u8, hi_byte(v), lo_byte(v)]),
        TokenModel::LitAddressZeroPage(r) => match label_address(r, labels, current) {
            Err(e) => Err(e),
            Ok(a) => if a > 0xff {
                Err(zero_page_error(r, current))
            } else {
                Ok(seq![0x80u8, a as u8])
            },
        },
        TokenModel::LitAddressRel(r) => match label_address(r, labels, current) {
            Err(e) => Err(e),
            Ok(a) => {
                let d = a - counter - 3;
                if d > 127 || d < -128 {
                    Err(relative_error(r, current))
                } else {
                    Ok(seq![0x80u8, ((d + 256) % 256) as u8])
                }
            },
        },
        TokenModel::LitAddressAbs(r) => match label_address(r, labels, current) {
            Err(e) => Err(e),
            Ok(a) => Ok(seq![0xa0u8, hi_byte(a), lo_byte(a)]),
        },
        TokenModel::RawAbsAddr(r) => match label_address(r, labels, current) {
            Err(e) => Err(e),
            Ok(a) => Ok(seq![hi_byte(a), lo_byte(a)]),
        },
        _ => Err(GetBytesErrorModel::NotWritableToken),
    }
}

/// The view of a byte result.
pub open spec fn bytes_view(r: Result<Vec<u8>, GetBytesError>) -> Result<Seq<u8>, GetBytesErrorModel> {
    match r {
        Ok(v) => Ok(v@),
        Err(e) => Err(e@),
    }
}

/// Number of bytes that a token takes in the program, padding aside.
pub open spec fn token_size(t: TokenModel) -> int {
    match t {
        TokenModel::Op(_) => 1,
        TokenModel::RawByte(_) => 1,
        TokenModel::RawShort(_) => 2,
        TokenModel::RawWord(w) => w.len() as int,
        TokenModel::LitByte(_) => 2,
        TokenModel::LitShort(_) => 3,
        TokenModel::LitAddressZeroPage(_) => 2,
        TokenModel::LitAddressRel(_) => 2,
        TokenModel::LitAddressAbs(_) => 3,
        TokenModel::RawAbsAddr(_) => 2,
        _ => 0,
    }
}

/// The address after a token at `pc`: the padding target, or past its bytes.
pub open spec fn next_counter(t: TokenModel, pc: u16) -> int {
    match t {
        TokenModel::PadAbs(n) => n as int,
        TokenModel::PadRel(n) => pc + n,
        _ => pc + token_size(t),
    }
}

fn name_error_pair(label_name: &String, sub_label_name: &String) -> (r: (String, String))
    ensures
        r.0@ == label_name@,
        r.1@ == sub_label_name@,
{
    (label_name.clone(), sub_label_name.clone())
}

/// The address that `label_ref` names.
pub fn get_address_of_label(label_ref: &LabelRef, prog_state: &ProgState) -> (r: Result<u16, GetBytesError>)
    ensures
        match r {
            Ok(a) => label_address(label_ref@, labels_view(prog_state.labels@), prog_state.current_label@) == Ok::<u16, GetBytesErrorModel>(a),
            Err(e) => label_address(label_ref@, labels_view(prog_state.labels@), prog_state.current_label@) == Err::<u16, GetBytesErrorModel>(e@),
        },
{
    let labels = prog_state.labels;
    let ghost lv = labels_view(labels@);
    match label_ref {
        LabelRef::Label { label_name } => {
            match find_label(labels, label_name) {
                Some(i) => {
                    proof {
                        assert forall|j: int| first_named(lv, label_name@, j) implies j == i by {
                            lemma_first_named_unique(lv, label_name@, i as int, j);
                        }
                    }
                    Ok(labels[i].1.address)
                },
                None => Err(GetBytesError::UndefinedLabel { label_name: label_name.clone() }),
            }
        },
        LabelRef::SubLabel { sub_label_name } => {
            let current = &prog_state.current_label;
            match find_label(labels, current) {
                Some(i) => {
                    proof {
                        assert forall|j: int| first_named(lv, current@, j) implies j == i by {
                            lemma_first_named_unique(lv, current@, i as int, j);
                        }
                    }
                    match find_sub_label(&labels[i].1, sub_label_name) {
                        Some(a) => Ok(a),
                        None => {
                            let (l, s) = name_error_pair(current, sub_label_name);
                            Err(GetBytesError::UndefinedSubLabel { label_name: l, sub_label_name: s })
                        },
                    }
                },
                None => {
                    let (l, s) = name_error_pair(current, sub_label_name);
                    Err(GetBytesError::UndefinedSubLabel { label_name: l, sub_label_name: s })
                },
            }
        },
        LabelRef::FullSubLabel { label_name, sub_label_name } => {
            match find_label(labels, label_name) {
                Some(i) => {
                    proof {
                        assert forall|j: int| first_named(lv, label_name@, j) implies j == i by {
                            lemma_first_named_unique(lv, label_name@, i as int, j);
                        }
                    }
                    match find_sub_label(&labels[i].1, sub_label_name) {
                        Some(a) => Ok(a),
                        None => {
                            let (l, s) = name_error_pair(label_name, sub_label_name);
                            Err(GetBytesError::UndefinedSubLabel { label_name: l, sub_label_name: s })
                        },
                    }
                },
                None => {
                    let (l, s) = name_error_pair(label_name, sub_label_name);
                    Err(GetBytesError::UndefinedSubLabel { label_name: l, sub_label_name: s })
                },
            }
        },
    }
}

fn bytes1(a: u8) -> (r: Vec<u8>)
    ensures
        r@ == seq![a],
{
    let mut r: Vec<u8> = Vec::new();
    r.push(a);
    assert(r@ =~= seq![a]);
    r
}

fn bytes2(a: u8, b: u8) -> (r: Vec<u8>)
    ensures
        r@ == seq![a, b],
{
    let mut r: Vec<u8> = Vec::new();
    r.push(a);
    r.push(b);
    assert(r@ =~= seq![a, b]);
    r
}

fn bytes3(a: u8, b: u8, c: u8) -> (r: Vec<u8>)
    ensures
        r@ == seq![a, b, c],
{
    let mut r: Vec<u8> = Vec::new();
    r.push(a);
    r.push(b);
    r.push(c);
    assert(r@ =~= seq![a, b, c]);
    r
}

fn zero_page_error_exec(r: &LabelRef, current: &String) -> (e: GetBytesError)
    ensures
        e@ == zero_page_error(r@, current@),
{
    match r {
        LabelRef::Label { label_name } => GetBytesError::LabelNotInZeroPage { label_name: label_name.clone() },
        LabelRef::SubLabel { sub_label_name } => {
            let (l, s) = name_error_pair(current, sub_label_name);
            GetBytesError::SubLabelNotInZeroPage { label_name: l, sub_label_name: s }
        },
        LabelRef::FullSubLabel { label_name, sub_label_name } => {
            let (l, s) = name_error_pair(label_name, sub_label_name);
            GetBytesError::SubLabelNotInZeroPage { label_name: l, sub_label_name: s }
        },
    }
}

fn relative_error_exec(r: &LabelRef, current: &String) -> (e: GetBytesError)
    ensures
        e@ == relative_error(r@, current@),
{
    match r {
        LabelRef::Label { label_name } => GetBytesError::RelLabelNotInRange { label_name: label_name.clone() },
        LabelRef::SubLabel { sub_label_name } => {
            let (l, s) = name_error_pair(current, sub_label_name);
            GetBytesError::RelSubLabelNotInRange { label_name: l, sub_label_name: s }
        },
        LabelRef::FullSubLabel { label_name, sub_label_name } => {
            let (l, s) = name_error_pair(label_name, sub_label_name);
            GetBytesError::RelSubLabelNotInRange { label_name: l, sub_label_name: s }
        },
    }
}

impl UxnToken {
    /// The bytes that the token writes where the program stands at `prog_state`.
    pub fn get_bytes(&self, prog_state: &ProgState) -> (r: Result<Vec<u8>, GetBytesError>)
        ensures
            bytes_view(r) == token_bytes(self@, prog_state.counter, labels_view(prog_state.labels@), prog_state.current_label@),
    {
        match self {
            UxnToken::Op(o) => Ok(o.get_bytes()),
            UxnToken::RawByte(b) => Ok(bytes1(*b)),
            UxnToken::RawShort(v) => {
                let (h, l) = be_bytes(*v);
                Ok(bytes2(h, l))
            },
            UxnToken::RawWord(w) => Ok(w.clone()),
            UxnToken::LitByte(b) => Ok(bytes2(0x80, *b)),
            UxnToken::LitShort(v) => {
                let (h, l) = be_bytes(*v);
                Ok(bytes3(0xa0, h, l))
            },
            UxnToken::LitAddressZeroPage(r) => {
                let a = match get_address_of_label(r, prog_state) {
                    Ok(a) => a,
                    Err(e) => {
                        return Err(e);
                    },
                };
                if a > 0xff {
                    return Err(zero_page_error_exec(r, &prog_state.current_label));
                }
                Ok(bytes2(0x80, a as u8))
            },
            UxnToken::LitAddressRel(r) => {
                let a = match get_address_of_label(r, prog_state) {
                    Ok(a) => a,
                    Err(e) => {
                        return Err(e);
                    },
                };
                let d: i32 = a as i32 - prog_state.counter as i32 - 3;
                if d > 127 || d < -128 {
                    return Err(relative_error_exec(r, &prog_state.current_label));
                }
                Ok(bytes2(0x80, ((d + 256) % 256) as u8))
            },
            UxnToken::LitAddressAbs(r) => {
                let a = match get_address_of_label(r, prog_state) {
                    Ok(a) => a,
                    Err(e) => {
                        return Err(e);
                    },
                };
                let (h, l) = be_bytes(a);
                Ok(bytes3(0xa0, h, l))
            },
            UxnToken::RawAbsAddr(r) => {
                let a = match get_address_of_label(r, prog_state) {
                    Ok(a) => a,
                    Err(e) => {
                        return Err(e);
                    },
                };
                let (h, l) = be_bytes(a);
                Ok(bytes2(h, l))
            },
            _ => Err(GetBytesError::NotWritableToken),
        }
    }

    /// The address after this token, where it stands at `prog_counter`.
    pub fn update_prog_counter(&self, prog_counter: u16) -> (r: u16)
        requires
            next_counter(self@, prog_counter) <= u16::MAX,
        ensures
            r == next_counter(self@, prog_counter),
    {
        match self {
            UxnToken::PadAbs(n) => *n,
            UxnToken::PadRel(n) => prog_counter + *n,
            UxnToken::Op(_) => prog_counter + 1,
            UxnToken::RawByte(_) => prog_counter + 1,
            UxnToken::RawShort(_) => prog_counter + 2,
            UxnToken::RawWord(w) => prog_counter + w.len() as u16,
            UxnToken::LitByte(_) => prog_counter + 2,
            UxnToken::LitShort(_) => prog_counter + 3,
            UxnToken::LitAddressZeroPage(_) => prog_counter + 2,
            UxnToken::LitAddressRel(_) => prog_counter + 2,
            UxnToken::LitAddressAbs(_) => prog_counter + 3,
            UxnToken::RawAbsAddr(_) => prog_counter + 2,
            _ => prog_counter,
        }
    }
}

/// A token that writes bytes writes as many as it takes in the program.
pub proof fn lemma_token_bytes_fill_size(
    t: TokenModel,
    counter: u16,
    labels: Seq<(Seq<char>, LabelModel)>,
    current: Seq<char>,
)
    requires
        token_bytes(t, counter, labels, current) is Ok,
    ensures
        token_bytes(t, counter, labels, current)->Ok_0.len() == token_size(t),
{
}

impl std::str::FromStr for UxnToken {
    type Err = ParseError;

    fn from_str(s: &str) -> (r: Result<Self, Self::Err>)
        ensures
            if s@.len() == 0 || !is_ascii_char(s@[0]) {
                r matches Ok(t) && t@ == TokenModel::MacroInvocation(s@)
            } else {
                parsed_view(r) == parse_token(s@)
            },
    {
        let n = s.unicode_len();
        if n == 0 || s.get_char(0) > '\x7f' {
            return Ok(UxnToken::MacroInvocation(s.to_owned()));
        }
        UxnToken::parse(s)
    }
}

} // verus!
