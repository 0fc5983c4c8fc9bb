pub mod chars;
pub mod macros;
pub mod prog_state;
pub mod text;
pub mod tokens;

use vstd::prelude::*;

use text::{flush, lines_tokens, scan_line, split_to_token_strings, strings_view, strip_comments, strip_pass};
use prog_state::{
    find_label, first_named, labels_view, lemma_first_named_unique, Label, LabelModel, ProgState,
};
use tokens::{
    is_ascii_char, lemma_token_bytes_fill_size, parse_error_text, parse_token, token_bytes, token_size, GetBytesError,
    GetBytesErrorModel, ParseError, ParseErrorModel, TokenModel, UxnToken,
};

verus! {

/// Why a program cannot be assembled.
#[derive(Debug, PartialEq, Eq, Clone)]
pub enum AsmError {
    AbsPaddingRegression,
    ZeroPageWrite,
    ProgramTooLarge,
    TokenParseError { parse_error: ParseError },
    Output { msg: String },
    UndefinedLabel { label_name: String },
    UndefinedSubLabel { label_name: String, sub_label_name: String },
    LabelNotInZeroPage { label_name: String },
    SubLabelNotInZeroPage { label_name: String, sub_label_name: String },
    RelLabelNotInRange { label_name: String },
    RelSubLabelNotInRange { label_name: String, sub_label_name: String },
    SubLabelWithNoLabel { sub_label_name: String },
    DoubleMacroDefine { macro_name: String },
    MalformedMacroDefine { macro_name: String },
    MacroDefineWithinMacro { outer_macro_name: String, inner_macro_name: String },
    MacroStartDelimiterMisplaced,
    MacroEndDelimiterMisplaced,
}

pub enum AsmErrorModel {
    AbsPaddingRegression,
    ZeroPageWrite,
    ProgramTooLarge,
    TokenParseError(ParseErrorModel),
    Output(Seq<char>),
    UndefinedLabel(Seq<char>),
    UndefinedSubLabel(Seq<char>, Seq<char>),
    LabelNotInZeroPage(Seq<char>),
    SubLabelNotInZeroPage(Seq<char>, Seq<char>),
    RelLabelNotInRange(Seq<char>),
    RelSubLabelNotInRange(Seq<char>, Seq<char>),
    SubLabelWithNoLabel(Seq<char>),
    DoubleMacroDefine(Seq<char>),
    MalformedMacroDefine(Seq<char>),
    MacroDefineWithinMacro(Seq<char>, Seq<char>),
    MacroStartDelimiterMisplaced,
    MacroEndDelimiterMisplaced,
}

impl View for AsmError {
    type V = AsmErrorModel;

    open spec fn view(&self) -> AsmErrorModel {
        match self {
            AsmError::AbsPaddingRegression => AsmErrorModel::AbsPaddingRegression,
            AsmError::ZeroPageWrite => AsmErrorModel::ZeroPageWrite,
            AsmError::ProgramTooLarge => AsmErrorModel::ProgramTooLarge,
            AsmError::TokenParseError { parse_error } => AsmErrorModel::TokenParseError(parse_error@),
            AsmError::Output { msg } => AsmErrorModel::Output(msg@),
            AsmError::UndefinedLabel { label_name } => AsmErrorModel::UndefinedLabel(label_name@),
            AsmError::UndefinedSubLabel { label_name, sub_label_name } => AsmErrorModel::UndefinedSubLabel(label_name@, sub_label_name@),
            AsmError::LabelNotInZeroPage { label_name } => AsmErrorModel::LabelNotInZeroPage(label_name@),
            AsmError::SubLabelNotInZeroPage { label_name, sub_label_name } => AsmErrorModel::SubLabelNotInZeroPage(label_name@, sub_label_name@),
            AsmError::RelLabelNotInRange { label_name } => AsmErrorModel::RelLabelNotInRange(label_name@),
            AsmError::RelSubLabelNotInRange { label_name, sub_label_name } => AsmErrorModel::RelSubLabelNotInRange(label_name@, sub_label_name@),
            AsmError::SubLabelWithNoLabel { sub_label_name } => AsmErrorModel::SubLabelWithNoLabel(sub_label_name@),
            AsmError::DoubleMacroDefine { macro_name } => AsmErrorModel::DoubleMacroDefine(macro_name@),
            AsmError::MalformedMacroDefine { macro_name } => AsmErrorModel::MalformedMacroDefine(macro_name@),
            AsmError::MacroDefineWithinMacro { outer_macro_name, inner_macro_name } => AsmErrorModel::MacroDefineWithinMacro(outer_macro_name@, inner_macro_name@),
            AsmError::MacroStartDelimiterMisplaced => AsmErrorModel::MacroStartDelimiterMisplaced,
            AsmError::MacroEndDelimiterMisplaced => AsmErrorModel::MacroEndDelimiterMisplaced,
        }
    }
}

/// The description of an assembly error.
pub open spec fn asm_error_text(e: AsmErrorModel) -> Seq<char> {
    match e {
        AsmErrorModel::AbsPaddingRegression => "attempt to pad to absolute program location behind current counter"@,
        AsmErrorModel::ZeroPageWrite => "zero page write"@,
        AsmErrorModel::ProgramTooLarge => "program does not fit in memory"@,
        AsmErrorModel::TokenParseError(p) => "failed to parse token: "@ + parse_error_text(p),
        AsmErrorModel::Output(msg) => "output error: "@ + msg,
        AsmErrorModel::UndefinedLabel(l) => "undefined label: "@ + l,
        AsmErrorModel::UndefinedSubLabel(l, s) => "undefined sub-label: "@ + l + "/"@ + s,
        AsmErrorModel::LabelNotInZeroPage(l) => "label not in zero page: "@ + l,
        AsmErrorModel::SubLabelNotInZeroPage(l, s) => "sub-label not in zero page: "@ + l + "/"@ + s,
        AsmErrorModel::RelLabelNotInRange(l) => "label out of relative range: "@ + l,
        AsmErrorModel::RelSubLabelNotInRange(l, s) => "sub-label out of relative range: "@ + l + "/"@ + s,
        AsmErrorModel::SubLabelWithNoLabel(s) => "sub-label defined before label: "@ + s,
        AsmErrorModel::DoubleMacroDefine(m) => "macro defined twice: "@ + m,
        AsmErrorModel::MalformedMacroDefine(m) => "malformed macro definition: "@ + m,
        AsmErrorModel::MacroDefineWithinMacro(outer, inner) => "macro "@ + inner + " defined within macro "@ + outer,
        AsmErrorModel::MacroStartDelimiterMisplaced => "misplaced macro start delimiter"@,
        AsmErrorModel::MacroEndDelimiterMisplaced => "misplaced macro end delimiter"@,
    }
}

impl AsmError {
    /// Human readable description of the error.
    pub fn message(&self) -> (r: String)
        ensures
            r@ == asm_error_text(self@),
    {
        match self {
            AsmError::AbsPaddingRegression => String::from_str(
                "attempt to pad to absolute program location behind current counter",
            ),
            AsmError::ZeroPageWrite => String::from_str("zero page write"),
            AsmError::ProgramTooLarge => String::from_str("program does not fit in memory"),
            AsmError::TokenParseError { parse_error } => String::from_str("failed to parse token: ").concat(
                parse_error.message().as_str(),
            ),
            AsmError::Output { msg } => String::from_str("output error: ").concat(msg.as_str()),
            AsmError::UndefinedLabel { label_name } => String::from_str("undefined label: ").concat(label_name.as_str()),
            AsmError::UndefinedSubLabel { label_name, sub_label_name } => String::from_str(
                "undefined sub-label: ",
            ).concat(label_name.as_str()).concat("/").concat(sub_label_name.as_str()),
            AsmError::LabelNotInZeroPage { label_name } => String::from_str("label not in zero page: ").concat(
                label_name.as_str(),
            ),
            AsmError::SubLabelNotInZeroPage { label_name, sub_label_name } => String::from_str(
                "sub-label not in zero page: ",
            ).concat(label_name.as_str()).concat("/").concat(sub_label_name.as_str()),
            AsmError::RelLabelNotInRange { label_name } => String::from_str("label out of relative range: ").concat(
                label_name.as_str(),
            ),
            AsmError::RelSubLabelNotInRange { label_name, sub_label_name } => String::from_str(
                "sub-label out of relative range: ",
            ).concat(label_name.as_str()).concat("/").concat(sub_label_name.as_str()),
            AsmError::SubLabelWithNoLabel { sub_label_name } => String::from_str(
                "sub-label defined before label: ",
            ).concat(sub_label_name.as_str()),
            AsmError::DoubleMacroDefine { macro_name } => String::from_str("macro defined twice: ").concat(
                macro_name.as_str(),
            ),
            AsmError::MalformedMacroDefine { macro_name } => String::from_str("malformed macro definition: ").concat(
                macro_name.as_str(),
            ),
            AsmError::MacroDefineWithinMacro { outer_macro_name, inner_macro_name } => String::from_str("macro ").concat(
                inner_macro_name.as_str(),
            ).concat(" defined within macro ").concat(outer_macro_name.as_str()),
            AsmError::MacroStartDelimiterMisplaced => String::from_str("misplaced macro start delimiter"),
            AsmError::MacroEndDelimiterMisplaced => String::from_str("misplaced macro end delimiter"),
        }
    }
}

/// The entries with `v` under `name`: in place of the first entry of that name, or added at
/// the end.
pub open spec fn insert_named<V>(entries: Seq<(Seq<char>, V)>, name: Seq<char>, v: V) -> Seq<(Seq<char>, V)> {
    if exists|i: int| first_named(entries, name, i) {
        entries.update(choose|i: int| first_named(entries, name, i), (name, v))
    } else {
        entries.push((name, v))
    }
}

/// The labels with the sub-label `sub` of label `label` at `address`.
pub open spec fn add_sub_label(
    labels: Seq<(Seq<char>, LabelModel)>,
    label: Seq<char>,
    sub: Seq<char>,
    address: u16,
) -> Seq<(Seq<char>, LabelModel)> {
    if exists|i: int| first_named(labels, label, i) {
        let i = choose|i: int| first_named(labels, label, i);
        labels.update(
            i,
            (label, LabelModel { address: labels[i].1.address, sub_labels: insert_named(labels[i].1.sub_labels, sub, address) }),
        )
    } else {
        labels
    }
}

/// Where the checking pass stands: the address of the next byte, the label defined last, and
/// the labels found so far.
pub struct ValidateState {
    pub loc: int,
    pub current: Option<Seq<char>>,
    pub labels: Seq<(Seq<char>, LabelModel)>,
}

/// One step of the checking pass, which places labels and finds where a program breaks the
/// rules: padding back to an address already passed, writing into the zero page (below
/// 0x100), a sub-label before any label, or a program that runs past the end of memory.
pub open spec fn validate_step(
    st: ValidateState,
    item: Result<TokenModel, ParseErrorModel>,
) -> (ValidateState, Result<TokenModel, AsmErrorModel>) {
    match item {
        Err(e) => (st, Err(AsmErrorModel::TokenParseError(e))),
        Ok(t) => match t {
            TokenModel::PadAbs(n) => if n < st.loc {
                (st, Err(AsmErrorModel::AbsPaddingRegression))
            } else {
                (ValidateState { loc: n as int, ..st }, Ok(t))
            },
            TokenModel::PadRel(n) => if st.loc + n > 0xffff {
                (st, Err(AsmErrorModel::ProgramTooLarge))
            } else {
                (ValidateState { loc: st.loc + n, ..st }, Ok(t))
            },
            TokenModel::LabelDefine(name) => (
                ValidateState {
                    current: Some(name),
                    labels: insert_named(st.labels, name, LabelModel { address: st.loc as u16, sub_labels: Seq::empty() }),
                    ..st
                },
                Ok(t),
            ),
            TokenModel::SubLabelDefine(sub) => match st.current {
                Some(label) => (ValidateState { labels: add_sub_label(st.labels, label, sub, st.loc as u16), ..st }, Ok(t)),
                None => (st, Err(AsmErrorModel::SubLabelWithNoLabel(sub))),
            },
            _ => if st.loc < 0x100 {
                (st, Err(AsmErrorModel::ZeroPageWrite))
            } else if st.loc + token_size(t) > 0xffff {
                (st, Err(AsmErrorModel::ProgramTooLarge))
            } else {
                (ValidateState { loc: st.loc + token_size(t), ..st }, Ok(t))
            },
        },
    }
}

/// The checking pass over `items`, starting at address 0 with the labels `init`.
pub open spec fn validate_pass(
    init: Seq<(Seq<char>, LabelModel)>,
    items: Seq<Result<TokenModel, ParseErrorModel>>,
) -> (ValidateState, Seq<Result<TokenModel, AsmErrorModel>>)
    decreases items.len(),
{
    if items.len() == 0 {
        (ValidateState { loc: 0, current: None, labels: init }, Seq::empty())
    } else {
        let (st, out) = validate_pass(init, items.drop_last());
        let (st2, r) = validate_step(st, items.last());
        (st2, out.push(r))
    }
}

pub open spec fn parse_results_view(v: Seq<Result<UxnToken, ParseError>>) -> Seq<Result<TokenModel, ParseErrorModel>> {
    v.map_values(|r: Result<UxnToken, ParseError>| match r {
        Ok(t) => Ok(t@),
        Err(e) => Err(e@),
    })
}

pub open spec fn asm_results_view(v: Seq<Result<UxnToken, AsmError>>) -> Seq<Result<TokenModel, AsmErrorModel>> {
    v.map_values(|r: Result<UxnToken, AsmError>| match r {
        Ok(t) => Ok(t@),
        Err(e) => Err(e@),
    })
}


/// Puts `label` under `name`: in place of the first label of that name, or at the end.
fn insert_label(labels: &mut Vec<(String, Label)>, name: String, label: Label)
    ensures
        labels_view(final(labels)@) == insert_named(labels_view(old(labels)@), name@, label@),
{
    let ghost lv = labels_view(labels@);
    match find_label(labels, &name) {
        Some(i) => {
            proof {
                assert forall|j: int| first_named(lv, name@, j) implies j == i by {
                    lemma_first_named_unique(lv, name@, i as int, j);
                }
            }
            labels.set(i, (name, label));
            assert(labels_view(labels@) =~= insert_named(lv, name@, label@));
        },
        None => {
            labels.push((name, label));
            assert(labels_view(labels@) =~= insert_named(lv, name@, label@));
        },
    }
}

/// Puts `address` under the sub-label `name` of `label`.
fn insert_sub_label(label: &mut Label, name: String, address: u16)
    ensures
        final(label)@.address == old(label)@.address,
        final(label)@.sub_labels == insert_named(old(label)@.sub_labels, name@, address),
{
    let ghost sv = old(label)@.sub_labels;
    let mut i: usize = 0;
    while i < label.sub_labels.len()
        invariant
            i <= label.sub_labels@.len(),
            *label == *old(label),
            sv == label@.sub_labels,
            forall|k: int| 0 <= k < i ==> sv[k].0 != name@,
        decreases label.sub_labels.len() - i,
    {
        if label.sub_labels[i].0 == name {
            proof {
                assert(first_named(sv, name@, i as int));
                assert forall|j: int| first_named(sv, name@, j) implies j == i by {
                    lemma_first_named_unique(sv, name@, i as int, j);
                }
            }
            label.sub_labels.set(i, (name, address));
            assert(label@.sub_labels =~= insert_named(sv, name@, address));
            return;
        }
        i = i + 1;
    }
    label.sub_labels.push((name, address));
    assert(label@.sub_labels =~= insert_named(sv, name@, address));
}

/// Adds the sub-label `sub` of the label named `current` at `address`.
fn add_sub_label_exec(labels: &mut Vec<(String, Label)>, current: &String, sub: String, address: u16)
    ensures
        labels_view(final(labels)@) == add_sub_label(labels_view(old(labels)@), current@, sub@, address),
{
    let ghost lv = labels_view(labels@);
    match find_label(labels, current) {
        Some(i) => {
            proof {
                assert forall|j: int| first_named(lv, current@, j) implies j == i by {
                    lemma_first_named_unique(lv, current@, i as int, j);
                }
            }
            let (name, mut label) = labels.remove(i);
            insert_sub_label(&mut label, sub, address);
            labels.insert(i, (name, label));
            assert(labels_view(labels@) =~= add_sub_label(lv, current@, sub@, address));
        },
        None => {},
    }
}

fn token_size_exec(t: &UxnToken) -> (r: usize)
    ensures
        r == token_size(t@),
{
    match t {
        UxnToken::Op(_) => 1,
        UxnToken::RawByte(_) => 1,
        UxnToken::RawShort(_) => 2,
        UxnToken::RawWord(w) => w.len(),
        UxnToken::LitByte(_) => 2,
        UxnToken::LitShort(_) => 3,
        UxnToken::LitAddressZeroPage(_) => 2,
        UxnToken::LitAddressRel(_) => 2,
        UxnToken::LitAddressAbs(_) => 3,
        UxnToken::RawAbsAddr(_) => 2,
        _ => 0,
    }
}

/// Checks a stream of parsed tokens, placing the labels it defines in `labels`, and gives
/// each token back, or the error found at it.
pub fn validate_tokens(input: Vec<Result<UxnToken, ParseError>>, labels: &mut Vec<(String, Label)>) -> (r: Vec<Result<UxnToken, AsmError>>)
    ensures
        asm_results_view(r@) == validate_pass(labels_view(old(labels)@), parse_results_view(input@)).1,
        labels_view(final(labels)@) == validate_pass(labels_view(old(labels)@), parse_results_view(input@)).0.labels,
{
    let ghost items = input@;
    let ghost init = labels_view(labels@);
    let mut prog_loc: u16 = 0;
    let mut current_label: Option<String> = None;
    let mut out: Vec<Result<UxnToken, AsmError>> = Vec::new();
    for item in it: input.into_iter()
        invariant
            it.seq() == items,
            ({
                let (st, o) = validate_pass(init, parse_results_view(items.take(it.index() as int)));
                &&& st.loc == prog_loc as int
                &&& st.current == (match current_label { Some(c) => Some(c@), None => None::<Seq<char>> })
                &&& st.labels == labels_view(labels@)
                &&& o == asm_results_view(out@)
            }),
    {
        proof {
            let t = parse_results_view(items.take(it.index() as int + 1));
            assert(t.drop_last() =~= parse_results_view(items.take(it.index() as int)));
            assert(t.last() == (match item { Ok(t) => Ok(t@), Err(e) => Err(e@) }));
        }
        let ghost pre = asm_results_view(out@);
        let r: Result<UxnToken, AsmError> = match item {
            Err(e) => Err(AsmError::TokenParseError { parse_error: e }),
            Ok(t) => {
                match t {
                    UxnToken::PadAbs(n) => {
                        if n < prog_loc {
                            Err(AsmError::AbsPaddingRegression)
                        } else {
                            prog_loc = n;
                            Ok(UxnToken::PadAbs(n))
                        }
                    },
                    UxnToken::PadRel(n) => {
                        if n > 0xffff - prog_loc {
                            Err(AsmError::ProgramTooLarge)
                        } else {
                            prog_loc = prog_loc + n;
                            Ok(UxnToken::PadRel(n))
                        }
                    },
                    UxnToken::LabelDefine(name) => {
                        let key = name.clone();
                        let current = name.clone();
                        insert_label(labels, key, Label::new(prog_loc));
                        current_label = Some(current);
                        Ok(UxnToken::LabelDefine(name))
                    },
                    UxnToken::SubLabelDefine(sub) => {
                        match &current_label {
                            Some(label) => {
                                add_sub_label_exec(labels, label, sub.clone(), prog_loc);
                                Ok(UxnToken::SubLabelDefine(sub))
                            },
                            None => Err(AsmError::SubLabelWithNoLabel { sub_label_name: sub }),
                        }
                    },
                    other => {
                        let size = token_size_exec(&other);
                        if prog_loc < 0x100 {
                            Err(AsmError::ZeroPageWrite)
                        } else if size > 0xffff - prog_loc as usize {
                            Err(AsmError::ProgramTooLarge)
                        } else {
                            prog_loc = prog_loc + size as u16;
                            Ok(other)
                        }
                    },
                }
            },
        };
        out.push(r);
        proof {
            assert(asm_results_view(out@) =~= pre.push(match r { Ok(t) => Ok(t@), Err(e) => Err(e@) }));
        }
    }
    assert(items.take(items.len() as int) =~= items);
    out
}

/// The assembly error that a token's byte error stands for.
pub open spec fn asm_error_of(e: GetBytesErrorModel) -> AsmErrorModel {
    match e {
        GetBytesErrorModel::UndefinedLabel(n) => AsmErrorModel::UndefinedLabel(n),
        GetBytesErrorModel::UndefinedSubLabel(n, s) => AsmErrorModel::UndefinedSubLabel(n, s),
        GetBytesErrorModel::LabelNotInZeroPage(n) => AsmErrorModel::LabelNotInZeroPage(n),
        GetBytesErrorModel::SubLabelNotInZeroPage(n, s) => AsmErrorModel::SubLabelNotInZeroPage(n, s),
        GetBytesErrorModel::RelLabelNotInRange(n) => AsmErrorModel::RelLabelNotInRange(n),
        GetBytesErrorModel::RelSubLabelNotInRange(n, s) => AsmErrorModel::RelSubLabelNotInRange(n, s),
        GetBytesErrorModel::NotWritableToken => AsmErrorModel::ProgramTooLarge,
    }
}

fn asm_error_from(e: GetBytesError) -> (r: AsmError)
    requires
        !(e is NotWritableToken),
    ensures
        r@ == asm_error_of(e@),
{
    match e {
        GetBytesError::UndefinedLabel { label_name } => AsmError::UndefinedLabel { label_name },
        GetBytesError::UndefinedSubLabel { label_name, sub_label_name } => AsmError::UndefinedSubLabel { label_name, sub_label_name },
        GetBytesError::LabelNotInZeroPage { label_name } => AsmError::LabelNotInZeroPage { label_name },
        GetBytesError::SubLabelNotInZeroPage { label_name, sub_label_name } => AsmError::SubLabelNotInZeroPage { label_name, sub_label_name },
        GetBytesError::RelLabelNotInRange { label_name } => AsmError::RelLabelNotInRange { label_name },
        GetBytesError::RelSubLabelNotInRange { label_name, sub_label_name } => AsmError::RelSubLabelNotInRange { label_name, sub_label_name },
        GetBytesError::NotWritableToken => AsmError::ProgramTooLarge,
    }
}

pub open spec fn zeros(n: int) -> Seq<u8> {
    Seq::new(n as nat, |i: int| 0u8)
}

/// Where writing a program out stands: the number of bytes written (from address 0), the
/// label defined last, and the bytes.
pub struct OutputState {
    pub count: int,
    pub current: Seq<char>,
    pub image: Seq<u8>,
}

/// Writing out one token: its bytes, zeros for padding, nothing for tokens that shape the
/// program without writing; its label errors; an error past the end of memory.
pub open spec fn output_step(st: OutputState, t: TokenModel, labels: Seq<(Seq<char>, LabelModel)>) -> Result<OutputState, AsmErrorModel> {
    if st.count > 0xffff {
        Err(AsmErrorModel::ProgramTooLarge)
    } else {
        let current = match t {
            TokenModel::LabelDefine(n) => n,
            _ => st.current,
        };
        let bytes = match token_bytes(t, st.count as u16, labels, current) {
            Ok(b) => Ok(b),
            Err(GetBytesErrorModel::NotWritableToken) => match t {
                TokenModel::PadAbs(n) => if n >= st.count {
                    Ok(zeros(n - st.count))
                } else {
                    Err(AsmErrorModel::AbsPaddingRegression)
                },
                TokenModel::PadRel(n) => Ok(zeros(n as int)),
                _ => Ok(Seq::empty()),
            },
            Err(e) => Err(asm_error_of(e)),
        };
        match bytes {
            Ok(b) => Ok(OutputState { count: st.count + b.len(), current, image: st.image + b }),
            Err(e) => Err(e),
        }
    }
}

pub open spec fn output_pass(program: Seq<TokenModel>, labels: Seq<(Seq<char>, LabelModel)>) -> Result<OutputState, AsmErrorModel>
    decreases program.len(),
{
    if program.len() == 0 {
        Ok(OutputState { count: 0, current: Seq::empty(), image: Seq::empty() })
    } else {
        match output_pass(program.drop_last(), labels) {
            Err(e) => Err(e),
            Ok(st) => output_step(st, program.last(), labels),
        }
    }
}

/// The bytes of a ROM: the program's bytes from the initial vector (0x100) on.
pub open spec fn rom_bytes(program: Seq<TokenModel>, labels: Seq<(Seq<char>, LabelModel)>) -> Result<Seq<u8>, AsmErrorModel> {
    match output_pass(program, labels) {
        Ok(st) => Ok(if st.image.len() > 0x100 { st.image.skip(0x100) } else { Seq::empty() }),
        Err(e) => Err(e),
    }
}

/// The first error among the results, or all the tokens.
pub open spec fn collect_results(v: Seq<Result<TokenModel, AsmErrorModel>>) -> Result<Seq<TokenModel>, AsmErrorModel>
    decreases v.len(),
{
    if v.len() == 0 {
        Ok(Seq::empty())
    } else {
        match collect_results(v.drop_last()) {
            Err(e) => Err(e),
            Ok(ts) => match v.last() {
                Ok(t) => Ok(ts.push(t)),
                Err(e) => Err(e),
            },
        }
    }
}

/// The tokens of a program outside its comments.
pub open spec fn program_words(lines: Seq<Seq<char>>) -> Seq<Seq<char>> {
    strip_pass(lines_tokens(lines)).0
}

/// Every word of the program outside comments starts with an ASCII character.
pub open spec fn words_start_ascii(lines: Seq<Seq<char>>) -> bool {
    forall|k: int| 0 <= k < program_words(lines).len() ==> is_ascii_char(#[trigger] program_words(lines)[k][0])
}

/// Each word read as a token.
pub open spec fn parse_words(words: Seq<Seq<char>>) -> Seq<Result<TokenModel, ParseErrorModel>> {
    words.map_values(|w: Seq<char>| parse_token(w))
}

/// Assembling a program: its words parsed, checked and collected, and the labels placed.
pub open spec fn assembly(lines: Seq<Seq<char>>) -> Result<(Seq<TokenModel>, Seq<(Seq<char>, LabelModel)>), AsmErrorModel> {
    let words = program_words(lines);
    let (st, checked) = validate_pass(Seq::empty(), parse_words(words));
    match collect_results(checked) {
        Ok(ts) => Ok((ts, st.labels)),
        Err(e) => Err(e),
    }
}

proof fn lemma_scan_line_nonempty(l: Seq<char>)
    ensures
        forall|i: int| 0 <= i < scan_line(l).0.len() ==> #[trigger] scan_line(l).0[i].len() > 0,
    decreases l.len(),
{
    if l.len() > 0 {
        lemma_scan_line_nonempty(l.drop_last());
        let (done, cur) = scan_line(l.drop_last());
        let c = l.last();
        let f = flush(done, cur);
        assert forall|i: int| 0 <= i < f.len() implies #[trigger] f[i].len() > 0 by {
            if i < done.len() {
                assert(f[i] == done[i]);
            }
        }
        assert forall|i: int| 0 <= i < f.push(seq![c]).len() implies #[trigger] f.push(seq![c])[i].len() > 0 by {
            if i < f.len() {
                assert(f.push(seq![c])[i] == f[i]);
            }
        }
    }
}

proof fn lemma_lines_tokens_nonempty(lines: Seq<Seq<char>>)
    ensures
        forall|i: int| 0 <= i < lines_tokens(lines).len() ==> #[trigger] lines_tokens(lines)[i].len() > 0,
    decreases lines.len(),
{
    if lines.len() > 0 {
        lemma_lines_tokens_nonempty(lines.drop_last());
        let l = lines.last();
        lemma_scan_line_nonempty(l);
        let prev = lines_tokens(lines.drop_last());
        let lt = flush(scan_line(l).0, scan_line(l).1);
        assert forall|i: int| 0 <= i < lines_tokens(lines).len() implies #[trigger] lines_tokens(lines)[i].len() > 0 by {
            if i >= prev.len() {
                assert(lines_tokens(lines)[i] == lt[i - prev.len()]);
            }
        }
    }
}

proof fn lemma_strip_keeps(tokens: Seq<Seq<char>>)
    ensures
        forall|k: int| 0 <= k < strip_pass(tokens).0.len() ==> exists|j: int| 0 <= j < tokens.len() && tokens[j] == #[trigger] strip_pass(tokens).0[k],
    decreases tokens.len(),
{
    if tokens.len() > 0 {
        lemma_strip_keeps(tokens.drop_last());
        let prev = strip_pass(tokens.drop_last()).0;
        assert forall|k: int| 0 <= k < strip_pass(tokens).0.len() implies exists|j: int| 0 <= j < tokens.len() && tokens[j] == #[trigger] strip_pass(tokens).0[k] by {
            if k < prev.len() {
                let j = choose|j: int| 0 <= j < tokens.drop_last().len() && tokens.drop_last()[j] == prev[k];
                assert(tokens[j] == prev[k]);
            } else {
                assert(tokens[tokens.len() - 1] == strip_pass(tokens).0[k]);
            }
        }
    }
}

/// Every word of a program is a non-empty string.
pub proof fn lemma_program_words_nonempty(lines: Seq<Seq<char>>)
    ensures
        forall|k: int| 0 <= k < program_words(lines).len() ==> #[trigger] program_words(lines)[k].len() > 0,
{
    lemma_lines_tokens_nonempty(lines);
    lemma_strip_keeps(lines_tokens(lines));
    assert forall|k: int| 0 <= k < program_words(lines).len() implies #[trigger] program_words(lines)[k].len() > 0 by {
        let j = choose|j: int| 0 <= j < lines_tokens(lines).len() && lines_tokens(lines)[j] == program_words(lines)[k];
    }
}


proof fn lemma_collect_error_stays(v: Seq<Result<TokenModel, AsmErrorModel>>, k: int, e: AsmErrorModel)
    requires
        0 <= k <= v.len(),
        collect_results(v.take(k)) == Err::<Seq<TokenModel>, AsmErrorModel>(e),
    ensures
        collect_results(v) == Err::<Seq<TokenModel>, AsmErrorModel>(e),
    decreases v.len() - k,
{
    if k < v.len() {
        assert(v.take(k + 1).drop_last() =~= v.take(k));
        lemma_collect_error_stays(v, k + 1, e);
    } else {
        assert(v.take(k) =~= v);
    }
}

proof fn lemma_output_error_stays(p: Seq<TokenModel>, labels: Seq<(Seq<char>, LabelModel)>, k: int, e: AsmErrorModel)
    requires
        0 <= k <= p.len(),
        output_pass(p.take(k), labels) == Err::<OutputState, AsmErrorModel>(e),
    ensures
        output_pass(p, labels) == Err::<OutputState, AsmErrorModel>(e),
    decreases p.len() - k,
{
    if k < p.len() {
        assert(p.take(k + 1).drop_last() =~= p.take(k));
        lemma_output_error_stays(p, labels, k + 1, e);
    } else {
        assert(p.take(k) =~= p);
    }
}

/// A program's tokens as the results of parsing them without an error.
pub open spec fn parsed_ok(ts: Seq<TokenModel>) -> Seq<Result<TokenModel, ParseErrorModel>> {
    ts.map_values(|t: TokenModel| Ok::<TokenModel, ParseErrorModel>(t))
}

proof fn lemma_validate_len(init: Seq<(Seq<char>, LabelModel)>, items: Seq<Result<TokenModel, ParseErrorModel>>)
    ensures
        validate_pass(init, items).1.len() == items.len(),
    decreases items.len(),
{
    if items.len() > 0 {
        lemma_validate_len(init, items.drop_last());
    }
}

proof fn lemma_validate_prefix(
    init: Seq<(Seq<char>, LabelModel)>,
    items: Seq<Result<TokenModel, ParseErrorModel>>,
    k: int,
)
    requires
        0 <= k <= items.len(),
    ensures
        validate_pass(init, items.take(k)).1 == validate_pass(init, items).1.take(k),
    decreases items.len(),
{
    lemma_validate_len(init, items);
    if k == items.len() {
        assert(items.take(k) =~= items);
        assert(validate_pass(init, items).1.take(k) =~= validate_pass(init, items).1);
    } else {
        lemma_validate_prefix(init, items.drop_last(), k);
        assert(items.drop_last().take(k) =~= items.take(k));
        lemma_validate_len(init, items.drop_last());
        assert(validate_pass(init, items).1.take(k) =~= validate_pass(init, items.drop_last()).1.take(k));
    }
}

/// The checking pass and the output agree on where every token of a program goes: for a
/// program that the checking pass accepts and that can be written out, after any number of
/// its tokens the address that the checking pass has reached is the number of bytes written.
/// A label is therefore given the address at which the bytes after its definition land.
pub proof fn lemma_passes_agree(
    init: Seq<(Seq<char>, LabelModel)>,
    ts: Seq<TokenModel>,
    labels: Seq<(Seq<char>, LabelModel)>,
    k: int,
)
    requires
        0 <= k <= ts.len(),
        forall|i: int| 0 <= i < ts.len() ==> (#[trigger] validate_pass(init, parsed_ok(ts)).1[i]) is Ok,
        output_pass(ts, labels) is Ok,
    ensures
        output_pass(ts.take(k), labels) is Ok,
        validate_pass(init, parsed_ok(ts.take(k))).0.loc == output_pass(ts.take(k), labels)->Ok_0.count,
    decreases k,
{
    if k == 0 {
        assert(ts.take(0) =~= Seq::<TokenModel>::empty());
        assert(parsed_ok(ts.take(0)) =~= Seq::<Result<TokenModel, ParseErrorModel>>::empty());
    } else {
        lemma_passes_agree(init, ts, labels, k - 1);
        let pre = ts.take(k - 1);
        let cur = ts.take(k);
        let t = ts[k - 1];
        assert(cur.drop_last() =~= pre);
        assert(cur.last() == t);
        assert(parsed_ok(cur).drop_last() =~= parsed_ok(pre));
        assert(parsed_ok(cur).last() == Ok::<TokenModel, ParseErrorModel>(t));
        match output_pass(cur, labels) {
            Err(e) => {
                lemma_output_error_stays(ts, labels, k, e);
            },
            Ok(_) => {},
        }
        lemma_validate_prefix(init, parsed_ok(ts), k);
        assert(parsed_ok(ts).take(k) =~= parsed_ok(cur));
        lemma_validate_len(init, parsed_ok(ts));
        assert(validate_pass(init, parsed_ok(cur)).1.last() == validate_pass(init, parsed_ok(ts)).1[k - 1]);
        let st = validate_pass(init, parsed_ok(pre)).0;
        let ost = output_pass(pre, labels)->Ok_0;
        let current = match t {
            TokenModel::LabelDefine(n) => n,
            _ => ost.current,
        };
        match token_bytes(t, ost.count as u16, labels, current) {
            Ok(b) => {
                lemma_token_bytes_fill_size(t, ost.count as u16, labels, current);
            },
            Err(_) => {},
        }
    }
}

fn push_zeros(out: &mut Vec<u8>, n: usize)
    ensures
        final(out)@ == old(out)@ + zeros(n as int),
{
    let mut j: usize = 0;
    while j < n
        invariant
            j <= n,
            out@ == old(out)@ + zeros(j as int),
        decreases n - j,
    {
        out.push(0);
        assert(zeros(j + 1) =~= zeros(j as int).push(0u8));
        j = j + 1;
    }
}

fn push_all(out: &mut Vec<u8>, bytes: &Vec<u8>)
    ensures
        final(out)@ == old(out)@ + bytes@,
{
    let mut j: usize = 0;
    while j < bytes.len()
        invariant
            j <= bytes@.len(),
            out@ == old(out)@ + bytes@.take(j as int),
        decreases bytes.len() - j,
    {
        out.push(bytes[j]);
        assert(bytes@.take(j + 1) =~= bytes@.take(j as int).push(bytes@[j as int]));
        j = j + 1;
    }
    assert(bytes@.take(bytes@.len() as int) =~= bytes@);
}

/// An assembled program: its tokens and its labels.
pub struct Asm {
    program: Vec<UxnToken>,
    labels: Vec<(String, Label)>,
}

impl Asm {
    pub closed spec fn program_view(&self) -> Seq<TokenModel> {
        self.program@.map_values(|t: UxnToken| t@)
    }

    pub closed spec fn labels_model(&self) -> Seq<(Seq<char>, LabelModel)> {
        labels_view(self.labels@)
    }

    /// A program made of the given tokens and labels.
    pub fn new(program: Vec<UxnToken>, labels: Vec<(String, Label)>) -> (r: Self)
        ensures
            r.program_view() == program@.map_values(|t: UxnToken| t@),
            r.labels_model() == labels_view(labels@),
    {
        Asm { program, labels }
    }

    /// Whether every word of the program outside comments starts with an ASCII character, as
    /// `assemble` needs.
    pub fn words_start_ascii(input: &Vec<String>) -> (r: bool)
        ensures
            r == words_start_ascii(strings_view(input@)),
    {
        let words = strip_comments(split_to_token_strings(input));
        proof {
            lemma_program_words_nonempty(strings_view(input@));
        }
        let ghost pw = program_words(strings_view(input@));
        let mut i: usize = 0;
        while i < words.len()
            invariant
                pw == program_words(strings_view(input@)),
                strings_view(words@) == pw,
                i <= words@.len(),
                forall|k: int| 0 <= k < pw.len() ==> #[trigger] pw[k].len() > 0,
                forall|k: int| 0 <= k < i ==> is_ascii_char(#[trigger] pw[k][0]),
            decreases words.len() - i,
        {
            assert(pw[i as int] == words@[i as int]@);
            if words[i].as_str().get_char(0) > '\x7f' {
                assert(!is_ascii_char(pw[i as int][0]));
                return false;
            }
            i = i + 1;
        }
        true
    }

    /// Assembles the lines of a program: splits them into words, drops the comments, reads
    /// each word as a token, checks the tokens and places the labels.
    pub fn assemble(input: Vec<String>) -> (r: Result<Asm, AsmError>)
        requires
            words_start_ascii(strings_view(input@)),
        ensures
            match r {
                Ok(a) => assembly(strings_view(input@)) == Ok::<(Seq<TokenModel>, Seq<(Seq<char>, LabelModel)>), AsmErrorModel>((a.program_view(), a.labels_model())),
                Err(e) => assembly(strings_view(input@)) == Err::<(Seq<TokenModel>, Seq<(Seq<char>, LabelModel)>), AsmErrorModel>(e@),
            },
    {
        let words = strip_comments(split_to_token_strings(&input));
        let ghost pw = program_words(strings_view(input@));
        proof {
            lemma_program_words_nonempty(strings_view(input@));
        }
        let mut parsed: Vec<Result<UxnToken, ParseError>> = Vec::new();
        let mut i: usize = 0;
        while i < words.len()
            invariant
                strings_view(words@) == pw,
                i <= words@.len(),
                forall|k: int| 0 <= k < pw.len() ==> #[trigger] pw[k].len() > 0,
                forall|k: int| 0 <= k < pw.len() ==> is_ascii_char(#[trigger] pw[k][0]),
                parse_results_view(parsed@) == parse_words(pw.take(i as int)),
            decreases words.len() - i,
        {
            assert(pw[i as int] == words@[i as int]@);
            let ghost pre = parse_results_view(parsed@);
            let t = UxnToken::parse(words[i].as_str());
            parsed.push(t);
            proof {
                assert(parse_results_view(parsed@) =~= pre.push(match t { Ok(t) => Ok(t@), Err(e) => Err(e@) }));
                assert(parse_words(pw.take(i as int + 1)) =~= parse_words(pw.take(i as int)).push(parse_token(pw[i as int])));
            }
            i = i + 1;
        }
        assert(pw.take(pw.len() as int) =~= pw);
        assert(parse_results_view(parsed@) == parse_words(pw));
        let mut labels: Vec<(String, Label)> = Vec::new();
        assert(labels_view(labels@) =~= Seq::<(Seq<char>, LabelModel)>::empty());
        let checked = validate_tokens(parsed, &mut labels);
        let ghost cv = asm_results_view(checked@);
        let mut program: Vec<UxnToken> = Vec::new();
        assert(cv.take(0) =~= Seq::<Result<TokenModel, AsmErrorModel>>::empty());
        assert(program@.map_values(|t: UxnToken| t@) =~= Seq::<TokenModel>::empty());
        for r in it: checked.into_iter()
            invariant
                it.seq() == checked@,
                cv == asm_results_view(checked@),
                cv == validate_pass(Seq::empty(), parse_words(program_words(strings_view(input@)))).1,
                labels_view(labels@) == validate_pass(Seq::empty(), parse_words(program_words(strings_view(input@)))).0.labels,
                collect_results(cv.take(it.index() as int)) == Ok::<Seq<TokenModel>, AsmErrorModel>(program@.map_values(|t: UxnToken| t@)),
        {
            proof {
                assert(cv.take(it.index() as int + 1).drop_last() =~= cv.take(it.index() as int));
                assert(cv.take(it.index() as int + 1).last() == (match r { Ok(t) => Ok(t@), Err(e) => Err(e@) }));
            }
            match r {
                Ok(t) => {
                    let ghost pre = program@.map_values(|t: UxnToken| t@);
                    program.push(t);
                    assert(program@.map_values(|t: UxnToken| t@) =~= pre.push(t@));
                },
                Err(e) => {
                    proof {
                        lemma_collect_error_stays(cv, it.index() as int + 1, e@);
                    }
                    return Err(e);
                },
            }
        }
        assert(cv.take(cv.len() as int) =~= cv);
        Ok(Asm { program, labels })
    }

    /// The bytes of the ROM: the program written out from address 0, of which the bytes from
    /// the initial vector (0x100) on are kept.
    pub fn output(&self) -> (r: Result<Vec<u8>, AsmError>)
        ensures
            match r {
                Ok(b) => rom_bytes(self.program_view(), self.labels_model()) == Ok::<Seq<u8>, AsmErrorModel>(b@),
                Err(e) => rom_bytes(self.program_view(), self.labels_model()) == Err::<Seq<u8>, AsmErrorModel>(e@),
            },
    {
        let ghost pv = self.program_view();
        let ghost lm = self.labels_model();
        let mut current = String::new();
        let mut image: Vec<u8> = Vec::new();
        let mut i: usize = 0;
        while i < self.program.len()
            invariant
                i <= self.program@.len(),
                pv == self.program_view(),
                lm == self.labels_model(),
                output_pass(pv.take(i as int), lm) == Ok::<OutputState, AsmErrorModel>(OutputState { count: image@.len() as int, current: current@, image: image@ }),
            decreases self.program.len() - i,
        {
            proof {
                assert(pv.take(i as int + 1).drop_last() =~= pv.take(i as int));
                assert(pv.take(i as int + 1).last() == self.program@[i as int]@);
            }
            let count = image.len();
            if count > 0xffff {
                proof {
                    lemma_output_error_stays(pv, lm, i as int + 1, AsmErrorModel::ProgramTooLarge);
                }
                return Err(AsmError::ProgramTooLarge);
            }
            let t = &self.program[i];
            match t {
                UxnToken::LabelDefine(n) => {
                    current = n.clone();
                },
                _ => {},
            }
            let state = ProgState { counter: count as u16, labels: &self.labels, current_label: current.clone() };
            match t.get_bytes(&state) {
                Ok(b) => {
                    push_all(&mut image, &b);
                },
                Err(GetBytesError::NotWritableToken) => {
                    match t {
                        UxnToken::PadAbs(n) => {
                            if (*n as usize) < count {
                                proof {
                                    lemma_output_error_stays(pv, lm, i as int + 1, AsmErrorModel::AbsPaddingRegression);
                                }
                                return Err(AsmError::AbsPaddingRegression);
                            }
                            push_zeros(&mut image, *n as usize - count);
                        },
                        UxnToken::PadRel(n) => {
                            push_zeros(&mut image, *n as usize);
                        },
                        _ => {
                            assert(image@ =~= image@ + Seq::<u8>::empty());
                        },
                    }
                },
                Err(e) => {
                    let err = asm_error_from(e);
                    proof {
                        lemma_output_error_stays(pv, lm, i as int + 1, err@);
                    }
                    return Err(err);
                },
            }
            i = i + 1;
        }
        assert(pv.take(pv.len() as int) =~= pv);
        let mut rom: Vec<u8> = Vec::new();
        if image.len() > 0x100 {
            let mut j: usize = 0x100;
            while j < image.len()
                invariant
                    0x100 <= j <= image@.len(),
                    rom@ == image@.subrange(0x100, j as int),
                decreases image.len() - j,
            {
                rom.push(image[j]);
                assert(image@.subrange(0x100, j + 1) =~= image@.subrange(0x100, j as int).push(image@[j as int]));
                j = j + 1;
            }
            assert(image@.subrange(0x100, j as int) =~= image@.skip(0x100));
        }
        Ok(rom)
    }
}

} // verus!
