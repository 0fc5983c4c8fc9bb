use vstd::prelude::*;

use crate::uxnasmlib::assembler::tokens::{LabelRef, TokenModel, UxnToken};
use crate::uxnasmlib::assembler::{AsmError, AsmErrorModel};

verus! {

/// Where the macro pass stands: in the program, after a macro's name, or inside its body.
pub enum MacroState {
    MainBody,
    MacroDefinitionHead { macro_name: String },
    MacroDefinitionBody { macro_name: String, macro_body: Vec<UxnToken> },
}

pub enum MacroStateModel {
    MainBody,
    Head(Seq<char>),
    Body(Seq<char>, Seq<TokenModel>),
}

/// The tokens of `s`, each by its view.
pub open spec fn tokens_view(s: Seq<UxnToken>) -> Seq<TokenModel> {
    s.map_values(|t: UxnToken| t@)
}

/// An item of the token stream by its view.
pub open spec fn item_view(item: Result<UxnToken, AsmError>) -> Result<TokenModel, AsmErrorModel> {
    match item {
        Ok(t) => Ok(t@),
        Err(e) => Err(e@),
    }
}

/// The items of `s`, each by its view.
pub open spec fn items_view(s: Seq<Result<UxnToken, AsmError>>) -> Seq<Result<TokenModel, AsmErrorModel>> {
    s.map_values(|item: Result<UxnToken, AsmError>| item_view(item))
}

impl View for MacroState {
    type V = MacroStateModel;

    open spec fn view(&self) -> MacroStateModel {
        match self {
            MacroState::MainBody => MacroStateModel::MainBody,
            MacroState::MacroDefinitionHead { macro_name } => MacroStateModel::Head(macro_name@),
            MacroState::MacroDefinitionBody { macro_name, macro_body } => MacroStateModel::Body(
                macro_name@,
                tokens_view(macro_body@),
            ),
        }
    }
}

/// The macros defined so far: each name with its body.
pub type MacroDefs = Map<Seq<char>, Seq<TokenModel>>;

/// The tokens of a macro body, each as an `Ok` item of the output.
pub open spec fn ok_items(body: Seq<TokenModel>) -> Seq<Result<TokenModel, AsmErrorModel>> {
    body.map_values(|t: TokenModel| Result::<TokenModel, AsmErrorModel>::Ok(t))
}

/// The one-item output `x`.
pub open spec fn just(x: Result<TokenModel, AsmErrorModel>) -> Seq<Result<TokenModel, AsmErrorModel>> {
    seq![x]
}

/// Whether `t` invokes one of the macros of `defs`.
pub open spec fn invokes_defined(t: TokenModel, defs: MacroDefs) -> bool {
    match t {
        TokenModel::MacroInvocation(n) => defs.dom().contains(n),
        _ => false,
    }
}

/// The body of the macro that `t` invokes.
pub open spec fn invoked_body(t: TokenModel, defs: MacroDefs) -> Seq<TokenModel> {
    match t {
        TokenModel::MacroInvocation(n) => defs[n],
        _ => Seq::empty(),
    }
}

/// One step of the macro pass on an item: the next state, the macros defined so far, and what
/// the item gives to the output. A macro is defined by its name, `{`, its body and `}`; the
/// definition leaves nothing in the output. An invocation of a macro already defined stands
/// for that macro's body: in the program it is replaced by the body's tokens, and inside the
/// body of another macro the body's tokens join that body. An invocation of a name not (yet)
/// defined is an ordinary token. Errors pass through.
pub open spec fn macro_step(
    st: MacroStateModel,
    defs: MacroDefs,
    item: Result<TokenModel, AsmErrorModel>,
) -> (MacroStateModel, MacroDefs, Seq<Result<TokenModel, AsmErrorModel>>) {
    match item {
        Err(e) => (st, defs, just(Err(e))),
        Ok(TokenModel::MacroDefine(name)) => match st {
            MacroStateModel::MainBody => if defs.dom().contains(name) {
                (st, defs, just(Err(AsmErrorModel::DoubleMacroDefine(name))))
            } else {
                (MacroStateModel::Head(name), defs, Seq::empty())
            },
            MacroStateModel::Head(_) => (st, defs, just(Err(AsmErrorModel::MalformedMacroDefine(name)))),
            MacroStateModel::Body(outer, _) => (st, defs, just(Err(AsmErrorModel::MacroDefineWithinMacro(outer, name)))),
        },
        Ok(TokenModel::MacroStartDelimiter) => match st {
            MacroStateModel::Head(name) => (MacroStateModel::Body(name, Seq::empty()), defs, Seq::empty()),
            _ => (st, defs, just(Err(AsmErrorModel::MacroStartDelimiterMisplaced))),
        },
        Ok(TokenModel::MacroEndDelimiter) => match st {
            MacroStateModel::Body(name, body) => (MacroStateModel::MainBody, defs.insert(name, body), Seq::empty()),
            _ => (st, defs, just(Err(AsmErrorModel::MacroEndDelimiterMisplaced))),
        },
        Ok(t) => match st {
            MacroStateModel::MainBody => if invokes_defined(t, defs) {
                (st, defs, ok_items(invoked_body(t, defs)))
            } else {
                (st, defs, just(Ok(t)))
            },
            MacroStateModel::Head(name) => (st, defs, just(Err(AsmErrorModel::MalformedMacroDefine(name)))),
            MacroStateModel::Body(name, body) => if invokes_defined(t, defs) {
                (MacroStateModel::Body(name, body + invoked_body(t, defs)), defs, Seq::empty())
            } else {
                (MacroStateModel::Body(name, body.push(t)), defs, Seq::empty())
            },
        },
    }
}

/// The macro pass over `items`: its final state, the macros defined, and its output.
pub open spec fn macro_pass(items: Seq<Result<TokenModel, AsmErrorModel>>) -> (MacroStateModel, MacroDefs, Seq<Result<TokenModel, AsmErrorModel>>)
    decreases items.len(),
{
    if items.len() == 0 {
        (MacroStateModel::MainBody, Map::empty(), Seq::empty())
    } else {
        let (st, defs, out) = macro_pass(items.drop_last());
        let (st2, defs2, o) = macro_step(st, defs, items.last());
        (st2, defs2, out + o)
    }
}

/// Whether `item` is a token of a macro definition (its name, or one of its delimiters).
pub open spec fn is_macro_token(item: Result<TokenModel, AsmErrorModel>) -> bool {
    match item {
        Ok(TokenModel::MacroDefine(_)) | Ok(TokenModel::MacroStartDelimiter) | Ok(TokenModel::MacroEndDelimiter) => true,
        _ => false,
    }
}

/// A stream with no macro definitions in it passes through the macro pass unchanged.
pub proof fn lemma_no_macros_unchanged(items: Seq<Result<TokenModel, AsmErrorModel>>)
    requires
        forall|i: int| 0 <= i < items.len() ==> !is_macro_token(#[trigger] items[i]),
    ensures
        macro_pass(items).0 == MacroStateModel::MainBody,
        macro_pass(items).1 == Map::<Seq<char>, Seq<TokenModel>>::empty(),
        macro_pass(items).2 == items,
    decreases items.len(),
{
    if items.len() > 0 {
        let pre = items.drop_last();
        assert forall|i: int| 0 <= i < pre.len() implies !is_macro_token(#[trigger] pre[i]) by {
            assert(pre[i] == items[i]);
        }
        lemma_no_macros_unchanged(pre);
        assert(!is_macro_token(items[items.len() - 1]));
        assert(pre + just(items.last()) =~= items);
    }
}

/// The items of a macro definition: its name, `{`, the body's tokens, and `}`.
pub open spec fn definition_items(name: Seq<char>, body: Seq<TokenModel>) -> Seq<Result<TokenModel, AsmErrorModel>> {
    seq![Ok(TokenModel::MacroDefine(name)), Ok(TokenModel::MacroStartDelimiter)] + ok_items(body)
        + seq![Ok(TokenModel::MacroEndDelimiter)]
}

/// Whether `t` can stand in a macro body as itself: no part of a macro definition and no
/// invocation of a macro.
pub open spec fn plain_token(t: TokenModel) -> bool {
    match t {
        TokenModel::MacroDefine(_) | TokenModel::MacroStartDelimiter | TokenModel::MacroEndDelimiter
        | TokenModel::MacroInvocation(_) => false,
        _ => true,
    }
}

proof fn lemma_body_collects(name: Seq<char>, body: Seq<TokenModel>, j: int)
    requires
        0 <= j <= body.len(),
        forall|i: int| 0 <= i < body.len() ==> plain_token(#[trigger] body[i]),
    ensures
        ({
            let p = macro_pass(seq![Ok(TokenModel::MacroDefine(name)), Ok(TokenModel::MacroStartDelimiter)] + ok_items(body.take(j)));
            &&& p.0 == MacroStateModel::Body(name, body.take(j))
            &&& p.1 == Map::<Seq<char>, Seq<TokenModel>>::empty()
            &&& p.2 == Seq::<Result<TokenModel, AsmErrorModel>>::empty()
        }),
    decreases j,
{
    let head = seq![Ok(TokenModel::MacroDefine(name)), Ok(TokenModel::MacroStartDelimiter)];
    let items = head + ok_items(body.take(j));
    if j == 0 {
        assert(ok_items(body.take(0)) =~= Seq::<Result<TokenModel, AsmErrorModel>>::empty());
        assert(items =~= head);
        let one = seq![Ok::<TokenModel, AsmErrorModel>(TokenModel::MacroDefine(name))];
        assert(items.drop_last() =~= one);
        assert(one.drop_last() =~= Seq::<Result<TokenModel, AsmErrorModel>>::empty());
        let p0 = macro_pass(one.drop_last());
        assert(p0.2 =~= Seq::<Result<TokenModel, AsmErrorModel>>::empty());
        let p1 = macro_pass(one);
        assert(p1.0 == MacroStateModel::Head(name));
        assert(p1.2 =~= Seq::<Result<TokenModel, AsmErrorModel>>::empty());
        let p2 = macro_pass(items);
        assert(p2.2 =~= Seq::<Result<TokenModel, AsmErrorModel>>::empty());
        assert(body.take(0) =~= Seq::<TokenModel>::empty());
    } else {
        lemma_body_collects(name, body, j - 1);
        assert(items.drop_last() =~= head + ok_items(body.take(j - 1)));
        assert(items.last() == Ok::<TokenModel, AsmErrorModel>(body[j - 1]));
        assert(plain_token(body[j - 1]));
        assert(body.take(j - 1).push(body[j - 1]) =~= body.take(j));
        let p = macro_pass(items);
        assert(p.2 =~= Seq::<Result<TokenModel, AsmErrorModel>>::empty());
    }
}

/// A macro defined and then invoked gives its body's tokens, where the body holds neither
/// definitions nor invocations.
pub proof fn lemma_defined_macro_expands(name: Seq<char>, body: Seq<TokenModel>)
    requires
        forall|i: int| 0 <= i < body.len() ==> plain_token(#[trigger] body[i]),
    ensures
        macro_pass(definition_items(name, body).push(Ok(TokenModel::MacroInvocation(name)))).2 == ok_items(body),
{
    lemma_body_collects(name, body, body.len() as int);
    assert(body.take(body.len() as int) =~= body);
    let head = seq![Ok(TokenModel::MacroDefine(name)), Ok(TokenModel::MacroStartDelimiter)];
    let defn = definition_items(name, body);
    let items = defn.push(Ok(TokenModel::MacroInvocation(name)));
    assert(items.drop_last() =~= defn);
    assert(defn.drop_last() =~= head + ok_items(body));
    let pd = macro_pass(defn);
    assert(pd.0 == MacroStateModel::MainBody);
    assert(pd.1 == Map::<Seq<char>, Seq<TokenModel>>::empty().insert(name, body));
    assert(pd.2 =~= Seq::<Result<TokenModel, AsmErrorModel>>::empty());
    assert(invokes_defined(TokenModel::MacroInvocation(name), pd.1));
    assert(Seq::<Result<TokenModel, AsmErrorModel>>::empty() + ok_items(body) =~= ok_items(body));
}

/// Whether the macros `names` with `bodies` (in the same order) are those of `defs`.
pub open spec fn defs_held(defs: MacroDefs, names: Seq<String>, bodies: Seq<Vec<UxnToken>>) -> bool {
    &&& names.len() == bodies.len()
    &&& forall|k: Seq<char>| #[trigger] defs.dom().contains(k) ==> exists|i: int| 0 <= i < names.len() && names[i]@ == k
    &&& forall|i: int| 0 <= i < names.len() ==> #[trigger] defs.dom().contains(names[i]@) && defs[names[i]@] == tokens_view(bodies[i]@)
}

/// Whether the macro being defined in `st`, if any, has a name not yet in `defs`.
pub open spec fn defining_fresh(st: MacroStateModel, defs: MacroDefs) -> bool {
    match st {
        MacroStateModel::MainBody => true,
        MacroStateModel::Head(n) => !defs.dom().contains(n),
        MacroStateModel::Body(n, _) => !defs.dom().contains(n),
    }
}

fn find_macro(defined: &Vec<String>, name: &String) -> (r: Option<usize>)
    ensures
        match r {
            Some(i) => i < defined.len() && defined@[i as int]@ == name@,
            None => forall|k: int| 0 <= k < defined.len() ==> defined@[k]@ != name@,
        },
{
    let mut i: usize = 0;
    while i < defined.len()
        invariant
            i <= defined@.len(),
            forall|k: int| 0 <= k < i ==> defined@[k]@ != name@,
        decreases defined.len() - i,
    {
        if defined[i] == *name {
            return Some(i);
        }
        i = i + 1;
    }
    None
}

fn copy_label_ref(l: &LabelRef) -> (r: LabelRef)
    ensures
        r@ == l@,
{
    match l {
        LabelRef::Label { label_name } => LabelRef::Label { label_name: label_name.clone() },
        LabelRef::FullSubLabel { label_name, sub_label_name } => LabelRef::FullSubLabel {
            label_name: label_name.clone(),
            sub_label_name: sub_label_name.clone(),
        },
        LabelRef::SubLabel { sub_label_name } => LabelRef::SubLabel { sub_label_name: sub_label_name.clone() },
    }
}

fn copy_bytes(v: &Vec<u8>) -> (r: Vec<u8>)
    ensures
        r@ == v@,
{
    let mut w: Vec<u8> = Vec::new();
    let mut j: usize = 0;
    while j < v.len()
        invariant
            j <= v.len(),
            w@ == v@.take(j as int),
        decreases v.len() - j,
    {
        w.push(v[j]);
        j = j + 1;
        assert(w@ =~= v@.take(j as int));
    }
    assert(v@.take(j as int) =~= v@);
    w
}

fn copy_token(t: &UxnToken) -> (r: UxnToken)
    ensures
        r@ == t@,
{
    match t {
        UxnToken::Op(o) => UxnToken::Op(*o),
        UxnToken::MacroDefine(n) => UxnToken::MacroDefine(n.clone()),
        UxnToken::MacroStartDelimiter => UxnToken::MacroStartDelimiter,
        UxnToken::MacroEndDelimiter => UxnToken::MacroEndDelimiter,
        UxnToken::PadAbs(n) => UxnToken::PadAbs(*n),
        UxnToken::PadRel(n) => UxnToken::PadRel(*n),
        UxnToken::LabelDefine(n) => UxnToken::LabelDefine(n.clone()),
        UxnToken::SubLabelDefine(n) => UxnToken::SubLabelDefine(n.clone()),
        UxnToken::LitByte(b) => UxnToken::LitByte(*b),
        UxnToken::LitShort(v) => UxnToken::LitShort(*v),
        UxnToken::LitAddressZeroPage(r) => UxnToken::LitAddressZeroPage(copy_label_ref(r)),
        UxnToken::LitAddressRel(r) => UxnToken::LitAddressRel(copy_label_ref(r)),
        UxnToken::LitAddressAbs(r) => UxnToken::LitAddressAbs(copy_label_ref(r)),
        UxnToken::RawAbsAddr(r) => UxnToken::RawAbsAddr(copy_label_ref(r)),
        UxnToken::MacroInvocation(n) => UxnToken::MacroInvocation(n.clone()),
        UxnToken::RawByte(b) => UxnToken::RawByte(*b),
        UxnToken::RawShort(v) => UxnToken::RawShort(*v),
        UxnToken::RawWord(w) => UxnToken::RawWord(copy_bytes(w)),
    }
}

/// Appends a copy of each token of `src` to `dst`.
fn append_tokens(dst: &mut Vec<UxnToken>, src: &Vec<UxnToken>)
    ensures
        tokens_view(final(dst)@) == tokens_view(old(dst)@) + tokens_view(src@),
{
    let ghost start = tokens_view(dst@);
    let mut j: usize = 0;
    while j < src.len()
        invariant
            j <= src.len(),
            tokens_view(dst@) == start + tokens_view(src@.take(j as int)),
        decreases src.len() - j,
    {
        let t = copy_token(&src[j]);
        let ghost before = dst@;
        dst.push(t);
        proof {
            assert(tokens_view(dst@) =~= tokens_view(before).push(t@));
            assert(tokens_view(src@.take(j as int + 1)) =~= tokens_view(src@.take(j as int)).push(src@[j as int]@));
        }
        j = j + 1;
    }
    assert(src@.take(j as int) =~= src@);
}

/// Appends a copy of each token of `src`, as an `Ok` item, to `out`.
fn append_items(out: &mut Vec<Result<UxnToken, AsmError>>, src: &Vec<UxnToken>)
    ensures
        items_view(final(out)@) == items_view(old(out)@) + ok_items(tokens_view(src@)),
{
    let ghost start = items_view(out@);
    let mut j: usize = 0;
    while j < src.len()
        invariant
            j <= src.len(),
            items_view(out@) == start + ok_items(tokens_view(src@.take(j as int))),
        decreases src.len() - j,
    {
        let t = copy_token(&src[j]);
        let ghost before = out@;
        out.push(Ok(t));
        proof {
            assert(items_view(out@) =~= items_view(before).push(Ok(t@)));
            assert(ok_items(tokens_view(src@.take(j as int + 1))) =~= ok_items(tokens_view(src@.take(j as int))).push(Ok(src@[j as int]@)));
        }
        j = j + 1;
    }
    assert(src@.take(j as int) =~= src@);
}

/// Pushes one item to `out`.
fn push_item(out: &mut Vec<Result<UxnToken, AsmError>>, item: Result<UxnToken, AsmError>)
    ensures
        items_view(final(out)@) == items_view(old(out)@) + just(item_view(item)),
{
    let ghost before = out@;
    out.push(item);
    assert(items_view(out@) =~= items_view(before) + just(item_view(item)));
}

/// Strips macro definitions out of a stream of tokens (and errors) and expands the invocations
/// of the macros defined, reporting malformed or repeated definitions as errors in their place.
pub fn process_macros(input: Vec<Result<UxnToken, AsmError>>) -> (r: Vec<Result<UxnToken, AsmError>>)
    ensures
        items_view(r@) == macro_pass(items_view(input@)).2,
{
    let ghost items = input@;
    let mut state = MacroState::MainBody;
    let mut defined: Vec<String> = Vec::new();
    let mut bodies: Vec<Vec<UxnToken>> = Vec::new();
    let mut out: Vec<Result<UxnToken, AsmError>> = Vec::new();
    for item in it: input.into_iter()
        invariant
            it.seq() == items,
            macro_pass(items_view(items.take(it.index() as int))).0 == state@,
            macro_pass(items_view(items.take(it.index() as int))).2 == items_view(out@),
            defs_held(macro_pass(items_view(items.take(it.index() as int))).1, defined@, bodies@),
            defining_fresh(state@, macro_pass(items_view(items.take(it.index() as int))).1),
    {
        let ghost defs = macro_pass(items_view(items.take(it.index() as int))).1;
        proof {
            assert(items_view(items.take(it.index() as int + 1)).drop_last() =~= items_view(items.take(it.index() as int)));
            assert(items_view(items.take(it.index() as int + 1)).last() == item_view(item));
        }
        match item {
            Err(e) => {
                push_item(&mut out, Err(e));
            },
            Ok(UxnToken::MacroDefine(name)) => {
                match state {
                    MacroState::MainBody => {
                        match find_macro(&defined, &name) {
                            Some(_) => {
                                push_item(&mut out, Err(AsmError::DoubleMacroDefine { macro_name: name }));
                            },
                            None => {
                                state = MacroState::MacroDefinitionHead { macro_name: name };
                            },
                        }
                    },
                    MacroState::MacroDefinitionHead { macro_name } => {
                        state = MacroState::MacroDefinitionHead { macro_name };
                        push_item(&mut out, Err(AsmError::MalformedMacroDefine { macro_name: name }));
                    },
                    MacroState::MacroDefinitionBody { macro_name, macro_body } => {
                        let outer = macro_name.clone();
                        state = MacroState::MacroDefinitionBody { macro_name, macro_body };
                        push_item(&mut out, Err(AsmError::MacroDefineWithinMacro { outer_macro_name: outer, inner_macro_name: name }));
                    },
                }
            },
            Ok(UxnToken::MacroStartDelimiter) => {
                match state {
                    MacroState::MacroDefinitionHead { macro_name } => {
                        state = MacroState::MacroDefinitionBody { macro_name, macro_body: Vec::new() };
                        assert(tokens_view(Seq::<UxnToken>::empty()) =~= Seq::<TokenModel>::empty());
                    },
                    other => {
                        state = other;
                        push_item(&mut out, Err(AsmError::MacroStartDelimiterMisplaced));
                    },
                }
            },
            Ok(UxnToken::MacroEndDelimiter) => {
                match state {
                    MacroState::MacroDefinitionBody { macro_name, macro_body } => {
                        let ghost new_defs = defs.insert(macro_name@, tokens_view(macro_body@));
                        let ghost old_defined = defined@;
                        state = MacroState::MainBody;
                        defined.push(macro_name);
                        bodies.push(macro_body);
                        proof {
                            assert forall|k: Seq<char>| #[trigger] new_defs.dom().contains(k) implies exists|i: int|
                                0 <= i < defined@.len() && defined@[i]@ == k by {
                                if k == defined@.last()@ {
                                    assert(defined@[defined@.len() - 1]@ == k);
                                } else {
                                    assert(defs.dom().contains(k));
                                    let i = choose|i: int| 0 <= i < old_defined.len() && old_defined[i]@ == k;
                                    assert(defined@[i]@ == k);
                                }
                            }
                            assert forall|i: int| 0 <= i < defined@.len() implies #[trigger] new_defs.dom().contains(defined@[i]@)
                                && new_defs[defined@[i]@] == tokens_view(bodies@[i]@) by {
                                if i < old_defined.len() {
                                    assert(defined@[i] == old_defined[i]);
                                    assert(defs.dom().contains(old_defined[i]@));
                                }
                            }
                        }
                    },
                    other => {
                        state = other;
                        push_item(&mut out, Err(AsmError::MacroEndDelimiterMisplaced));
                    },
                }
            },
            Ok(t) => {
                let found = match &t {
                    UxnToken::MacroInvocation(n) => find_macro(&defined, n),
                    _ => None,
                };
                proof {
                    if let TokenModel::MacroInvocation(n) = t@ {
                        if found is None && defs.dom().contains(n) {
                            let i = choose|i: int| 0 <= i < defined@.len() && defined@[i]@ == n;
                            assert(defined@[i]@ != n);
                        }
                    }
                }
                match state {
                    MacroState::MainBody => {
                        state = MacroState::MainBody;
                        match found {
                            Some(i) => {
                                proof {
                                    assert(defs.dom().contains(defined@[i as int]@));
                                }
                                append_items(&mut out, &bodies[i]);
                            },
                            None => {
                                push_item(&mut out, Ok(t));
                            },
                        }
                    },
                    MacroState::MacroDefinitionHead { macro_name } => {
                        let name = macro_name.clone();
                        state = MacroState::MacroDefinitionHead { macro_name };
                        push_item(&mut out, Err(AsmError::MalformedMacroDefine { macro_name: name }));
                    },
                    MacroState::MacroDefinitionBody { macro_name, mut macro_body } => {
                        match found {
                            Some(i) => {
                                proof {
                                    assert(defs.dom().contains(defined@[i as int]@));
                                }
                                append_tokens(&mut macro_body, &bodies[i]);
                            },
                            None => {
                                let ghost before = macro_body@;
                                macro_body.push(t);
                                assert(tokens_view(macro_body@) =~= tokens_view(before).push(t@));
                            },
                        }
                        state = MacroState::MacroDefinitionBody { macro_name, macro_body };
                    },
                }
            },
        }
    }
    assert(items.take(items.len() as int) =~= items);
    out
}

} // verus!
