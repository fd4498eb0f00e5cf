use vstd::prelude::*;

use crate::binding::BindingV;
use crate::binding::CustomV;
use crate::binding::EvalOp;
use crate::binding::SpecialOp;
use crate::convert::kind_text;
use crate::convert::to_int_spec;
use crate::convert::truthy;
use crate::digits::nat_text;
use crate::error::ErrV;
use crate::error::FrameV;
use crate::location::DirectV;
use crate::location::ExpansionV;
use crate::location::InternV;
use crate::location::LocV;
use crate::object::Kind;
use crate::object::ObjV;
use crate::render::display_text;
use crate::scope::current_mode;
use crate::scope::in_call;
use crate::scope::in_loop;
use crate::scope::lookup_levels;
use crate::scope::LevelV;
use crate::scope::LoopInfo;
use crate::scope::Mode;
use crate::scope::ScopeV;

verus! {

/// The outcome of evaluating one node: a value, a failure, or an in-flight
/// non-local signal still looking for its boundary.
pub enum CmdV {
    /// The evaluation succeeded.
    Val(ObjV),
    /// An error occurred.
    Fail(ErrV),
    /// A `return` was issued and has not yet reached a call boundary.
    EndCall(ObjV),
    /// A `break` was issued and has not yet reached its loop.
    EndLoop(ObjV),
}

/// The outcome of evaluating a row of argument nodes: their values, or the
/// first failure or signal, which stops the row.
pub enum ArgsV {
    Vals(Seq<ObjV>),
    Stop(CmdV),
}

/// The location that evaluator-raised diagnostics carry.
pub open spec fn intern_loc() -> LocV {
    LocV::Intern(InternV { file: "evaluator"@, line: 0 })
}

/// One frame of an error trail.
pub open spec fn fr(name: Seq<char>, loc: LocV) -> FrameV {
    FrameV { name, location: loc }
}

/// A fresh error carrying one frame.
pub open spec fn err1(msg: Seq<char>, name: Seq<char>, loc: LocV) -> ErrV {
    ErrV { message: msg, frames: seq![fr(name, loc)] }
}

/// An error with one more frame pushed onto its trail.
pub open spec fn push_frame(e: ErrV, name: Seq<char>, loc: LocV) -> ErrV {
    ErrV { message: e.message, frames: e.frames.push(fr(name, loc)) }
}

/// A command whose error, if it is one, carries one more frame.
pub open spec fn rethrow(c: CmdV, name: Seq<char>, loc: LocV) -> CmdV {
    match c {
        CmdV::Fail(e) => CmdV::Fail(push_frame(e, name, loc)),
        _ => c,
    }
}

pub open spec fn msg_budget() -> Seq<char> {
    "evaluation budget exhausted"@
}

/// The failure that ends an evaluation whose budget ran out.
pub open spec fn budget_err() -> ErrV {
    ErrV { message: msg_budget(), frames: Seq::empty() }
}

pub open spec fn msg_unbound(name: Seq<char>) -> Seq<char> {
    "unbound symbol '"@ + name + "'"@
}

pub open spec fn msg_not_variable(name: Seq<char>) -> Seq<char> {
    "'"@ + name + "' is not a variable."@
}

pub open spec fn msg_not_operator(name: Seq<char>) -> Seq<char> {
    "'"@ + name + "' : expected an operator, got a variable."@
}

pub open spec fn msg_invalid_expr(head: ObjV) -> Seq<char> {
    "invalid s-expression : "@ + display_text(head)
}

pub open spec fn msg_arity(name: Seq<char>, expected: nat, got: nat) -> Seq<char> {
    "'"@ + name + "' requires "@ + nat_text(expected) + " arguments, got "@ + nat_text(got)
        + " instead."@
}

pub open spec fn msg_native_arity(name: Seq<char>, count: i32, got: nat) -> Seq<char> {
    if count >= 0 {
        "'"@ + name + "' requires "@ + nat_text(count as nat) + " arguments, got "@ + nat_text(got)
            + " instead."@
    } else {
        "'"@ + name + "' requires at least "@ + nat_text((-count - 1) as nat)
            + " arguments, got "@ + nat_text(got) + " instead."@
    }
}

pub open spec fn msg_kind(name: Seq<char>, expected: Kind, got: Kind) -> Seq<char> {
    "'"@ + name + "' expects a "@ + kind_text(expected) + " argument, got a "@ + kind_text(got)
        + " instead."@
}

pub open spec fn msg_escape_outside() -> Seq<char> {
    "'escape-quote' must be within a 'equote' form."@
}

pub open spec fn msg_escape_arity(got: nat) -> Seq<char> {
    "'escape-quote' requires 1 argument, got "@ + nat_text(got) + " instead."@
}

pub open spec fn msg_break_outside() -> Seq<char> {
    "'break' called outside of a loop."@
}

pub open spec fn msg_return_outside() -> Seq<char> {
    "'return' called outside of a function."@
}

pub open spec fn msg_break_boundary() -> Seq<char> {
    "'break' crossed a function boundary."@
}

pub open spec fn msg_defn_name(name: Seq<char>, got: ObjV) -> Seq<char> {
    "'"@ + name + "' requires a symbol as its first argument, got : "@ + display_text(got)
}

pub open spec fn msg_defn_params(name: Seq<char>, got: ObjV) -> Seq<char> {
    "'"@ + name + "' requires a list of symbols as its second argument, got : "@ + display_text(
        got,
    )
}

pub open spec fn msg_defn_param(name: Seq<char>, i: nat, got: ObjV) -> Seq<char> {
    "'"@ + name + "' only accepts symbols for the argument list, for the "@ + nat_text(i)
        + " argument, got : "@ + display_text(got)
}

/// Whether a number of arguments satisfies a native form's declared count:
/// a non-negative count is exact, a negative one asks for at least one
/// fewer than its magnitude.
pub open spec fn arity_ok(count: i32, got: nat) -> bool {
    if count >= 0 {
        got == count
    } else {
        got >= -count - 1
    }
}

/// The kind a native form declares for its i-th argument; past the declared
/// list, the last declared kind carries on; an empty list accepts anything.
pub open spec fn kind_at(kinds: Seq<Kind>, i: int) -> Kind {
    if kinds.len() == 0 {
        Kind::Any
    } else if i < kinds.len() {
        kinds[i]
    } else {
        kinds[kinds.len() - 1]
    }
}

/// The first argument whose kind does not match the declared one, from the
/// given position on.
pub open spec fn first_kind_mismatch(kinds: Seq<Kind>, vals: Seq<ObjV>, i: int) -> Option<int>
    decreases vals.len() - i,
{
    if i < 0 || i >= vals.len() {
        None
    } else if kind_at(kinds, i) != Kind::Any && vals[i].kind() != kind_at(kinds, i) {
        Some(i)
    } else {
        first_kind_mismatch(kinds, vals, i + 1)
    }
}

/// The level a call pushes: each argument name bound to its value as a
/// variable, a later name shadowing an earlier equal one.
pub open spec fn bind_map(names: Seq<Seq<char>>, vals: Seq<ObjV>) -> Map<Seq<char>, BindingV>
    decreases names.len(),
{
    if names.len() == 0 || vals.len() == 0 {
        Map::empty()
    } else {
        bind_map(names.drop_last(), vals.drop_last()).insert(
            names.last(),
            BindingV::Variable(vals.last()),
        )
    }
}

/// The position of the first entry that is not a symbol, if any.
pub open spec fn first_non_symbol(items: Seq<ObjV>, i: int) -> Option<int>
    decreases items.len() - i,
{
    if i < 0 || i >= items.len() {
        None
    } else if !(items[i] is Symbol) {
        Some(i)
    } else {
        first_non_symbol(items, i + 1)
    }
}

/// The names of a row of symbols.
pub open spec fn symbol_names(items: Seq<ObjV>) -> Seq<Seq<char>>
    decreases items,
{
    if items.len() == 0 {
        Seq::empty()
    } else {
        symbol_names(items.drop_last()).push(
            match items.last() {
                ObjV::Symbol(_, n) => n,
                _ => Seq::empty(),
            },
        )
    }
}

pub broadcast proof fn lemma_symbol_names(items: Seq<ObjV>)
    ensures
        (#[trigger] symbol_names(items)).len() == items.len(),
        forall|i: int|
            0 <= i < items.len() ==> symbol_names(items)[i] == (match items[i] {
                ObjV::Symbol(_, n) => n,
                _ => Seq::empty(),
            }),
    decreases items,
{
    if items.len() > 0 {
        lemma_symbol_names(items.drop_last());
    }
}

/// One entry of a macro-expansion chain.
pub open spec fn expansion_entry(name: Seq<char>, form: ObjV, d: DirectV) -> ExpansionV {
    ExpansionV { macro_name: name, form, localisation: d }
}

/// What attaching an expansion step to a location does: the entry goes to
/// the front of an existing chain, or starts a fresh one.
pub open spec fn attach_loc(l: LocV, e: ExpansionV) -> LocV {
    match l {
        LocV::Expansion(chain) => LocV::Expansion(seq![e] + chain),
        _ => LocV::Expansion(seq![e]),
    }
}

/// What attaching an expansion step to every node of a tree does.
pub open spec fn attach_obj(o: ObjV, e: ExpansionV) -> ObjV
    decreases o,
{
    match o {
        ObjV::Nil(i) => ObjV::Nil(attach_loc(i, e)),
        ObjV::Bool(i, v) => ObjV::Bool(attach_loc(i, e), v),
        ObjV::Integer(i, v) => ObjV::Integer(attach_loc(i, e), v),
        ObjV::Float(i, v) => ObjV::Float(attach_loc(i, e), v),
        ObjV::Char(i, v) => ObjV::Char(attach_loc(i, e), v),
        ObjV::Str(i, v) => ObjV::Str(attach_loc(i, e), v),
        ObjV::Keyword(i, v) => ObjV::Keyword(attach_loc(i, e), v),
        ObjV::Symbol(i, v) => ObjV::Symbol(attach_loc(i, e), v),
        ObjV::List(i, items) => ObjV::List(attach_loc(i, e), attach_items(items, e)),
    }
}

/// What attaching an expansion step to a row of trees does.
pub open spec fn attach_items(items: Seq<ObjV>, e: ExpansionV) -> Seq<ObjV>
    decreases items,
{
    if items.len() == 0 {
        Seq::empty()
    } else {
        attach_items(items.drop_last(), e).push(attach_obj(items.last(), e))
    }
}

/// The result a macro's body value goes through before it leaves the macro:
/// when the macro's definition site is known directly, every node of the
/// produced tree records the expansion step.
pub open spec fn expand_result(v: ObjV, name: Seq<char>, call: ObjV, loc: LocV) -> ObjV {
    match loc {
        LocV::Direct(d) => attach_obj(v, expansion_entry(name, call, d)),
        _ => v,
    }
}

/// Evaluates one node against a scope: a literal stands for itself, a
/// symbol resolves to the value it is bound to, and a list applies its head
/// form to the rest.
pub open spec fn s_eval(st: ScopeV, o: ObjV, fuel: nat) -> (CmdV, ScopeV)
    decreases fuel, 12int, o, 0int,
{
    if fuel == 0 {
        (CmdV::Fail(budget_err()), st)
    } else {
        match o {
            ObjV::Symbol(i, name) => s_eval_symbol(st, i, name),
            ObjV::List(i, items) => s_eval_expr(st, i, items, (fuel - 1) as nat),
            _ => (CmdV::Val(o), st),
        }
    }
}

/// Resolves a symbol node to the value bound under it.
pub open spec fn s_eval_symbol(st: ScopeV, i: LocV, name: Seq<char>) -> (CmdV, ScopeV) {
    match lookup_levels(st.levels, name) {
        Option::None => (CmdV::Fail(err1(msg_unbound(name), name, i)), st),
        Option::Some(b) => match b {
            BindingV::Constant(v) => (CmdV::Val(v), st),
            BindingV::Variable(v) => (CmdV::Val(v), st),
            _ => (CmdV::Fail(err1(msg_not_variable(name), name, i)), st),
        },
    }
}

/// Evaluates a list node: an empty list is nil; otherwise the head must be
/// a symbol naming a form, which is dispatched on the remaining items.
pub open spec fn s_eval_expr(st: ScopeV, linfo: LocV, items: Seq<ObjV>, fuel: nat) -> (CmdV, ScopeV)
    decreases fuel, 10int, items, 0int,
{
    if items.len() == 0 {
        (CmdV::Val(ObjV::Nil(LocV::Unknown)), st)
    } else {
        match items[0] {
            ObjV::Symbol(hloc, name) => match lookup_levels(st.levels, name) {
                Option::None => (CmdV::Fail(err1(msg_unbound(name), name, hloc)), st),
                Option::Some(b) => {
                    let (r, st1) = s_dispatch(st, b, linfo, hloc, name, items, fuel);
                    (rethrow(r, name, hloc), st1)
                },
            },
            head => (CmdV::Fail(err1(msg_invalid_expr(head), "neolisp"@, intern_loc())), st),
        }
    }
}

/// Dispatches a resolved head binding on the argument nodes.
pub open spec fn s_dispatch(
    st: ScopeV,
    b: BindingV,
    linfo: LocV,
    hloc: LocV,
    name: Seq<char>,
    items: Seq<ObjV>,
    fuel: nat,
) -> (CmdV, ScopeV)
    decreases fuel, 8int, items, 0int,
{
    let got = (items.len() - 1) as nat;
    match b {
        BindingV::Constant(_) => (CmdV::Fail(err1(msg_not_operator(name), name, hloc)), st),
        BindingV::Variable(_) => (CmdV::Fail(err1(msg_not_operator(name), name, hloc)), st),
        BindingV::SpecialForm(nf) => {
            if !arity_ok(nf.argument_count, got) {
                (
                    CmdV::Fail(
                        err1(msg_native_arity(name, nf.argument_count, got), name, intern_loc()),
                    ),
                    st,
                )
            } else {
                s_special(st, nf.handler, linfo, hloc, name, items, fuel)
            }
        },
        BindingV::EvalForm(nf) => {
            let (ar, st1) = s_eval_args(st, items, 1, fuel);
            match ar {
                ArgsV::Stop(c) => (c, st1),
                ArgsV::Vals(vals) => {
                    if !arity_ok(nf.argument_count, got) {
                        (
                            CmdV::Fail(
                                err1(
                                    msg_native_arity(name, nf.argument_count, got),
                                    name,
                                    intern_loc(),
                                ),
                            ),
                            st1,
                        )
                    } else {
                        match first_kind_mismatch(nf.argument_kinds, vals, 0) {
                            Option::Some(i) => (
                                CmdV::Fail(
                                    err1(
                                        msg_kind(
                                            name,
                                            kind_at(nf.argument_kinds, i),
                                            vals[i].kind(),
                                        ),
                                        name,
                                        intern_loc(),
                                    ),
                                ),
                                st1,
                            ),
                            Option::None => s_eval_op(st1, nf.handler, vals),
                        }
                    }
                },
            }
        },
        BindingV::DynamicForm(form) => {
            if got != form.arguments.len() {
                (
                    CmdV::Fail(
                        err1(msg_arity(name, form.arguments.len(), got), name, form.location),
                    ),
                    st,
                )
            } else {
                let (ar, st1) = s_eval_args(st, items, 1, fuel);
                match ar {
                    ArgsV::Stop(c) => (
                        match c {
                            CmdV::Fail(e) => CmdV::Fail(push_frame(e, name, form.location)),
                            other => other,
                        },
                        st1,
                    ),
                    ArgsV::Vals(vals) => s_call_body(st1, name, form, vals, fuel),
                }
            }
        },
        BindingV::MacroForm(form) => {
            if got != form.arguments.len() {
                (
                    CmdV::Fail(
                        err1(msg_arity(name, form.arguments.len(), got), name, form.location),
                    ),
                    st,
                )
            } else {
                s_macro_body(st, linfo, name, form, items.drop_first(), fuel)
            }
        },
    }
}

/// Evaluates the argument nodes from the given position on, left to right,
/// stopping at the first failure or signal.
pub open spec fn s_eval_args(st: ScopeV, items: Seq<ObjV>, i: int, fuel: nat) -> (ArgsV, ScopeV)
    decreases fuel, 6int, items, if i < items.len() {
        items.len() - i
    } else {
        0int
    },
{
    if i < 1 || i >= items.len() {
        (ArgsV::Vals(Seq::empty()), st)
    } else if fuel == 0 {
        (ArgsV::Stop(CmdV::Fail(budget_err())), st)
    } else {
        let (r, st1) = s_eval(st, items[i], (fuel - 1) as nat);
        match r {
            CmdV::Val(v) => {
                let (rest, st2) = s_eval_args(st1, items, i + 1, fuel);
                match rest {
                    ArgsV::Vals(vals) => (ArgsV::Vals(seq![v] + vals), st2),
                    stop => (stop, st2),
                }
            },
            c => (ArgsV::Stop(c), st1),
        }
    }
}

/// Runs a dynamic form's body: a boundary level is pushed, the evaluated
/// arguments are bound under their names, the body runs in order, and the
/// level is popped again on every outcome. The boundary catches a `return`.
pub open spec fn s_call_body(
    st: ScopeV,
    name: Seq<char>,
    form: CustomV,
    vals: Seq<ObjV>,
    fuel: nat,
) -> (CmdV, ScopeV)
    decreases fuel, 5int, form.body, 0int,
{
    let entered = ScopeV {
        levels: st.levels.push(
            LevelV {
                bindings: bind_map(form.arguments, vals),
                loop_info: Some(LoopInfo { break_called: false, boundary: true }),
                mode: Mode::Evaluation,
            },
        ),
        output: st.output,
    };
    let (r, st1) = s_eval_body(entered, form.body, 0, fuel);
    let left = ScopeV { levels: st1.levels.drop_last(), output: st1.output };
    match r {
        CmdV::Val(v) => (CmdV::Val(v), left),
        CmdV::EndCall(v) => (CmdV::Val(v), left),
        CmdV::EndLoop(_) => (
            CmdV::Fail(err1(msg_break_boundary(), name, form.location)),
            left,
        ),
        CmdV::Fail(e) => (CmdV::Fail(push_frame(e, name, form.location)), left),
    }
}

/// Runs a macro form's body: the raw argument nodes are bound under their
/// names behind a boundary level in macro mode; afterwards, each node of
/// the produced tree records the expansion step, and in evaluation mode the
/// produced tree is evaluated once more.
pub open spec fn s_macro_body(
    st: ScopeV,
    linfo: LocV,
    name: Seq<char>,
    form: CustomV,
    raw: Seq<ObjV>,
    fuel: nat,
) -> (CmdV, ScopeV)
    decreases fuel, 5int, form.body, 0int,
{
    let entered = ScopeV {
        levels: st.levels.push(
            LevelV {
                bindings: bind_map(form.arguments, raw),
                loop_info: Some(LoopInfo { break_called: false, boundary: true }),
                mode: Mode::Macro,
            },
        ),
        output: st.output,
    };
    let (r, st1) = s_eval_body(entered, form.body, 0, fuel);
    let left = ScopeV { levels: st1.levels.drop_last(), output: st1.output };
    match r {
        CmdV::Val(v) => s_macro_finish(left, linfo, name, form, raw, v, fuel),
        CmdV::EndCall(v) => s_macro_finish(left, linfo, name, form, raw, v, fuel),
        CmdV::EndLoop(_) => (
            CmdV::Fail(err1(msg_break_boundary(), name, form.location)),
            left,
        ),
        CmdV::Fail(e) => (CmdV::Fail(push_frame(e, name, form.location)), left),
    }
}

/// What leaves a macro once its body has produced a value.
pub open spec fn s_macro_finish(
    st: ScopeV,
    linfo: LocV,
    name: Seq<char>,
    form: CustomV,
    raw: Seq<ObjV>,
    v: ObjV,
    fuel: nat,
) -> (CmdV, ScopeV)
    decreases fuel, 3int, v, 0int,
{
    let call = ObjV::List(linfo, seq![ObjV::Symbol(LocV::Unknown, name)] + raw);
    let expanded = expand_result(v, name, call, form.location);
    if current_mode(st.levels) == Mode::Evaluation {
        if fuel == 0 {
            (CmdV::Fail(budget_err()), st)
        } else {
            s_eval(st, expanded, (fuel - 1) as nat)
        }
    } else {
        (CmdV::Val(expanded), st)
    }
}

/// Evaluates the expressions of a body from the given position on, in
/// order, keeping the last value; an empty body is nil. A failure or a
/// signal stops the body and moves on unchanged.
pub open spec fn s_eval_body(st: ScopeV, body: Seq<ObjV>, i: int, fuel: nat) -> (CmdV, ScopeV)
    decreases fuel, 2int, body, if i < body.len() {
        body.len() - i
    } else {
        0int
    },
{
    if i < 0 || i >= body.len() {
        (CmdV::Val(ObjV::Nil(LocV::Unknown)), st)
    } else if fuel == 0 {
        (CmdV::Fail(budget_err()), st)
    } else {
        let (r, st1) = s_eval(st, body[i], (fuel - 1) as nat);
        match r {
            CmdV::Val(v) => {
                if i == body.len() - 1 {
                    (CmdV::Val(v), st1)
                } else {
                    s_eval_body(st1, body, i + 1, fuel)
                }
            },
            c => (c, st1),
        }
    }
}

/// Dispatches one of the builtin special forms on its raw argument nodes.
pub open spec fn s_special(
    st: ScopeV,
    op: SpecialOp,
    linfo: LocV,
    hloc: LocV,
    name: Seq<char>,
    items: Seq<ObjV>,
    fuel: nat,
) -> (CmdV, ScopeV)
    decreases fuel, 7int, items, 0int,
{
    match op {
        SpecialOp::Quote => {
            if items.len() < 2 {
                (CmdV::Val(ObjV::Nil(LocV::Unknown)), st)
            } else {
                (CmdV::Val(items[1]), st)
            }
        },
        SpecialOp::Equote => {
            if items.len() < 2 {
                (CmdV::Val(ObjV::Nil(LocV::Unknown)), st)
            } else {
                let (r, st1) = s_equote(st, items[1], fuel);
                (rethrow(r, "equote"@, intern_loc()), st1)
            }
        },
        SpecialOp::EscapeQuote => (
            CmdV::Fail(err1(msg_escape_outside(), "escape-quote"@, intern_loc())),
            st,
        ),
        SpecialOp::Defndynamic => s_defn(st, name, items, false),
        SpecialOp::Defnmacro => s_defn(st, name, items, true),
        SpecialOp::Break => {
            if !in_loop(st.levels) {
                (CmdV::Fail(err1(msg_break_outside(), name, intern_loc())), st)
            } else if items.len() >= 2 {
                if fuel == 0 {
                    (CmdV::Fail(budget_err()), st)
                } else {
                    let (r, st1) = s_eval(st, items[1], (fuel - 1) as nat);
                    match r {
                        CmdV::Val(v) => (CmdV::EndLoop(v), st1),
                        c => (c, st1),
                    }
                }
            } else {
                (CmdV::EndLoop(ObjV::Nil(LocV::Unknown)), st)
            }
        },
        SpecialOp::Return => {
            if !in_call(st.levels) {
                (CmdV::Fail(err1(msg_return_outside(), name, intern_loc())), st)
            } else if items.len() >= 2 {
                if fuel == 0 {
                    (CmdV::Fail(budget_err()), st)
                } else {
                    let (r, st1) = s_eval(st, items[1], (fuel - 1) as nat);
                    match r {
                        CmdV::Val(v) => (CmdV::EndCall(v), st1),
                        c => (c, st1),
                    }
                }
            } else {
                (CmdV::EndCall(ObjV::Nil(LocV::Unknown)), st)
            }
        },
        SpecialOp::While => {
            let entered = ScopeV {
                levels: st.levels.push(
                    LevelV {
                        bindings: Map::empty(),
                        loop_info: Some(LoopInfo { break_called: false, boundary: false }),
                        mode: Mode::Inherit,
                    },
                ),
                output: st.output,
            };
            let (r, st1) = s_while(entered, items, fuel);
            (r, ScopeV { levels: st1.levels.drop_last(), output: st1.output })
        },
    }
}

/// One round of a while form: the condition decides whether the body runs
/// once more; the loop's own level catches a `break`.
pub open spec fn s_while(st: ScopeV, items: Seq<ObjV>, fuel: nat) -> (CmdV, ScopeV)
    decreases fuel, 4int, items, 0int,
{
    if fuel == 0 {
        (CmdV::Fail(budget_err()), st)
    } else if items.len() < 2 {
        (CmdV::Val(ObjV::Nil(LocV::Unknown)), st)
    } else {
        let (c, st1) = s_eval(st, items[1], (fuel - 1) as nat);
        match c {
            CmdV::Val(cond) => {
                if !truthy(cond) {
                    (CmdV::Val(ObjV::Nil(LocV::Unknown)), st1)
                } else {
                    let (r, st2) = s_eval_body(st1, items, 2, fuel);
                    match r {
                        CmdV::Val(_) => s_while(st2, items, (fuel - 1) as nat),
                        CmdV::EndLoop(v) => (CmdV::Val(v), st2),
                        other => (other, st2),
                    }
                }
            },
            CmdV::EndLoop(v) => (CmdV::Val(v), st1),
            other => (other, st1),
        }
    }
}

/// Defines a dynamic or macro form from a name, a parameter list and a
/// body, binding it in the innermost level.
pub open spec fn s_defn(st: ScopeV, name: Seq<char>, items: Seq<ObjV>, is_macro: bool) -> (
    CmdV,
    ScopeV,
) {
    if items.len() < 4 {
        (
            CmdV::Fail(err1(msg_native_arity(name, -4i32, (items.len() - 1) as nat), name, intern_loc())),
            st,
        )
    } else if !(items[1] is Symbol) {
        (CmdV::Fail(err1(msg_defn_name(name, items[1]), name, intern_loc())), st)
    } else {
        match items[2] {
            ObjV::List(_, params) => match first_non_symbol(params, 0) {
                Option::Some(i) => (
                    CmdV::Fail(
                        err1(msg_defn_param(name, (i + 1) as nat, params[i]), name, intern_loc()),
                    ),
                    st,
                ),
                Option::None => {
                    let form = CustomV {
                        location: items[1].info(),
                        arguments: symbol_names(params),
                        body: items.subrange(3, items.len() as int),
                    };
                    let b = if is_macro {
                        BindingV::MacroForm(form)
                    } else {
                        BindingV::DynamicForm(form)
                    };
                    let defined = match items[1] {
                        ObjV::Symbol(_, n) => n,
                        _ => Seq::empty(),
                    };
                    let top = (st.levels.len() - 1) as int;
                    (
                        CmdV::Val(ObjV::Nil(LocV::Unknown)),
                        ScopeV {
                            levels: st.levels.update(
                                top,
                                LevelV {
                                    bindings: st.levels.last().bindings.insert(defined, b),
                                    loop_info: st.levels.last().loop_info,
                                    mode: st.levels.last().mode,
                                },
                            ),
                            output: st.output,
                        },
                    )
                },
            },
            other => (CmdV::Fail(err1(msg_defn_params(name, other), name, intern_loc())), st),
        }
    }
}

/// Walks a quasiquoted tree: a list headed by the unquote symbol with one
/// operand evaluates that operand in place; every other list is rebuilt
/// from its walked children; leaves pass through unchanged.
pub open spec fn s_equote(st: ScopeV, o: ObjV, fuel: nat) -> (CmdV, ScopeV)
    decreases fuel, 1int, o, 0int,
{
    match o {
        ObjV::List(i, items) => {
            if items.len() > 0 && items[0] == ObjV::Symbol(
                items[0].info(),
                "escape-quote"@,
            ) {
                if items.len() != 2 {
                    (
                        CmdV::Fail(
                            err1(
                                msg_escape_arity((items.len() - 1) as nat),
                                "escape-quote"@,
                                intern_loc(),
                            ),
                        ),
                        st,
                    )
                } else if fuel == 0 {
                    (CmdV::Fail(budget_err()), st)
                } else {
                    let (r, st1) = s_eval(st, items[1], (fuel - 1) as nat);
                    (rethrow(r, "escape-quote"@, intern_loc()), st1)
                }
            } else {
                let (r, st1) = s_equote_items(st, items, 0, fuel);
                match r {
                    ArgsV::Vals(walked) => (
                        CmdV::Val(ObjV::List(LocV::Unknown, walked)),
                        st1,
                    ),
                    ArgsV::Stop(c) => (
                        match c {
                            CmdV::Fail(e) => CmdV::Fail(
                                push_frame(e, "escape-quote"@, intern_loc()),
                            ),
                            other => other,
                        },
                        st1,
                    ),
                }
            }
        },
        _ => (CmdV::Val(o), st),
    }
}

/// Walks the children of a quasiquoted list from the given position on.
pub open spec fn s_equote_items(st: ScopeV, items: Seq<ObjV>, i: int, fuel: nat) -> (ArgsV, ScopeV)
    decreases fuel, 1int, items, if i < items.len() {
        items.len() - i
    } else {
        0int
    },
{
    if i < 0 || i >= items.len() {
        (ArgsV::Vals(Seq::empty()), st)
    } else {
        let (r, st1) = s_equote(st, items[i], fuel);
        match r {
            CmdV::Val(v) => {
                let (rest, st2) = s_equote_items(st1, items, i + 1, fuel);
                match rest {
                    ArgsV::Vals(vals) => (ArgsV::Vals(seq![v] + vals), st2),
                    stop => (stop, st2),
                }
            },
            c => (ArgsV::Stop(c), st1),
        }
    }
}

/// The sum of a row of values coerced to integers, wrapping around.
pub open spec fn sum_ints(vals: Seq<ObjV>) -> i32
    decreases vals,
{
    if vals.len() == 0 {
        0
    } else {
        vstd::wrapping::i32_specs::wrapping_add(sum_ints(vals.drop_last()), to_int_spec(vals.last()))
    }
}

/// Dispatches one of the builtin eval forms on its evaluated arguments.
pub open spec fn s_eval_op(st: ScopeV, op: EvalOp, vals: Seq<ObjV>) -> (CmdV, ScopeV) {
    if vals.len() == 0 && op != EvalOp::Add {
        (CmdV::Val(ObjV::Nil(LocV::Unknown)), st)
    } else {
        s_eval_op_inner(st, op, vals)
    }
}

/// The eval forms on at least the one argument they inspect.
pub open spec fn s_eval_op_inner(st: ScopeV, op: EvalOp, vals: Seq<ObjV>) -> (CmdV, ScopeV) {
    match op {
        EvalOp::IsNil => (CmdV::Val(ObjV::Bool(LocV::Unknown, vals[0].kind() == Kind::Nil)), st),
        EvalOp::IsBool => (CmdV::Val(ObjV::Bool(LocV::Unknown, vals[0].kind() == Kind::Bool)), st),
        EvalOp::IsInteger => (
            CmdV::Val(ObjV::Bool(LocV::Unknown, vals[0].kind() == Kind::Integer)),
            st,
        ),
        EvalOp::IsFloat => (
            CmdV::Val(ObjV::Bool(LocV::Unknown, vals[0].kind() == Kind::Float)),
            st,
        ),
        EvalOp::IsChar => (CmdV::Val(ObjV::Bool(LocV::Unknown, vals[0].kind() == Kind::Char)), st),
        EvalOp::IsString => (
            CmdV::Val(ObjV::Bool(LocV::Unknown, vals[0].kind() == Kind::String)),
            st,
        ),
        EvalOp::IsKeyword => (
            CmdV::Val(ObjV::Bool(LocV::Unknown, vals[0].kind() == Kind::Keyword)),
            st,
        ),
        EvalOp::IsSymbol => (
            CmdV::Val(ObjV::Bool(LocV::Unknown, vals[0].kind() == Kind::Symbol)),
            st,
        ),
        EvalOp::IsList => (CmdV::Val(ObjV::Bool(LocV::Unknown, vals[0].kind() == Kind::List)), st),
        EvalOp::ToString => (CmdV::Val(ObjV::Str(LocV::Unknown, display_text(vals[0]))), st),
        EvalOp::Println => {
            let line = match vals[0] {
                ObjV::Str(_, s) => s,
                _ => Seq::empty(),
            };
            (
                CmdV::Val(ObjV::Nil(LocV::Unknown)),
                ScopeV { levels: st.levels, output: st.output.push(line) },
            )
        },
        EvalOp::Add => (CmdV::Val(ObjV::Integer(LocV::Unknown, sum_ints(vals))), st),
    }
}

} // verus!
