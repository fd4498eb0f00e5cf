use vstd::prelude::*;

use crate::binding::Binding;
use crate::binding::CustomForm;
use crate::binding::EvalOp;
use crate::binding::NativeForm;
use crate::binding::SpecialOp;
use crate::error::Error;
use crate::location::ExpansionLocation;
use crate::location::Location;
use crate::object::lemma_model_list;
use crate::object::model_list;
use crate::object::Kind;
use crate::object::Object;
use crate::object::ObjectInfo;
use crate::scope::Mode;
use crate::scope::Scope;
use crate::semantics::arity_ok;
use crate::semantics::budget_err;
use crate::semantics::first_kind_mismatch;
use crate::semantics::first_non_symbol;
use crate::semantics::intern_loc;
use crate::semantics::kind_at;
use crate::semantics::msg_arity;
use crate::semantics::msg_break_boundary;
use crate::semantics::msg_break_outside;
use crate::semantics::msg_defn_name;
use crate::semantics::msg_defn_param;
use crate::semantics::msg_defn_params;
use crate::semantics::msg_escape_arity;
use crate::semantics::msg_escape_outside;
use crate::semantics::msg_invalid_expr;
use crate::semantics::msg_kind;
use crate::semantics::msg_native_arity;
use crate::semantics::msg_not_operator;
use crate::semantics::msg_not_variable;
use crate::semantics::msg_return_outside;
use crate::semantics::msg_unbound;
use crate::semantics::sum_ints;
use crate::semantics::symbol_names;
use crate::semantics::ArgsV;
use crate::semantics::CmdV;

verus! {

/// The outcome of evaluating one node: a value, a failure, or an in-flight
/// non-local signal still looking for its boundary.
pub enum Command {
    /// The evaluation succeeded.
    Value(Object),
    /// An error occurred.
    Error(Error),
    /// A `return` was issued and has not yet reached a call boundary.
    EndCall(Object),
    /// A `break` was issued and has not yet reached its loop.
    EndLoop(Object),
}

impl Command {
    pub open spec fn model(&self) -> CmdV {
        match self {
            Command::Value(o) => CmdV::Val(o.model()),
            Command::Error(e) => CmdV::Fail(e.model()),
            Command::EndCall(o) => CmdV::EndCall(o.model()),
            Command::EndLoop(o) => CmdV::EndLoop(o.model()),
        }
    }
}

/// The evaluator-side location that its own diagnostics carry.
fn intern_location() -> (r: Location)
    ensures
        r.model() == intern_loc(),
{
    Location::new_intern("evaluator", 0)
}

/// The failure that ends an evaluation whose budget ran out.
fn budget_error() -> (r: Error)
    ensures
        r.model() == budget_err(),
{
    Error::new("evaluation budget exhausted")
}

/// Builds "unbound symbol '<name>'".
fn text_unbound(name: &String) -> (r: String)
    ensures
        r@ == msg_unbound(name@),
{
    proof {
        reveal_strlit("unbound symbol '");
        reveal_strlit("'");
    }
    let mut out = String::from_str("unbound symbol '");
    out.append(name.as_str());
    out.append("'");
    proof {
        assert(out@ =~= msg_unbound(name@));
    }
    out
}

/// Builds "'<name>'" followed by the given tail.
fn quoted_name_then(name: &String, tail: &str) -> (r: String)
    ensures
        r@ == "'"@ + name@ + tail@,
{
    proof {
        reveal_strlit("'");
    }
    let mut out = String::from_str("'");
    out.append(name.as_str());
    out.append(tail);
    proof {
        assert(out@ =~= "'"@ + name@ + tail@);
    }
    out
}

/// Builds "'<name>' is not a variable.".
fn text_not_variable(name: &String) -> (r: String)
    ensures
        r@ == msg_not_variable(name@),
{
    let r = quoted_name_then(name, "' is not a variable.");
    proof {
        assert(r@ =~= msg_not_variable(name@));
    }
    r
}

/// Builds "'<name>' : expected an operator, got a variable.".
fn text_not_operator(name: &String) -> (r: String)
    ensures
        r@ == msg_not_operator(name@),
{
    let r = quoted_name_then(name, "' : expected an operator, got a variable.");
    proof {
        assert(r@ =~= msg_not_operator(name@));
    }
    r
}

/// Builds "invalid s-expression : <form>".
fn text_invalid_expr(head: &Object) -> (r: String)
    ensures
        r@ == msg_invalid_expr(head.model()),
{
    proof {
        reveal_strlit("invalid s-expression : ");
    }
    let mut out = String::from_str("invalid s-expression : ");
    let d = head.display_string();
    out.append(d.as_str());
    proof {
        assert(out@ =~= msg_invalid_expr(head.model()));
    }
    out
}

/// Builds the message of an arity failure of a user-defined form.
fn text_arity(name: &String, expected: usize, got: usize) -> (r: String)
    ensures
        r@ == msg_arity(name@, expected as nat, got as nat),
{
    proof {
        reveal_strlit("'");
        reveal_strlit("' requires ");
        reveal_strlit(" arguments, got ");
        reveal_strlit(" instead.");
    }
    let mut out = String::from_str("'");
    out.append(name.as_str());
    out.append("' requires ");
    let e = crate::digits::nat_text_u64(expected as u64);
    out.append(e.as_str());
    out.append(" arguments, got ");
    let g = crate::digits::nat_text_u64(got as u64);
    out.append(g.as_str());
    out.append(" instead.");
    proof {
        assert(out@ =~= msg_arity(name@, expected as nat, got as nat));
    }
    out
}

/// Builds the message of an arity failure of a builtin form.
fn text_native_arity(name: &String, count: i32, got: usize) -> (r: String)
    ensures
        r@ == msg_native_arity(name@, count, got as nat),
{
    proof {
        reveal_strlit("'");
        reveal_strlit("' requires ");
        reveal_strlit("' requires at least ");
        reveal_strlit(" arguments, got ");
        reveal_strlit(" instead.");
    }
    let mut out = String::from_str("'");
    out.append(name.as_str());
    if count >= 0 {
        out.append("' requires ");
        let e = crate::digits::nat_text_u64(count as u64);
        out.append(e.as_str());
    } else {
        out.append("' requires at least ");
        let m: u64 = ((-(count as i64)) as u64) - 1;
        proof {
            assert(m == (-count - 1) as nat);
        }
        let e = crate::digits::nat_text_u64(m);
        out.append(e.as_str());
    }
    out.append(" arguments, got ");
    let g = crate::digits::nat_text_u64(got as u64);
    out.append(g.as_str());
    out.append(" instead.");
    proof {
        assert(out@ =~= msg_native_arity(name@, count, got as nat));
    }
    out
}

/// Builds the message of a kind failure of a builtin form.
fn text_kind(name: &String, expected: Kind, got: Kind) -> (r: String)
    ensures
        r@ == msg_kind(name@, expected, got),
{
    proof {
        reveal_strlit("'");
        reveal_strlit("' expects a ");
        reveal_strlit(" argument, got a ");
        reveal_strlit(" instead.");
    }
    let mut out = String::from_str("'");
    out.append(name.as_str());
    out.append("' expects a ");
    out.append(kind_name(expected));
    out.append(" argument, got a ");
    out.append(kind_name(got));
    out.append(" instead.");
    proof {
        assert(out@ =~= msg_kind(name@, expected, got));
    }
    out
}

/// The name of a kind, as a borrowed string.
fn kind_name(k: Kind) -> (r: &'static str)
    ensures
        r@ == crate::convert::kind_text(k),
{
    match k {
        Kind::Nil => "Nil",
        Kind::Bool => "Bool",
        Kind::Integer => "Integer",
        Kind::Float => "Float",
        Kind::Char => "Char",
        Kind::String => "String",
        Kind::Keyword => "Keyword",
        Kind::Symbol => "Symbol",
        Kind::List => "List",
        Kind::Any => "Any",
    }
}

/// Builds the message of an escape-quote arity failure.
fn text_escape_arity(got: usize) -> (r: String)
    ensures
        r@ == msg_escape_arity(got as nat),
{
    proof {
        reveal_strlit("'escape-quote' requires 1 argument, got ");
        reveal_strlit(" instead.");
    }
    let mut out = String::from_str("'escape-quote' requires 1 argument, got ");
    let g = crate::digits::nat_text_u64(got as u64);
    out.append(g.as_str());
    out.append(" instead.");
    proof {
        assert(out@ =~= msg_escape_arity(got as nat));
    }
    out
}

/// Builds a message of a malformed form definition: the name part.
fn text_defn_name(name: &String, got: &Object) -> (r: String)
    ensures
        r@ == msg_defn_name(name@, got.model()),
{
    proof {
        reveal_strlit("'");
        reveal_strlit("' requires a symbol as its first argument, got : ");
    }
    let mut out = String::from_str("'");
    out.append(name.as_str());
    out.append("' requires a symbol as its first argument, got : ");
    let d = got.display_string();
    out.append(d.as_str());
    proof {
        assert(out@ =~= msg_defn_name(name@, got.model()));
    }
    out
}

/// Builds a message of a malformed form definition: the parameter list.
fn text_defn_params(name: &String, got: &Object) -> (r: String)
    ensures
        r@ == msg_defn_params(name@, got.model()),
{
    proof {
        reveal_strlit("'");
        reveal_strlit("' requires a list of symbols as its second argument, got : ");
    }
    let mut out = String::from_str("'");
    out.append(name.as_str());
    out.append("' requires a list of symbols as its second argument, got : ");
    let d = got.display_string();
    out.append(d.as_str());
    proof {
        assert(out@ =~= msg_defn_params(name@, got.model()));
    }
    out
}

/// Builds a message of a malformed form definition: one parameter.
fn text_defn_param(name: &String, i: usize, got: &Object) -> (r: String)
    ensures
        r@ == msg_defn_param(name@, i as nat, got.model()),
{
    proof {
        reveal_strlit("'");
        reveal_strlit("' only accepts symbols for the argument list, for the ");
        reveal_strlit(" argument, got : ");
    }
    let mut out = String::from_str("'");
    out.append(name.as_str());
    out.append("' only accepts symbols for the argument list, for the ");
    let n = crate::digits::nat_text_u64(i as u64);
    out.append(n.as_str());
    out.append(" argument, got : ");
    let d = got.display_string();
    out.append(d.as_str());
    proof {
        assert(out@ =~= msg_defn_param(name@, i as nat, got.model()));
    }
    out
}

/// Whether a number of arguments satisfies a native form's declared count.
fn arity_check(count: i32, got: usize) -> (r: bool)
    ensures
        r == arity_ok(count, got as nat),
{
    if count >= 0 {
        got as u64 == count as u64
    } else {
        let need: u64 = ((-(count as i64)) as u64) - 1;
        got as u64 >= need
    }
}

/// A plain copy of a list of kinds.
fn copy_kinds(v: &Vec<Kind>) -> (r: Vec<Kind>)
    ensures
        r@ == v@,
{
    let mut r: Vec<Kind> = Vec::new();
    let mut i: usize = 0;
    while i < v.len()
        invariant
            i <= v@.len(),
            r@ == v@.subrange(0, i as int),
        decreases v@.len() - i,
    {
        r.push(v[i]);
        proof {
            assert(r@ =~= v@.subrange(0, i as int + 1));
        }
        i = i + 1;
    }
    proof {
        assert(v@.subrange(0, v@.len() as int) =~= v@);
    }
    r
}

/// The first argument whose kind does not match the declared one.
fn kind_check(kinds: &Vec<Kind>, vals: &Vec<Object>) -> (r: Option<usize>)
    ensures
        match r {
            Some(i) => i < vals@.len() && first_kind_mismatch(kinds@, model_list(vals@), 0)
                == Some(i as int),
            None => first_kind_mismatch(kinds@, model_list(vals@), 0) is None,
        },
{
    let ghost m = model_list(vals@);
    proof {
        lemma_model_list(vals@);
    }
    let mut i: usize = 0;
    while i < vals.len()
        invariant
            i <= vals@.len(),
            m == model_list(vals@),
            m.len() == vals@.len(),
            forall|j: int| 0 <= j < vals@.len() ==> m[j] == vals@[j].model(),
            first_kind_mismatch(kinds@, m, 0) == first_kind_mismatch(kinds@, m, i as int),
        decreases vals@.len() - i,
    {
        let expected: Kind = if kinds.len() == 0 {
            Kind::Any
        } else if i < kinds.len() {
            kinds[i]
        } else {
            kinds[kinds.len() - 1]
        };
        proof {
            assert(expected == kind_at(kinds@, i as int));
        }
        if !matches!(expected, Kind::Any) {
            let got = vals[i].kind();
            if got != expected {
                return Some(i);
            }
        }
        i = i + 1;
    }
    None
}

/// The outcome of evaluating a row of argument nodes.
enum ArgsOut {
    Vals(Vec<Object>),
    Stop(Command),
}

impl ArgsOut {
    spec fn model(&self) -> ArgsV {
        match self {
            ArgsOut::Vals(v) => ArgsV::Vals(model_list(v@)),
            ArgsOut::Stop(c) => ArgsV::Stop(c.model()),
        }
    }
}

/// An owned summary of the binding a head symbol resolved to.
enum Disp {
    /// A constant or variable: no operator.
    NotOp,
    /// A special form's handler and declared count.
    Special(SpecialOp, i32),
    /// An eval form's handler, declared count and kinds.
    Evalf(EvalOp, i32, Vec<Kind>),
    /// A dynamic form's definition.
    Dyn(CustomForm),
    /// A macro form's definition.
    Mac(CustomForm),
}

/// Resolves a head symbol to an owned summary of its binding.
fn resolve(scope: &Scope, name: &String) -> (r: Option<Disp>)
    requires
        scope.wf(),
    ensures
        match r {
            Option::None => crate::scope::lookup_levels(scope.model().levels, name@) is None,
            Option::Some(d) => crate::scope::lookup_levels(scope.model().levels, name@) matches Some(
                b,
            ) && (match d {
                Disp::NotOp => b is Constant || b is Variable,
                Disp::Special(op, c) => b matches crate::binding::BindingV::SpecialForm(nf)
                    && nf.handler == op && nf.argument_count == c,
                Disp::Evalf(op, c, kinds) => b matches crate::binding::BindingV::EvalForm(nf)
                    && nf.handler == op && nf.argument_count == c && kinds@ == nf.argument_kinds,
                Disp::Dyn(f) => b == crate::binding::BindingV::DynamicForm(f.model()),
                Disp::Mac(f) => b == crate::binding::BindingV::MacroForm(f.model()),
            }),
        },
{
    match scope.get_binding(name) {
        Option::None => Option::None,
        Option::Some(b) => Option::Some(
            match b {
                Binding::Constant(_) => Disp::NotOp,
                Binding::Variable(_) => Disp::NotOp,
                Binding::SpecialForm(nf) => Disp::Special(*nf.handler(), nf.argument_count()),
                Binding::EvalForm(nf) => Disp::Evalf(
                    *nf.handler(),
                    nf.argument_count(),
                    copy_kinds(nf.argument_kinds()),
                ),
                Binding::DynamicForm(f) => Disp::Dyn(f.duplicate()),
                Binding::MacroForm(f) => Disp::Mac(f.duplicate()),
            },
        ),
    }
}

/// Evaluates one node against a scope: a literal stands for itself, a
/// symbol resolves to the value bound under it, and a list applies its
/// head form to the rest. The fuel bounds the depth of the evaluation;
/// when it runs out, the evaluation fails.
fn eval_node(scope: &mut Scope, o: &Object, fuel: u64) -> (r: Command)
    requires
        old(scope).wf(),
        old(scope).model().levels.len() >= 1,
    ensures
        final(scope).wf(),
        final(scope).model().levels.len() == old(scope).model().levels.len(),
        r.model() == crate::semantics::s_eval(old(scope).model(), o.model(), fuel as nat).0,
        final(scope).model() == crate::semantics::s_eval(
            old(scope).model(),
            o.model(),
            fuel as nat,
        ).1,
    decreases fuel, 12int, o, 0int,
{
    if fuel == 0 {
        return Command::Error(budget_error());
    }
    match o {
        Object::Symbol(i, name) => eval_symbol(scope, i, name),
        Object::List(i, v) => eval_expr(scope, i, v, fuel - 1),
        _ => Command::Value(o.clone()),
    }
}

/// Resolves a symbol node to the value bound under it.
fn eval_symbol(scope: &mut Scope, info: &ObjectInfo, name: &String) -> (r: Command)
    requires
        old(scope).wf(),
    ensures
        final(scope).wf(),
        final(scope).model().levels.len() == old(scope).model().levels.len(),
        r.model() == crate::semantics::s_eval_symbol(
            old(scope).model(),
            info.model(),
            name@,
        ).0,
        final(scope).model() == crate::semantics::s_eval_symbol(
            old(scope).model(),
            info.model(),
            name@,
        ).1,
{
    match scope.get_binding(name) {
        Option::None => {
            let msg = text_unbound(name);
            let e = Error::newf(msg.as_str(), name.as_str(), info.location.duplicate());
            proof {
                assert(e.model() == crate::semantics::err1(
                    msg_unbound(name@),
                    name@,
                    info.model(),
                ));
            }
            Command::Error(e)
        },
        Option::Some(b) => match b.as_value() {
            Option::Some(v) => Command::Value(v.clone()),
            Option::None => {
                let msg = text_not_variable(name);
                let e = Error::newf(msg.as_str(), name.as_str(), info.location.duplicate());
                Command::Error(e)
            },
        },
    }
}

/// Evaluates a list node: an empty list is nil; otherwise the head must be
/// a symbol naming a form, which is dispatched on the remaining items.
fn eval_expr(scope: &mut Scope, info: &ObjectInfo, items: &Vec<Object>, fuel: u64) -> (r: Command)
    requires
        old(scope).wf(),
        old(scope).model().levels.len() >= 1,
    ensures
        final(scope).wf(),
        final(scope).model().levels.len() == old(scope).model().levels.len(),
        r.model() == crate::semantics::s_eval_expr(
            old(scope).model(),
            info.model(),
            model_list(items@),
            fuel as nat,
        ).0,
        final(scope).model() == crate::semantics::s_eval_expr(
            old(scope).model(),
            info.model(),
            model_list(items@),
            fuel as nat,
        ).1,
    decreases fuel, 10int, items, 0int,
{
    let ghost st0 = scope.model();
    let ghost m = model_list(items@);
    proof {
        lemma_model_list(items@);
    }
    if items.len() == 0 {
        return Command::Value(Object::nil());
    }
    let head = &items[0];
    if !head.is_symbol() {
        let msg = text_invalid_expr(head);
        let e = Error::newf(msg.as_str(), "neolisp", intern_location());
        return Command::Error(e);
    }
    let name = head.get_symbol();
    let hinfo = head.get_info();
    let ghost hloc = items@[0].model().info();
    proof {
        assert(m[0] == items@[0].model());
        assert(items@[0].model() == crate::object::ObjV::Symbol(hloc, name@));
        assert(hinfo.model() == hloc);
    }
    let name_own = name.clone();
    let hloc_own = hinfo.location.duplicate();
    let disp: Option<Disp> = resolve(scope, name);
    let ghost lookup = crate::scope::lookup_levels(st0.levels, name@);
    let d: Disp = match disp {
        Option::None => {
            let msg = text_unbound(&name_own);
            let e = Error::newf(msg.as_str(), name_own.as_str(), hloc_own);
            return Command::Error(e);
        },
        Option::Some(d) => d,
    };
    let ghost bv = lookup.unwrap();
    let ghost sd = crate::semantics::s_dispatch(
        st0,
        bv,
        info.model(),
        hloc,
        name@,
        m,
        fuel as nat,
    );
    let got = items.len() - 1;
    let r: Command = match d {
        Disp::NotOp => {
            let msg = text_not_operator(&name_own);
            Command::Error(Error::newf(msg.as_str(), name_own.as_str(), hloc_own.duplicate()))
        },
        Disp::Special(op, count) => {
            if !arity_check(count, got) {
                let msg = text_native_arity(&name_own, count, got);
                Command::Error(Error::newf(msg.as_str(), name_own.as_str(), intern_location()))
            } else {
                dispatch_special(scope, op, info, items, &name_own, fuel)
            }
        },
        Disp::Evalf(op, count, kinds) => {
            match eval_args(scope, items, 1, fuel) {
                ArgsOut::Stop(c) => c,
                ArgsOut::Vals(vals) => {
                    proof {
                        lemma_model_list(vals@);
                    }
                    if !arity_check(count, got) {
                        let msg = text_native_arity(&name_own, count, got);
                        Command::Error(
                            Error::newf(msg.as_str(), name_own.as_str(), intern_location()),
                        )
                    } else {
                        match kind_check(&kinds, &vals) {
                            Option::Some(i) => {
                                let expected: Kind = if kinds.len() == 0 {
                                    Kind::Any
                                } else if i < kinds.len() {
                                    kinds[i]
                                } else {
                                    kinds[kinds.len() - 1]
                                };
                                let msg = text_kind(&name_own, expected, vals[i].kind());
                                Command::Error(
                                    Error::newf(msg.as_str(), name_own.as_str(), intern_location()),
                                )
                            },
                            Option::None => eval_op(scope, op, &vals),
                        }
                    }
                },
            }
        },
        Disp::Dyn(form) => {
            proof {
                crate::binding::lemma_model_names(form.arguments@);
            }
            if got != form.arguments.len() {
                let msg = text_arity(&name_own, form.arguments.len(), got);
                Command::Error(
                    Error::newf(msg.as_str(), name_own.as_str(), form.location.duplicate()),
                )
            } else {
                match eval_args(scope, items, 1, fuel) {
                    ArgsOut::Stop(c) => match c {
                        Command::Error(e) => Command::Error(
                            e.push(name_own.as_str(), form.location.duplicate()),
                        ),
                        other => other,
                    },
                    ArgsOut::Vals(vals) => call_body(scope, &name_own, &form, vals, fuel),
                }
            }
        },
        Disp::Mac(form) => {
            proof {
                crate::binding::lemma_model_names(form.arguments@);
            }
            if got != form.arguments.len() {
                let msg = text_arity(&name_own, form.arguments.len(), got);
                Command::Error(
                    Error::newf(msg.as_str(), name_own.as_str(), form.location.duplicate()),
                )
            } else {
                macro_body(scope, info, &name_own, &form, items, fuel)
            }
        },
    };
    proof {
        assert(r.model() == sd.0);
        assert(scope.model() == sd.1);
    }
    let out = match r {
        Command::Error(e) => Command::Error(e.push(name_own.as_str(), hloc_own)),
        other => other,
    };
    proof {
        assert(out.model() == crate::semantics::rethrow(sd.0, name@, hloc));
    }
    out
}

/// Evaluates the argument nodes from the given position on, left to right,
/// stopping at the first failure or signal.
fn eval_args(scope: &mut Scope, items: &Vec<Object>, i: usize, fuel: u64) -> (r: ArgsOut)
    requires
        old(scope).wf(),
        old(scope).model().levels.len() >= 1,
        i >= 1,
    ensures
        final(scope).wf(),
        final(scope).model().levels.len() == old(scope).model().levels.len(),
        r.model() == crate::semantics::s_eval_args(
            old(scope).model(),
            model_list(items@),
            i as int,
            fuel as nat,
        ).0,
        final(scope).model() == crate::semantics::s_eval_args(
            old(scope).model(),
            model_list(items@),
            i as int,
            fuel as nat,
        ).1,
        (r matches ArgsOut::Vals(v) ==> v@.len() == if i as int <= items@.len() {
            items@.len() - i as int
        } else {
            0int
        }),
    decreases fuel, 6int, items, if i < items@.len() {
        items@.len() - i
    } else {
        0int
    },
{
    proof {
        lemma_model_list(items@);
    }
    if i >= items.len() {
        let r = ArgsOut::Vals(Vec::new());
        proof {
            assert(model_list(Seq::<Object>::empty()) =~= Seq::<crate::object::ObjV>::empty());
        }
        return r;
    }
    if fuel == 0 {
        return ArgsOut::Stop(Command::Error(budget_error()));
    }
    let c = eval_node(scope, &items[i], fuel - 1);
    match c {
        Command::Value(v) => {
            match eval_args(scope, items, i + 1, fuel) {
                ArgsOut::Vals(vals) => {
                    let mut vals = vals;
                    let ghost prev = vals@;
                    vals.insert(0, v);
                    proof {
                        lemma_model_list(prev);
                        lemma_model_list(vals@);
                        assert(model_list(vals@) =~= seq![vals@[0].model()] + model_list(prev));
                    }
                    ArgsOut::Vals(vals)
                },
                stop => stop,
            }
        },
        c => ArgsOut::Stop(c),
    }
}

/// Dispatches one of the builtin special forms on its raw argument nodes.
fn dispatch_special(
    scope: &mut Scope,
    op: SpecialOp,
    info: &ObjectInfo,
    items: &Vec<Object>,
    name: &String,
    fuel: u64,
) -> (r: Command)
    requires
        old(scope).wf(),
        old(scope).model().levels.len() >= 1,
        items@.len() >= 1,
    ensures
        final(scope).wf(),
        final(scope).model().levels.len() == old(scope).model().levels.len(),
        r.model() == crate::semantics::s_special(
            old(scope).model(),
            op,
            info.model(),
            items@[0].model().info(),
            name@,
            model_list(items@),
            fuel as nat,
        ).0,
        final(scope).model() == crate::semantics::s_special(
            old(scope).model(),
            op,
            info.model(),
            items@[0].model().info(),
            name@,
            model_list(items@),
            fuel as nat,
        ).1,
    decreases fuel, 7int, items, 0int,
{
    proof {
        lemma_model_list(items@);
    }
    match op {
        SpecialOp::Quote => {
            if items.len() < 2 {
                Command::Value(Object::nil())
            } else {
                Command::Value(items[1].clone())
            }
        },
        SpecialOp::Equote => {
            if items.len() < 2 {
                Command::Value(Object::nil())
            } else {
                let r = equote_walk(scope, &items[1], fuel);
                match r {
                    Command::Error(e) => Command::Error(e.push("equote", intern_location())),
                    other => other,
                }
            }
        },
        SpecialOp::EscapeQuote => {
            let e = Error::newf(
                "'escape-quote' must be within a 'equote' form.",
                "escape-quote",
                intern_location(),
            );
            proof {
                reveal_strlit("'escape-quote' must be within a 'equote' form.");
                assert(e.model().message =~= msg_escape_outside());
            }
            Command::Error(e)
        },
        SpecialOp::Defndynamic => eval_defn(scope, name, items, false),
        SpecialOp::Defnmacro => eval_defn(scope, name, items, true),
        SpecialOp::Break => {
            if !scope.is_in_loop() {
                let e = Error::newf(
                    "'break' called outside of a loop.",
                    name.as_str(),
                    intern_location(),
                );
                proof {
                    reveal_strlit("'break' called outside of a loop.");
                    assert(e.model().message =~= msg_break_outside());
                }
                Command::Error(e)
            } else if items.len() >= 2 {
                if fuel == 0 {
                    Command::Error(budget_error())
                } else {
                    let r = eval_node(scope, &items[1], fuel - 1);
                    match r {
                        Command::Value(v) => Command::EndLoop(v),
                        c => c,
                    }
                }
            } else {
                Command::EndLoop(Object::nil())
            }
        },
        SpecialOp::Return => {
            if !scope.is_in_call() {
                let e = Error::newf(
                    "'return' called outside of a function.",
                    name.as_str(),
                    intern_location(),
                );
                proof {
                    reveal_strlit("'return' called outside of a function.");
                    assert(e.model().message =~= msg_return_outside());
                }
                Command::Error(e)
            } else if items.len() >= 2 {
                if fuel == 0 {
                    Command::Error(budget_error())
                } else {
                    let r = eval_node(scope, &items[1], fuel - 1);
                    match r {
                        Command::Value(v) => Command::EndCall(v),
                        c => c,
                    }
                }
            } else {
                Command::EndCall(Object::nil())
            }
        },
        SpecialOp::While => {
            scope.enter_loop(Mode::Inherit);
            let r = run_while(scope, items, fuel);
            scope.leave();
            r
        },
    }
}

/// One round of a while form: the condition decides whether the body runs
/// once more; the loop's own level catches a `break`.
fn run_while(scope: &mut Scope, items: &Vec<Object>, fuel: u64) -> (r: Command)
    requires
        old(scope).wf(),
        old(scope).model().levels.len() >= 1,
    ensures
        final(scope).wf(),
        final(scope).model().levels.len() == old(scope).model().levels.len(),
        r.model() == crate::semantics::s_while(
            old(scope).model(),
            model_list(items@),
            fuel as nat,
        ).0,
        final(scope).model() == crate::semantics::s_while(
            old(scope).model(),
            model_list(items@),
            fuel as nat,
        ).1,
    decreases fuel, 4int, items, 0int,
{
    proof {
        lemma_model_list(items@);
    }
    if fuel == 0 {
        return Command::Error(budget_error());
    }
    if items.len() < 2 {
        return Command::Value(Object::nil());
    }
    let c = eval_node(scope, &items[1], fuel - 1);
    match c {
        Command::Value(cond) => {
            if !cond.to_bool() {
                Command::Value(Object::nil())
            } else {
                let r = eval_body(scope, items, 2, fuel);
                match r {
                    Command::Value(_) => run_while(scope, items, fuel - 1),
                    Command::EndLoop(v) => Command::Value(v),
                    other => other,
                }
            }
        },
        Command::EndLoop(v) => Command::Value(v),
        other => other,
    }
}

/// Evaluates the expressions of a body from the given position on, in
/// order, keeping the last value; an empty body is nil.
fn eval_body(scope: &mut Scope, body: &Vec<Object>, i: usize, fuel: u64) -> (r: Command)
    requires
        old(scope).wf(),
        old(scope).model().levels.len() >= 1,
    ensures
        final(scope).wf(),
        final(scope).model().levels.len() == old(scope).model().levels.len(),
        r.model() == crate::semantics::s_eval_body(
            old(scope).model(),
            model_list(body@),
            i as int,
            fuel as nat,
        ).0,
        final(scope).model() == crate::semantics::s_eval_body(
            old(scope).model(),
            model_list(body@),
            i as int,
            fuel as nat,
        ).1,
    decreases fuel, 2int, body, if i < body@.len() {
        body@.len() - i
    } else {
        0int
    },
{
    proof {
        lemma_model_list(body@);
    }
    if i >= body.len() {
        return Command::Value(Object::nil());
    }
    if fuel == 0 {
        return Command::Error(budget_error());
    }
    let c = eval_node(scope, &body[i], fuel - 1);
    match c {
        Command::Value(v) => {
            if i == body.len() - 1 {
                Command::Value(v)
            } else {
                eval_body(scope, body, i + 1, fuel)
            }
        },
        c => c,
    }
}

/// Runs a dynamic form's body: a boundary level is pushed, the evaluated
/// arguments are bound under their names, the body runs in order, and the
/// level is popped again on every outcome. The boundary catches a `return`.
fn call_body(
    scope: &mut Scope,
    name: &String,
    form: &CustomForm,
    vals: Vec<Object>,
    fuel: u64,
) -> (r: Command)
    requires
        old(scope).wf(),
        old(scope).model().levels.len() >= 1,
        vals@.len() == form.arguments@.len(),
    ensures
        final(scope).wf(),
        final(scope).model().levels.len() == old(scope).model().levels.len(),
        r.model() == crate::semantics::s_call_body(
            old(scope).model(),
            name@,
            form.model(),
            model_list(vals@),
            fuel as nat,
        ).0,
        final(scope).model() == crate::semantics::s_call_body(
            old(scope).model(),
            name@,
            form.model(),
            model_list(vals@),
            fuel as nat,
        ).1,
    decreases fuel, 5int, form.body, 0int,
{
    let ghost st0 = scope.model();
    scope.enter_loop_boundary(Mode::Evaluation);
    bind_params(scope, &form.arguments, &vals);
    proof {
        assert(scope.model().levels =~= st0.levels.push(
            crate::scope::LevelV {
                bindings: crate::semantics::bind_map(form.model().arguments, model_list(vals@)),
                loop_info: Some(crate::scope::LoopInfo { break_called: false, boundary: true }),
                mode: Mode::Evaluation,
            },
        ));
    }
    let rb = eval_body(scope, &form.body, 0, fuel);
    scope.leave();
    match rb {
        Command::Value(v) => Command::Value(v),
        Command::EndCall(v) => Command::Value(v),
        Command::EndLoop(_) => {
            let e = Error::newf(
                "'break' crossed a function boundary.",
                name.as_str(),
                form.location.duplicate(),
            );
            proof {
                reveal_strlit("'break' crossed a function boundary.");
                assert(e.model().message =~= msg_break_boundary());
            }
            Command::Error(e)
        },
        Command::Error(e) => Command::Error(e.push(name.as_str(), form.location.duplicate())),
    }
}

/// Binds each argument name to its value in the innermost level, in order.
fn bind_params(scope: &mut Scope, names: &Vec<String>, vals: &Vec<Object>)
    requires
        old(scope).wf(),
        old(scope).model().levels.len() >= 1,
        names@.len() == vals@.len(),
        old(scope).model().levels.last().bindings == Map::<
            Seq<char>,
            crate::binding::BindingV,
        >::empty(),
    ensures
        final(scope).wf(),
        final(scope).model().levels.len() == old(scope).model().levels.len(),
        final(scope).model() == (crate::scope::ScopeV {
            levels: old(scope).model().levels.update(
                old(scope).model().levels.len() - 1,
                crate::scope::LevelV {
                    bindings: crate::semantics::bind_map(
                        crate::binding::model_names(names@),
                        model_list(vals@),
                    ),
                    loop_info: old(scope).model().levels.last().loop_info,
                    mode: old(scope).model().levels.last().mode,
                },
            ),
            output: old(scope).model().output,
        }),
{
    let ghost st0 = scope.model();
    let ghost nm = crate::binding::model_names(names@);
    let ghost vm = model_list(vals@);
    proof {
        crate::binding::lemma_model_names(names@);
        lemma_model_list(vals@);
        assert(crate::semantics::bind_map(nm.subrange(0, 0), vm.subrange(0, 0)) =~= Map::<
            Seq<char>,
            crate::binding::BindingV,
        >::empty());
        assert(st0.levels.update(
            st0.levels.len() - 1,
            crate::scope::LevelV {
                bindings: crate::semantics::bind_map(nm.subrange(0, 0), vm.subrange(0, 0)),
                loop_info: st0.levels.last().loop_info,
                mode: st0.levels.last().mode,
            },
        ) =~= st0.levels);
    }
    let mut k: usize = 0;
    while k < names.len()
        invariant
            k <= names@.len(),
            names@.len() == vals@.len(),
            nm == crate::binding::model_names(names@),
            vm == model_list(vals@),
            nm.len() == names@.len(),
            vm.len() == vals@.len(),
            forall|j: int| 0 <= j < names@.len() ==> nm[j] == names@[j]@,
            forall|j: int| 0 <= j < vals@.len() ==> vm[j] == vals@[j].model(),
            st0.levels.len() >= 1,
            scope.wf(),
            scope.model() == (crate::scope::ScopeV {
                levels: st0.levels.update(
                    st0.levels.len() - 1,
                    crate::scope::LevelV {
                        bindings: crate::semantics::bind_map(
                            nm.subrange(0, k as int),
                            vm.subrange(0, k as int),
                        ),
                        loop_info: st0.levels.last().loop_info,
                        mode: st0.levels.last().mode,
                    },
                ),
                output: st0.output,
            }),
        decreases names@.len() - k,
    {
        scope.insert(names[k].clone(), Binding::Variable(vals[k].clone()));
        proof {
            let a = nm.subrange(0, k as int + 1);
            let b = vm.subrange(0, k as int + 1);
            assert(a.drop_last() =~= nm.subrange(0, k as int));
            assert(b.drop_last() =~= vm.subrange(0, k as int));
            assert(a.last() == nm[k as int]);
            assert(b.last() == vm[k as int]);
            assert(crate::semantics::bind_map(a, b) == crate::semantics::bind_map(
                nm.subrange(0, k as int),
                vm.subrange(0, k as int),
            ).insert(nm[k as int], crate::binding::BindingV::Variable(vm[k as int])));
            assert(scope.model().levels =~= st0.levels.update(
                st0.levels.len() - 1,
                crate::scope::LevelV {
                    bindings: crate::semantics::bind_map(a, b),
                    loop_info: st0.levels.last().loop_info,
                    mode: st0.levels.last().mode,
                },
            ));
        }
        k = k + 1;
    }
    proof {
        assert(nm.subrange(0, nm.len() as int) =~= nm);
        assert(vm.subrange(0, vm.len() as int) =~= vm);
    }
}

/// Runs a macro form's body: the raw argument nodes are bound under their
/// names behind a boundary level in macro mode, and the produced tree
/// goes through the expansion step.
fn macro_body(
    scope: &mut Scope,
    info: &ObjectInfo,
    name: &String,
    form: &CustomForm,
    items: &Vec<Object>,
    fuel: u64,
) -> (r: Command)
    requires
        old(scope).wf(),
        old(scope).model().levels.len() >= 1,
        items@.len() >= 1,
        items@.len() - 1 == form.arguments@.len(),
    ensures
        final(scope).wf(),
        final(scope).model().levels.len() == old(scope).model().levels.len(),
        r.model() == crate::semantics::s_macro_body(
            old(scope).model(),
            info.model(),
            name@,
            form.model(),
            model_list(items@).drop_first(),
            fuel as nat,
        ).0,
        final(scope).model() == crate::semantics::s_macro_body(
            old(scope).model(),
            info.model(),
            name@,
            form.model(),
            model_list(items@).drop_first(),
            fuel as nat,
        ).1,
    decreases fuel, 5int, form.body, 1int,
{
    let ghost st0 = scope.model();
    proof {
        lemma_model_list(items@);
    }
    let mut raw: Vec<Object> = Vec::new();
    let mut k: usize = 1;
    while k < items.len()
        invariant
            1 <= k <= items@.len(),
            raw@.len() == k - 1,
            forall|j: int| 0 <= j < k - 1 ==> raw@[j].model() == items@[j + 1].model(),
        decreases items@.len() - k,
    {
        raw.push(items[k].clone());
        k = k + 1;
    }
    proof {
        lemma_model_list(raw@);
        lemma_model_list(items@);
        assert(model_list(raw@) =~= model_list(items@).drop_first());
    }
    scope.enter_loop_boundary(Mode::Macro);
    bind_params(scope, &form.arguments, &raw);
    proof {
        assert(scope.model().levels =~= st0.levels.push(
            crate::scope::LevelV {
                bindings: crate::semantics::bind_map(form.model().arguments, model_list(raw@)),
                loop_info: Some(crate::scope::LoopInfo { break_called: false, boundary: true }),
                mode: Mode::Macro,
            },
        ));
    }
    let rb = eval_body(scope, &form.body, 0, fuel);
    scope.leave();
    match rb {
        Command::Value(v) => macro_finish(scope, info, name, form, &raw, v, fuel),
        Command::EndCall(v) => macro_finish(scope, info, name, form, &raw, v, fuel),
        Command::EndLoop(_) => {
            let e = Error::newf(
                "'break' crossed a function boundary.",
                name.as_str(),
                form.location.duplicate(),
            );
            proof {
                reveal_strlit("'break' crossed a function boundary.");
                assert(e.model().message =~= msg_break_boundary());
            }
            Command::Error(e)
        },
        Command::Error(e) => Command::Error(e.push(name.as_str(), form.location.duplicate())),
    }
}

/// What leaves a macro once its body has produced a value: the produced
/// tree records the expansion step, and in evaluation mode it is evaluated
/// once more.
fn macro_finish(
    scope: &mut Scope,
    info: &ObjectInfo,
    name: &String,
    form: &CustomForm,
    raw: &Vec<Object>,
    v: Object,
    fuel: u64,
) -> (r: Command)
    requires
        old(scope).wf(),
        old(scope).model().levels.len() >= 1,
    ensures
        final(scope).wf(),
        final(scope).model().levels.len() == old(scope).model().levels.len(),
        r.model() == crate::semantics::s_macro_finish(
            old(scope).model(),
            info.model(),
            name@,
            form.model(),
            model_list(raw@),
            v.model(),
            fuel as nat,
        ).0,
        final(scope).model() == crate::semantics::s_macro_finish(
            old(scope).model(),
            info.model(),
            name@,
            form.model(),
            model_list(raw@),
            v.model(),
            fuel as nat,
        ).1,
    decreases fuel, 3int, raw, 0int,
{
    let expanded: Object = match &form.location {
        Location::Direct(dl) => {
            let call = build_call_form(info, name, raw);
            let entry = ExpansionLocation {
                macro_name: name.clone(),
                form: call,
                localisation: dl.duplicate(),
            };
            let r = attach_node(&v, &entry);
            proof {
                assert(r.model() == crate::semantics::expand_result(
                    v.model(),
                    name@,
                    crate::object::ObjV::List(
                        info.model(),
                        seq![
                            crate::object::ObjV::Symbol(crate::location::LocV::Unknown, name@),
                        ] + model_list(raw@),
                    ),
                    form.model().location,
                ));
            }
            r
        },
        _ => v,
    };
    let mode = scope.mode();
    if matches!(mode, Mode::Evaluation) {
        if fuel == 0 {
            Command::Error(budget_error())
        } else {
            eval_node(scope, &expanded, fuel - 1)
        }
    } else {
        Command::Value(expanded)
    }
}

/// Rebuilds the macro's call form: its name followed by the raw arguments,
/// carrying the call site's location.
fn build_call_form(info: &ObjectInfo, name: &String, raw: &Vec<Object>) -> (r: Object)
    ensures
        r.model() == crate::object::ObjV::List(
            info.model(),
            seq![crate::object::ObjV::Symbol(crate::location::LocV::Unknown, name@)] + model_list(
                raw@,
            ),
        ),
{
    let mut v: Vec<Object> = Vec::new();
    v.push(Object::symbol(name.clone()));
    let mut k: usize = 0;
    while k < raw.len()
        invariant
            k <= raw@.len(),
            v@.len() == k + 1,
            v@[0].model() == crate::object::ObjV::Symbol(crate::location::LocV::Unknown, name@),
            forall|j: int| 1 <= j < v@.len() ==> v@[j].model() == raw@[j - 1].model(),
        decreases raw@.len() - k,
    {
        v.push(raw[k].clone());
        k = k + 1;
    }
    proof {
        lemma_model_list(v@);
        lemma_model_list(raw@);
        assert(model_list(v@) =~= seq![
            crate::object::ObjV::Symbol(crate::location::LocV::Unknown, name@),
        ] + model_list(raw@));
    }
    Object::List(ObjectInfo { location: info.location.duplicate() }, v)
}

/// Rebuilds a location with the expansion entry at the front of its chain.
fn attach_location(l: &Location, e: &ExpansionLocation) -> (r: Location)
    ensures
        r.model() == crate::semantics::attach_loc(l.model(), e.model()),
{
    match l {
        Location::Expansion(chain) => {
            let mut v: Vec<ExpansionLocation> = Vec::new();
            v.push(e.duplicate());
            let mut k: usize = 0;
            while k < chain.len()
                invariant
                    k <= chain@.len(),
                    v@.len() == k + 1,
                    v@[0].model() == e.model(),
                    forall|j: int| 1 <= j < v@.len() ==> v@[j].model() == chain@[j - 1].model(),
                decreases chain@.len() - k,
            {
                v.push(chain[k].duplicate());
                k = k + 1;
            }
            proof {
                crate::location::lemma_model_chain(v@);
                crate::location::lemma_model_chain(chain@);
                assert(crate::location::model_chain(v@) =~= seq![e.model()]
                    + crate::location::model_chain(chain@));
            }
            Location::Expansion(v)
        },
        _ => {
            let mut v: Vec<ExpansionLocation> = Vec::new();
            v.push(e.duplicate());
            proof {
                crate::location::lemma_model_chain(v@);
                assert(crate::location::model_chain(v@) =~= seq![e.model()]);
            }
            Location::Expansion(v)
        },
    }
}

/// Rebuilds a tree with the expansion entry recorded on every node.
fn attach_node(o: &Object, e: &ExpansionLocation) -> (r: Object)
    ensures
        r.model() == crate::semantics::attach_obj(o.model(), e.model()),
    decreases o,
{
    match o {
        Object::Nil(i) => Object::Nil(ObjectInfo { location: attach_location(&i.location, e) }),
        Object::Bool(i, v) => Object::Bool(
            ObjectInfo { location: attach_location(&i.location, e) },
            *v,
        ),
        Object::Integer(i, v) => Object::Integer(
            ObjectInfo { location: attach_location(&i.location, e) },
            *v,
        ),
        Object::Float(i, v) => Object::Float(
            ObjectInfo { location: attach_location(&i.location, e) },
            *v,
        ),
        Object::Char(i, v) => Object::Char(
            ObjectInfo { location: attach_location(&i.location, e) },
            *v,
        ),
        Object::String(i, v) => Object::String(
            ObjectInfo { location: attach_location(&i.location, e) },
            v.clone(),
        ),
        Object::Keyword(i, v) => Object::Keyword(
            ObjectInfo { location: attach_location(&i.location, e) },
            v.clone(),
        ),
        Object::Symbol(i, v) => Object::Symbol(
            ObjectInfo { location: attach_location(&i.location, e) },
            v.clone(),
        ),
        Object::List(i, v) => Object::List(
            ObjectInfo { location: attach_location(&i.location, e) },
            attach_list(v, e),
        ),
    }
}

/// Rebuilds a row of trees with the expansion entry recorded on every node.
fn attach_list(v: &Vec<Object>, e: &ExpansionLocation) -> (r: Vec<Object>)
    ensures
        model_list(r@) == crate::semantics::attach_items(model_list(v@), e.model()),
    decreases v,
{
    let mut r: Vec<Object> = Vec::new();
    let mut k: usize = 0;
    while k < v.len()
        invariant
            k <= v@.len(),
            r@.len() == k,
            forall|j: int|
                0 <= j < k ==> r@[j].model() == crate::semantics::attach_obj(
                    v@[j].model(),
                    e.model(),
                ),
        decreases v@.len() - k,
    {
        r.push(attach_node(&v[k], e));
        k = k + 1;
    }
    proof {
        lemma_model_list(r@);
        lemma_model_list(v@);
        lemma_attach_items(model_list(v@), e.model());
        assert(model_list(r@) =~= crate::semantics::attach_items(model_list(v@), e.model()));
    }
    r
}

/// Walks a quasiquoted tree: a list headed by the unquote symbol with one
/// operand evaluates that operand in place; every other list is rebuilt
/// from its walked children; leaves pass through unchanged.
fn equote_walk(scope: &mut Scope, o: &Object, fuel: u64) -> (r: Command)
    requires
        old(scope).wf(),
        old(scope).model().levels.len() >= 1,
    ensures
        final(scope).wf(),
        final(scope).model().levels.len() == old(scope).model().levels.len(),
        r.model() == crate::semantics::s_equote(old(scope).model(), o.model(), fuel as nat).0,
        final(scope).model() == crate::semantics::s_equote(
            old(scope).model(),
            o.model(),
            fuel as nat,
        ).1,
    decreases fuel, 1int, o, 0int,
{
    match o {
        Object::List(_, v) => {
            proof {
                lemma_model_list(v@);
            }
            let is_escape: bool = if v.len() > 0 {
                if v[0].is_symbol() {
                    let esc = String::from_str("escape-quote");
                    v[0].get_symbol().eq(&esc)
                } else {
                    false
                }
            } else {
                false
            };
            if is_escape {
                if v.len() != 2 {
                    let msg = text_escape_arity(v.len() - 1);
                    Command::Error(Error::newf(msg.as_str(), "escape-quote", intern_location()))
                } else if fuel == 0 {
                    Command::Error(budget_error())
                } else {
                    let r = eval_node(scope, &v[1], fuel - 1);
                    match r {
                        Command::Error(e) => Command::Error(
                            e.push("escape-quote", intern_location()),
                        ),
                        other => other,
                    }
                }
            } else {
                match equote_items(scope, v, 0, fuel) {
                    ArgsOut::Vals(walked) => Command::Value(
                        Object::List(ObjectInfo::new_empty(), walked),
                    ),
                    ArgsOut::Stop(c) => match c {
                        Command::Error(e) => Command::Error(
                            e.push("escape-quote", intern_location()),
                        ),
                        other => other,
                    },
                }
            }
        },
        _ => Command::Value(o.clone()),
    }
}

/// Walks the children of a quasiquoted list from the given position on.
fn equote_items(scope: &mut Scope, items: &Vec<Object>, i: usize, fuel: u64) -> (r: ArgsOut)
    requires
        old(scope).wf(),
        old(scope).model().levels.len() >= 1,
    ensures
        final(scope).wf(),
        final(scope).model().levels.len() == old(scope).model().levels.len(),
        r.model() == crate::semantics::s_equote_items(
            old(scope).model(),
            model_list(items@),
            i as int,
            fuel as nat,
        ).0,
        final(scope).model() == crate::semantics::s_equote_items(
            old(scope).model(),
            model_list(items@),
            i as int,
            fuel as nat,
        ).1,
    decreases fuel, 1int, items, if i < items@.len() {
        items@.len() - i
    } else {
        0int
    },
{
    proof {
        lemma_model_list(items@);
    }
    if i >= items.len() {
        let r = ArgsOut::Vals(Vec::new());
        proof {
            assert(model_list(Seq::<Object>::empty()) =~= Seq::<crate::object::ObjV>::empty());
        }
        return r;
    }
    let c = equote_walk(scope, &items[i], fuel);
    match c {
        Command::Value(v) => {
            match equote_items(scope, items, i + 1, fuel) {
                ArgsOut::Vals(vals) => {
                    let mut vals = vals;
                    let ghost prev = vals@;
                    vals.insert(0, v);
                    proof {
                        lemma_model_list(prev);
                        lemma_model_list(vals@);
                        assert(model_list(vals@) =~= seq![vals@[0].model()] + model_list(prev));
                    }
                    ArgsOut::Vals(vals)
                },
                stop => stop,
            }
        },
        c => ArgsOut::Stop(c),
    }
}

/// Defines a dynamic or macro form from a name, a parameter list and a
/// body, binding it in the innermost level.
fn eval_defn(scope: &mut Scope, name: &String, items: &Vec<Object>, is_macro: bool) -> (r: Command)
    requires
        old(scope).wf(),
        old(scope).model().levels.len() >= 1,
        items@.len() >= 1,
    ensures
        final(scope).wf(),
        final(scope).model().levels.len() == old(scope).model().levels.len(),
        r.model() == crate::semantics::s_defn(
            old(scope).model(),
            name@,
            model_list(items@),
            is_macro,
        ).0,
        final(scope).model() == crate::semantics::s_defn(
            old(scope).model(),
            name@,
            model_list(items@),
            is_macro,
        ).1,
{
    let ghost m = model_list(items@);
    let ghost st00 = scope.model();
    proof {
        lemma_model_list(items@);
    }
    if items.len() < 4 {
        let msg = text_native_arity(name, -4, items.len() - 1);
        let e = Error::newf(msg.as_str(), name.as_str(), intern_location());
        proof {
            assert(e.model() == crate::semantics::err1(
                crate::semantics::msg_native_arity(name@, -4i32, (m.len() - 1) as nat),
                name@,
                intern_loc(),
            ));
            assert(Command::Error(e).model() == crate::semantics::s_defn(
                old(scope).model(),
                name@,
                m,
                is_macro,
            ).0);
        }
        return Command::Error(e);
    }
    if !items[1].is_symbol() {
        let msg = text_defn_name(name, &items[1]);
        let e = Error::newf(msg.as_str(), name.as_str(), intern_location());
        proof {
            assert(Command::Error(e).model() == crate::semantics::s_defn(
                old(scope).model(),
                name@,
                m,
                is_macro,
            ).0);
        }
        return Command::Error(e);
    }
    let params: &Vec<Object> = match &items[2] {
        Object::List(_, v) => v,
        _ => {
            let msg = text_defn_params(name, &items[2]);
            return Command::Error(Error::newf(msg.as_str(), name.as_str(), intern_location()));
        },
    };
    let ghost pm = model_list(params@);
    proof {
        lemma_model_list(params@);
        assert(m[2] matches crate::object::ObjV::List(_, ps) && ps == pm);
    }
    let mut names: Vec<String> = Vec::new();
    let mut k: usize = 0;
    while k < params.len()
        invariant
            scope.wf(),
            scope.model() == st00,
            st00.levels.len() >= 1,
            items@.len() >= 4,
            m == model_list(items@),
            m.len() == items@.len(),
            forall|x: int| 0 <= x < items@.len() ==> m[x] == items@[x].model(),
            m[1] is Symbol,
            (m[2] matches crate::object::ObjV::List(_, ps) && ps == pm),
            k <= params@.len(),
            pm == model_list(params@),
            pm.len() == params@.len(),
            forall|j: int| 0 <= j < params@.len() ==> pm[j] == params@[j].model(),
            first_non_symbol(pm, 0) == first_non_symbol(pm, k as int),
            names@.len() == k,
            forall|j: int|
                0 <= j < k ==> (#[trigger] pm[j] matches crate::object::ObjV::Symbol(_, n)
                    && names@[j]@ == n),
        decreases params@.len() - k,
    {
        if !params[k].is_symbol() {
            let msg = text_defn_param(name, k + 1, &params[k]);
            return Command::Error(Error::newf(msg.as_str(), name.as_str(), intern_location()));
        }
        names.push(params[k].get_symbol().clone());
        k = k + 1;
    }
    let mut body: Vec<Object> = Vec::new();
    let mut j: usize = 3;
    while j < items.len()
        invariant
            3 <= j <= items@.len(),
            m == model_list(items@),
            m.len() == items@.len(),
            forall|x: int| 0 <= x < items@.len() ==> m[x] == items@[x].model(),
            body@.len() == j - 3,
            forall|x: int| 0 <= x < j - 3 ==> body@[x].model() == m[x + 3],
        decreases items@.len() - j,
    {
        body.push(items[j].clone());
        j = j + 1;
    }
    let ghost namesv = names@;
    let ghost bodyv = body@;
    let loc = items[1].get_info().location.duplicate();
    let ghost locv = loc.model();
    let form = CustomForm::new(loc, names, body);
    proof {
        crate::semantics::lemma_symbol_names(pm);
        crate::binding::lemma_model_names(namesv);
        assert(form.model().arguments =~= crate::semantics::symbol_names(pm));
        lemma_model_list(bodyv);
        assert(form.model().body =~= m.subrange(3, m.len() as int));
        assert(form.model().location == m[1].info());
    }
    let defined: String = items[1].get_symbol().clone();
    let ghost formv = form.model();
    let b = if is_macro {
        Binding::MacroForm(form)
    } else {
        Binding::DynamicForm(form)
    };
    let ghost bv = b.model();
    scope.insert(defined, b);
    proof {
        let sd = crate::semantics::s_defn(old(scope).model(), name@, m, is_macro);
        assert(first_non_symbol(pm, 0) is None);
        assert(scope.model() == sd.1);
    }
    Command::Value(Object::nil())
}

/// Dispatches one of the builtin eval forms on its evaluated arguments.
fn eval_op(scope: &mut Scope, op: EvalOp, vals: &Vec<Object>) -> (r: Command)
    requires
        old(scope).wf(),
        old(scope).model().levels.len() >= 1,
    ensures
        final(scope).wf(),
        final(scope).model().levels.len() == old(scope).model().levels.len(),
        r.model() == crate::semantics::s_eval_op(old(scope).model(), op, model_list(vals@)).0,
        final(scope).model() == crate::semantics::s_eval_op(
            old(scope).model(),
            op,
            model_list(vals@),
        ).1,
{
    proof {
        lemma_model_list(vals@);
    }
    if vals.len() == 0 && !matches!(op, EvalOp::Add) {
        return Command::Value(Object::nil());
    }
    match op {
        EvalOp::IsNil => Command::Value(Object::bool(vals[0].is_nil())),
        EvalOp::IsBool => Command::Value(Object::bool(vals[0].is_bool())),
        EvalOp::IsInteger => Command::Value(Object::bool(vals[0].is_integer())),
        EvalOp::IsFloat => Command::Value(Object::bool(vals[0].is_float())),
        EvalOp::IsChar => Command::Value(Object::bool(vals[0].is_char())),
        EvalOp::IsString => Command::Value(Object::bool(vals[0].is_string())),
        EvalOp::IsKeyword => Command::Value(Object::bool(vals[0].is_keyword())),
        EvalOp::IsSymbol => Command::Value(Object::bool(vals[0].is_symbol())),
        EvalOp::IsList => Command::Value(Object::bool(vals[0].is_list())),
        EvalOp::ToString => Command::Value(Object::string(vals[0].display_string())),
        EvalOp::Println => {
            let line: String = match vals[0].as_string() {
                Option::Some(s) => s.clone(),
                Option::None => String::new(),
            };
            scope.push_output(line);
            Command::Value(Object::nil())
        },
        EvalOp::Add => {
            let ghost vm = model_list(vals@);
            let mut acc: i32 = 0;
            let mut k: usize = 0;
            proof {
                assert(sum_ints(vm.subrange(0, 0)) == 0);
            }
            while k < vals.len()
                invariant
                    k <= vals@.len(),
                    vm == model_list(vals@),
                    vm.len() == vals@.len(),
                    forall|j: int| 0 <= j < vals@.len() ==> vm[j] == vals@[j].model(),
                    acc == sum_ints(vm.subrange(0, k as int)),
                decreases vals@.len() - k,
            {
                let x = vals[k].to_integer();
                acc = acc.wrapping_add(x);
                proof {
                    assert(vm.subrange(0, k as int + 1).drop_last() =~= vm.subrange(0, k as int));
                    assert(vm.subrange(0, k as int + 1).last() == vm[k as int]);
                }
                k = k + 1;
            }
            proof {
                assert(vm.subrange(0, vm.len() as int) =~= vm);
            }
            Command::Value(Object::integer(acc))
        },
    }
}

/// The fuel that the plain entry point hands the evaluator: it bounds the
/// depth of an evaluation, standing in for the host's own call stack.
pub const EVAL_FUEL: u64 = 0x4000_0000;

/// A one-element list of kinds.
fn kinds_one(k: Kind) -> (r: Vec<Kind>)
    ensures
        r@ == seq![k],
{
    let mut r: Vec<Kind> = Vec::new();
    r.push(k);
    proof {
        assert(r@ =~= seq![k]);
    }
    r
}

/// An empty list of kinds.
fn kinds_none() -> (r: Vec<Kind>)
    ensures
        r@ == Seq::<Kind>::empty(),
{
    Vec::new()
}

/// What registering every builtin form does to a binding table.
pub open spec fn builtin_bindings(
    b: Map<Seq<char>, crate::binding::BindingV>,
) -> Map<Seq<char>, crate::binding::BindingV> {
    b.insert("quote"@, sp(SpecialOp::Quote, 1, seq![Kind::Any]))
        .insert("equote"@, sp(SpecialOp::Equote, 1, seq![Kind::Any]))
        .insert("escape-quote"@, sp(SpecialOp::EscapeQuote, -1i32, Seq::<Kind>::empty()))
        .insert("defndynamic"@, sp(SpecialOp::Defndynamic, -4i32, Seq::<Kind>::empty()))
        .insert("defnmacro"@, sp(SpecialOp::Defnmacro, -4i32, Seq::<Kind>::empty()))
        .insert("break"@, sp(SpecialOp::Break, -1i32, Seq::<Kind>::empty()))
        .insert("return"@, sp(SpecialOp::Return, -1i32, Seq::<Kind>::empty()))
        .insert("while"@, sp(SpecialOp::While, -2i32, Seq::<Kind>::empty()))
        .insert("is-nil?"@, ev(EvalOp::IsNil, 1, seq![Kind::Any]))
        .insert("is-bool?"@, ev(EvalOp::IsBool, 1, seq![Kind::Any]))
        .insert("is-integer?"@, ev(EvalOp::IsInteger, 1, seq![Kind::Any]))
        .insert("is-float?"@, ev(EvalOp::IsFloat, 1, seq![Kind::Any]))
        .insert("is-char?"@, ev(EvalOp::IsChar, 1, seq![Kind::Any]))
        .insert("is-string?"@, ev(EvalOp::IsString, 1, seq![Kind::Any]))
        .insert("is-keyword?"@, ev(EvalOp::IsKeyword, 1, seq![Kind::Any]))
        .insert("is-symbol?"@, ev(EvalOp::IsSymbol, 1, seq![Kind::Any]))
        .insert("is-list?"@, ev(EvalOp::IsList, 1, seq![Kind::Any]))
        .insert("to-string"@, ev(EvalOp::ToString, 1, seq![Kind::Any]))
        .insert("println"@, ev(EvalOp::Println, 1, seq![Kind::String]))
        .insert("+"@, ev(EvalOp::Add, -1i32, Seq::<Kind>::empty()))
}

/// A special-form binding's model.
pub open spec fn sp(op: SpecialOp, count: i32, kinds: Seq<Kind>) -> crate::binding::BindingV {
    crate::binding::BindingV::SpecialForm(
        crate::binding::NativeV { handler: op, argument_count: count, argument_kinds: kinds },
    )
}

/// An eval-form binding's model.
pub open spec fn ev(op: EvalOp, count: i32, kinds: Seq<Kind>) -> crate::binding::BindingV {
    crate::binding::BindingV::EvalForm(
        crate::binding::NativeV { handler: op, argument_count: count, argument_kinds: kinds },
    )
}

/// Registers every builtin form into the innermost level of the scope.
#[verifier::rlimit(60)]
pub fn register_all_builtin_forms(scope: &mut Scope)
    requires
        old(scope).wf(),
        old(scope).model().levels.len() >= 1,
    ensures
        final(scope).wf(),
        final(scope).model() == (crate::scope::ScopeV {
            levels: old(scope).model().levels.update(
                old(scope).model().levels.len() - 1,
                crate::scope::LevelV {
                    bindings: builtin_bindings(old(scope).model().levels.last().bindings),
                    loop_info: old(scope).model().levels.last().loop_info,
                    mode: old(scope).model().levels.last().mode,
                },
            ),
            output: old(scope).model().output,
        }),
{
    let ghost st0 = scope.model();
    scope.register_special_form("quote", NativeForm::new(SpecialOp::Quote, 1, kinds_one(Kind::Any)));
    scope.register_special_form(
        "equote",
        NativeForm::new(SpecialOp::Equote, 1, kinds_one(Kind::Any)),
    );
    scope.register_special_form(
        "escape-quote",
        NativeForm::new(SpecialOp::EscapeQuote, -1, kinds_none()),
    );
    scope.register_special_form(
        "defndynamic",
        NativeForm::new(SpecialOp::Defndynamic, -4, kinds_none()),
    );
    scope.register_special_form(
        "defnmacro",
        NativeForm::new(SpecialOp::Defnmacro, -4, kinds_none()),
    );
    scope.register_special_form("break", NativeForm::new(SpecialOp::Break, -1, kinds_none()));
    scope.register_special_form("return", NativeForm::new(SpecialOp::Return, -1, kinds_none()));
    scope.register_special_form("while", NativeForm::new(SpecialOp::While, -2, kinds_none()));
    scope.register_eval_form("is-nil?", NativeForm::new(EvalOp::IsNil, 1, kinds_one(Kind::Any)));
    scope.register_eval_form("is-bool?", NativeForm::new(EvalOp::IsBool, 1, kinds_one(Kind::Any)));
    scope.register_eval_form(
        "is-integer?",
        NativeForm::new(EvalOp::IsInteger, 1, kinds_one(Kind::Any)),
    );
    scope.register_eval_form(
        "is-float?",
        NativeForm::new(EvalOp::IsFloat, 1, kinds_one(Kind::Any)),
    );
    scope.register_eval_form("is-char?", NativeForm::new(EvalOp::IsChar, 1, kinds_one(Kind::Any)));
    scope.register_eval_form(
        "is-string?",
        NativeForm::new(EvalOp::IsString, 1, kinds_one(Kind::Any)),
    );
    scope.register_eval_form(
        "is-keyword?",
        NativeForm::new(EvalOp::IsKeyword, 1, kinds_one(Kind::Any)),
    );
    scope.register_eval_form(
        "is-symbol?",
        NativeForm::new(EvalOp::IsSymbol, 1, kinds_one(Kind::Any)),
    );
    scope.register_eval_form("is-list?", NativeForm::new(EvalOp::IsList, 1, kinds_one(Kind::Any)));
    scope.register_eval_form(
        "to-string",
        NativeForm::new(EvalOp::ToString, 1, kinds_one(Kind::Any)),
    );
    scope.register_eval_form(
        "println",
        NativeForm::new(EvalOp::Println, 1, kinds_one(Kind::String)),
    );
    scope.register_eval_form("+", NativeForm::new(EvalOp::Add, -1, kinds_none()));
    proof {
        assert(scope.model().levels =~= st0.levels.update(
            st0.levels.len() - 1,
            crate::scope::LevelV {
                bindings: builtin_bindings(st0.levels.last().bindings),
                loop_info: st0.levels.last().loop_info,
                mode: st0.levels.last().mode,
            },
        ));
        assert(scope.model().levels[st0.levels.len() - 1].bindings =~= builtin_bindings(
            st0.levels.last().bindings,
        ));
    }
}

/// Evaluates a node against the scope with a given depth budget, turning a
/// stray non-local signal into the error its issuer would have raised.
pub fn evaluate_with_fuel(scope: &mut Scope, object: &Object, fuel: u64) -> (r: Result<
    Object,
    Error,
>)
    requires
        old(scope).wf(),
        old(scope).model().levels.len() >= 1,
    ensures
        final(scope).wf(),
        final(scope).model() == crate::semantics::s_eval(
            old(scope).model(),
            object.model(),
            fuel as nat,
        ).1,
        match r {
            Ok(v) => crate::semantics::s_eval(old(scope).model(), object.model(), fuel as nat).0
                matches CmdV::Val(ov) && v.model() == ov,
            Err(e) => match crate::semantics::s_eval(
                old(scope).model(),
                object.model(),
                fuel as nat,
            ).0 {
                CmdV::Fail(ev2) => e.model() == ev2,
                CmdV::EndCall(_) => e.model() == crate::semantics::err1(
                    msg_return_outside(),
                    "neolisp"@,
                    intern_loc(),
                ),
                CmdV::EndLoop(_) => e.model() == crate::semantics::err1(
                    msg_break_outside(),
                    "neolisp"@,
                    intern_loc(),
                ),
                _ => false,
            },
        },
{
    let c = eval_node(scope, object, fuel);
    match c {
        Command::Value(v) => Ok(v),
        Command::Error(e) => Err(e),
        Command::EndCall(_) => {
            let e = Error::newf(
                "'return' called outside of a function.",
                "neolisp",
                intern_location(),
            );
            proof {
                reveal_strlit("'return' called outside of a function.");
                assert(e.model().message =~= msg_return_outside());
            }
            Err(e)
        },
        Command::EndLoop(_) => {
            let e = Error::newf(
                "'break' called outside of a loop.",
                "neolisp",
                intern_location(),
            );
            proof {
                reveal_strlit("'break' called outside of a loop.");
                assert(e.model().message =~= msg_break_outside());
            }
            Err(e)
        },
    }
}

/// Evaluates a node against the scope: the core entry point.
pub fn evaluate(scope: &mut Scope, object: &Object) -> (r: Result<Object, Error>)
    requires
        old(scope).wf(),
        old(scope).model().levels.len() >= 1,
    ensures
        final(scope).wf(),
        final(scope).model() == crate::semantics::s_eval(
            old(scope).model(),
            object.model(),
            EVAL_FUEL as nat,
        ).1,
        match r {
            Ok(v) => crate::semantics::s_eval(
                old(scope).model(),
                object.model(),
                EVAL_FUEL as nat,
            ).0 matches CmdV::Val(ov) && v.model() == ov,
            Err(e) => match crate::semantics::s_eval(
                old(scope).model(),
                object.model(),
                EVAL_FUEL as nat,
            ).0 {
                CmdV::Fail(ev2) => e.model() == ev2,
                CmdV::EndCall(_) => e.model() == crate::semantics::err1(
                    msg_return_outside(),
                    "neolisp"@,
                    intern_loc(),
                ),
                CmdV::EndLoop(_) => e.model() == crate::semantics::err1(
                    msg_break_outside(),
                    "neolisp"@,
                    intern_loc(),
                ),
                _ => false,
            },
        },
{
    evaluate_with_fuel(scope, object, EVAL_FUEL)
}

/// Every step of attaching an expansion entry to a row of trees acts
/// pointwise.
proof fn lemma_attach_items(items: Seq<crate::object::ObjV>, e: crate::location::ExpansionV)
    ensures
        crate::semantics::attach_items(items, e).len() == items.len(),
        forall|i: int|
            0 <= i < items.len() ==> crate::semantics::attach_items(items, e)[i]
                == crate::semantics::attach_obj(items[i], e),
    decreases items,
{
    if items.len() > 0 {
        lemma_attach_items(items.drop_last(), e);
    }
}

} // verus!
