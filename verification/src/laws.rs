use vstd::prelude::*;

use crate::binding::BindingV;
use crate::binding::CustomV;
use crate::binding::NativeV;
use crate::binding::SpecialOp;
use crate::error::ErrV;
use crate::location::LocV;
use crate::object::Kind;
use crate::object::ObjV;
use crate::scope::in_loop;
use crate::scope::lookup_levels;
use crate::scope::LevelV;
use crate::scope::LoopInfo;
use crate::scope::Mode;
use crate::scope::ScopeV;
use crate::semantics::err1;
use crate::semantics::fr;
use crate::semantics::intern_loc;
use crate::semantics::msg_arity;
use crate::semantics::msg_break_outside;
use crate::semantics::msg_unbound;
use crate::semantics::s_dispatch;
use crate::semantics::s_eval;
use crate::semantics::s_special;

verus! {

/// Round-trip: quoting any already-evaluated value and evaluating the
/// quotation gives that value back unchanged, payload and location
/// included, and leaves the scope as it was.
pub proof fn lemma_quote_round_trip(st: ScopeV, v: ObjV, linfo: LocV, hloc: LocV, fuel: nat)
    requires
        lookup_levels(st.levels, "quote"@) == Some(
            BindingV::SpecialForm(
                NativeV {
                    handler: SpecialOp::Quote,
                    argument_count: 1,
                    argument_kinds: seq![Kind::Any],
                },
            ),
        ),
        fuel >= 2,
    ensures
        s_eval(st, ObjV::List(linfo, seq![ObjV::Symbol(hloc, "quote"@), v]), fuel) == (
            crate::semantics::CmdV::Val(v),
            st,
        ),
{
    let items = seq![ObjV::Symbol(hloc, "quote"@), v];
    assert(items[0] == ObjV::Symbol(hloc, "quote"@));
    assert(items[1] == v);
    assert(items.len() == 2);
}

/// Scoping boundary: the level a call pushes is a boundary, and a boundary
/// level hides every enclosing loop, whatever bindings or mode it carries.
/// A function body therefore never sees itself inside a loop of its caller.
pub proof fn lemma_boundary_blocks_loop(
    levels: Seq<LevelV>,
    bindings: Map<Seq<char>, BindingV>,
    mode: Mode,
)
    ensures
        !in_loop(
            levels.push(
                LevelV {
                    bindings,
                    loop_info: Some(LoopInfo { break_called: false, boundary: true }),
                    mode,
                },
            ),
        ),
{
}

/// A break issued where no loop is active, as inside a function called from
/// outside any loop, or called from within one, since the call's boundary
/// hides it, fails with the break-outside-loop error rather than doing
/// nothing.
pub proof fn lemma_break_outside_loop(
    st: ScopeV,
    linfo: LocV,
    hloc: LocV,
    name: Seq<char>,
    items: Seq<ObjV>,
    fuel: nat,
)
    requires
        !in_loop(st.levels),
    ensures
        s_special(st, SpecialOp::Break, linfo, hloc, name, items, fuel) == (
            crate::semantics::CmdV::Fail(err1(msg_break_outside(), name, intern_loc())),
            st,
        ),
{
}

/// Unbound symbol: evaluating a symbol bound nowhere on the stack fails
/// with the unbound-symbol message, the scope untouched, and the innermost
/// frame of the trail names that symbol at its own location.
pub proof fn lemma_unbound_symbol(st: ScopeV, i: LocV, name: Seq<char>, fuel: nat)
    requires
        lookup_levels(st.levels, name) is None,
        fuel >= 1,
    ensures
        s_eval(st, ObjV::Symbol(i, name), fuel) == (
            crate::semantics::CmdV::Fail(ErrV { message: msg_unbound(name), frames: seq![fr(name, i)] }),
            st,
        ),
        ({
            let e = s_eval(st, ObjV::Symbol(i, name), fuel).0->Fail_0;
            e.frames.len() == 1 && e.frames[0].name == name
        }),
{
}

/// Arity check: calling a user-defined form with the wrong number of
/// arguments fails with a message that reports both the declared and the
/// actual count, and the dispatch frame trail names the form at its
/// definition site and at the call site.
pub proof fn lemma_dynamic_arity(
    st: ScopeV,
    form: CustomV,
    linfo: LocV,
    hloc: LocV,
    name: Seq<char>,
    items: Seq<ObjV>,
    fuel: nat,
)
    requires
        items.len() >= 1,
        items.len() - 1 != form.arguments.len(),
    ensures
        s_dispatch(st, BindingV::DynamicForm(form), linfo, hloc, name, items, fuel) == (
            crate::semantics::CmdV::Fail(
                err1(
                    msg_arity(name, form.arguments.len(), (items.len() - 1) as nat),
                    name,
                    form.location,
                ),
            ),
            st,
        ),
{
}

/// Shadowing: a name bound in a freshly entered level shadows the outer
/// binding while the level lasts, and leaving the level restores every
/// name, the shadowed one included, to what it resolved to before.
pub proof fn lemma_shadowing(
    levels: Seq<LevelV>,
    loop_info: Option<LoopInfo>,
    mode: Mode,
    name: Seq<char>,
    b: BindingV,
)
    ensures
        lookup_levels(
            levels.push(
                LevelV {
                    bindings: Map::<Seq<char>, BindingV>::empty().insert(name, b),
                    loop_info,
                    mode,
                },
            ),
            name,
        ) == Some(b),
        forall|other: Seq<char>|
            lookup_levels(
                #[trigger] levels.push(
                    LevelV {
                        bindings: Map::<Seq<char>, BindingV>::empty().insert(name, b),
                        loop_info,
                        mode,
                    },
                ).drop_last(),
                other,
            ) == lookup_levels(levels, other),
{
    assert forall|other: Seq<char>|
        lookup_levels(
            #[trigger] levels.push(
                LevelV {
                    bindings: Map::<Seq<char>, BindingV>::empty().insert(name, b),
                    loop_info,
                    mode,
                },
            ).drop_last(),
            other,
        ) == lookup_levels(levels, other) by {
        assert(levels.push(
            LevelV {
                bindings: Map::<Seq<char>, BindingV>::empty().insert(name, b),
                loop_info,
                mode,
            },
        ).drop_last() =~= levels);
    };
}

} // verus!
