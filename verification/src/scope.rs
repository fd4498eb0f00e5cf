use vstd::prelude::*;

use crate::binding::Binding;
use crate::binding::BindingV;
use crate::binding::EvalOp;
use crate::binding::NativeForm;
use crate::binding::SpecialOp;

verus! {

/// The evaluation mode a scope level carries.
#[derive(Clone, Copy, PartialEq, Eq, Structural, Debug)]
pub enum Mode {
    /// Ordinary evaluation: a macro's result is evaluated once more.
    Evaluation,
    /// Macro expansion: a macro's result is returned as data.
    Macro,
    /// Takes the mode of the nearest enclosing level that names one.
    Inherit,
}

/// The loop marker a scope level may carry.
#[derive(Clone, Copy, PartialEq, Eq, Structural, Debug)]
pub struct LoopInfo {
    /// Whether a break was issued against this marker.
    pub break_called: bool,
    /// Whether the marker is a boundary, which upward scans do not cross.
    pub boundary: bool,
}

/// One level of the binding-lookup stack.
pub struct ScopeLevel {
    bindings: Vec<(String, Binding)>,
    loop_info: Option<LoopInfo>,
    mode: Mode,
}

/// Mathematical model of a scope level.
pub struct LevelV {
    pub bindings: Map<Seq<char>, BindingV>,
    pub loop_info: Option<LoopInfo>,
    pub mode: Mode,
}

/// The binding-lookup stack: an ordered stack of levels, the last entry the
/// innermost, together with the lines queued for output.
pub struct Scope {
    levels: Vec<ScopeLevel>,
    output: Vec<String>,
}

/// Mathematical model of a scope.
pub struct ScopeV {
    pub levels: Seq<LevelV>,
    pub output: Seq<Seq<char>>,
}

/// The map that an association list of bindings stands for.
pub open spec fn assoc_model(s: Seq<(String, Binding)>) -> Map<Seq<char>, BindingV>
    decreases s,
{
    if s.len() == 0 {
        Map::empty()
    } else {
        assoc_model(s.drop_last()).insert(s.last().0@, s.last().1.model())
    }
}

/// Whether the names of an association list are pairwise distinct.
pub open spec fn assoc_unique(s: Seq<(String, Binding)>) -> bool {
    forall|i: int, j: int| 0 <= i < j < s.len() ==> s[i].0@ != s[j].0@
}

/// The model of an association list holds exactly the listed names.
pub proof fn lemma_assoc_contains(s: Seq<(String, Binding)>, name: Seq<char>)
    ensures
        assoc_model(s).contains_key(name) <==> exists|i: int| 0 <= i < s.len() && s[i].0@ == name,
    decreases s,
{
    if s.len() > 0 {
        lemma_assoc_contains(s.drop_last(), name);
        if s.last().0@ == name {
            assert(s[s.len() - 1].0@ == name);
        } else if assoc_model(s).contains_key(name) {
            let i = choose|i: int| 0 <= i < s.drop_last().len() && s.drop_last()[i].0@ == name;
            assert(s[i].0@ == name);
        } else if exists|i: int| 0 <= i < s.len() && s[i].0@ == name {
            let i = choose|i: int| 0 <= i < s.len() && s[i].0@ == name;
            assert(s.drop_last()[i].0@ == name);
        }
    }
}

/// In a list of distinct names, the model maps each listed name to the
/// binding listed beside it.
pub proof fn lemma_assoc_get(s: Seq<(String, Binding)>, i: int)
    requires
        assoc_unique(s),
        0 <= i < s.len(),
    ensures
        assoc_model(s).contains_key(s[i].0@),
        assoc_model(s)[s[i].0@] == s[i].1.model(),
    decreases s,
{
    if i == s.len() - 1 {
        lemma_assoc_contains(s, s[i].0@);
    } else {
        lemma_assoc_get(s.drop_last(), i);
        assert(s.drop_last()[i] == s[i]);
        assert(s[i].0@ != s.last().0@);
    }
}

/// Removing an entry of a distinct-name list removes its name from the map.
pub proof fn lemma_assoc_remove(s: Seq<(String, Binding)>, i: int)
    requires
        assoc_unique(s),
        0 <= i < s.len(),
    ensures
        assoc_model(s.remove(i)) == assoc_model(s).remove(s[i].0@),
        assoc_unique(s.remove(i)),
    decreases s,
{
    let name = s[i].0@;
    if i == s.len() - 1 {
        assert(s.remove(i) =~= s.drop_last());
        lemma_assoc_contains(s.drop_last(), name);
        assert forall|j: int| 0 <= j < s.drop_last().len() implies s.drop_last()[j].0@
            != name by {
            assert(s.drop_last()[j] == s[j]);
        };
        assert(!assoc_model(s.drop_last()).contains_key(name));
        assert(assoc_model(s.drop_last()).remove(name) =~= assoc_model(s.drop_last()));
        assert(assoc_model(s).remove(name) =~= assoc_model(s.drop_last()));
    } else {
        lemma_assoc_remove(s.drop_last(), i);
        assert(s.remove(i) =~= s.drop_last().remove(i).push(s.last()));
        assert(s.drop_last().remove(i).push(s.last()).drop_last() =~= s.drop_last().remove(i));
        assert(assoc_model(s.remove(i)) == assoc_model(s.drop_last().remove(i)).insert(
            s.last().0@,
            s.last().1.model(),
        ));
        assert(name != s.last().0@);
        assert(assoc_model(s.drop_last()).remove(name).insert(s.last().0@, s.last().1.model())
            =~= assoc_model(s.drop_last()).insert(s.last().0@, s.last().1.model()).remove(name));
    }
}

impl ScopeLevel {
    pub closed spec fn model(&self) -> LevelV {
        LevelV {
            bindings: assoc_model(self.bindings@),
            loop_info: self.loop_info,
            mode: self.mode,
        }
    }

    /// The level's names are pairwise distinct.
    pub closed spec fn wf(&self) -> bool {
        assoc_unique(self.bindings@)
    }

    /// Creates an empty level without a loop marker.
    fn new(mode: Mode) -> (r: ScopeLevel)
        ensures
            r.model() == (LevelV {
                bindings: Map::<Seq<char>, BindingV>::empty(),
                loop_info: None::<LoopInfo>,
                mode,
            }),
            r.wf(),
    {
        let r = ScopeLevel { bindings: Vec::new(), loop_info: None, mode };
        proof {
            assert(assoc_model(r.bindings@) =~= Map::<Seq<char>, BindingV>::empty());
        }
        r
    }

    /// Creates an empty level marked as an active loop.
    fn new_loop(mode: Mode) -> (r: ScopeLevel)
        ensures
            r.model() == (LevelV {
                bindings: Map::<Seq<char>, BindingV>::empty(),
                loop_info: Some(LoopInfo { break_called: false, boundary: false }),
                mode,
            }),
            r.wf(),
    {
        let r = ScopeLevel {
            bindings: Vec::new(),
            loop_info: Some(LoopInfo { break_called: false, boundary: false }),
            mode,
        };
        proof {
            assert(assoc_model(r.bindings@) =~= Map::<Seq<char>, BindingV>::empty());
        }
        r
    }

    /// Creates an empty level marked as a boundary.
    fn new_loop_boundary(mode: Mode) -> (r: ScopeLevel)
        ensures
            r.model() == (LevelV {
                bindings: Map::<Seq<char>, BindingV>::empty(),
                loop_info: Some(LoopInfo { break_called: false, boundary: true }),
                mode,
            }),
            r.wf(),
    {
        let r = ScopeLevel {
            bindings: Vec::new(),
            loop_info: Some(LoopInfo { break_called: false, boundary: true }),
            mode,
        };
        proof {
            assert(assoc_model(r.bindings@) =~= Map::<Seq<char>, BindingV>::empty());
        }
        r
    }

    /// The position of a name in the level, if it is bound here.
    fn find(&self, name: &String) -> (r: Option<usize>)
        requires
            self.wf(),
        ensures
            match r {
                Some(i) => i < self.bindings@.len() && self.bindings@[i as int].0@ == name@
                    && self.model().bindings.contains_key(name@)
                    && self.model().bindings[name@] == self.bindings@[i as int].1.model(),
                None => !self.model().bindings.contains_key(name@),
            },
    {
        let mut i: usize = 0;
        while i < self.bindings.len()
            invariant
                i <= self.bindings@.len(),
                self.wf(),
                forall|j: int| 0 <= j < i ==> self.bindings@[j].0@ != name@,
            decreases self.bindings@.len() - i,
        {
            if self.bindings[i].0.eq(name) {
                proof {
                    lemma_assoc_get(self.bindings@, i as int);
                }
                return Some(i);
            }
            i = i + 1;
        }
        proof {
            lemma_assoc_contains(self.bindings@, name@);
        }
        None
    }

    /// Binds a name in the level, shadowing any earlier binding of it here.
    fn set_binding(&mut self, name: String, binding: Binding)
        requires
            old(self).wf(),
        ensures
            final(self).wf(),
            final(self).model() == (LevelV {
                bindings: old(self).model().bindings.insert(name@, binding.model()),
                loop_info: old(self).model().loop_info,
                mode: old(self).model().mode,
            }),
    {
        let found = self.find(&name);
        match found {
            Some(i) => {
                proof {
                    lemma_assoc_remove(self.bindings@, i as int);
                }
                let _ = self.bindings.remove(i);
            },
            None => {},
        }
        let ghost before = self.bindings@;
        self.bindings.push((name, binding));
        proof {
            assert(self.bindings@.drop_last() =~= before);
            assert(self.bindings@.last().0@ == self.bindings@[self.bindings@.len() - 1].0@);
            // The pushed name is new to the list, so distinctness is kept.
            match found {
                Some(i) => {
                    assert(assoc_model(self.bindings@) =~= old(self).model().bindings.insert(
                        self.bindings@.last().0@,
                        self.bindings@.last().1.model(),
                    ));
                },
                None => {
                    lemma_assoc_contains(before, self.bindings@.last().0@);
                },
            }
            assert forall|i: int, j: int|
                0 <= i < j < self.bindings@.len() implies self.bindings@[i].0@
                != self.bindings@[j].0@ by {
                if j < self.bindings@.len() - 1 {
                    assert(before[i] == self.bindings@[i]);
                    assert(before[j] == self.bindings@[j]);
                } else {
                    match found {
                        Some(_) => {
                            lemma_assoc_contains(before, self.bindings@.last().0@);
                            assert(!assoc_model(before).contains_key(self.bindings@.last().0@));
                            assert(before[i] == self.bindings@[i]);
                        },
                        None => {
                            lemma_assoc_contains(before, self.bindings@.last().0@);
                            assert(before[i] == self.bindings@[i]);
                        },
                    }
                }
            };
        }
    }
}

/// The binding that a name resolves to against a stack of levels: the
/// innermost level that binds the name decides.
pub open spec fn lookup_levels(levels: Seq<LevelV>, name: Seq<char>) -> Option<BindingV>
    decreases levels.len(),
{
    if levels.len() == 0 {
        None
    } else if levels.last().bindings.contains_key(name) {
        Some(levels.last().bindings[name])
    } else {
        lookup_levels(levels.drop_last(), name)
    }
}

/// Whether the stack sits inside an active loop: the nearest loop marker
/// decides, and a boundary marker ends the scan.
pub open spec fn in_loop(levels: Seq<LevelV>) -> bool
    decreases levels.len(),
{
    if levels.len() == 0 {
        false
    } else {
        match levels.last().loop_info {
            Some(li) => !li.boundary,
            None => in_loop(levels.drop_last()),
        }
    }
}

/// Whether the nearest loop marker has had its break called.
pub open spec fn loop_broken(levels: Seq<LevelV>) -> bool
    decreases levels.len(),
{
    if levels.len() == 0 {
        false
    } else {
        match levels.last().loop_info {
            Some(li) => !li.boundary && li.break_called,
            None => loop_broken(levels.drop_last()),
        }
    }
}

/// Whether the stack sits inside a call: any boundary marker says so.
pub open spec fn in_call(levels: Seq<LevelV>) -> bool
    decreases levels.len(),
{
    if levels.len() == 0 {
        false
    } else {
        match levels.last().loop_info {
            Some(li) => li.boundary || in_call(levels.drop_last()),
            None => in_call(levels.drop_last()),
        }
    }
}

/// What calling for a break does to the stack: the nearest loop marker has
/// its break flag set, unless it is a boundary, which blocks the break.
pub open spec fn break_levels(levels: Seq<LevelV>) -> Seq<LevelV>
    decreases levels.len(),
{
    if levels.len() == 0 {
        levels
    } else {
        match levels.last().loop_info {
            Some(li) => if li.boundary {
                levels
            } else {
                levels.update(
                    levels.len() - 1,
                    LevelV {
                        bindings: levels.last().bindings,
                        loop_info: Some(LoopInfo { break_called: true, boundary: false }),
                        mode: levels.last().mode,
                    },
                )
            },
            None => break_levels(levels.drop_last()).push(levels.last()),
        }
    }
}

/// What rewriting a bound name does to the stack: the innermost level that
/// binds the name has that one entry replaced, in place; every other level
/// and every other entry stays as it is.
pub open spec fn set_levels(levels: Seq<LevelV>, name: Seq<char>, b: BindingV) -> Seq<LevelV>
    decreases levels.len(),
{
    if levels.len() == 0 {
        levels
    } else if levels.last().bindings.contains_key(name) {
        levels.update(
            levels.len() - 1,
            LevelV {
                bindings: levels.last().bindings.insert(name, b),
                loop_info: levels.last().loop_info,
                mode: levels.last().mode,
            },
        )
    } else {
        set_levels(levels.drop_last(), name, b).push(levels.last())
    }
}

/// Rewriting a name held at a known topmost position updates exactly that
/// level.
proof fn lemma_set_levels_at(levels: Seq<LevelV>, i: int, name: Seq<char>, b: BindingV)
    requires
        0 <= i < levels.len(),
        levels[i].bindings.contains_key(name),
        forall|k: int| i < k < levels.len() ==> !(#[trigger] levels[k]).bindings.contains_key(name),
    ensures
        set_levels(levels, name, b) == levels.update(
            i,
            LevelV {
                bindings: levels[i].bindings.insert(name, b),
                loop_info: levels[i].loop_info,
                mode: levels[i].mode,
            },
        ),
    decreases levels.len(),
{
    if i == levels.len() - 1 {
    } else {
        assert(!levels.last().bindings.contains_key(name));
        assert(levels.drop_last()[i] == levels[i]);
        assert forall|k: int|
            i < k < levels.drop_last().len() implies !(#[trigger] levels.drop_last()[
        k]).bindings.contains_key(name) by {
            assert(levels.drop_last()[k] == levels[k]);
        };
        lemma_set_levels_at(levels.drop_last(), i, name, b);
        assert(set_levels(levels.drop_last(), name, b).push(levels.last()) =~= levels.update(
            i,
            LevelV {
                bindings: levels[i].bindings.insert(name, b),
                loop_info: levels[i].loop_info,
                mode: levels[i].mode,
            },
        ));
    }
}

/// The active evaluation mode: the nearest level that names one decides.
/// An empty stack, or one where every level merely inherits, names no mode;
/// the answer is then totalized to evaluation mode, the mode the bottom
/// level of a fresh scope carries, so that no stack is a fault.
pub open spec fn current_mode(levels: Seq<LevelV>) -> Mode
    decreases levels.len(),
{
    if levels.len() == 0 {
        Mode::Evaluation
    } else if levels.last().mode != Mode::Inherit {
        levels.last().mode
    } else {
        current_mode(levels.drop_last())
    }
}

impl Scope {
    pub closed spec fn model(&self) -> ScopeV {
        ScopeV { levels: levels_model(self.levels@), output: output_model(self.output@) }
    }

    /// Every level's names are pairwise distinct.
    pub closed spec fn wf(&self) -> bool {
        forall|i: int| 0 <= i < self.levels@.len() ==> (#[trigger] self.levels@[i]).wf()
    }

    /// Creates a scope with one empty top-level evaluation level.
    pub fn new() -> (r: Scope)
        ensures
            r.wf(),
            r.model() == (ScopeV {
                levels: seq![
                    LevelV {
                        bindings: Map::<Seq<char>, BindingV>::empty(),
                        loop_info: None::<LoopInfo>,
                        mode: Mode::Evaluation,
                    },
                ],
                output: Seq::<Seq<char>>::empty(),
            }),
    {
        let mut levels: Vec<ScopeLevel> = Vec::new();
        levels.push(ScopeLevel::new(Mode::Evaluation));
        let r = Scope { levels, output: Vec::new() };
        proof {
            lemma_levels_model(r.levels@);
            assert(levels_model(r.levels@) =~= seq![r.levels@[0].model()]);
            assert(output_model(r.output@) =~= Seq::<Seq<char>>::empty());
        }
        r
    }

    /// Checks that the stack still has a level.
    pub fn has_level(&self) -> (r: bool)
        ensures
            r == (self.model().levels.len() > 0),
    {
        proof {
            lemma_levels_model(self.levels@);
        }
        self.levels.len() > 0
    }

    /// Checks if a binding exists anywhere on the stack.
    pub fn has_binding(&self, name: &String) -> (r: bool)
        requires
            self.wf(),
        ensures
            r == (lookup_levels(self.model().levels, name@) is Some),
    {
        self.find_level(name).is_some()
    }

    /// Gets the binding a name resolves to, from the innermost level that
    /// binds it.
    pub fn get_binding(&self, name: &String) -> (r: Option<&Binding>)
        requires
            self.wf(),
        ensures
            match r {
                Some(b) => lookup_levels(self.model().levels, name@) == Some(b.model()),
                None => lookup_levels(self.model().levels, name@) is None,
            },
    {
        match self.find_level(name) {
            Some((i, j)) => Some(&self.levels[i].bindings[j].1),
            None => None,
        }
    }

    /// The position, level and entry, of the innermost binding of a name.
    fn find_level(&self, name: &String) -> (r: Option<(usize, usize)>)
        requires
            self.wf(),
        ensures
            match r {
                Some(p) => {
                    &&& p.0 < self.levels@.len()
                    &&& p.1 < self.levels@[p.0 as int].bindings@.len()
                    &&& self.levels@[p.0 as int].bindings@[p.1 as int].0@ == name@
                    &&& self.levels@[p.0 as int].model().bindings.contains_key(name@)
                    &&& lookup_levels(self.model().levels, name@) == Some(
                        self.levels@[p.0 as int].bindings@[p.1 as int].1.model(),
                    )
                    &&& forall|k: int|
                        p.0 < k < self.levels@.len() ==> !(#[trigger] self.levels@[k]).model()
                            .bindings.contains_key(name@)
                },
                None => lookup_levels(self.model().levels, name@) is None,
            },
    {
        let ghost m = levels_model(self.levels@);
        proof {
            lemma_levels_model(self.levels@);
        }
        let mut i: usize = self.levels.len();
        proof {
            assert(m.subrange(0, m.len() as int) =~= m);
        }
        while i > 0
            invariant
                i <= self.levels@.len(),
                self.wf(),
                m == levels_model(self.levels@),
                m.len() == self.levels@.len(),
                forall|j: int| 0 <= j < self.levels@.len() ==> m[j] == self.levels@[j].model(),
                forall|k: int|
                    i <= k < self.levels@.len() ==> !(#[trigger] self.levels@[k]).model()
                        .bindings.contains_key(name@),
                lookup_levels(m, name@) == lookup_levels(m.subrange(0, i as int), name@),
            decreases i,
        {
            i = i - 1;
            let found = self.levels[i].find(name);
            proof {
                assert(m.subrange(0, i as int + 1).drop_last() =~= m.subrange(0, i as int));
                assert(m.subrange(0, i as int + 1).last() == m[i as int]);
            }
            match found {
                Some(j) => {
                    return Some((i, j));
                },
                None => {},
            }
        }
        proof {
            assert(m.subrange(0, 0) =~= Seq::<LevelV>::empty());
        }
        None
    }

    /// Checks whether evaluation sits inside an active loop; a boundary
    /// level ends the scan.
    pub fn is_in_loop(&self) -> (r: bool)
        ensures
            r == in_loop(self.model().levels),
    {
        let ghost m = levels_model(self.levels@);
        proof {
            lemma_levels_model(self.levels@);
        }
        let mut i: usize = self.levels.len();
        proof {
            assert(m.subrange(0, m.len() as int) =~= m);
        }
        while i > 0
            invariant
                i <= self.levels@.len(),
                m == levels_model(self.levels@),
                m.len() == self.levels@.len(),
                forall|j: int| 0 <= j < self.levels@.len() ==> m[j] == self.levels@[j].model(),
                in_loop(m) == in_loop(m.subrange(0, i as int)),
            decreases i,
        {
            i = i - 1;
            proof {
                assert(m.subrange(0, i as int + 1).drop_last() =~= m.subrange(0, i as int));
                assert(m.subrange(0, i as int + 1).last() == m[i as int]);
            }
            match &self.levels[i].loop_info {
                Some(li) => {
                    return !li.boundary;
                },
                None => {},
            }
        }
        proof {
            assert(m.subrange(0, 0) =~= Seq::<LevelV>::empty());
        }
        false
    }

    /// Checks whether the nearest active loop has had its break called.
    pub fn is_loop_broken(&self) -> (r: bool)
        ensures
            r == loop_broken(self.model().levels),
    {
        let ghost m = levels_model(self.levels@);
        proof {
            lemma_levels_model(self.levels@);
        }
        let mut i: usize = self.levels.len();
        proof {
            assert(m.subrange(0, m.len() as int) =~= m);
        }
        while i > 0
            invariant
                i <= self.levels@.len(),
                m == levels_model(self.levels@),
                m.len() == self.levels@.len(),
                forall|j: int| 0 <= j < self.levels@.len() ==> m[j] == self.levels@[j].model(),
                loop_broken(m) == loop_broken(m.subrange(0, i as int)),
            decreases i,
        {
            i = i - 1;
            proof {
                assert(m.subrange(0, i as int + 1).drop_last() =~= m.subrange(0, i as int));
                assert(m.subrange(0, i as int + 1).last() == m[i as int]);
            }
            match &self.levels[i].loop_info {
                Some(li) => {
                    return !li.boundary && li.break_called;
                },
                None => {},
            }
        }
        proof {
            assert(m.subrange(0, 0) =~= Seq::<LevelV>::empty());
        }
        false
    }

    /// Checks whether evaluation sits inside a call: any boundary says so.
    pub fn is_in_call(&self) -> (r: bool)
        ensures
            r == in_call(self.model().levels),
    {
        let ghost m = levels_model(self.levels@);
        proof {
            lemma_levels_model(self.levels@);
        }
        let mut i: usize = self.levels.len();
        proof {
            assert(m.subrange(0, m.len() as int) =~= m);
        }
        while i > 0
            invariant
                i <= self.levels@.len(),
                m == levels_model(self.levels@),
                m.len() == self.levels@.len(),
                forall|j: int| 0 <= j < self.levels@.len() ==> m[j] == self.levels@[j].model(),
                in_call(m) == in_call(m.subrange(0, i as int)),
            decreases i,
        {
            i = i - 1;
            proof {
                assert(m.subrange(0, i as int + 1).drop_last() =~= m.subrange(0, i as int));
                assert(m.subrange(0, i as int + 1).last() == m[i as int]);
            }
            match &self.levels[i].loop_info {
                Some(li) => {
                    if li.boundary {
                        return true;
                    }
                },
                None => {},
            }
        }
        proof {
            assert(m.subrange(0, 0) =~= Seq::<LevelV>::empty());
        }
        false
    }

    /// Calls for a break: sets the break flag of the nearest loop marker,
    /// unless it is a boundary, which blocks the break.
    pub fn break_loop(&mut self)
        requires
            old(self).wf(),
        ensures
            final(self).wf(),
            final(self).model() == (ScopeV {
                levels: break_levels(old(self).model().levels),
                output: old(self).model().output,
            }),
    {
        let ghost m = levels_model(self.levels@);
        proof {
            lemma_levels_model(self.levels@);
        }
        let mut i: usize = self.levels.len();
        proof {
            assert(m.subrange(0, m.len() as int) =~= m);
            assert(break_levels(m) =~= break_levels(m.subrange(0, i as int)) + m.subrange(
                i as int,
                m.len() as int,
            ));
        }
        while i > 0
            invariant
                i <= self.levels@.len(),
                self.wf(),
                self.levels@ == old(self).levels@,
                self.output@ == old(self).output@,
                m == levels_model(self.levels@),
                m.len() == self.levels@.len(),
                forall|j: int| 0 <= j < self.levels@.len() ==> m[j] == self.levels@[j].model(),
                break_levels(m) == break_levels(m.subrange(0, i as int)) + m.subrange(
                    i as int,
                    m.len() as int,
                ),
            decreases i,
        {
            i = i - 1;
            proof {
                assert(m.subrange(0, i as int + 1).drop_last() =~= m.subrange(0, i as int));
                assert(m.subrange(0, i as int + 1).last() == m[i as int]);
            }
            let has_marker = self.levels[i].loop_info.is_some();
            if has_marker {
                let boundary = match &self.levels[i].loop_info {
                    Some(li) => li.boundary,
                    None => false,
                };
                if !boundary {
                    let mut lvl = self.levels.remove(i);
                    lvl.loop_info = Some(LoopInfo { break_called: true, boundary: false });
                    let ghost lvlm = lvl.model();
                    let ghost lvlwf = lvl.wf();
                    self.levels.insert(i, lvl);
                    proof {
                        lemma_levels_model(self.levels@);
                        let upd = LevelV {
                            bindings: m[i as int].bindings,
                            loop_info: Some(LoopInfo { break_called: true, boundary: false }),
                            mode: m[i as int].mode,
                        };
                        assert(lvlm == upd);
                        assert(self.levels@.len() == old(self).levels@.len());
                        assert forall|k: int|
                            0 <= k < self.levels@.len() && k != i implies self.levels@[k]
                            == old(self).levels@[k] by {};
                        assert(self.levels@[i as int].model() == upd);
                        assert(break_levels(m.subrange(0, i as int + 1)) =~= m.subrange(
                            0,
                            i as int + 1,
                        ).update(i as int, upd));
                        assert(break_levels(m) =~= m.update(i as int, upd));
                        assert(levels_model(self.levels@) =~= break_levels(m));
                        assert(output_model(self.output@) == output_model(old(self).output@));
                        assert(self.levels@[i as int].wf());
                    }
                } else {
                    proof {
                        assert(break_levels(m.subrange(0, i as int + 1)) =~= m.subrange(
                            0,
                            i as int + 1,
                        ));
                        assert(break_levels(m) =~= m);
                    }
                }
                return ;
            }
            proof {
                assert(break_levels(m.subrange(0, i as int + 1)) =~= break_levels(
                    m.subrange(0, i as int),
                ).push(m[i as int]));
                assert(break_levels(m) =~= break_levels(m.subrange(0, i as int)) + m.subrange(
                    i as int,
                    m.len() as int,
                ));
            }
        }
        proof {
            assert(m.subrange(0, 0) =~= Seq::<LevelV>::empty());
            assert(break_levels(m.subrange(0, 0)) =~= Seq::<LevelV>::empty());
            assert(break_levels(m) =~= m);
        }
    }

    /// The active evaluation mode: the nearest level that names one
    /// decides. When no level names one, because the stack is empty or
    /// every level inherits, the answer falls back to evaluation mode
    /// rather than treating the stack as a fault; a fresh scope's bottom
    /// level names that mode anyway.
    pub fn mode(&self) -> (r: Mode)
        ensures
            r == current_mode(self.model().levels),
    {
        let ghost m = levels_model(self.levels@);
        proof {
            lemma_levels_model(self.levels@);
        }
        let mut i: usize = self.levels.len();
        proof {
            assert(m.subrange(0, m.len() as int) =~= m);
        }
        while i > 0
            invariant
                i <= self.levels@.len(),
                m == levels_model(self.levels@),
                m.len() == self.levels@.len(),
                forall|j: int| 0 <= j < self.levels@.len() ==> m[j] == self.levels@[j].model(),
                current_mode(m) == current_mode(m.subrange(0, i as int)),
            decreases i,
        {
            i = i - 1;
            proof {
                assert(m.subrange(0, i as int + 1).drop_last() =~= m.subrange(0, i as int));
                assert(m.subrange(0, i as int + 1).last() == m[i as int]);
            }
            let lmode = self.levels[i].mode;
            if !matches!(lmode, Mode::Inherit) {
                return lmode;
            }
        }
        proof {
            assert(m.subrange(0, 0) =~= Seq::<LevelV>::empty());
        }
        Mode::Evaluation
    }

    /// Pushes a plain level.
    pub fn enter(&mut self, mode: Mode)
        requires
            old(self).wf(),
        ensures
            final(self).wf(),
            final(self).model() == (ScopeV {
                levels: old(self).model().levels.push(
                    LevelV {
                        bindings: Map::<Seq<char>, BindingV>::empty(),
                        loop_info: None::<LoopInfo>,
                        mode,
                    },
                ),
                output: old(self).model().output,
            }),
    {
        let lvl = ScopeLevel::new(mode);
        self.push_level(lvl);
    }

    /// Pushes a level marked as an active loop.
    pub fn enter_loop(&mut self, mode: Mode)
        requires
            old(self).wf(),
        ensures
            final(self).wf(),
            final(self).model() == (ScopeV {
                levels: old(self).model().levels.push(
                    LevelV {
                        bindings: Map::<Seq<char>, BindingV>::empty(),
                        loop_info: Some(LoopInfo { break_called: false, boundary: false }),
                        mode,
                    },
                ),
                output: old(self).model().output,
            }),
    {
        let lvl = ScopeLevel::new_loop(mode);
        self.push_level(lvl);
    }

    /// Pushes a level marked as a boundary, as a call body's level is.
    pub fn enter_loop_boundary(&mut self, mode: Mode)
        requires
            old(self).wf(),
        ensures
            final(self).wf(),
            final(self).model() == (ScopeV {
                levels: old(self).model().levels.push(
                    LevelV {
                        bindings: Map::<Seq<char>, BindingV>::empty(),
                        loop_info: Some(LoopInfo { break_called: false, boundary: true }),
                        mode,
                    },
                ),
                output: old(self).model().output,
            }),
    {
        let lvl = ScopeLevel::new_loop_boundary(mode);
        self.push_level(lvl);
    }

    /// Pushes a prepared level.
    fn push_level(&mut self, lvl: ScopeLevel)
        requires
            old(self).wf(),
            lvl.wf(),
        ensures
            final(self).wf(),
            final(self).model() == (ScopeV {
                levels: old(self).model().levels.push(lvl.model()),
                output: old(self).model().output,
            }),
    {
        let ghost before = self.levels@;
        self.levels.push(lvl);
        proof {
            assert(self.levels@.drop_last() =~= before);
            lemma_levels_model(before);
            lemma_levels_model(self.levels@);
            assert(levels_model(self.levels@) =~= levels_model(before).push(lvl.model()));
        }
    }

    /// Pops the innermost level, destroying its bindings and marker; an
    /// empty stack stays empty.
    pub fn leave(&mut self)
        requires
            old(self).wf(),
        ensures
            final(self).wf(),
            final(self).model() == (ScopeV {
                levels: if old(self).model().levels.len() == 0 {
                    old(self).model().levels
                } else {
                    old(self).model().levels.drop_last()
                },
                output: old(self).model().output,
            }),
    {
        proof {
            lemma_levels_model(self.levels@);
        }
        let ghost before = self.levels@;
        let popped = self.levels.pop();
        proof {
            if before.len() > 0 {
                lemma_levels_model(before);
                lemma_levels_model(self.levels@);
                assert(self.levels@ =~= before.drop_last());
                assert(levels_model(self.levels@) =~= levels_model(before).drop_last());
            }
        }
    }

    /// Binds a name in the innermost level, shadowing what any outer level
    /// binds under it.
    pub fn insert(&mut self, name: String, binding: Binding)
        requires
            old(self).wf(),
            old(self).model().levels.len() > 0,
        ensures
            final(self).wf(),
            final(self).model() == (ScopeV {
                levels: old(self).model().levels.update(
                    old(self).model().levels.len() - 1,
                    LevelV {
                        bindings: old(self).model().levels.last().bindings.insert(
                            name@,
                            binding.model(),
                        ),
                        loop_info: old(self).model().levels.last().loop_info,
                        mode: old(self).model().levels.last().mode,
                    },
                ),
                output: old(self).model().output,
            }),
    {
        proof {
            lemma_levels_model(self.levels@);
        }
        let n = self.levels.len();
        let mut lvl = self.levels.remove(n - 1);
        lvl.set_binding(name, binding);
        self.levels.push(lvl);
        proof {
            lemma_levels_model_pointwise(old(self).levels@, self.levels@);
            lemma_levels_model(old(self).levels@);
            lemma_levels_model(self.levels@);
            assert(levels_model(self.levels@) =~= levels_model(old(self).levels@).update(
                levels_model(old(self).levels@).len() - 1,
                self.levels@.last().model(),
            ));
        }
    }

    /// Rewrites a binding in place in the innermost level that binds the
    /// name, touching no other level and no other entry; a name bound
    /// nowhere is bound in the innermost level instead.
    pub fn set(&mut self, name: String, binding: Binding)
        requires
            old(self).wf(),
            old(self).model().levels.len() > 0,
        ensures
            final(self).wf(),
            final(self).model().output == old(self).model().output,
            final(self).model().levels == if lookup_levels(
                old(self).model().levels,
                name@,
            ) is Some {
                set_levels(old(self).model().levels, name@, binding.model())
            } else {
                old(self).model().levels.update(
                    old(self).model().levels.len() - 1,
                    LevelV {
                        bindings: old(self).model().levels.last().bindings.insert(
                            name@,
                            binding.model(),
                        ),
                        loop_info: old(self).model().levels.last().loop_info,
                        mode: old(self).model().levels.last().mode,
                    },
                )
            },
            final(self).model().levels.len() == old(self).model().levels.len(),
            lookup_levels(final(self).model().levels, name@) == Some(binding.model()),
            forall|other: Seq<char>|
                other != name@ ==> lookup_levels(final(self).model().levels, other)
                    == lookup_levels(old(self).model().levels, other),
            forall|j: int|
                0 <= j < old(self).model().levels.len() ==> {
                    &&& (#[trigger] final(self).model().levels[j]).loop_info == old(
                        self,
                    ).model().levels[j].loop_info
                    &&& final(self).model().levels[j].mode == old(self).model().levels[j].mode
                },
    {
        proof {
            lemma_levels_model(self.levels@);
        }
        let ghost oldm = levels_model(self.levels@);
        let found = self.find_level(&name);
        match found {
            Some((i, _)) => {
                let mut lvl = self.levels.remove(i);
                lvl.set_binding(name, binding);
                let ghost lvlm = lvl.model();
                let ghost lvlwf = lvl.wf();
                self.levels.insert(i, lvl);
                proof {
                    lemma_levels_model(old(self).levels@);
                    lemma_levels_model(self.levels@);
                    let newm = levels_model(self.levels@);
                    assert(self.levels@.len() == old(self).levels@.len());
                    assert forall|k: int|
                        0 <= k < self.levels@.len() && k != i implies self.levels@[k] == old(
                        self,
                    ).levels@[k] by {};
                    assert forall|k: int|
                        0 <= k < newm.len() && k != i implies newm[k] == oldm[k] by {
                        assert(newm[k] == self.levels@[k].model());
                        assert(oldm[k] == old(self).levels@[k].model());
                    };
                    assert(self.levels@[i as int].model() == lvlm);
                    assert(newm[i as int] == lvlm);
                    assert(oldm[i as int] == old(self).levels@[i as int].model());
                    lemma_set_lookup(oldm, newm, i as int, name@, binding.model());
                    lemma_set_levels_at(oldm, i as int, name@, binding.model());
                    assert(newm =~= set_levels(oldm, name@, binding.model()));
                    assert(output_model(self.output@) == output_model(old(self).output@));
                    assert forall|k: int|
                        0 <= k < self.levels@.len() implies (
                        #[trigger] self.levels@[k]).wf() by {
                        if k != i {
                            assert(self.levels@[k] == old(self).levels@[k]);
                        }
                    };
                }
            },
            None => {
                let ghost oldm = levels_model(old(self).levels@);
                self.insert(name, binding);
                proof {
                    let ghost newm = levels_model(self.levels@);
                    assert(newm.last().bindings.contains_key(name@));
                    assert forall|other: Seq<char>|
                        other != name@ implies lookup_levels(newm, other) == lookup_levels(
                        oldm,
                        other,
                    ) by {
                        assert(newm.drop_last() =~= oldm.drop_last());
                        if oldm.last().bindings.contains_key(other) {
                        }
                    };
                }
            },
        }
    }

    /// Registers a special form under a name in the innermost level.
    pub fn register_special_form(&mut self, name: &str, form: NativeForm<SpecialOp>)
        requires
            old(self).wf(),
            old(self).model().levels.len() > 0,
        ensures
            final(self).wf(),
            final(self).model() == (ScopeV {
                levels: old(self).model().levels.update(
                    old(self).model().levels.len() - 1,
                    LevelV {
                        bindings: old(self).model().levels.last().bindings.insert(
                            name@,
                            BindingV::SpecialForm(form.model()),
                        ),
                        loop_info: old(self).model().levels.last().loop_info,
                        mode: old(self).model().levels.last().mode,
                    },
                ),
                output: old(self).model().output,
            }),
    {
        self.insert(name.to_owned(), Binding::SpecialForm(form));
    }

    /// Registers an eval form under a name in the innermost level.
    pub fn register_eval_form(&mut self, name: &str, form: NativeForm<EvalOp>)
        requires
            old(self).wf(),
            old(self).model().levels.len() > 0,
        ensures
            final(self).wf(),
            final(self).model() == (ScopeV {
                levels: old(self).model().levels.update(
                    old(self).model().levels.len() - 1,
                    LevelV {
                        bindings: old(self).model().levels.last().bindings.insert(
                            name@,
                            BindingV::EvalForm(form.model()),
                        ),
                        loop_info: old(self).model().levels.last().loop_info,
                        mode: old(self).model().levels.last().mode,
                    },
                ),
                output: old(self).model().output,
            }),
    {
        self.insert(name.to_owned(), Binding::EvalForm(form));
    }

    /// Queues one line of text for the embedder to print.
    pub fn push_output(&mut self, line: String)
        requires
            old(self).wf(),
        ensures
            final(self).wf(),
            final(self).model() == (ScopeV {
                levels: old(self).model().levels,
                output: old(self).model().output.push(line@),
            }),
    {
        let ghost before = self.output@;
        self.output.push(line);
        proof {
            assert(self.output@.drop_last() =~= before);
            lemma_output_model(before);
            lemma_output_model(self.output@);
            assert(output_model(self.output@) =~= output_model(before).push(line@));
        }
    }

    /// Hands over the queued output lines and leaves the queue empty.
    pub fn take_output(&mut self) -> (r: Vec<String>)
        requires
            old(self).wf(),
        ensures
            final(self).wf(),
            output_model(r@) == old(self).model().output,
            final(self).model() == (ScopeV {
                levels: old(self).model().levels,
                output: Seq::<Seq<char>>::empty(),
            }),
    {
        let mut r: Vec<String> = Vec::new();
        core::mem::swap(&mut r, &mut self.output);
        proof {
            assert(output_model(self.output@) =~= Seq::<Seq<char>>::empty());
        }
        r
    }
}

/// The models of a stack of levels, in order.
pub open spec fn levels_model(v: Seq<ScopeLevel>) -> Seq<LevelV>
    decreases v,
{
    if v.len() == 0 {
        Seq::empty()
    } else {
        levels_model(v.drop_last()).push(v.last().model())
    }
}

pub broadcast proof fn lemma_levels_model(v: Seq<ScopeLevel>)
    ensures
        (#[trigger] levels_model(v)).len() == v.len(),
        forall|i: int| 0 <= i < v.len() ==> levels_model(v)[i] == v[i].model(),
    decreases v,
{
    if v.len() > 0 {
        lemma_levels_model(v.drop_last());
    }
}

/// Two stacks of equal length with pointwise equal models have equal models.
proof fn lemma_levels_model_pointwise(a: Seq<ScopeLevel>, b: Seq<ScopeLevel>)
    ensures
        a.len() == b.len() && (forall|i: int| 0 <= i < a.len() ==> a[i].model() == b[i].model())
            ==> levels_model(a) == levels_model(b),
{
    lemma_levels_model(a);
    lemma_levels_model(b);
    if a.len() == b.len() && (forall|i: int| 0 <= i < a.len() ==> a[i].model() == b[i].model()) {
        assert(levels_model(a) =~= levels_model(b));
    }
}

/// The views of the queued output lines, in order.
pub open spec fn output_model(v: Seq<String>) -> Seq<Seq<char>>
    decreases v,
{
    if v.len() == 0 {
        Seq::empty()
    } else {
        output_model(v.drop_last()).push(v.last()@)
    }
}

pub broadcast proof fn lemma_output_model(v: Seq<String>)
    ensures
        (#[trigger] output_model(v)).len() == v.len(),
        forall|i: int| 0 <= i < v.len() ==> output_model(v)[i] == v[i]@,
    decreases v,
{
    if v.len() > 0 {
        lemma_output_model(v.drop_last());
    }
}

/// Rewriting one name in the innermost level that binds it changes what that
/// name resolves to and nothing else.
proof fn lemma_set_lookup(
    oldm: Seq<LevelV>,
    newm: Seq<LevelV>,
    i: int,
    name: Seq<char>,
    b: BindingV,
)
    requires
        oldm.len() == newm.len(),
        0 <= i < oldm.len(),
        oldm[i].bindings.contains_key(name),
        forall|k: int| i < k < oldm.len() ==> !(#[trigger] oldm[k]).bindings.contains_key(name),
        newm[i].bindings == oldm[i].bindings.insert(name, b),
        newm[i].loop_info == oldm[i].loop_info,
        newm[i].mode == oldm[i].mode,
        forall|k: int| 0 <= k < oldm.len() && k != i ==> newm[k] == oldm[k],
    ensures
        lookup_levels(newm, name) == Some(b),
        forall|other: Seq<char>|
            other != name ==> lookup_levels(newm, other) == lookup_levels(oldm, other),
    decreases oldm.len(),
{
    if i == oldm.len() - 1 {
        assert(newm.last().bindings.contains_key(name));
        assert(newm.last().bindings[name] == b);
        assert forall|other: Seq<char>|
            other != name implies lookup_levels(newm, other) == lookup_levels(oldm, other) by {
            assert(newm.drop_last() =~= oldm.drop_last());
            assert(newm.last().bindings.contains_key(other) == oldm.last().bindings.contains_key(
                other,
            ));
            if oldm.last().bindings.contains_key(other) {
                assert(newm.last().bindings[other] == oldm.last().bindings[other]);
            }
        };
    } else {
        assert forall|k: int|
            0 <= k < oldm.drop_last().len() && k != i implies newm.drop_last()[k]
            == oldm.drop_last()[k] by {
            assert(newm.drop_last()[k] == newm[k]);
            assert(oldm.drop_last()[k] == oldm[k]);
        };
        assert forall|k: int|
            i < k < oldm.drop_last().len() implies !(#[trigger] oldm.drop_last()[
            k]).bindings.contains_key(name) by {
            assert(oldm.drop_last()[k] == oldm[k]);
        };
        assert(oldm.drop_last()[i] == oldm[i]);
        assert(newm.drop_last()[i] == newm[i]);
        lemma_set_lookup(oldm.drop_last(), newm.drop_last(), i, name, b);
        assert(newm.last() == oldm.last());
        assert(!oldm.last().bindings.contains_key(name));
        assert forall|other: Seq<char>|
            other != name implies lookup_levels(newm, other) == lookup_levels(oldm, other) by {
            if !oldm.last().bindings.contains_key(other) {
                assert(lookup_levels(newm, other) == lookup_levels(newm.drop_last(), other));
                assert(lookup_levels(oldm, other) == lookup_levels(oldm.drop_last(), other));
            }
        };
    }
}

} // verus!
