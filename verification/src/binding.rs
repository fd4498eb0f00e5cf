use vstd::prelude::*;

use crate::location::LocV;
use crate::location::Location;
use crate::object::lemma_model_list;
use crate::object::model_list;
use crate::object::Kind;
use crate::object::ObjV;
use crate::object::Object;

verus! {

/// The builtin special forms: they receive their argument nodes raw,
/// unevaluated, and work directly on the scope.
#[derive(Clone, Copy, PartialEq, Eq, Structural, Debug)]
pub enum SpecialOp {
    /// Returns its argument verbatim.
    Quote,
    /// Quasiquote: walks its argument, evaluating the escaped sub-forms.
    Equote,
    /// Unquote: an error on its own, meaningful only inside a quasiquote.
    EscapeQuote,
    /// Defines a dynamic form: a function whose arguments are evaluated.
    Defndynamic,
    /// Defines a macro form: a function whose arguments are bound raw.
    Defnmacro,
    /// Ends the nearest enclosing loop with a value.
    Break,
    /// Ends the nearest enclosing call with a value.
    Return,
    /// Evaluates its body while its condition holds.
    While,
}

/// The builtin forms that receive their arguments already evaluated and
/// have no access to the scope.
#[derive(Clone, Copy, PartialEq, Eq, Structural, Debug)]
pub enum EvalOp {
    /// Checks that the argument is nil.
    IsNil,
    /// Checks that the argument is a boolean.
    IsBool,
    /// Checks that the argument is an integer.
    IsInteger,
    /// Checks that the argument is a float.
    IsFloat,
    /// Checks that the argument is a char.
    IsChar,
    /// Checks that the argument is a string.
    IsString,
    /// Checks that the argument is a keyword.
    IsKeyword,
    /// Checks that the argument is a symbol.
    IsSymbol,
    /// Checks that the argument is a list.
    IsList,
    /// Converts the argument to its string object.
    ToString,
    /// Queues a line of text on the scope's output.
    Println,
    /// Sums its arguments as integers, wrapping around on overflow.
    Add,
}

/// A native form description record: a handler together with the number and
/// kinds of the arguments it accepts.
pub struct NativeForm<T> {
    handler: T,
    argument_count: i32,
    argument_kinds: Vec<Kind>,
}

/// Mathematical model of a native form record.
pub struct NativeV<T> {
    pub handler: T,
    pub argument_count: i32,
    pub argument_kinds: Seq<Kind>,
}

impl<T> NativeForm<T> {
    pub closed spec fn model(&self) -> NativeV<T> {
        NativeV {
            handler: self.handler,
            argument_count: self.argument_count,
            argument_kinds: self.argument_kinds@,
        }
    }

    /// Creates a new native form.
    ///
    /// The argument count follows the given behaviors:
    ///
    ///  - If >= 0, the form takes exactly that many arguments.
    ///  - If < 0, the form takes at least one fewer argument than the
    ///    count's magnitude (-1 accepts 0 or more, -2 accepts 1 or more...).
    pub fn new(handler: T, argument_count: i32, argument_kinds: Vec<Kind>) -> (r: Self)
        ensures
            r.model() == (NativeV { handler, argument_count, argument_kinds: argument_kinds@ }),
    {
        Self { handler, argument_count, argument_kinds }
    }

    /// Gets the handler of the form.
    pub fn handler(&self) -> (r: &T)
        ensures
            *r == self.model().handler,
    {
        &self.handler
    }

    /// Gets the argument count of the form.
    pub fn argument_count(&self) -> (r: i32)
        ensures
            r == self.model().argument_count,
    {
        self.argument_count
    }

    /// Gets the argument kinds accepted by the form.
    pub fn argument_kinds(&self) -> (r: &Vec<Kind>)
        ensures
            r@ == self.model().argument_kinds,
    {
        &self.argument_kinds
    }
}

/// A form defined during evaluation: its definition site, its parameter
/// names and the expressions of its body.
pub struct CustomForm {
    /// Location where the form was defined.
    pub location: Location,
    /// Names of the arguments of the form.
    pub arguments: Vec<String>,
    /// Expressions forming the body of the form.
    pub body: Vec<Object>,
}

/// Mathematical model of a form defined during evaluation.
pub struct CustomV {
    pub location: LocV,
    pub arguments: Seq<Seq<char>>,
    pub body: Seq<ObjV>,
}

/// The views of a list of names, in order.
pub open spec fn model_names(v: Seq<String>) -> Seq<Seq<char>>
    decreases v,
{
    if v.len() == 0 {
        Seq::empty()
    } else {
        model_names(v.drop_last()).push(v.last()@)
    }
}

pub broadcast proof fn lemma_model_names(v: Seq<String>)
    ensures
        (#[trigger] model_names(v)).len() == v.len(),
        forall|i: int| 0 <= i < v.len() ==> model_names(v)[i] == v[i]@,
    decreases v,
{
    if v.len() > 0 {
        lemma_model_names(v.drop_last());
    }
}

impl CustomForm {
    pub open spec fn model(&self) -> CustomV {
        CustomV {
            location: self.location.model(),
            arguments: model_names(self.arguments@),
            body: model_list(self.body@),
        }
    }

    /// Creates a new form.
    pub fn new(location: Location, arguments: Vec<String>, body: Vec<Object>) -> (r: CustomForm)
        ensures
            r.model() == (CustomV {
                location: location.model(),
                arguments: model_names(arguments@),
                body: model_list(body@),
            }),
    {
        CustomForm { location, arguments, body }
    }

    /// Copies the form, preserving its model.
    pub fn duplicate(&self) -> (r: CustomForm)
        ensures
            r.model() == self.model(),
    {
        let mut names: Vec<String> = Vec::new();
        let mut i: usize = 0;
        while i < self.arguments.len()
            invariant
                i <= self.arguments@.len(),
                names@.len() == i,
                forall|j: int| 0 <= j < i ==> names@[j]@ == self.arguments@[j]@,
            decreases self.arguments@.len() - i,
        {
            names.push(self.arguments[i].clone());
            i = i + 1;
        }
        let mut body: Vec<Object> = Vec::new();
        let mut k: usize = 0;
        while k < self.body.len()
            invariant
                k <= self.body@.len(),
                body@.len() == k,
                forall|j: int| 0 <= j < k ==> body@[j].model() == self.body@[j].model(),
            decreases self.body@.len() - k,
        {
            body.push(self.body[k].clone());
            k = k + 1;
        }
        let r = CustomForm { location: self.location.duplicate(), arguments: names, body };
        proof {
            lemma_model_names(r.arguments@);
            lemma_model_names(self.arguments@);
            assert(model_names(r.arguments@) =~= model_names(self.arguments@));
            lemma_model_list(r.body@);
            lemma_model_list(self.body@);
            assert(model_list(r.body@) =~= model_list(self.body@));
        }
        r
    }
}

/// A scope binding: a value slot or one of the four kinds of callable form.
pub enum Binding {
    /// Holds a constant value.
    Constant(Object),
    /// Holds a mutable variable.
    Variable(Object),
    /// A builtin form called on raw, unevaluated argument nodes.
    SpecialForm(NativeForm<SpecialOp>),
    /// A builtin form called on evaluated argument values.
    EvalForm(NativeForm<EvalOp>),
    /// A form defined during evaluation; its arguments are evaluated.
    DynamicForm(CustomForm),
    /// A macro defined during evaluation; its arguments are bound raw.
    MacroForm(CustomForm),
}

/// Mathematical model of a binding.
pub enum BindingV {
    Constant(ObjV),
    Variable(ObjV),
    SpecialForm(NativeV<SpecialOp>),
    EvalForm(NativeV<EvalOp>),
    DynamicForm(CustomV),
    MacroForm(CustomV),
}

impl Binding {
    pub open spec fn model(&self) -> BindingV {
        match self {
            Binding::Constant(o) => BindingV::Constant(o.model()),
            Binding::Variable(o) => BindingV::Variable(o.model()),
            Binding::SpecialForm(f) => BindingV::SpecialForm(f.model()),
            Binding::EvalForm(f) => BindingV::EvalForm(f.model()),
            Binding::DynamicForm(f) => BindingV::DynamicForm(f.model()),
            Binding::MacroForm(f) => BindingV::MacroForm(f.model()),
        }
    }

    /// Checks if the binding is a constant.
    pub fn is_constant(&self) -> (r: bool)
        ensures
            r == (self.model() is Constant),
    {
        matches!(self, Binding::Constant(_))
    }

    /// Checks if the binding is a variable.
    pub fn is_variable(&self) -> (r: bool)
        ensures
            r == (self.model() is Variable),
    {
        matches!(self, Binding::Variable(_))
    }

    /// Checks if the binding is a form of any kind.
    pub fn is_form(&self) -> (r: bool)
        ensures
            r == (!(self.model() is Constant) && !(self.model() is Variable)),
    {
        !matches!(self, Binding::Constant(_) | Binding::Variable(_))
    }

    /// Gets the constant's value from the binding.
    pub fn as_constant(&self) -> (r: Option<&Object>)
        ensures
            match r {
                Some(o) => self.model() == BindingV::Constant(o.model()),
                None => !(self.model() is Constant),
            },
    {
        match self {
            Binding::Constant(o) => Some(o),
            _ => None,
        }
    }

    /// Gets the variable's value from the binding.
    pub fn as_variable(&self) -> (r: Option<&Object>)
        ensures
            match r {
                Some(o) => self.model() == BindingV::Variable(o.model()),
                None => !(self.model() is Variable),
            },
    {
        match self {
            Binding::Variable(o) => Some(o),
            _ => None,
        }
    }

    /// Gets the dynamic form's definition from the binding.
    pub fn as_dynamic(&self) -> (r: Option<&CustomForm>)
        ensures
            match r {
                Some(f) => self.model() == BindingV::DynamicForm(f.model()),
                None => !(self.model() is DynamicForm),
            },
    {
        match self {
            Binding::DynamicForm(f) => Some(f),
            _ => None,
        }
    }

    /// Gets the macro form's definition from the binding.
    pub fn as_macro(&self) -> (r: Option<&CustomForm>)
        ensures
            match r {
                Some(f) => self.model() == BindingV::MacroForm(f.model()),
                None => !(self.model() is MacroForm),
            },
    {
        match self {
            Binding::MacroForm(f) => Some(f),
            _ => None,
        }
    }

    /// Gets the value held by a constant or variable binding.
    pub fn as_value(&self) -> (r: Option<&Object>)
        ensures
            match r {
                Some(o) => self.model() == BindingV::Constant(o.model()) || self.model()
                    == BindingV::Variable(o.model()),
                None => !(self.model() is Constant) && !(self.model() is Variable),
            },
    {
        match self {
            Binding::Constant(o) => Some(o),
            Binding::Variable(o) => Some(o),
            _ => None,
        }
    }
}

} // verus!
