use vstd::prelude::*;

use crate::location::LocV;
use crate::location::Location;

verus! {

/// The kind of an object.
#[derive(Clone, Copy, PartialEq, Eq, Structural, Debug)]
pub enum Kind {
    /// A null object.
    Nil,
    /// A boolean object.
    Bool,
    /// An integer object.
    Integer,
    /// A float object.
    Float,
    /// A char object.
    Char,
    /// A string object.
    String,
    /// A keyword object.
    Keyword,
    /// A symbol object.
    Symbol,
    /// A list object.
    List,
    /// An object of any kind.
    Any,
}

/// Extra information attached to an object.
#[derive(Debug)]
pub struct ObjectInfo {
    /// Localisation where the object was initially created.
    pub location: Location,
}

/// A value node of the language.
///
/// Floats are carried as the bit pattern of a 32-bit IEEE 754 value, so that
/// every operation on them is expressed over plain integers.
#[derive(Debug)]
pub enum Object {
    /// A "no-value", null pointer, or empty list.
    Nil(ObjectInfo),
    /// A boolean.
    Bool(ObjectInfo, bool),
    /// An integer.
    Integer(ObjectInfo, i32),
    /// A float, as the bit pattern of a 32-bit IEEE 754 value.
    Float(ObjectInfo, u32),
    /// A single character.
    Char(ObjectInfo, char),
    /// A string.
    String(ObjectInfo, String),
    /// A keyword.
    Keyword(ObjectInfo, String),
    /// A symbol.
    Symbol(ObjectInfo, String),
    /// A list.
    List(ObjectInfo, Vec<Object>),
}

/// Mathematical model of a value node.
pub enum ObjV {
    Nil(LocV),
    Bool(LocV, bool),
    Integer(LocV, i32),
    Float(LocV, u32),
    Char(LocV, char),
    Str(LocV, Seq<char>),
    Keyword(LocV, Seq<char>),
    Symbol(LocV, Seq<char>),
    List(LocV, Seq<ObjV>),
}

impl ObjectInfo {
    pub open spec fn model(&self) -> LocV
        decreases self,
    {
        self.location.model()
    }

    /// Creates a new object information record.
    pub fn new(loc: Location) -> (r: Self)
        ensures
            r.model() == loc.model(),
    {
        ObjectInfo { location: loc }
    }

    /// Creates a new empty object information record.
    pub fn new_empty() -> (r: Self)
        ensures
            r.model() == LocV::Unknown,
    {
        ObjectInfo { location: Location::Unknown }
    }
}

/// The models of the elements of a list of objects, in order.
pub open spec fn model_list(v: Seq<Object>) -> Seq<ObjV>
    decreases v,
{
    if v.len() == 0 {
        Seq::empty()
    } else {
        model_list(v.drop_last()).push(v.last().model())
    }
}

pub broadcast proof fn lemma_model_list(v: Seq<Object>)
    ensures
        (#[trigger] model_list(v)).len() == v.len(),
        forall|i: int| 0 <= i < v.len() ==> model_list(v)[i] == v[i].model(),
    decreases v,
{
    if v.len() > 0 {
        lemma_model_list(v.drop_last());
    }
}

impl Object {
    pub open spec fn model(&self) -> ObjV
        decreases self,
    {
        match self {
            Object::Nil(i) => ObjV::Nil(i.model()),
            Object::Bool(i, v) => ObjV::Bool(i.model(), *v),
            Object::Integer(i, v) => ObjV::Integer(i.model(), *v),
            Object::Float(i, v) => ObjV::Float(i.model(), *v),
            Object::Char(i, v) => ObjV::Char(i.model(), *v),
            Object::String(i, v) => ObjV::Str(i.model(), v@),
            Object::Keyword(i, v) => ObjV::Keyword(i.model(), v@),
            Object::Symbol(i, v) => ObjV::Symbol(i.model(), v@),
            Object::List(i, v) => ObjV::List(i.model(), model_list(v@)),
        }
    }

    /// The kind of the model of the object.
    pub open spec fn spec_kind(&self) -> Kind {
        self.model().kind()
    }

    /// Gets the kind of the object.
    pub fn kind(&self) -> (r: Kind)
        ensures
            r == self.spec_kind(),
    {
        match self {
            Object::Nil(_) => Kind::Nil,
            Object::Bool(_, _) => Kind::Bool,
            Object::Integer(_, _) => Kind::Integer,
            Object::Float(_, _) => Kind::Float,
            Object::Char(_, _) => Kind::Char,
            Object::String(_, _) => Kind::String,
            Object::Keyword(_, _) => Kind::Keyword,
            Object::Symbol(_, _) => Kind::Symbol,
            Object::List(_, _) => Kind::List,
        }
    }

    /// Gets the information associated with the object.
    pub fn get_info(&self) -> (r: &ObjectInfo)
        ensures
            r.model() == self.model().info(),
    {
        match self {
            Object::Nil(i) => i,
            Object::Bool(i, _) => i,
            Object::Integer(i, _) => i,
            Object::Float(i, _) => i,
            Object::Char(i, _) => i,
            Object::String(i, _) => i,
            Object::Keyword(i, _) => i,
            Object::Symbol(i, _) => i,
            Object::List(i, _) => i,
        }
    }
}

impl ObjV {
    /// The kind of a modelled value.
    pub open spec fn kind(self) -> Kind {
        match self {
            ObjV::Nil(_) => Kind::Nil,
            ObjV::Bool(_, _) => Kind::Bool,
            ObjV::Integer(_, _) => Kind::Integer,
            ObjV::Float(_, _) => Kind::Float,
            ObjV::Char(_, _) => Kind::Char,
            ObjV::Str(_, _) => Kind::String,
            ObjV::Keyword(_, _) => Kind::Keyword,
            ObjV::Symbol(_, _) => Kind::Symbol,
            ObjV::List(_, _) => Kind::List,
        }
    }

    /// The location attached to a modelled value.
    pub open spec fn info(self) -> LocV {
        match self {
            ObjV::Nil(i) => i,
            ObjV::Bool(i, _) => i,
            ObjV::Integer(i, _) => i,
            ObjV::Float(i, _) => i,
            ObjV::Char(i, _) => i,
            ObjV::Str(i, _) => i,
            ObjV::Keyword(i, _) => i,
            ObjV::Symbol(i, _) => i,
            ObjV::List(i, _) => i,
        }
    }
}

impl Object {
    /// Recursively copies a list of objects, preserving every model.
    fn duplicate_list(v: &Vec<Object>) -> (r: Vec<Object>)
        ensures
            model_list(r@) == model_list(v@),
        decreases v,
    {
        let mut r: Vec<Object> = Vec::new();
        let mut i: usize = 0;
        while i < v.len()
            invariant
                i <= v.len(),
                r@.len() == i,
                forall|j: int| 0 <= j < i ==> r@[j].model() == v@[j].model(),
            decreases v@.len() - i,
        {
            r.push(v[i].duplicate());
            i = i + 1;
        }
        proof {
            lemma_model_list(r@);
            lemma_model_list(v@);
            assert(model_list(r@) =~= model_list(v@));
        }
        r
    }

    /// Recursively copies the object, preserving its model.
    pub fn duplicate(&self) -> (r: Self)
        ensures
            r.model() == self.model(),
        decreases self,
    {
        match self {
            Object::Nil(i) => Object::Nil(i.duplicate()),
            Object::Bool(i, v) => Object::Bool(i.duplicate(), *v),
            Object::Integer(i, v) => Object::Integer(i.duplicate(), *v),
            Object::Float(i, v) => Object::Float(i.duplicate(), *v),
            Object::Char(i, v) => Object::Char(i.duplicate(), *v),
            Object::String(i, v) => Object::String(i.duplicate(), v.clone()),
            Object::Keyword(i, v) => Object::Keyword(i.duplicate(), v.clone()),
            Object::Symbol(i, v) => Object::Symbol(i.duplicate(), v.clone()),
            Object::List(i, v) => Object::List(i.duplicate(), Self::duplicate_list(v)),
        }
    }
}

impl ObjectInfo {
    /// Copies the information record, preserving its model.
    pub fn duplicate(&self) -> (r: Self)
        ensures
            r.model() == self.model(),
        decreases self,
    {
        ObjectInfo { location: self.location.duplicate() }
    }
}

impl Clone for Object {
    fn clone(&self) -> (r: Self)
        ensures
            r.model() == self.model(),
    {
        self.duplicate()
    }
}

impl Clone for ObjectInfo {
    fn clone(&self) -> (r: Self)
        ensures
            r.model() == self.model(),
    {
        self.duplicate()
    }
}

impl Object {
    /// Creates a new nil object.
    pub fn nil() -> (r: Self)
        ensures
            r.model() == ObjV::Nil(LocV::Unknown),
    {
        Object::Nil(ObjectInfo::new_empty())
    }

    /// Creates a new boolean object.
    pub fn bool(v: bool) -> (r: Self)
        ensures
            r.model() == ObjV::Bool(LocV::Unknown, v),
    {
        Object::Bool(ObjectInfo::new_empty(), v)
    }

    /// Creates a new integer object.
    pub fn integer(v: i32) -> (r: Self)
        ensures
            r.model() == ObjV::Integer(LocV::Unknown, v),
    {
        Object::Integer(ObjectInfo::new_empty(), v)
    }

    /// Creates a new float object from the bit pattern of a 32-bit float.
    pub fn float(v: u32) -> (r: Self)
        ensures
            r.model() == ObjV::Float(LocV::Unknown, v),
    {
        Object::Float(ObjectInfo::new_empty(), v)
    }

    /// Creates a new char object.
    pub fn char(v: char) -> (r: Self)
        ensures
            r.model() == ObjV::Char(LocV::Unknown, v),
    {
        Object::Char(ObjectInfo::new_empty(), v)
    }

    /// Creates a new string object.
    pub fn string(v: String) -> (r: Self)
        ensures
            r.model() == ObjV::Str(LocV::Unknown, v@),
    {
        Object::String(ObjectInfo::new_empty(), v)
    }

    /// Creates a new keyword object.
    pub fn keyword(v: String) -> (r: Self)
        ensures
            r.model() == ObjV::Keyword(LocV::Unknown, v@),
    {
        Object::Keyword(ObjectInfo::new_empty(), v)
    }

    /// Creates a new symbol object.
    pub fn symbol(v: String) -> (r: Self)
        ensures
            r.model() == ObjV::Symbol(LocV::Unknown, v@),
    {
        Object::Symbol(ObjectInfo::new_empty(), v)
    }

    /// Creates a new list object.
    pub fn list(v: Vec<Object>) -> (r: Self)
        ensures
            r.model() == ObjV::List(LocV::Unknown, model_list(v@)),
    {
        Object::List(ObjectInfo::new_empty(), v)
    }

    /// Checks if the object is nil.
    pub fn is_nil(&self) -> (r: bool)
        ensures
            r == (self.spec_kind() == Kind::Nil),
    {
        matches!(self, Object::Nil(_))
    }

    /// Checks if the object is a boolean.
    pub fn is_bool(&self) -> (r: bool)
        ensures
            r == (self.spec_kind() == Kind::Bool),
    {
        matches!(self, Object::Bool(_, _))
    }

    /// Checks if the object is an integer.
    pub fn is_integer(&self) -> (r: bool)
        ensures
            r == (self.spec_kind() == Kind::Integer),
    {
        matches!(self, Object::Integer(_, _))
    }

    /// Checks if the object is a float.
    pub fn is_float(&self) -> (r: bool)
        ensures
            r == (self.spec_kind() == Kind::Float),
    {
        matches!(self, Object::Float(_, _))
    }

    /// Checks if the object is a char.
    pub fn is_char(&self) -> (r: bool)
        ensures
            r == (self.spec_kind() == Kind::Char),
    {
        matches!(self, Object::Char(_, _))
    }

    /// Checks if the object is a string.
    pub fn is_string(&self) -> (r: bool)
        ensures
            r == (self.spec_kind() == Kind::String),
    {
        matches!(self, Object::String(_, _))
    }

    /// Checks if the object is a keyword.
    pub fn is_keyword(&self) -> (r: bool)
        ensures
            r == (self.spec_kind() == Kind::Keyword),
    {
        matches!(self, Object::Keyword(_, _))
    }

    /// Checks if the object is a symbol.
    pub fn is_symbol(&self) -> (r: bool)
        ensures
            r == (self.spec_kind() == Kind::Symbol),
    {
        matches!(self, Object::Symbol(_, _))
    }

    /// Checks if the object is a list.
    pub fn is_list(&self) -> (r: bool)
        ensures
            r == (self.spec_kind() == Kind::List),
    {
        matches!(self, Object::List(_, _))
    }

    /// Gets the boolean value of the object.
    pub fn as_bool(&self) -> (r: Option<bool>)
        ensures
            match r {
                Some(v) => self.model() == ObjV::Bool(self.model().info(), v),
                None => self.spec_kind() != Kind::Bool,
            },
    {
        match self {
            Object::Bool(_, v) => Some(*v),
            _ => None,
        }
    }

    /// Gets the integer value of the object.
    pub fn as_integer(&self) -> (r: Option<i32>)
        ensures
            match r {
                Some(v) => self.model() == ObjV::Integer(self.model().info(), v),
                None => self.spec_kind() != Kind::Integer,
            },
    {
        match self {
            Object::Integer(_, v) => Some(*v),
            _ => None,
        }
    }

    /// Gets the float bit pattern of the object.
    pub fn as_float(&self) -> (r: Option<u32>)
        ensures
            match r {
                Some(v) => self.model() == ObjV::Float(self.model().info(), v),
                None => self.spec_kind() != Kind::Float,
            },
    {
        match self {
            Object::Float(_, v) => Some(*v),
            _ => None,
        }
    }

    /// Gets the char in the object.
    pub fn as_char(&self) -> (r: Option<char>)
        ensures
            match r {
                Some(v) => self.model() == ObjV::Char(self.model().info(), v),
                None => self.spec_kind() != Kind::Char,
            },
    {
        match self {
            Object::Char(_, v) => Some(*v),
            _ => None,
        }
    }

    /// Gets the string in the object.
    pub fn as_string(&self) -> (r: Option<&String>)
        ensures
            match r {
                Some(v) => self.model() == ObjV::Str(self.model().info(), v@),
                None => self.spec_kind() != Kind::String,
            },
    {
        match self {
            Object::String(_, v) => Some(v),
            _ => None,
        }
    }

    /// Gets the keyword in the object.
    pub fn as_keyword(&self) -> (r: Option<&String>)
        ensures
            match r {
                Some(v) => self.model() == ObjV::Keyword(self.model().info(), v@),
                None => self.spec_kind() != Kind::Keyword,
            },
    {
        match self {
            Object::Keyword(_, v) => Some(v),
            _ => None,
        }
    }

    /// Gets the symbol in the object.
    pub fn as_symbol(&self) -> (r: Option<&String>)
        ensures
            match r {
                Some(v) => self.model() == ObjV::Symbol(self.model().info(), v@),
                None => self.spec_kind() != Kind::Symbol,
            },
    {
        match self {
            Object::Symbol(_, v) => Some(v),
            _ => None,
        }
    }

    /// Gets the list of the object.
    pub fn as_list(&self) -> (r: Option<&Vec<Object>>)
        ensures
            match r {
                Some(v) => self.model() == ObjV::List(self.model().info(), model_list(v@)),
                None => self.spec_kind() != Kind::List,
            },
    {
        match self {
            Object::List(_, v) => Some(v),
            _ => None,
        }
    }

    /// Gets the boolean value of the object; only for boolean objects.
    pub fn get_bool(&self) -> (r: bool)
        requires
            self.spec_kind() == Kind::Bool,
        ensures
            self.model() == ObjV::Bool(self.model().info(), r),
    {
        match self {
            Object::Bool(_, v) => *v,
            _ => unreached(),
        }
    }

    /// Gets the integer value of the object; only for integer objects.
    pub fn get_integer(&self) -> (r: i32)
        requires
            self.spec_kind() == Kind::Integer,
        ensures
            self.model() == ObjV::Integer(self.model().info(), r),
    {
        match self {
            Object::Integer(_, v) => *v,
            _ => unreached(),
        }
    }

    /// Gets the float bit pattern of the object; only for float objects.
    pub fn get_float(&self) -> (r: u32)
        requires
            self.spec_kind() == Kind::Float,
        ensures
            self.model() == ObjV::Float(self.model().info(), r),
    {
        match self {
            Object::Float(_, v) => *v,
            _ => unreached(),
        }
    }

    /// Gets the char in the object; only for char objects.
    pub fn get_char(&self) -> (r: char)
        requires
            self.spec_kind() == Kind::Char,
        ensures
            self.model() == ObjV::Char(self.model().info(), r),
    {
        match self {
            Object::Char(_, v) => *v,
            _ => unreached(),
        }
    }

    /// Gets the string in the object; only for string objects.
    pub fn get_string(&self) -> (r: &String)
        requires
            self.spec_kind() == Kind::String,
        ensures
            self.model() == ObjV::Str(self.model().info(), r@),
    {
        match self {
            Object::String(_, v) => v,
            _ => unreached(),
        }
    }

    /// Gets the keyword in the object; only for keyword objects.
    pub fn get_keyword(&self) -> (r: &String)
        requires
            self.spec_kind() == Kind::Keyword,
        ensures
            self.model() == ObjV::Keyword(self.model().info(), r@),
    {
        match self {
            Object::Keyword(_, v) => v,
            _ => unreached(),
        }
    }

    /// Gets the symbol in the object; only for symbol objects.
    pub fn get_symbol(&self) -> (r: &String)
        requires
            self.spec_kind() == Kind::Symbol,
        ensures
            self.model() == ObjV::Symbol(self.model().info(), r@),
    {
        match self {
            Object::Symbol(_, v) => v,
            _ => unreached(),
        }
    }

    /// Gets the list of the object; only for list objects.
    pub fn get_list(&self) -> (r: &Vec<Object>)
        requires
            self.spec_kind() == Kind::List,
        ensures
            self.model() == ObjV::List(self.model().info(), model_list(r@)),
    {
        match self {
            Object::List(_, v) => v,
            _ => unreached(),
        }
    }

    /// Sets the object to be a nil value with empty info.
    pub fn set_nil(&mut self)
        ensures
            final(self).model() == ObjV::Nil(LocV::Unknown),
    {
        *self = Object::nil();
    }

    /// Sets the object to be a boolean with empty info.
    pub fn set_bool(&mut self, v: bool)
        ensures
            final(self).model() == ObjV::Bool(LocV::Unknown, v),
    {
        *self = Object::bool(v);
    }

    /// Sets the object to be an integer with empty info.
    pub fn set_integer(&mut self, v: i32)
        ensures
            final(self).model() == ObjV::Integer(LocV::Unknown, v),
    {
        *self = Object::integer(v);
    }

    /// Sets the object to be a float with empty info.
    pub fn set_float(&mut self, v: u32)
        ensures
            final(self).model() == ObjV::Float(LocV::Unknown, v),
    {
        *self = Object::float(v);
    }

    /// Sets the object to be a char with empty info.
    pub fn set_char(&mut self, v: char)
        ensures
            final(self).model() == ObjV::Char(LocV::Unknown, v),
    {
        *self = Object::char(v);
    }

    /// Sets the object to be a string with empty info.
    pub fn set_string(&mut self, v: String)
        ensures
            final(self).model() == ObjV::Str(LocV::Unknown, v@),
    {
        *self = Object::string(v);
    }

    /// Sets the object to be a keyword with empty info.
    pub fn set_keyword(&mut self, v: String)
        ensures
            final(self).model() == ObjV::Keyword(LocV::Unknown, v@),
    {
        *self = Object::keyword(v);
    }

    /// Sets the object to be a symbol with empty info.
    pub fn set_symbol(&mut self, v: String)
        ensures
            final(self).model() == ObjV::Symbol(LocV::Unknown, v@),
    {
        *self = Object::symbol(v);
    }

    /// Sets the object to be a list with empty info.
    pub fn set_list(&mut self, v: Vec<Object>)
        ensures
            final(self).model() == ObjV::List(LocV::Unknown, model_list(v@)),
    {
        *self = Object::list(v);
    }
}

} // verus!
