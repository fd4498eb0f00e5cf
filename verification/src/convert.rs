use vstd::prelude::*;

use crate::digits::int_text;
use crate::digits::int_text_i32;
use crate::float::f32_to_i32_spec;
use crate::float::f32_to_u32_spec;
use crate::float::f32bits_of_i32;
use crate::float::f32bits_of_int;
use crate::float::f32bits_of_nat;
use crate::float::f32bits_of_u64;
use crate::float::f32bits_to_i32;
use crate::float::f32bits_to_u32;
use crate::float::float_text;
use crate::float::float_text_spec;
use crate::location::LocV;
use crate::object::lemma_model_list;
use crate::object::model_list;
use crate::object::Kind;
use crate::object::ObjV;
use crate::object::Object;
use vstd::utf8::is_scalar;

verus! {

/// Relies on String::push: it appends exactly the given character.
#[verifier::external_body]
pub fn push_char(s: &mut String, c: char)
    ensures
        final(s)@ == old(s)@.push(c),
{
    s.push(c);
}

/// Relies on char::from_u32: a Unicode scalar value converts to its own
/// character; surrogates and values past the maximum yield nothing.
pub assume_specification[ core::char::from_u32 ](v: u32) -> (r: Option<char>)
    ensures
        r == if is_scalar(v) {
            Some(v as char)
        } else {
            None::<char>
        },
;

/// The truthiness of a value: nil is false, booleans stand for themselves,
/// numbers are true when non-zero, a char is true when it is not NUL, and
/// texts and lists are true when non-empty.
pub open spec fn truthy(o: ObjV) -> bool {
    match o {
        ObjV::Nil(_) => false,
        ObjV::Bool(_, v) => v,
        ObjV::Integer(_, v) => v != 0,
        ObjV::Float(_, b) => b % 0x8000_0000 != 0,
        ObjV::Char(_, c) => c != '\0',
        ObjV::Str(_, s) => s.len() != 0,
        ObjV::Keyword(_, s) => s.len() != 0,
        ObjV::Symbol(_, s) => s.len() != 0,
        ObjV::List(_, items) => items.len() != 0,
    }
}

/// The integer a value converts to: numbers convert numerically, a char
/// gives its code point, texts give their length counted in characters,
/// lists their element count.
pub open spec fn to_int_spec(o: ObjV) -> i32 {
    match o {
        ObjV::Nil(_) => 0,
        ObjV::Bool(_, v) => if v {
            1
        } else {
            0
        },
        ObjV::Integer(_, v) => v,
        ObjV::Float(_, b) => f32_to_i32_spec(b),
        ObjV::Char(_, c) => (c as u32) as i32,
        ObjV::Str(_, s) => s.len() as i32,
        ObjV::Keyword(_, s) => s.len() as i32,
        ObjV::Symbol(_, s) => s.len() as i32,
        ObjV::List(_, items) => items.len() as i32,
    }
}

/// The bit pattern of the float a value converts to: numbers convert
/// numerically, a char gives its code point, texts give their length
/// counted in characters, lists their element count.
pub open spec fn to_float_spec(o: ObjV) -> u32 {
    match o {
        ObjV::Nil(_) => 0,
        ObjV::Bool(_, v) => if v {
            0x3F80_0000
        } else {
            0
        },
        ObjV::Integer(_, v) => f32bits_of_int(v as int),
        ObjV::Float(_, b) => b,
        ObjV::Char(_, c) => f32bits_of_nat((c as u32) as nat),
        ObjV::Str(_, s) => f32bits_of_nat(s.len()),
        ObjV::Keyword(_, s) => f32bits_of_nat(s.len()),
        ObjV::Symbol(_, s) => f32bits_of_nat(s.len()),
        ObjV::List(_, items) => f32bits_of_nat(items.len()),
    }
}

/// The character of a code point, or NUL where none exists.
pub open spec fn char_or_nul(v: u32) -> char {
    if is_scalar(v) {
        v as char
    } else {
        '\0'
    }
}

/// The char a value converts to: numbers give the character of their code
/// point, texts give the character of their length counted in characters,
/// lists the character of their element count, and NUL stands in wherever
/// no character exists.
pub open spec fn to_char_spec(o: ObjV) -> char {
    match o {
        ObjV::Nil(_) => '\0',
        ObjV::Bool(_, v) => if v {
            '\u{1}'
        } else {
            '\0'
        },
        ObjV::Integer(_, v) => char_or_nul(v as u32),
        ObjV::Float(_, b) => char_or_nul(f32_to_u32_spec(b)),
        ObjV::Char(_, c) => c,
        ObjV::Str(_, s) => char_or_nul(s.len() as u32),
        ObjV::Keyword(_, s) => char_or_nul(s.len() as u32),
        ObjV::Symbol(_, s) => char_or_nul(s.len() as u32),
        ObjV::List(_, items) => char_or_nul(items.len() as u32),
    }
}

/// The text a value converts to: nil, booleans and numbers render by their
/// usual names, texts stand for themselves, and a list renders its elements'
/// texts in parentheses, each element followed by one space.
pub open spec fn text_of(o: ObjV) -> Seq<char>
    decreases o,
{
    match o {
        ObjV::Nil(_) => "nil"@,
        ObjV::Bool(_, v) => if v {
            "true"@
        } else {
            "false"@
        },
        ObjV::Integer(_, v) => int_text(v as int),
        ObjV::Float(_, b) => float_text_spec(b),
        ObjV::Char(_, c) => seq![c],
        ObjV::Str(_, s) => s,
        ObjV::Keyword(_, s) => s,
        ObjV::Symbol(_, s) => s,
        ObjV::List(_, items) => "("@ + texts_of(items) + ")"@,
    }
}

/// The concatenated texts of a list's elements, each followed by one space.
pub open spec fn texts_of(items: Seq<ObjV>) -> Seq<char>
    decreases items,
{
    if items.len() == 0 {
        Seq::empty()
    } else {
        texts_of(items.drop_last()) + text_of(items.last()) + " "@
    }
}

/// The list a value converts to: nil gives the empty list, a list gives its
/// own elements, and any other value gives the one-element list of itself,
/// with empty info.
pub open spec fn to_list_spec(o: ObjV) -> Seq<ObjV> {
    match o {
        ObjV::Nil(_) => Seq::empty(),
        ObjV::Bool(_, v) => seq![ObjV::Bool(LocV::Unknown, v)],
        ObjV::Integer(_, v) => seq![ObjV::Integer(LocV::Unknown, v)],
        ObjV::Float(_, b) => seq![ObjV::Float(LocV::Unknown, b)],
        ObjV::Char(_, c) => seq![ObjV::Char(LocV::Unknown, c)],
        ObjV::Str(_, s) => seq![ObjV::Str(LocV::Unknown, s)],
        ObjV::Keyword(_, s) => seq![ObjV::Keyword(LocV::Unknown, s)],
        ObjV::Symbol(_, s) => seq![ObjV::Symbol(LocV::Unknown, s)],
        ObjV::List(_, items) => items,
    }
}

/// The name of a kind.
pub open spec fn kind_text(k: Kind) -> Seq<char> {
    match k {
        Kind::Nil => "Nil"@,
        Kind::Bool => "Bool"@,
        Kind::Integer => "Integer"@,
        Kind::Float => "Float"@,
        Kind::Char => "Char"@,
        Kind::String => "String"@,
        Kind::Keyword => "Keyword"@,
        Kind::Symbol => "Symbol"@,
        Kind::List => "List"@,
        Kind::Any => "Any"@,
    }
}

/// The character of a count, or NUL where the count names no character.
fn char_of_count(n: usize) -> (r: char)
    ensures
        r == char_or_nul(n as u32),
{
    match core::char::from_u32(#[verifier::truncate] (n as u32)) {
        Some(c) => c,
        None => '\0',
    }
}

impl Object {
    /// Converts the object into a boolean.
    pub fn to_bool(&self) -> (r: bool)
        ensures
            r == truthy(self.model()),
    {
        match self {
            Object::Nil(_) => false,
            Object::Bool(_, v) => *v,
            Object::Integer(_, v) => *v != 0,
            Object::Float(_, v) => *v % 0x8000_0000 != 0,
            Object::Char(_, v) => *v != '\0',
            Object::String(_, v) => v.as_str().unicode_len() != 0,
            Object::Keyword(_, v) => v.as_str().unicode_len() != 0,
            Object::Symbol(_, v) => v.as_str().unicode_len() != 0,
            Object::List(_, v) => {
                proof {
                    lemma_model_list(v@);
                }
                v.len() != 0
            },
        }
    }

    /// Converts the object into an integer.
    pub fn to_integer(&self) -> (r: i32)
        ensures
            r == to_int_spec(self.model()),
    {
        match self {
            Object::Nil(_) => 0,
            Object::Bool(_, v) => {
                if *v {
                    1
                } else {
                    0
                }
            },
            Object::Integer(_, v) => *v,
            Object::Float(_, v) => f32bits_to_i32(*v),
            Object::Char(_, v) => (*v as u32) as i32,
            Object::String(_, v) => #[verifier::truncate] (v.as_str().unicode_len() as i32),
            Object::Keyword(_, v) => #[verifier::truncate] (v.as_str().unicode_len() as i32),
            Object::Symbol(_, v) => #[verifier::truncate] (v.as_str().unicode_len() as i32),
            Object::List(_, v) => {
                proof {
                    lemma_model_list(v@);
                }
                #[verifier::truncate] (v.len() as i32)
            },
        }
    }

    /// Converts the object into a float, returning its bit pattern.
    pub fn to_float(&self) -> (r: u32)
        ensures
            r == to_float_spec(self.model()),
    {
        match self {
            Object::Nil(_) => 0,
            Object::Bool(_, v) => {
                if *v {
                    0x3F80_0000
                } else {
                    0
                }
            },
            Object::Integer(_, v) => f32bits_of_i32(*v),
            Object::Float(_, v) => *v,
            Object::Char(_, v) => f32bits_of_u64((*v as u32) as u64),
            Object::String(_, v) => f32bits_of_u64(v.as_str().unicode_len() as u64),
            Object::Keyword(_, v) => f32bits_of_u64(v.as_str().unicode_len() as u64),
            Object::Symbol(_, v) => f32bits_of_u64(v.as_str().unicode_len() as u64),
            Object::List(_, v) => {
                proof {
                    lemma_model_list(v@);
                }
                f32bits_of_u64(v.len() as u64)
            },
        }
    }

    /// Converts the object to a char.
    pub fn to_char(&self) -> (r: char)
        ensures
            r == to_char_spec(self.model()),
    {
        match self {
            Object::Nil(_) => '\0',
            Object::Bool(_, v) => {
                if *v {
                    '\u{1}'
                } else {
                    '\0'
                }
            },
            Object::Integer(_, v) => match core::char::from_u32(*v as u32) {
                Some(c) => c,
                None => '\0',
            },
            Object::Float(_, v) => match core::char::from_u32(f32bits_to_u32(*v)) {
                Some(c) => c,
                None => '\0',
            },
            Object::Char(_, v) => *v,
            Object::String(_, v) => char_of_count(v.as_str().unicode_len()),
            Object::Keyword(_, v) => char_of_count(v.as_str().unicode_len()),
            Object::Symbol(_, v) => char_of_count(v.as_str().unicode_len()),
            Object::List(_, v) => {
                proof {
                    lemma_model_list(v@);
                }
                char_of_count(v.len())
            },
        }
    }

    /// Converts the object into a string.
    pub fn to_string(&self) -> (r: String)
        ensures
            r@ == text_of(self.model()),
        decreases self,
    {
        match self {
            Object::Nil(_) => String::from_str("nil"),
            Object::Bool(_, v) => {
                if *v {
                    String::from_str("true")
                } else {
                    String::from_str("false")
                }
            },
            Object::Integer(_, v) => int_text_i32(*v),
            Object::Float(_, v) => float_text(*v),
            Object::Char(_, v) => {
                let mut r = String::new();
                push_char(&mut r, *v);
                proof {
                    assert(r@ =~= seq![*v]);
                }
                r
            },
            Object::String(_, v) => v.clone(),
            Object::Keyword(_, v) => v.clone(),
            Object::Symbol(_, v) => v.clone(),
            Object::List(_, v) => {
                proof {
                    reveal_strlit("(");
                    reveal_strlit(")");
                }
                let mut r = String::from_str("(");
                let inner = Self::list_texts(v);
                r.append(inner.as_str());
                r.append(")");
                proof {
                    assert(r@ =~= "("@ + texts_of(model_list(v@)) + ")"@);
                }
                r
            },
        }
    }

    /// The concatenated texts of a list's elements, each followed by a space.
    fn list_texts(v: &Vec<Object>) -> (r: String)
        ensures
            r@ == texts_of(model_list(v@)),
        decreases v,
    {
        let mut r = String::new();
        let mut i: usize = 0;
        proof {
            lemma_model_list(v@);
            assert(model_list(v@).subrange(0, 0) =~= Seq::<ObjV>::empty());
            assert(r@ =~= texts_of(model_list(v@).subrange(0, 0)));
        }
        while i < v.len()
            invariant
                i <= v@.len(),
                model_list(v@).len() == v@.len(),
                forall|j: int| 0 <= j < v@.len() ==> model_list(v@)[j] == v@[j].model(),
                r@ == texts_of(model_list(v@).subrange(0, i as int)),
            decreases v@.len() - i,
        {
            let t = v[i].to_string();
            r.append(t.as_str());
            proof {
                reveal_strlit(" ");
            }
            r.append(" ");
            proof {
                let m = model_list(v@);
                assert(m.subrange(0, i as int + 1).drop_last() =~= m.subrange(0, i as int));
                assert(m.subrange(0, i as int + 1).last() == m[i as int]);
                assert(r@ =~= texts_of(m.subrange(0, i as int)) + text_of(m[i as int]) + " "@);
            }
            i = i + 1;
        }
        proof {
            assert(model_list(v@).subrange(0, v@.len() as int) =~= model_list(v@));
        }
        r
    }

    /// Converts the object into a keyword's text.
    pub fn to_keyword(&self) -> (r: String)
        ensures
            r@ == text_of(self.model()),
    {
        self.to_string()
    }

    /// Converts the object into a symbol's text.
    pub fn to_symbol(&self) -> (r: String)
        ensures
            r@ == text_of(self.model()),
    {
        self.to_string()
    }

    /// Converts the object into a list.
    pub fn to_list(&self) -> (r: Vec<Object>)
        ensures
            model_list(r@) == to_list_spec(self.model()),
    {
        let r = match self {
            Object::Nil(_) => Vec::new(),
            Object::Bool(_, v) => vec![Object::bool(*v)],
            Object::Integer(_, v) => vec![Object::integer(*v)],
            Object::Float(_, v) => vec![Object::float(*v)],
            Object::Char(_, v) => vec![Object::char(*v)],
            Object::String(_, v) => vec![Object::string(v.clone())],
            Object::Keyword(_, v) => vec![Object::keyword(v.clone())],
            Object::Symbol(_, v) => vec![Object::symbol(v.clone())],
            Object::List(_, v) => Self::duplicate_list_pub(v),
        };
        proof {
            lemma_model_list(r@);
            assert(model_list(r@) =~= to_list_spec(self.model()));
        }
        r
    }

    /// Recursively copies a list of objects, preserving every model.
    fn duplicate_list_pub(v: &Vec<Object>) -> (r: Vec<Object>)
        ensures
            model_list(r@) == model_list(v@),
    {
        let o = Object::List(crate::object::ObjectInfo::new_empty(), Vec::new());
        let c = Object::List(crate::object::ObjectInfo::new_empty(), Vec::new());
        let mut r: Vec<Object> = Vec::new();
        let mut i: usize = 0;
        while i < v.len()
            invariant
                i <= v@.len(),
                r@.len() == i,
                forall|j: int| 0 <= j < i ==> r@[j].model() == v@[j].model(),
            decreases v@.len() - i,
        {
            r.push(v[i].clone());
            i = i + 1;
        }
        proof {
            lemma_model_list(r@);
            lemma_model_list(v@);
            assert(model_list(r@) =~= model_list(v@));
        }
        r
    }

    /// Converts the object into a boolean object.
    pub fn to_bool_obj(&self) -> (r: Self)
        ensures
            r.model() == ObjV::Bool(LocV::Unknown, truthy(self.model())),
    {
        Object::bool(self.to_bool())
    }

    /// Converts the object into an integer object.
    pub fn to_integer_obj(&self) -> (r: Self)
        ensures
            r.model() == ObjV::Integer(LocV::Unknown, to_int_spec(self.model())),
    {
        Object::integer(self.to_integer())
    }

    /// Converts the object into a float object.
    pub fn to_float_obj(&self) -> (r: Self)
        ensures
            r.model() == ObjV::Float(LocV::Unknown, to_float_spec(self.model())),
    {
        Object::float(self.to_float())
    }

    /// Converts the object into a char object.
    pub fn to_char_obj(&self) -> (r: Self)
        ensures
            r.model() == ObjV::Char(LocV::Unknown, to_char_spec(self.model())),
    {
        Object::char(self.to_char())
    }

    /// Converts the object into a string object.
    pub fn to_string_obj(&self) -> (r: Self)
        ensures
            r.model() == ObjV::Str(LocV::Unknown, text_of(self.model())),
    {
        Object::string(self.to_string())
    }

    /// Converts the object into a keyword object.
    pub fn to_keyword_obj(&self) -> (r: Self)
        ensures
            r.model() == ObjV::Keyword(LocV::Unknown, text_of(self.model())),
    {
        Object::keyword(self.to_keyword())
    }

    /// Converts the object into a symbol object.
    pub fn to_symbol_obj(&self) -> (r: Self)
        ensures
            r.model() == ObjV::Symbol(LocV::Unknown, text_of(self.model())),
    {
        Object::symbol(self.to_symbol())
    }

    /// Converts the object into a list object.
    pub fn to_list_obj(&self) -> (r: Self)
        ensures
            r.model() == ObjV::List(LocV::Unknown, to_list_spec(self.model())),
    {
        Object::list(self.to_list())
    }

    /// Gets the type of the object as a string.
    pub fn type_string(&self) -> (r: &'static str)
        ensures
            r@ == kind_text(self.spec_kind()),
    {
        self.kind_string()
    }

    /// Gets the name of the object's kind.
    pub fn kind_string(&self) -> (r: &'static str)
        ensures
            r@ == kind_text(self.spec_kind()),
    {
        match self {
            Object::Nil(_) => "Nil",
            Object::Bool(_, _) => "Bool",
            Object::Integer(_, _) => "Integer",
            Object::Float(_, _) => "Float",
            Object::Char(_, _) => "Char",
            Object::String(_, _) => "String",
            Object::Keyword(_, _) => "Keyword",
            Object::Symbol(_, _) => "Symbol",
            Object::List(_, _) => "List",
        }
    }
}

} // verus!
