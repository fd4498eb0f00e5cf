use vstd::prelude::*;

use crate::convert::push_char;
use crate::digits::int_text_i32;
use crate::digits::int_text;
use crate::float::float_text;
use crate::float::float_text_spec;
use crate::object::lemma_model_list;
use crate::object::model_list;
use crate::object::ObjV;
use crate::object::Object;

verus! {

/// How one character renders inside a quoted string: the quote, the
/// backslash and the three named control characters take an escape;
/// every other character stands for itself.
pub open spec fn escape_char(c: char) -> Seq<char> {
    if c == '"' {
        seq!['\\', '"']
    } else if c == '\\' {
        seq!['\\', '\\']
    } else if c == '\n' {
        seq!['\\', 'n']
    } else if c == '\t' {
        seq!['\\', 't']
    } else if c == '\r' {
        seq!['\\', 'r']
    } else {
        seq![c]
    }
}

/// The escaped body of a quoted string.
pub open spec fn escape_text(s: Seq<char>) -> Seq<char>
    decreases s.len(),
{
    if s.len() == 0 {
        Seq::empty()
    } else {
        escape_text(s.drop_last()) + escape_char(s.last())
    }
}

/// A string rendered with surrounding quotes and escapes.
pub open spec fn quoted_text(s: Seq<char>) -> Seq<char> {
    seq!['"'] + escape_text(s) + seq!['"']
}

/// How a char object renders: the named control characters render by name,
/// every other character follows a hash.
pub open spec fn char_display(c: char) -> Seq<char> {
    if c == '\n' {
        "#newline"@
    } else if c == '\t' {
        "#tab"@
    } else if c == '\r' {
        "#carriage-return"@
    } else if c == ' ' {
        "#space"@
    } else {
        "#"@ + seq![c]
    }
}

/// How a value renders for display: like its text, except that chars render
/// by name, strings take quotes and escapes, keywords take their leading
/// colon, and list elements are separated by single spaces.
pub open spec fn display_text(o: ObjV) -> Seq<char>
    decreases o,
{
    match o {
        ObjV::Nil(_) => "nil"@,
        ObjV::Bool(_, v) => if v {
            "true"@
        } else {
            "false"@
        },
        ObjV::Integer(_, v) => int_text(v as int),
        ObjV::Float(_, b) => float_text_spec(b),
        ObjV::Char(_, c) => char_display(c),
        ObjV::Str(_, s) => quoted_text(s),
        ObjV::Keyword(_, s) => ":"@ + s,
        ObjV::Symbol(_, s) => s,
        ObjV::List(_, items) => "("@ + display_items(items) + ")"@,
    }
}

/// The rendered elements of a list, separated by single spaces.
pub open spec fn display_items(items: Seq<ObjV>) -> Seq<char>
    decreases items,
{
    if items.len() == 0 {
        Seq::empty()
    } else if items.len() == 1 {
        display_text(items.last())
    } else {
        display_items(items.drop_last()) + " "@ + display_text(items.last())
    }
}

/// How a value renders with a depth limit: as for display, except that a
/// list nested at or beyond the limit collapses to an ellipsis.
pub open spec fn stringify_text(o: ObjV, max_depth: nat, depth: nat) -> Seq<char>
    decreases o,
{
    match o {
        ObjV::List(i, items) => if depth >= max_depth {
            "(...)"@
        } else {
            "("@ + stringify_items(items, max_depth, (depth + 1) as nat) + ")"@
        },
        _ => display_text(o),
    }
}

/// The depth-limited renderings of a list's elements, space separated.
pub open spec fn stringify_items(items: Seq<ObjV>, max_depth: nat, depth: nat) -> Seq<char>
    decreases items,
{
    if items.len() == 0 {
        Seq::empty()
    } else if items.len() == 1 {
        stringify_text(items.last(), max_depth, depth)
    } else {
        stringify_items(items.drop_last(), max_depth, depth) + " "@ + stringify_text(
            items.last(),
            max_depth,
            depth,
        )
    }
}

/// Appends the escaped form of one character to a string.
fn push_escaped(out: &mut String, c: char)
    ensures
        final(out)@ == old(out)@ + escape_char(c),
{
    proof {
        reveal_strlit("\\\"");
        reveal_strlit("\\\\");
        reveal_strlit("\\n");
        reveal_strlit("\\t");
        reveal_strlit("\\r");
    }
    if c == '"' {
        out.append("\\\"");
    } else if c == '\\' {
        out.append("\\\\");
    } else if c == '\n' {
        out.append("\\n");
    } else if c == '\t' {
        out.append("\\t");
    } else if c == '\r' {
        out.append("\\r");
    } else {
        push_char(out, c);
    }
    proof {
        assert(final(out)@ =~= old(out)@ + escape_char(c));
    }
}

/// Renders a string with surrounding quotes and escapes.
fn quote_string(s: &String) -> (r: String)
    ensures
        r@ == quoted_text(s@),
{
    let mut out = String::new();
    push_char(&mut out, '"');
    let n = s.as_str().unicode_len();
    let mut i: usize = 0;
    proof {
        assert(s@.subrange(0, 0) =~= Seq::<char>::empty());
        assert(out@ =~= seq!['"'] + escape_text(s@.subrange(0, 0)));
    }
    while i < n
        invariant
            i <= n,
            n == s@.len(),
            out@ == seq!['"'] + escape_text(s@.subrange(0, i as int)),
        decreases n - i,
    {
        let c = s.as_str().get_char(i);
        push_escaped(&mut out, c);
        proof {
            assert(s@.subrange(0, i as int + 1).drop_last() =~= s@.subrange(0, i as int));
            assert(s@.subrange(0, i as int + 1).last() == s@[i as int]);
            assert(out@ =~= seq!['"'] + escape_text(s@.subrange(0, i as int + 1)));
        }
        i = i + 1;
    }
    push_char(&mut out, '"');
    proof {
        assert(s@.subrange(0, s@.len() as int) =~= s@);
        assert(out@ =~= quoted_text(s@));
    }
    out
}

/// Renders a char object: named control characters by name, every other
/// character after a hash.
fn char_text(c: char) -> (r: String)
    ensures
        r@ == char_display(c),
{
    if c == '\n' {
        String::from_str("#newline")
    } else if c == '\t' {
        String::from_str("#tab")
    } else if c == '\r' {
        String::from_str("#carriage-return")
    } else if c == ' ' {
        String::from_str("#space")
    } else {
        let mut out = String::from_str("#");
        push_char(&mut out, c);
        proof {
            assert(out@ =~= "#"@ + seq![c]);
        }
        out
    }
}

impl Object {
    /// Renders the object for display, with unlimited depth.
    pub fn display_string(&self) -> (r: String)
        ensures
            r@ == display_text(self.model()),
        decreases self,
    {
        match self {
            Object::Nil(_) => String::from_str("nil"),
            Object::Bool(_, v) => {
                if *v {
                    String::from_str("true")
                } else {
                    String::from_str("false")
                }
            },
            Object::Integer(_, v) => int_text_i32(*v),
            Object::Float(_, v) => float_text(*v),
            Object::Char(_, v) => char_text(*v),
            Object::String(_, v) => quote_string(v),
            Object::Keyword(_, v) => {
                proof {
                    reveal_strlit(":");
                }
                let mut out = String::from_str(":");
                out.append(v.as_str());
                proof {
                    assert(out@ =~= ":"@ + v@);
                }
                out
            },
            Object::Symbol(_, v) => v.clone(),
            Object::List(_, v) => {
                proof {
                    reveal_strlit("(");
                    reveal_strlit(")");
                }
                let mut out = String::from_str("(");
                let inner = Self::display_list(v);
                out.append(inner.as_str());
                out.append(")");
                proof {
                    assert(out@ =~= "("@ + display_items(model_list(v@)) + ")"@);
                }
                out
            },
        }
    }

    /// Renders the elements of a list, separated by single spaces.
    fn display_list(v: &Vec<Object>) -> (r: String)
        ensures
            r@ == display_items(model_list(v@)),
        decreases v,
    {
        let mut out = String::new();
        let mut i: usize = 0;
        proof {
            lemma_model_list(v@);
            assert(model_list(v@).subrange(0, 0) =~= Seq::<ObjV>::empty());
            assert(out@ =~= display_items(model_list(v@).subrange(0, 0)));
        }
        while i < v.len()
            invariant
                i <= v@.len(),
                model_list(v@).len() == v@.len(),
                forall|j: int| 0 <= j < v@.len() ==> model_list(v@)[j] == v@[j].model(),
                out@ == display_items(model_list(v@).subrange(0, i as int)),
            decreases v@.len() - i,
        {
            if i > 0 {
                proof {
                    reveal_strlit(" ");
                }
                out.append(" ");
            }
            let t = v[i].display_string();
            out.append(t.as_str());
            proof {
                let m = model_list(v@);
                assert(m.subrange(0, i as int + 1).drop_last() =~= m.subrange(0, i as int));
                assert(m.subrange(0, i as int + 1).last() == m[i as int]);
                assert(out@ =~= display_items(m.subrange(0, i as int + 1)));
            }
            i = i + 1;
        }
        proof {
            assert(model_list(v@).subrange(0, v@.len() as int) =~= model_list(v@));
        }
        out
    }

    /// Transforms the object tree into a string, collapsing lists nested at
    /// or beyond the given depth to an ellipsis.
    pub fn stringify(&self, max_depth: usize) -> (r: String)
        ensures
            r@ == stringify_text(self.model(), max_depth as nat, 0),
    {
        self.stringify_at(max_depth, 0)
    }

    /// Renders the object with a depth limit, at the given nesting depth.
    fn stringify_at(&self, max_depth: usize, depth: usize) -> (r: String)
        ensures
            r@ == stringify_text(self.model(), max_depth as nat, depth as nat),
        decreases self,
    {
        match self {
            Object::List(_, v) => {
                if depth >= max_depth {
                    String::from_str("(...)")
                } else {
                    proof {
                        reveal_strlit("(");
                        reveal_strlit(")");
                    }
                    let mut out = String::from_str("(");
                    let inner = Self::stringify_list(v, max_depth, depth + 1);
                    out.append(inner.as_str());
                    out.append(")");
                    proof {
                        assert(out@ =~= "("@ + stringify_items(
                            model_list(v@),
                            max_depth as nat,
                            depth as nat + 1,
                        ) + ")"@);
                    }
                    out
                }
            },
            _ => {
                proof {
                    assert(stringify_text(self.model(), max_depth as nat, depth as nat)
                        == display_text(self.model()));
                }
                self.display_string()
            },
        }
    }

    /// Renders the elements of a list with a depth limit, space separated.
    fn stringify_list(v: &Vec<Object>, max_depth: usize, depth: usize) -> (r: String)
        ensures
            r@ == stringify_items(model_list(v@), max_depth as nat, depth as nat),
        decreases v,
    {
        let mut out = String::new();
        let mut i: usize = 0;
        proof {
            lemma_model_list(v@);
            assert(model_list(v@).subrange(0, 0) =~= Seq::<ObjV>::empty());
            assert(out@ =~= stringify_items(
                model_list(v@).subrange(0, 0),
                max_depth as nat,
                depth as nat,
            ));
        }
        while i < v.len()
            invariant
                i <= v@.len(),
                model_list(v@).len() == v@.len(),
                forall|j: int| 0 <= j < v@.len() ==> model_list(v@)[j] == v@[j].model(),
                out@ == stringify_items(
                    model_list(v@).subrange(0, i as int),
                    max_depth as nat,
                    depth as nat,
                ),
            decreases v@.len() - i,
        {
            if i > 0 {
                proof {
                    reveal_strlit(" ");
                }
                out.append(" ");
            }
            let t = v[i].stringify_at(max_depth, depth);
            out.append(t.as_str());
            proof {
                let m = model_list(v@);
                assert(m.subrange(0, i as int + 1).drop_last() =~= m.subrange(0, i as int));
                assert(m.subrange(0, i as int + 1).last() == m[i as int]);
                assert(out@ =~= stringify_items(
                    m.subrange(0, i as int + 1),
                    max_depth as nat,
                    depth as nat,
                ));
            }
            i = i + 1;
        }
        proof {
            assert(model_list(v@).subrange(0, v@.len() as int) =~= model_list(v@));
        }
        out
    }
}

} // verus!
