use vstd::prelude::*;

use crate::location::count_newlines;
use crate::location::last_newline_at;
use crate::location::DirectV;
use crate::location::LocV;
use crate::location::Location;
use crate::object::lemma_model_list;
use crate::object::model_list;
use crate::object::ObjV;
use crate::object::Object;
use crate::object::ObjectInfo;
use vstd::string::StringSliceAdditionalSpecFns;

verus! {

/// What completing a location does: a direct location gains the file name
/// and its line and column, counted from the byte offset; every other
/// location stays as it is.
pub open spec fn complete_loc(l: LocV, file: Seq<char>, b: Seq<u8>) -> LocV {
    match l {
        LocV::Direct(d) => LocV::Direct(
            DirectV {
                file: file,
                line: (1 + count_newlines(b, d.index as int)) as usize,
                column: (1 + d.index - last_newline_at(b, d.index as int)) as usize,
                index: d.index,
                length: d.length,
            },
        ),
        _ => l,
    }
}

/// What completing the locations of a whole tree does, node by node.
pub open spec fn complete_obj(o: ObjV, file: Seq<char>, b: Seq<u8>) -> ObjV
    decreases o,
{
    match o {
        ObjV::Nil(i) => ObjV::Nil(complete_loc(i, file, b)),
        ObjV::Bool(i, v) => ObjV::Bool(complete_loc(i, file, b), v),
        ObjV::Integer(i, v) => ObjV::Integer(complete_loc(i, file, b), v),
        ObjV::Float(i, v) => ObjV::Float(complete_loc(i, file, b), v),
        ObjV::Char(i, v) => ObjV::Char(complete_loc(i, file, b), v),
        ObjV::Str(i, v) => ObjV::Str(complete_loc(i, file, b), v),
        ObjV::Keyword(i, v) => ObjV::Keyword(complete_loc(i, file, b), v),
        ObjV::Symbol(i, v) => ObjV::Symbol(complete_loc(i, file, b), v),
        ObjV::List(i, items) => ObjV::List(complete_loc(i, file, b), complete_items(items, file, b)),
    }
}

/// What completing the locations of a list of trees does.
pub open spec fn complete_items(items: Seq<ObjV>, file: Seq<char>, b: Seq<u8>) -> Seq<ObjV>
    decreases items,
{
    if items.len() == 0 {
        Seq::empty()
    } else {
        complete_items(items.drop_last(), file, b).push(complete_obj(items.last(), file, b))
    }
}

pub broadcast proof fn lemma_complete_items(items: Seq<ObjV>, file: Seq<char>, b: Seq<u8>)
    ensures
        (#[trigger] complete_items(items, file, b)).len() == items.len(),
        forall|i: int|
            0 <= i < items.len() ==> complete_items(items, file, b)[i] == complete_obj(
                items[i],
                file,
                b,
            ),
    decreases items,
{
    if items.len() > 0 {
        lemma_complete_items(items.drop_last(), file, b);
    }
}

/// Whether a location's byte offset stays within a source of the given size.
pub open spec fn loc_bounded(l: LocV, n: int) -> bool {
    match l {
        LocV::Direct(d) => d.index <= n,
        _ => true,
    }
}

/// Whether every location in a tree stays within a source of the given size.
pub open spec fn obj_bounded(o: ObjV, n: int) -> bool
    decreases o,
{
    loc_bounded(o.info(), n) && match o {
        ObjV::List(_, items) => items_bounded(items, n),
        _ => true,
    }
}

/// Whether every location in a list of trees stays within the given size.
pub open spec fn items_bounded(items: Seq<ObjV>, n: int) -> bool
    decreases items,
{
    if items.len() == 0 {
        true
    } else {
        items_bounded(items.drop_last(), n) && obj_bounded(items.last(), n)
    }
}

pub broadcast proof fn lemma_items_bounded(items: Seq<ObjV>, n: int)
    ensures
        #[trigger] items_bounded(items, n) <==> (forall|i: int|
            0 <= i < items.len() ==> obj_bounded(#[trigger] items[i], n)),
    decreases items,
{
    if items.len() > 0 {
        lemma_items_bounded(items.drop_last(), n);
        assert(items_bounded(items, n) ==> forall|i: int|
            0 <= i < items.len() ==> obj_bounded(items[i], n)) by {
            if items_bounded(items, n) {
                assert forall|i: int| 0 <= i < items.len() implies obj_bounded(items[i], n) by {
                    if i < items.len() - 1 {
                        assert(items.drop_last()[i] == items[i]);
                    }
                }
            }
        };
        if forall|i: int| 0 <= i < items.len() ==> obj_bounded(#[trigger] items[i], n) {
            assert forall|i: int|
                0 <= i < items.drop_last().len() implies obj_bounded(
                items.drop_last()[i],
                n,
            ) by {
                assert(items.drop_last()[i] == items[i]);
            }
        }
    }
}

impl ObjectInfo {
    /// Completes the record's location against a named source text.
    fn completed(&self, file: &str, source: &str) -> (r: ObjectInfo)
        requires
            loc_bounded(self.model(), source.spec_bytes().len() as int),
            source.spec_bytes().len() < usize::MAX,
        ensures
            r.model() == complete_loc(self.model(), file@, source.spec_bytes()),
    {
        match &self.location {
            Location::Direct(d) => {
                let mut nd = d.duplicate();
                nd.complete(file, source);
                ObjectInfo { location: Location::Direct(nd) }
            },
            other => ObjectInfo { location: other.duplicate() },
        }
    }
}

impl Object {
    /// Fills in the file, line and column of every direct location of the
    /// tree, against the named source text, in one pass.
    pub fn complete_location(&mut self, file: &str, source: &str)
        requires
            obj_bounded(old(self).model(), source.spec_bytes().len() as int),
            source.spec_bytes().len() < usize::MAX,
        ensures
            final(self).model() == complete_obj(old(self).model(), file@, source.spec_bytes()),
    {
        let r = self.completed(file, source);
        *self = r;
    }

    /// Rebuilds the tree with every direct location completed.
    fn completed(&self, file: &str, source: &str) -> (r: Object)
        requires
            obj_bounded(self.model(), source.spec_bytes().len() as int),
            source.spec_bytes().len() < usize::MAX,
        ensures
            r.model() == complete_obj(self.model(), file@, source.spec_bytes()),
        decreases self,
    {
        match self {
            Object::Nil(i) => Object::Nil(i.completed(file, source)),
            Object::Bool(i, v) => Object::Bool(i.completed(file, source), *v),
            Object::Integer(i, v) => Object::Integer(i.completed(file, source), *v),
            Object::Float(i, v) => Object::Float(i.completed(file, source), *v),
            Object::Char(i, v) => Object::Char(i.completed(file, source), *v),
            Object::String(i, v) => Object::String(i.completed(file, source), v.clone()),
            Object::Keyword(i, v) => Object::Keyword(i.completed(file, source), v.clone()),
            Object::Symbol(i, v) => Object::Symbol(i.completed(file, source), v.clone()),
            Object::List(i, v) => {
                proof {
                    let n = source.spec_bytes().len() as int;
                    lemma_items_bounded(model_list(v@), n);
                    lemma_model_list(v@);
                    assert forall|j: int| 0 <= j < v@.len() implies obj_bounded(
                        #[trigger] v@[j].model(),
                        n,
                    ) by {
                        assert(model_list(v@)[j] == v@[j].model());
                    };
                }
                Object::List(i.completed(file, source), Self::completed_list(v, file, source))
            },
        }
    }

    /// Rebuilds a list of trees with every direct location completed.
    fn completed_list(v: &Vec<Object>, file: &str, source: &str) -> (r: Vec<Object>)
        requires
            forall|j: int|
                0 <= j < v@.len() ==> obj_bounded(
                    #[trigger] v@[j].model(),
                    source.spec_bytes().len() as int,
                ),
            source.spec_bytes().len() < usize::MAX,
        ensures
            model_list(r@) == complete_items(model_list(v@), file@, source.spec_bytes()),
        decreases v,
    {
        let mut r: Vec<Object> = Vec::new();
        let mut i: usize = 0;
        while i < v.len()
            invariant
                i <= v@.len(),
                r@.len() == i,
                forall|j: int|
                    0 <= j < v@.len() ==> obj_bounded(
                        #[trigger] v@[j].model(),
                        source.spec_bytes().len() as int,
                    ),
                source.spec_bytes().len() < usize::MAX,
                forall|j: int|
                    0 <= j < i ==> r@[j].model() == complete_obj(
                        v@[j].model(),
                        file@,
                        source.spec_bytes(),
                    ),
            decreases v@.len() - i,
        {
            r.push(v[i].completed(file, source));
            i = i + 1;
        }
        proof {
            lemma_model_list(r@);
            lemma_model_list(v@);
            lemma_complete_items(model_list(v@), file@, source.spec_bytes());
            assert(model_list(r@) =~= complete_items(model_list(v@), file@, source.spec_bytes()));
        }
        r
    }
}

} // verus!
