use vstd::prelude::*;

use crate::digits::nat_text;
use crate::digits::nat_text_u64;
use crate::object::Object;
use crate::object::ObjV;
use crate::render::display_text;
use vstd::string::StringSliceAdditionalSpecFns;

verus! {

/// Intern location, used when the info comes from the evaluator itself.
#[derive(Debug)]
pub struct InternLocation {
    /// File in which the info comes from.
    pub file: String,
    /// Line in the file.
    pub line: u32,
}

/// Direct location, used when the info comes from a source file directly.
#[derive(Debug)]
pub struct DirectLocation {
    pub file: String,
    pub line: usize,
    pub column: usize,

    pub index: usize,
    pub length: usize,
}

/// Expansion location, used when the info comes from a macro expansion.
#[derive(Debug)]
pub struct ExpansionLocation {
    pub macro_name: String,
    pub form: Object,

    pub localisation: DirectLocation,
}

/// A location.
#[derive(Debug)]
pub enum Location {
    /// No location information.
    Unknown,
    /// Intern location.
    Intern(InternLocation),
    /// Direct location.
    Direct(DirectLocation),
    /// Expansion location.
    Expansion(Vec<ExpansionLocation>),
}

/// Mathematical model of an intern location.
pub struct InternV {
    pub file: Seq<char>,
    pub line: u32,
}

/// Mathematical model of a direct location.
pub struct DirectV {
    pub file: Seq<char>,
    pub line: usize,
    pub column: usize,
    pub index: usize,
    pub length: usize,
}

/// Mathematical model of one entry of a macro-expansion chain.
pub struct ExpansionV {
    pub macro_name: Seq<char>,
    pub form: ObjV,
    pub localisation: DirectV,
}

/// Mathematical model of a location.
pub enum LocV {
    Unknown,
    Intern(InternV),
    Direct(DirectV),
    Expansion(Seq<ExpansionV>),
}

impl InternLocation {
    pub open spec fn model(&self) -> InternV {
        InternV { file: self.file@, line: self.line }
    }
}

impl DirectLocation {
    pub open spec fn model(&self) -> DirectV {
        DirectV {
            file: self.file@,
            line: self.line,
            column: self.column,
            index: self.index,
            length: self.length,
        }
    }
}

impl ExpansionLocation {
    pub open spec fn model(&self) -> ExpansionV
        decreases self,
    {
        ExpansionV {
            macro_name: self.macro_name@,
            form: self.form.model(),
            localisation: self.localisation.model(),
        }
    }
}

/// The models of the entries of an expansion chain, in order.
pub open spec fn model_chain(v: Seq<ExpansionLocation>) -> Seq<ExpansionV>
    decreases v,
{
    if v.len() == 0 {
        Seq::empty()
    } else {
        model_chain(v.drop_last()).push(v.last().model())
    }
}

pub broadcast proof fn lemma_model_chain(v: Seq<ExpansionLocation>)
    ensures
        (#[trigger] model_chain(v)).len() == v.len(),
        forall|i: int| 0 <= i < v.len() ==> model_chain(v)[i] == v[i].model(),
    decreases v,
{
    if v.len() > 0 {
        lemma_model_chain(v.drop_last());
    }
}

impl Location {
    pub open spec fn model(&self) -> LocV
        decreases self,
    {
        match self {
            Location::Unknown => LocV::Unknown,
            Location::Intern(v) => LocV::Intern(v.model()),
            Location::Direct(v) => LocV::Direct(v.model()),
            Location::Expansion(v) => LocV::Expansion(model_chain(v@)),
        }
    }
}

impl InternLocation {
    /// Copies the location, preserving its model.
    pub fn duplicate(&self) -> (r: Self)
        ensures
            r.model() == self.model(),
    {
        InternLocation { file: self.file.clone(), line: self.line }
    }
}

impl DirectLocation {
    /// Copies the location, preserving its model.
    pub fn duplicate(&self) -> (r: Self)
        ensures
            r.model() == self.model(),
    {
        DirectLocation {
            file: self.file.clone(),
            line: self.line,
            column: self.column,
            index: self.index,
            length: self.length,
        }
    }
}

impl ExpansionLocation {
    /// Copies the chain entry, preserving its model.
    pub fn duplicate(&self) -> (r: Self)
        ensures
            r.model() == self.model(),
        decreases self,
    {
        ExpansionLocation {
            macro_name: self.macro_name.clone(),
            form: self.form.duplicate(),
            localisation: self.localisation.duplicate(),
        }
    }
}

impl Location {
    /// Copies the location, preserving its model.
    pub fn duplicate(&self) -> (r: Self)
        ensures
            r.model() == self.model(),
        decreases self,
    {
        match self {
            Location::Unknown => Location::Unknown,
            Location::Intern(v) => Location::Intern(v.duplicate()),
            Location::Direct(v) => Location::Direct(v.duplicate()),
            Location::Expansion(v) => Location::Expansion(Self::duplicate_chain(v)),
        }
    }

    /// Copies an expansion chain, preserving every entry's model.
    fn duplicate_chain(v: &Vec<ExpansionLocation>) -> (r: Vec<ExpansionLocation>)
        ensures
            model_chain(r@) == model_chain(v@),
        decreases v,
    {
        let mut r: Vec<ExpansionLocation> = Vec::new();
        let mut i: usize = 0;
        while i < v.len()
            invariant
                i <= v.len(),
                r@.len() == i,
                forall|j: int| 0 <= j < i ==> r@[j].model() == v@[j].model(),
            decreases v@.len() - i,
        {
            r.push(v[i].duplicate());
            i = i + 1;
        }
        proof {
            lemma_model_chain(r@);
            lemma_model_chain(v@);
            assert(model_chain(r@) =~= model_chain(v@));
        }
        r
    }
}

impl Clone for Location {
    fn clone(&self) -> (r: Self)
        ensures
            r.model() == self.model(),
    {
        self.duplicate()
    }
}

/// The number of newline bytes among the first `upto` bytes.
pub open spec fn count_newlines(b: Seq<u8>, upto: int) -> nat
    decreases upto,
{
    if upto <= 0 {
        0
    } else {
        (count_newlines(b, upto - 1) + if b[upto - 1] == 10 {
            1nat
        } else {
            0nat
        }) as nat
    }
}

/// The position of the last newline byte before `upto`, or zero if there
/// is none.
pub open spec fn last_newline_at(b: Seq<u8>, upto: int) -> int
    decreases upto,
{
    if upto <= 0 {
        0
    } else if b[upto - 1] == 10 {
        upto - 1
    } else {
        last_newline_at(b, upto - 1)
    }
}

impl DirectLocation {
    /// Creates a new incomplete direct location: only the byte offsets are
    /// filled in; the file, line and column await a later pass.
    pub fn new_light(from: usize, to: usize) -> (r: DirectLocation)
        requires
            from <= to,
        ensures
            r.model() == (DirectV {
                file: Seq::<char>::empty(),
                line: 0,
                column: 0,
                index: from,
                length: (to - from) as usize,
            }),
    {
        DirectLocation {
            file: String::new(),
            line: 0,
            column: 0,
            index: from,
            length: to - from,
        }
    }

    /// Completes the direct location: counts the newlines before the stored
    /// byte offset to find the one-based line, and measures the distance to
    /// the last of them to find the one-based column.
    pub fn complete(&mut self, file: &str, source: &str)
        requires
            old(self).index <= source.spec_bytes().len(),
            old(self).index < usize::MAX,
        ensures
            final(self).model() == (DirectV {
                file: file@,
                line: (1 + count_newlines(source.spec_bytes(), old(self).index as int)) as usize,
                column: (1 + old(self).index - last_newline_at(
                    source.spec_bytes(),
                    old(self).index as int,
                )) as usize,
                index: old(self).index,
                length: old(self).length,
            }),
    {
        let bytes = source.as_bytes();
        let upto = self.index;
        let mut count: usize = 0;
        let mut last: usize = 0;
        let mut i: usize = 0;
        let ghost b = source.spec_bytes();
        while i < upto
            invariant
                i <= upto,
                upto <= b.len(),
                upto < usize::MAX,
                bytes@ == b,
                count <= i,
                last <= i,
                last == 0 || i > 0,
                count == count_newlines(b, i as int),
                last == last_newline_at(b, i as int),
            decreases upto - i,
        {
            if bytes[i] == 10 {
                count = count + 1;
                last = i;
            }
            i = i + 1;
        }
        self.file = file.to_owned();
        self.line = 1 + count;
        self.column = 1 + (self.index - last);
    }

    /// Creates a complete direct location in one step.
    pub fn new(from: usize, to: usize, file: &str, source: &str) -> (r: DirectLocation)
        requires
            from <= to,
            from <= source.spec_bytes().len(),
            from < usize::MAX,
        ensures
            r.model() == (DirectV {
                file: file@,
                line: (1 + count_newlines(source.spec_bytes(), from as int)) as usize,
                column: (1 + from - last_newline_at(source.spec_bytes(), from as int)) as usize,
                index: from,
                length: (to - from) as usize,
            }),
    {
        let mut r = DirectLocation::new_light(from, to);
        r.complete(file, source);
        r
    }
}

impl Location {
    /// Creates a new empty object location.
    pub fn new_empty() -> (r: Location)
        ensures
            r.model() == LocV::Unknown,
    {
        Location::Unknown
    }

    /// Creates a new intern object location.
    pub fn new_intern(file: &str, line: u32) -> (r: Location)
        ensures
            r.model() == LocV::Intern(InternV { file: file@, line }),
    {
        Location::Intern(InternLocation { file: file.to_owned(), line })
    }

    /// Creates a new, still incomplete direct object location.
    pub fn new_direct(f: usize, t: usize) -> (r: Location)
        requires
            f <= t,
        ensures
            r.model() == LocV::Direct(
                DirectV {
                    file: Seq::<char>::empty(),
                    line: 0,
                    column: 0,
                    index: f,
                    length: (t - f) as usize,
                },
            ),
    {
        Location::Direct(DirectLocation::new_light(f, t))
    }

    /// Checks if there is no location info.
    pub fn is_none(&self) -> (r: bool)
        ensures
            r == (self.model() is Unknown),
    {
        matches!(self, Location::Unknown)
    }

    /// Checks if the location info comes from the evaluator itself.
    pub fn is_intern(&self) -> (r: bool)
        ensures
            r == (self.model() is Intern),
    {
        matches!(self, Location::Intern(_))
    }

    /// Checks if the location info comes from a source file.
    pub fn is_direct(&self) -> (r: bool)
        ensures
            r == (self.model() is Direct),
    {
        matches!(self, Location::Direct(_))
    }

    /// Checks if the location info comes from a macro expansion.
    pub fn is_expansion(&self) -> (r: bool)
        ensures
            r == (self.model() is Expansion),
    {
        matches!(self, Location::Expansion(_))
    }

    /// Gets the location as intern.
    pub fn as_intern(&self) -> (r: Option<&InternLocation>)
        ensures
            match r {
                Some(v) => self.model() == LocV::Intern(v.model()),
                None => !(self.model() is Intern),
            },
    {
        match self {
            Location::Intern(v) => Some(v),
            _ => None,
        }
    }

    /// Gets the location as direct.
    pub fn as_direct(&self) -> (r: Option<&DirectLocation>)
        ensures
            match r {
                Some(v) => self.model() == LocV::Direct(v.model()),
                None => !(self.model() is Direct),
            },
    {
        match self {
            Location::Direct(v) => Some(v),
            _ => None,
        }
    }

    /// Gets the location as expansion.
    pub fn as_expansion(&self) -> (r: Option<&Vec<ExpansionLocation>>)
        ensures
            match r {
                Some(v) => self.model() == LocV::Expansion(model_chain(v@)),
                None => !(self.model() is Expansion),
            },
    {
        match self {
            Location::Expansion(v) => Some(v),
            _ => None,
        }
    }
}

/// How an intern location renders.
pub open spec fn intern_text(v: InternV) -> Seq<char> {
    "in '"@ + v.file + "' line "@ + nat_text(v.line as nat)
}

/// How a direct location renders.
pub open spec fn direct_text(v: DirectV) -> Seq<char> {
    "in file '"@ + v.file + "', at "@ + nat_text(v.line as nat) + ":"@ + nat_text(v.column as nat)
}

/// How one entry of an expansion chain renders.
pub open spec fn expansion_text(v: ExpansionV) -> Seq<char> {
    "from the expansion of '"@ + v.macro_name + "', "@ + direct_text(v.localisation)
        + ", from the expression "@ + display_text(v.form)
}

/// How an expansion chain renders: one line per entry.
pub open spec fn chain_text(chain: Seq<ExpansionV>) -> Seq<char>
    decreases chain.len(),
{
    if chain.len() == 0 {
        Seq::empty()
    } else if chain.len() == 1 {
        expansion_text(chain.last())
    } else {
        chain_text(chain.drop_last()) + "
"@ + expansion_text(chain.last())
    }
}

/// How a location renders.
pub open spec fn location_text(l: LocV) -> Seq<char> {
    match l {
        LocV::Unknown => "no location"@,
        LocV::Intern(v) => intern_text(v),
        LocV::Direct(v) => direct_text(v),
        LocV::Expansion(chain) => chain_text(chain),
    }
}

impl InternLocation {
    /// Renders the location.
    pub fn render(&self) -> (r: String)
        ensures
            r@ == intern_text(self.model()),
    {
        proof {
            reveal_strlit("in '");
            reveal_strlit("' line ");
        }
        let mut out = String::from_str("in '");
        out.append(self.file.as_str());
        out.append("' line ");
        let n = nat_text_u64(self.line as u64);
        out.append(n.as_str());
        proof {
            assert(out@ =~= intern_text(self.model()));
        }
        out
    }
}

impl DirectLocation {
    /// Renders the location.
    pub fn render(&self) -> (r: String)
        ensures
            r@ == direct_text(self.model()),
    {
        proof {
            reveal_strlit("in file '");
            reveal_strlit("', at ");
            reveal_strlit(":");
        }
        let mut out = String::from_str("in file '");
        out.append(self.file.as_str());
        out.append("', at ");
        let l = nat_text_u64(self.line as u64);
        out.append(l.as_str());
        out.append(":");
        let c = nat_text_u64(self.column as u64);
        out.append(c.as_str());
        proof {
            assert(out@ =~= direct_text(self.model()));
        }
        out
    }
}

impl ExpansionLocation {
    /// Renders the chain entry.
    pub fn render(&self) -> (r: String)
        ensures
            r@ == expansion_text(self.model()),
    {
        proof {
            reveal_strlit("from the expansion of '");
            reveal_strlit("', ");
            reveal_strlit(", from the expression ");
        }
        let mut out = String::from_str("from the expansion of '");
        out.append(self.macro_name.as_str());
        out.append("', ");
        let l = self.localisation.render();
        out.append(l.as_str());
        out.append(", from the expression ");
        let f = self.form.display_string();
        out.append(f.as_str());
        proof {
            assert(out@ =~= expansion_text(self.model()));
        }
        out
    }
}

impl Location {
    /// Renders the location.
    pub fn render(&self) -> (r: String)
        ensures
            r@ == location_text(self.model()),
    {
        match self {
            Location::Unknown => String::from_str("no location"),
            Location::Intern(v) => v.render(),
            Location::Direct(v) => v.render(),
            Location::Expansion(v) => {
                let mut out = String::new();
                let mut i: usize = 0;
                proof {
                    lemma_model_chain(v@);
                    assert(model_chain(v@).subrange(0, 0) =~= Seq::<ExpansionV>::empty());
                    assert(out@ =~= chain_text(model_chain(v@).subrange(0, 0)));
                }
                while i < v.len()
                    invariant
                        i <= v@.len(),
                        model_chain(v@).len() == v@.len(),
                        forall|j: int| 0 <= j < v@.len() ==> model_chain(v@)[j] == v@[j].model(),
                        out@ == chain_text(model_chain(v@).subrange(0, i as int)),
                    decreases v@.len() - i,
                {
                    if i > 0 {
                        proof {
                            reveal_strlit("
");
                        }
                        out.append("
");
                    }
                    let t = v[i].render();
                    out.append(t.as_str());
                    proof {
                        let m = model_chain(v@);
                        assert(m.subrange(0, i as int + 1).drop_last() =~= m.subrange(0, i as int));
                        assert(m.subrange(0, i as int + 1).last() == m[i as int]);
                        assert(out@ =~= chain_text(m.subrange(0, i as int + 1)));
                    }
                    i = i + 1;
                }
                proof {
                    assert(model_chain(v@).subrange(0, v@.len() as int) =~= model_chain(v@));
                }
                out
            },
        }
    }
}

} // verus!
