//! Class declarations.
use vstd::prelude::*;
use vstd::string::*;
use crate::imports::{ImportSet, RefKey};
use crate::member::{member_text, MemberDef, TypeRef};
use crate::method::{method_text, callable_imports, MethodDef};
use crate::text::{doc_block, write_doc_block};

verus! {

/// Declaration of a class.
pub struct ClassDef {
    pub name: String,
    pub base: Option<TypeRef>,
    pub members: Vec<MemberDef>,
    pub methods: Vec<MethodDef>,
    pub doc: Vec<String>,
}

/// The members in order, each at `indent`.
pub open spec fn members_text(ms: Seq<MemberDef>, indent: Seq<char>) -> Seq<char>
    decreases ms.len(),
{
    if ms.len() == 0 {
        Seq::empty()
    } else {
        members_text(ms.drop_last(), indent) + member_text(ms.last(), indent)
    }
}

/// The methods in order, each at `indent`.
pub open spec fn methods_text(ms: Seq<MethodDef>, indent: Seq<char>, unit: Seq<char>) -> Seq<char>
    decreases ms.len(),
{
    if ms.len() == 0 {
        Seq::empty()
    } else {
        methods_text(ms.drop_last(), indent, unit) + method_text(ms.last(), indent, unit)
    }
}

/// `class Name:` or, with a base, `class Name(Base):`.
pub open spec fn class_header(c: ClassDef) -> Seq<char> {
    "class "@ + c.name@ + match c.base {
        Some(b) => "("@ + b.name@ + ")"@,
        None => Seq::empty(),
    } + ":\n"@
}

/// A class at `indent`: its header, then one `unit` deeper its documentation,
/// its members and its methods in the order given, or the body placeholder
/// where there is none of these.
pub open spec fn class_text(c: ClassDef, indent: Seq<char>, unit: Seq<char>) -> Seq<char> {
    let inner = indent + unit;
    indent + class_header(c) + doc_block(c.doc@, inner) + members_text(c.members@, inner)
        + methods_text(c.methods@, inner, unit) + if c.doc@.len() == 0 && c.members@.len() == 0
        && c.methods@.len() == 0 {
        inner + "...\n"@
    } else {
        Seq::empty()
    }
}

pub open spec fn members_imports(ms: Seq<MemberDef>) -> Set<RefKey>
    decreases ms.len(),
{
    if ms.len() == 0 {
        Set::empty()
    } else {
        members_imports(ms.drop_last()).union(ms.last().ty.import@)
    }
}

pub open spec fn methods_imports(ms: Seq<MethodDef>) -> Set<RefKey>
    decreases ms.len(),
{
    if ms.len() == 0 {
        Set::empty()
    } else {
        methods_imports(ms.drop_last()).union(callable_imports(ms.last().ret, ms.last().args@))
    }
}

/// The references that a class's base needs, if it has one.
pub open spec fn base_imports(c: ClassDef) -> Set<RefKey> {
    match c.base {
        Some(b) => b.import@,
        None => Set::empty(),
    }
}

/// What a class needs: its base's references, its members' and its methods'.
pub open spec fn class_imports(c: ClassDef) -> Set<RefKey> {
    base_imports(c).union(members_imports(c.members@)).union(methods_imports(c.methods@))
}

/// Appends the members' text at `indent` to `out`.
fn write_members(out: &mut String, members: &Vec<MemberDef>, indent: &str)
    ensures
        final(out)@ == old(out)@ + members_text(members@, indent@),
{
    let ghost start = out@;
    let mut i: usize = 0;
    while i < members.len()
        invariant
            i <= members.len(),
            out@ == start + members_text(members@.subrange(0, i as int), indent@),
        decreases members.len() - i,
    {
        members[i].fmt(out, indent);
        assert(members@.subrange(0, i + 1).drop_last() =~= members@.subrange(0, i as int));
        assert(out@ =~= start + members_text(members@.subrange(0, i + 1), indent@));
        i = i + 1;
    }
    assert(members@.subrange(0, members.len() as int) =~= members@);
}

/// Appends the methods' text at `indent` to `out`.
fn write_methods(out: &mut String, methods: &Vec<MethodDef>, indent: &str, unit: &str)
    ensures
        final(out)@ == old(out)@ + methods_text(methods@, indent@, unit@),
{
    let ghost start = out@;
    let mut j: usize = 0;
    while j < methods.len()
        invariant
            j <= methods.len(),
            out@ == start + methods_text(methods@.subrange(0, j as int), indent@, unit@),
        decreases methods.len() - j,
    {
        methods[j].fmt(out, indent, unit);
        assert(methods@.subrange(0, j + 1).drop_last() =~= methods@.subrange(0, j as int));
        assert(out@ =~= start + methods_text(methods@.subrange(0, j + 1), indent@, unit@));
        j = j + 1;
    }
    assert(methods@.subrange(0, methods.len() as int) =~= methods@);
}

impl ClassDef {
    pub open spec fn wf(&self) -> bool {
        &&& match self.base {
            Some(b) => b.wf(),
            None => true,
        }
        &&& forall|i: int| 0 <= i < self.members@.len() ==> (#[trigger] self.members@[i]).ty.wf()
        &&& forall|i: int| 0 <= i < self.methods@.len() ==> (#[trigger] self.methods@[i]).wf()
    }

    /// Adds the references the class needs to `acc`.
    pub fn import_into(&self, acc: &mut ImportSet)
        requires
            self.wf(),
            old(acc).wf(),
        ensures
            final(acc).wf(),
            final(acc)@ == old(acc)@.union(class_imports(*self)),
    {
        let ghost base_set = base_imports(*self);
        match &self.base {
            Some(b) => acc.merge(&b.import),
            None => {},
        }
        assert(acc@ =~= old(acc)@.union(base_set));
        let mut i: usize = 0;
        while i < self.members.len()
            invariant
                self.wf(),
                i <= self.members.len(),
                acc.wf(),
                acc@ == old(acc)@.union(base_set).union(
                    members_imports(self.members@.subrange(0, i as int)),
                ),
            decreases self.members.len() - i,
        {
            acc.merge(&self.members[i].ty.import);
            assert(self.members@.subrange(0, i + 1).drop_last() =~= self.members@.subrange(
                0,
                i as int,
            ));
            assert(acc@ =~= old(acc)@.union(base_set).union(
                members_imports(self.members@.subrange(0, i + 1)),
            ));
            i = i + 1;
        }
        assert(self.members@.subrange(0, self.members.len() as int) =~= self.members@);
        let ghost mid = acc@;
        let mut j: usize = 0;
        while j < self.methods.len()
            invariant
                self.wf(),
                j <= self.methods.len(),
                acc.wf(),
                acc@ == mid.union(methods_imports(self.methods@.subrange(0, j as int))),
            decreases self.methods.len() - j,
        {
            let mi = self.methods[j].import();
            acc.merge(&mi);
            assert(self.methods@.subrange(0, j + 1).drop_last() =~= self.methods@.subrange(
                0,
                j as int,
            ));
            assert(acc@ =~= mid.union(methods_imports(self.methods@.subrange(0, j + 1))));
            j = j + 1;
        }
        assert(self.methods@.subrange(0, self.methods.len() as int) =~= self.methods@);
        assert(acc@ =~= old(acc)@.union(class_imports(*self)));
    }

    /// The references the class needs.
    pub fn import(&self) -> (r: ImportSet)
        requires
            self.wf(),
        ensures
            r.wf(),
            r@ == class_imports(*self),
    {
        let mut acc = ImportSet::new();
        self.import_into(&mut acc);
        assert(acc@ =~= class_imports(*self));
        acc
    }

    /// Appends `indent` and the class header to `out`.
    fn write_header(&self, out: &mut String, indent: &str)
        ensures
            final(out)@ == old(out)@ + indent@ + class_header(*self),
    {
        proof {
            reveal_strlit("class ");
            reveal_strlit("(");
            reveal_strlit(")");
            reveal_strlit(":\n");
        }
        out.append(indent);
        out.append("class ");
        out.append(self.name.as_str());
        match &self.base {
            Some(b) => {
                out.append("(");
                out.append(b.name.as_str());
                out.append(")");
            },
            None => {},
        }
        out.append(":\n");
        assert(out@ =~= old(out)@ + indent@ + class_header(*self));
    }

    /// Appends the class's text at `indent` to `out`.
    pub fn fmt(&self, out: &mut String, indent: &str, unit: &str)
        ensures
            final(out)@ == old(out)@ + class_text(*self, indent@, unit@),
    {
        proof { reveal_strlit("...\n"); }
        self.write_header(out, indent);
        let mut inner = String::new();
        inner.append(indent);
        inner.append(unit);
        write_doc_block(out, &self.doc, inner.as_str());
        write_members(out, &self.members, inner.as_str());
        write_methods(out, &self.methods, inner.as_str(), unit);
        if self.doc.len() == 0 && self.members.len() == 0 && self.methods.len() == 0 {
            out.append(inner.as_str());
            out.append("...\n");
        }
        assert(out@ =~= old(out)@ + class_text(*self, indent@, unit@));
    }

    /// The class's text at `indent`.
    pub fn render(&self, indent: &str, unit: &str) -> (r: String)
        ensures
            r@ == class_text(*self, indent@, unit@),
    {
        let mut out = String::new();
        self.fmt(&mut out, indent, unit);
        assert(out@ =~= class_text(*self, indent@, unit@));
        out
    }
}

} // verus!
