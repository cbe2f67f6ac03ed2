//! Type references, callable arguments and class members.
use vstd::prelude::*;
use vstd::string::*;
use crate::imports::{ImportSet, RefKey};
use crate::text::{doc_block, write_doc_block};

verus! {

/// One resolved occurrence of a type: the text that names it and the
/// references that text needs.
pub struct TypeRef {
    pub name: String,
    pub import: ImportSet,
}

impl TypeRef {
    pub open spec fn wf(&self) -> bool {
        self.import.wf()
    }

    /// A type that needs no import (a builtin).
    pub fn builtin(name: &str) -> (r: TypeRef)
        ensures
            r.wf(),
            r.name@ == name@,
            r.import@ == Set::<RefKey>::empty(),
    {
        TypeRef { name: name.to_string(), import: ImportSet::new() }
    }
}

/// `name: type`, then ` = default` where a default is given.
pub open spec fn typed_text(name: Seq<char>, ty: Seq<char>, default: Option<String>) -> Seq<char> {
    name + seq![':', ' '] + ty + match default {
        Some(d) => seq![' ', '=', ' '] + d@,
        None => Seq::empty(),
    }
}

/// Appends `typed_text` of the given parts to `out`.
pub fn write_typed(out: &mut String, name: &str, ty: &str, default: &Option<String>)
    ensures
        final(out)@ == old(out)@ + typed_text(name@, ty@, *default),
{
    out.append(name);
    out.append(": ");
    out.append(ty);
    proof { reveal_strlit(": "); }
    match default {
        Some(d) => {
            out.append(" = ");
            out.append(d.as_str());
            proof { reveal_strlit(" = "); }
        },
        None => {},
    }
    assert(out@ =~= old(out)@ + typed_text(name@, ty@, *default));
}

/// Where an argument stands among the separators of a signature.
#[derive(PartialEq, Eq, Structural, Clone, Copy, Debug)]
pub enum ArgMarker {
    /// An ordinary argument.
    Regular,
    /// The first keyword-only argument: a `*` separator precedes it.
    FirstKeywordOnly,
    /// The last positional-only argument: a `/` separator follows it.
    LastPositionalOnly,
}

/// One parameter of a callable.
pub struct Arg {
    pub name: String,
    pub ty: TypeRef,
    pub default: Option<String>,
    pub marker: ArgMarker,
}

/// An argument as it stands in a signature.
pub open spec fn arg_text(a: Arg) -> Seq<char> {
    let t = typed_text(a.name@, a.ty.name@, a.default);
    match a.marker {
        ArgMarker::Regular => t,
        ArgMarker::FirstKeywordOnly => seq!['*', ',', ' '] + t,
        ArgMarker::LastPositionalOnly => t + seq![',', ' ', '/'],
    }
}

/// The arguments in order, separated by `, `; with `lead`, the first one is
/// preceded by `, ` too (it follows a receiver).
pub open spec fn args_text(args: Seq<Arg>, lead: bool) -> Seq<char>
    decreases args.len(),
{
    if args.len() == 0 {
        Seq::empty()
    } else {
        args_text(args.drop_last(), lead) + (if lead || args.len() > 1 {
            seq![',', ' ']
        } else {
            Seq::empty()
        }) + arg_text(args.last())
    }
}

/// The references that the arguments' types need.
pub open spec fn args_imports(args: Seq<Arg>) -> Set<RefKey>
    decreases args.len(),
{
    if args.len() == 0 {
        Set::empty()
    } else {
        args_imports(args.drop_last()).union(args.last().ty.import@)
    }
}

pub open spec fn args_wf(args: Seq<Arg>) -> bool {
    forall|i: int| 0 <= i < args.len() ==> (#[trigger] args[i]).ty.wf()
}

impl Arg {
    /// Appends this argument's text to `out`.
    pub fn fmt(&self, out: &mut String)
        ensures
            final(out)@ == old(out)@ + arg_text(*self),
    {
        proof { reveal_strlit("*, "); reveal_strlit(", /"); }
        if self.marker == ArgMarker::FirstKeywordOnly {
            out.append("*, ");
        }
        write_typed(out, self.name.as_str(), self.ty.name.as_str(), &self.default);
        if self.marker == ArgMarker::LastPositionalOnly {
            out.append(", /");
        }
        assert(out@ =~= old(out)@ + arg_text(*self));
    }
}

/// Appends `args_text(args, lead)` to `out`.
pub fn write_args(out: &mut String, args: &Vec<Arg>, lead: bool)
    ensures
        final(out)@ == old(out)@ + args_text(args@, lead),
{
    let ghost start = out@;
    let mut i: usize = 0;
    while i < args.len()
        invariant
            i <= args.len(),
            out@ == start + args_text(args@.subrange(0, i as int), lead),
        decreases args.len() - i,
    {
        proof { reveal_strlit(", "); }
        if lead || i > 0 {
            out.append(", ");
        }
        args[i].fmt(out);
        assert(args@.subrange(0, i + 1).drop_last() =~= args@.subrange(0, i as int));
        assert(out@ =~= start + args_text(args@.subrange(0, i + 1), lead));
        i = i + 1;
    }
    assert(args@.subrange(0, args.len() as int) =~= args@);
}

/// The union of the references that the arguments' types need.
pub fn args_import(args: &Vec<Arg>, acc: &mut ImportSet)
    requires
        old(acc).wf(),
        args_wf(args@),
    ensures
        final(acc).wf(),
        final(acc)@ == old(acc)@.union(args_imports(args@)),
{
    let mut i: usize = 0;
    while i < args.len()
        invariant
            i <= args.len(),
            args_wf(args@),
            acc.wf(),
            acc@ == old(acc)@.union(args_imports(args@.subrange(0, i as int))),
        decreases args.len() - i,
    {
        acc.merge(&args[i].ty.import);
        assert(args@.subrange(0, i + 1).drop_last() =~= args@.subrange(0, i as int));
        assert(acc@ =~= old(acc)@.union(args_imports(args@.subrange(0, i + 1))));
        i = i + 1;
    }
    assert(args@.subrange(0, args.len() as int) =~= args@);
}

/// Declaration of a class member.
pub struct MemberDef {
    pub name: String,
    pub ty: TypeRef,
    pub default: Option<String>,
    pub doc: Vec<String>,
}

/// A member at `indent`: its declaration line, then its documentation block
/// at the same indent.
pub open spec fn member_text(m: MemberDef, indent: Seq<char>) -> Seq<char> {
    indent + typed_text(m.name@, m.ty.name@, m.default) + seq!['\n'] + doc_block(m.doc@, indent)
}

impl MemberDef {
    /// The references that the member's type needs.
    pub fn import(&self) -> (r: ImportSet)
        requires
            self.ty.wf(),
        ensures
            r.wf(),
            r.keys() == self.ty.import.keys(),
    {
        self.ty.import.duplicate()
    }

    /// Appends the member's text at `indent` to `out`.
    pub fn fmt(&self, out: &mut String, indent: &str)
        ensures
            final(out)@ == old(out)@ + member_text(*self, indent@),
    {
        out.append(indent);
        write_typed(out, self.name.as_str(), self.ty.name.as_str(), &self.default);
        out.append("\n");
        proof { reveal_strlit("\n"); }
        write_doc_block(out, &self.doc, indent);
        assert(out@ =~= old(out)@ + member_text(*self, indent@));
    }

    /// The member's text at `indent`.
    pub fn render(&self, indent: &str) -> (r: String)
        ensures
            r@ == member_text(*self, indent@),
    {
        let mut out = String::new();
        self.fmt(&mut out, indent);
        assert(out@ =~= member_text(*self, indent@));
        out
    }
}

} // verus!
