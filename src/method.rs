//! Methods bound to a class, and free functions.
use vstd::prelude::*;
use vstd::string::*;
use crate::imports::{ImportSet, RefKey};
use crate::member::{args_import, args_imports, args_text, args_wf, write_args, Arg, TypeRef};
use crate::text::{doc_block, write_doc_block};

verus! {

/// How a method is bound, which decides its decorator and its receiver.
#[derive(PartialEq, Eq, Structural, Clone, Copy, Debug)]
pub enum MethodType {
    /// No receiver, a `staticmethod` decorator.
    Static,
    /// A class receiver and a `classmethod` decorator.
    Class,
    /// The constructor: a class receiver and no decorator.
    New,
    /// An instance receiver and no decorator.
    Instance,
}

/// The decorator line of a method of kind `k` at `indent`.
pub open spec fn decorator_text(k: MethodType, indent: Seq<char>) -> Seq<char> {
    match k {
        MethodType::Static => indent + "@staticmethod\n"@,
        MethodType::Class => indent + "@classmethod\n"@,
        _ => Seq::empty(),
    }
}

/// The implicit first parameter of a method of kind `k`.
pub open spec fn receiver_text(k: MethodType) -> Seq<char> {
    match k {
        MethodType::Static => Seq::empty(),
        MethodType::Class | MethodType::New => "cls"@,
        MethodType::Instance => "self"@,
    }
}

/// `def name(<receiver><args>) -> ret:`
pub open spec fn signature_text(
    name: Seq<char>,
    receiver: Seq<char>,
    args: Seq<Arg>,
    ret: Seq<char>,
) -> Seq<char> {
    "def "@ + name + "("@ + receiver + args_text(args, receiver.len() > 0) + ") -> "@ + ret
        + ":"@
}

/// What follows a signature: the body placeholder when there is no
/// documentation, else the documentation block at `inner`.
pub open spec fn body_text(doc: Seq<String>, inner: Seq<char>) -> Seq<char> {
    if doc.len() == 0 {
        " ...\n"@
    } else {
        "\n"@ + doc_block(doc, inner)
    }
}

/// Declaration of a class method.
pub struct MethodDef {
    pub name: String,
    pub args: Vec<Arg>,
    pub ret: TypeRef,
    pub doc: Vec<String>,
    pub kind: MethodType,
}

/// A method at `indent`; its documentation stands one `unit` deeper.
pub open spec fn method_text(m: MethodDef, indent: Seq<char>, unit: Seq<char>) -> Seq<char> {
    decorator_text(m.kind, indent) + indent + signature_text(
        m.name@,
        receiver_text(m.kind),
        m.args@,
        m.ret.name@,
    ) + body_text(m.doc@, indent + unit)
}

/// The references that a callable's return type and arguments need.
pub open spec fn callable_imports(ret: TypeRef, args: Seq<Arg>) -> Set<RefKey> {
    ret.import@.union(args_imports(args))
}

/// Appends the body that follows a signature to `out`.
fn write_body(out: &mut String, doc: &Vec<String>, indent: &str, unit: &str)
    ensures
        final(out)@ == old(out)@ + body_text(doc@, indent@ + unit@),
{
    proof { reveal_strlit(" ...\n"); reveal_strlit("\n"); }
    if doc.len() == 0 {
        out.append(" ...\n");
    } else {
        out.append("\n");
        let mut inner = String::new();
        inner.append(indent);
        inner.append(unit);
        write_doc_block(out, doc, inner.as_str());
        assert(out@ =~= old(out)@ + body_text(doc@, indent@ + unit@));
    }
}

/// Appends `indent` and the signature to `out`.
fn write_signature(
    out: &mut String,
    indent: &str,
    name: &str,
    receiver: &str,
    args: &Vec<Arg>,
    ret: &str,
)
    ensures
        final(out)@ == old(out)@ + indent@ + signature_text(name@, receiver@, args@, ret@),
{
    proof { reveal_strlit("def "); reveal_strlit("("); reveal_strlit(") -> "); reveal_strlit(":"); }
    out.append(indent);
    out.append("def ");
    out.append(name);
    out.append("(");
    out.append(receiver);
    let lead = receiver.unicode_len() > 0;
    write_args(out, args, lead);
    out.append(") -> ");
    out.append(ret);
    out.append(":");
    assert(out@ =~= old(out)@ + indent@ + signature_text(name@, receiver@, args@, ret@));
}

/// The union of `ret`'s references and the arguments' references.
fn callable_import(ret: &TypeRef, args: &Vec<Arg>) -> (r: ImportSet)
    requires
        ret.wf(),
        args_wf(args@),
    ensures
        r.wf(),
        r@ == callable_imports(*ret, args@),
{
    let mut acc = ret.import.duplicate();
    assert(acc@ == ret.import@);
    args_import(args, &mut acc);
    acc
}

impl MethodDef {
    pub open spec fn wf(&self) -> bool {
        self.ret.wf() && args_wf(self.args@)
    }

    /// The references that the return type and the arguments need.
    pub fn import(&self) -> (r: ImportSet)
        requires
            self.wf(),
        ensures
            r.wf(),
            r@ == callable_imports(self.ret, self.args@),
    {
        callable_import(&self.ret, &self.args)
    }

    /// Appends the method's text at `indent` to `out`.
    pub fn fmt(&self, out: &mut String, indent: &str, unit: &str)
        ensures
            final(out)@ == old(out)@ + method_text(*self, indent@, unit@),
    {
        proof {
            reveal_strlit("@staticmethod\n");
            reveal_strlit("@classmethod\n");
            reveal_strlit("cls");
            reveal_strlit("self");
        }
        let receiver = match self.kind {
            MethodType::Static => {
                out.append(indent);
                out.append("@staticmethod\n");
                ""
            },
            MethodType::Class => {
                out.append(indent);
                out.append("@classmethod\n");
                "cls"
            },
            MethodType::New => "cls",
            MethodType::Instance => "self",
        };
        proof { reveal_strlit(""); }
        assert(receiver@ == receiver_text(self.kind));
        assert(out@ =~= old(out)@ + decorator_text(self.kind, indent@));
        write_signature(
            out,
            indent,
            self.name.as_str(),
            receiver,
            &self.args,
            self.ret.name.as_str(),
        );
        write_body(out, &self.doc, indent, unit);
        assert(out@ =~= old(out)@ + method_text(*self, indent@, unit@));
    }

    /// The method's text at `indent`.
    pub fn render(&self, indent: &str, unit: &str) -> (r: String)
        ensures
            r@ == method_text(*self, indent@, unit@),
    {
        let mut out = String::new();
        self.fmt(&mut out, indent, unit);
        assert(out@ =~= method_text(*self, indent@, unit@));
        out
    }
}

/// Declaration of a free function.
pub struct FunctionDef {
    pub name: String,
    pub args: Vec<Arg>,
    pub ret: TypeRef,
    pub doc: Vec<String>,
}

/// A function at `indent`: no decorator, no receiver; its documentation
/// stands one `unit` deeper.
pub open spec fn function_text(f: FunctionDef, indent: Seq<char>, unit: Seq<char>) -> Seq<char> {
    indent + signature_text(f.name@, Seq::empty(), f.args@, f.ret.name@) + body_text(
        f.doc@,
        indent + unit,
    )
}

impl FunctionDef {
    pub open spec fn wf(&self) -> bool {
        self.ret.wf() && args_wf(self.args@)
    }

    /// The references that the return type and the arguments need.
    pub fn import(&self) -> (r: ImportSet)
        requires
            self.wf(),
        ensures
            r.wf(),
            r@ == callable_imports(self.ret, self.args@),
    {
        callable_import(&self.ret, &self.args)
    }

    /// Appends the function's text at `indent` to `out`.
    pub fn fmt(&self, out: &mut String, indent: &str, unit: &str)
        ensures
            final(out)@ == old(out)@ + function_text(*self, indent@, unit@),
    {
        proof { reveal_strlit(""); }
        write_signature(out, indent, self.name.as_str(), "", &self.args, self.ret.name.as_str());
        write_body(out, &self.doc, indent, unit);
        assert(out@ =~= old(out)@ + function_text(*self, indent@, unit@));
    }

    /// The function's text at `indent`.
    pub fn render(&self, indent: &str, unit: &str) -> (r: String)
        ensures
            r@ == function_text(*self, indent@, unit@),
    {
        let mut out = String::new();
        self.fmt(&mut out, indent, unit);
        assert(out@ =~= function_text(*self, indent@, unit@));
        out
    }
}

} // verus!
