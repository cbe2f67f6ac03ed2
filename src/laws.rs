//! Properties that hold of every declaration tree.
use vstd::prelude::*;
use crate::method::{
    body_text, decorator_text, method_text, receiver_text, signature_text, MethodDef, MethodType,
};
use crate::class::{base_imports, class_imports, ClassDef};
use crate::imports::RefKey;
use crate::module::{
    classes_imports, elide_own, header_keys, is_own, module_imports, module_text, ModuleDef,
};
use crate::text::doc_block;

verus! {

/// Rendering is deterministic: two renders of one unchanged module, with one
/// indent unit, give the same text.
pub proof fn lemma_render_deterministic(m: ModuleDef, unit: Seq<char>, first: String, second: String)
    requires
        first@ == module_text(m, unit),
        second@ == module_text(m, unit),
    ensures
        first@ == second@,
{
}

/// No key that `elide_own` keeps names the module or one nested in it.
pub proof fn lemma_elide_own_excludes(keys: Seq<(Seq<char>, Option<Seq<char>>)>, name: Seq<char>)
    ensures
        forall|i: int|
            0 <= i < elide_own(keys, name).len() ==> !is_own(
                (#[trigger] elide_own(keys, name)[i]).0,
                name,
            ),
    decreases keys.len(),
{
    if keys.len() > 0 {
        lemma_elide_own_excludes(keys.drop_last(), name);
        let prev = elide_own(keys.drop_last(), name);
        if !is_own(keys.last().0, name) {
            assert forall|i: int| 0 <= i < prev.push(keys.last()).len() implies !is_own(
                (#[trigger] prev.push(keys.last())[i]).0,
                name,
            ) by {
                if i < prev.len() {
                    assert(prev.push(keys.last())[i] == prev[i]);
                }
            }
        }
    }
}

/// A module never imports itself: no reference in its import block names the
/// module or a module nested in it, so a class's reference to its own type
/// stays out of the block.
pub proof fn lemma_self_reference_elided(m: ModuleDef)
    ensures
        forall|i: int|
            0 <= i < header_keys(m).len() ==> (#[trigger] header_keys(m)[i]).0 != m.name@
                && !is_own(header_keys(m)[i].0, m.name@),
{
    lemma_elide_own_excludes(crate::module::sorted_keys(crate::module::module_imports(m)), m.name@);
}

/// Each method kind fixes the decorator and the receiver: a static method has
/// a `staticmethod` decorator and no receiver; an instance method the `self`
/// receiver and no decorator; a class method the `cls` receiver and a
/// `classmethod` decorator; the constructor the `cls` receiver and no decorator.
pub proof fn lemma_method_kind(m: MethodDef, indent: Seq<char>, unit: Seq<char>)
    ensures
        m.kind == MethodType::Static ==> method_text(m, indent, unit) == indent + "@staticmethod\n"@
            + indent + signature_text(m.name@, Seq::empty(), m.args@, m.ret.name@) + body_text(
            m.doc@,
            indent + unit,
        ),
        m.kind == MethodType::Instance ==> method_text(m, indent, unit) == indent + signature_text(
            m.name@,
            "self"@,
            m.args@,
            m.ret.name@,
        ) + body_text(m.doc@, indent + unit),
        m.kind == MethodType::Class ==> method_text(m, indent, unit) == indent + "@classmethod\n"@
            + indent + signature_text(m.name@, "cls"@, m.args@, m.ret.name@) + body_text(
            m.doc@,
            indent + unit,
        ),
        m.kind == MethodType::New ==> method_text(m, indent, unit) == indent + signature_text(
            m.name@,
            "cls"@,
            m.args@,
            m.ret.name@,
        ) + body_text(m.doc@, indent + unit),
{
    assert(Seq::<char>::empty() + indent =~= indent);
}

/// Documentation decides the body: without it the signature line ends in the
/// ` ...` placeholder; with it a documentation block follows on the next
/// lines, one unit deeper, and no placeholder is written.
pub proof fn lemma_doc_toggles_body(m: MethodDef, indent: Seq<char>, unit: Seq<char>)
    ensures
        m.doc@.len() == 0 ==> method_text(m, indent, unit) == decorator_text(m.kind, indent)
            + indent + signature_text(m.name@, receiver_text(m.kind), m.args@, m.ret.name@)
            + " ...\n"@,
        m.doc@.len() > 0 ==> method_text(m, indent, unit) == decorator_text(m.kind, indent)
            + indent + signature_text(m.name@, receiver_text(m.kind), m.args@, m.ret.name@)
            + "\n"@ + doc_block(m.doc@, indent + unit),
        m.doc@.len() > 0 ==> doc_block(m.doc@, indent + unit).len() > 0,
{
    reveal_strlit("\"\"\"\n");
}

/// Every reference of every class of `cs` is in their union.
pub proof fn lemma_classes_imports_include(cs: Seq<ClassDef>, i: int, k: RefKey)
    requires
        0 <= i < cs.len(),
        class_imports(cs[i]).contains(k),
    ensures
        classes_imports(cs).contains(k),
    decreases cs.len(),
{
    if i < cs.len() - 1 {
        lemma_classes_imports_include(cs.drop_last(), i, k);
    }
}

/// A class's base joins the module's imports: each reference that the base
/// needs is in the module's aggregated set, and so in its import block unless
/// it names the module itself or a module nested in it.
pub proof fn lemma_base_imports_aggregated(m: ModuleDef, i: int, k: RefKey)
    requires
        0 <= i < m.classes@.len(),
        base_imports(m.classes@[i]).contains(k),
    ensures
        module_imports(m).contains(k),
{
    lemma_classes_imports_include(m.classes@, i, k);
}

} // verus!
