//! Module declarations: the import block and the text of a whole stub file.
use vstd::prelude::*;
use vstd::string::*;
use crate::class::{class_imports, class_text, ClassDef};
use crate::imports::{lemma_sorted_unique, strictly_sorted, ImportSet, ModuleRef, RefKey};
use crate::method::{callable_imports, function_text, FunctionDef};

verus! {

/// Declaration of a module: its qualified name, its classes and functions,
/// and the modules nested in it, each of which renders to text of its own.
pub struct ModuleDef {
    pub name: String,
    pub classes: Vec<ClassDef>,
    pub functions: Vec<FunctionDef>,
    pub submodules: Vec<ModuleDef>,
}

pub open spec fn classes_imports(cs: Seq<ClassDef>) -> Set<RefKey>
    decreases cs.len(),
{
    if cs.len() == 0 {
        Set::empty()
    } else {
        classes_imports(cs.drop_last()).union(class_imports(cs.last()))
    }
}

pub open spec fn functions_imports(fs: Seq<FunctionDef>) -> Set<RefKey>
    decreases fs.len(),
{
    if fs.len() == 0 {
        Set::empty()
    } else {
        functions_imports(fs.drop_last()).union(callable_imports(fs.last().ret, fs.last().args@))
    }
}

/// Everything that the module's classes and functions need.
pub open spec fn module_imports(m: ModuleDef) -> Set<RefKey> {
    classes_imports(m.classes@).union(functions_imports(m.functions@))
}

/// `path` names the module `name` itself or one nested in it.
pub open spec fn is_own(path: Seq<char>, name: Seq<char>) -> bool {
    path == name || (name + seq!['.']).is_prefix_of(path)
}

/// The keys in order, without those that name the module `name` or its descendants.
pub open spec fn elide_own(keys: Seq<RefKey>, name: Seq<char>) -> Seq<RefKey>
    decreases keys.len(),
{
    if keys.len() == 0 {
        Seq::empty()
    } else if is_own(keys.last().0, name) {
        elide_own(keys.drop_last(), name)
    } else {
        elide_own(keys.drop_last(), name).push(keys.last())
    }
}

/// `elide_own` keeps exactly the keys that do not name `name` or a module in it.
pub proof fn lemma_elide_own_contents(keys: Seq<RefKey>, name: Seq<char>)
    ensures
        forall|k: RefKey|
            #[trigger] elide_own(keys, name).contains(k) <==> keys.contains(k) && !is_own(
                k.0,
                name,
            ),
    decreases keys.len(),
{
    if keys.len() > 0 {
        let prev = keys.drop_last();
        lemma_elide_own_contents(prev, name);
        assert(keys =~= prev.push(keys.last()));
        assert forall|k: RefKey| #[trigger] keys.contains(k) <==> prev.contains(k) || k == keys.last() by {
            if keys.contains(k) {
                let i = choose|i: int| 0 <= i < keys.len() && keys[i] == k;
                if i < prev.len() {
                    assert(prev[i] == k);
                }
            }
            if prev.contains(k) {
                let i = choose|i: int| 0 <= i < prev.len() && prev[i] == k;
                assert(keys[i] == k);
            }
            if k == keys.last() {
                assert(keys[keys.len() - 1] == k);
            }
        }
        let e = elide_own(prev, name);
        assert forall|k: RefKey| #[trigger] e.push(keys.last()).contains(k) <==> e.contains(k) || k == keys.last() by {
            if e.push(keys.last()).contains(k) {
                let i = choose|i: int| 0 <= i < e.len() + 1 && e.push(keys.last())[i] == k;
                if i < e.len() {
                    assert(e[i] == k);
                }
            }
            if e.contains(k) {
                let i = choose|i: int| 0 <= i < e.len() && e[i] == k;
                assert(e.push(keys.last())[i] == k);
            }
            if k == keys.last() {
                assert(e.push(keys.last())[e.len() as int] == k);
            }
        }
    }
}

/// `import path`, or `from path import symbol`.
pub open spec fn import_line(k: RefKey) -> Seq<char> {
    match k.1 {
        None => "import "@ + k.0 + "\n"@,
        Some(s) => "from "@ + k.0 + " import "@ + s + "\n"@,
    }
}

pub open spec fn import_lines(keys: Seq<RefKey>) -> Seq<char>
    decreases keys.len(),
{
    if keys.len() == 0 {
        Seq::empty()
    } else {
        import_lines(keys.drop_last()) + import_line(keys.last())
    }
}

/// The one strictly sorted sequence that holds the keys of `s`.
pub open spec fn sorted_keys(s: Set<RefKey>) -> Seq<RefKey> {
    choose|q: Seq<RefKey>| strictly_sorted(q) && q.to_set() == s
}

/// The references that the module's import block lists, in order.
pub open spec fn header_keys(m: ModuleDef) -> Seq<RefKey> {
    elide_own(sorted_keys(module_imports(m)), m.name@)
}

/// The import block, followed by a blank line where it is not empty.
pub open spec fn header_text(m: ModuleDef) -> Seq<char> {
    let h = import_lines(header_keys(m));
    if h.len() == 0 {
        h
    } else {
        h + "\n"@
    }
}

/// Top-level classes, each followed by a blank line.
pub open spec fn classes_text(cs: Seq<ClassDef>, unit: Seq<char>) -> Seq<char>
    decreases cs.len(),
{
    if cs.len() == 0 {
        Seq::empty()
    } else {
        classes_text(cs.drop_last(), unit) + class_text(cs.last(), Seq::empty(), unit) + "\n"@
    }
}

/// Top-level functions, each followed by a blank line.
pub open spec fn functions_text(fs: Seq<FunctionDef>, unit: Seq<char>) -> Seq<char>
    decreases fs.len(),
{
    if fs.len() == 0 {
        Seq::empty()
    } else {
        functions_text(fs.drop_last(), unit) + function_text(fs.last(), Seq::empty(), unit)
            + "\n"@
    }
}

/// The stub text of a module whose indent unit is `unit`.
pub open spec fn module_text(m: ModuleDef, unit: Seq<char>) -> Seq<char> {
    header_text(m) + classes_text(m.classes@, unit) + functions_text(m.functions@, unit)
}

/// Decides `is_own(path@, name@)`.
pub fn is_within(path: &str, name: &str) -> (r: bool)
    ensures
        r == is_own(path@, name@),
{
    let lp = path.unicode_len();
    let ln = name.unicode_len();
    if lp < ln {
        proof {
            if path@ == name@ {
                assert(false);
            }
        }
        return false;
    }
    let mut i: usize = 0;
    while i < ln
        invariant
            lp == path@.len(),
            ln == name@.len(),
            ln <= lp,
            i <= ln,
            forall|j: int| 0 <= j < i ==> path@[j] == name@[j],
        decreases ln - i,
    {
        if path.get_char(i) != name.get_char(i) {
            proof {
                assert(path@ != name@);
                assert((name@ + seq!['.'])[i as int] == name@[i as int]);
            }
            return false;
        }
        i = i + 1;
    }
    if lp == ln {
        assert(path@ =~= name@);
        return true;
    }
    let c = path.get_char(ln);
    assert(path@ != name@);
    proof {
        assert((name@ + seq!['.'])[ln as int] == '.');
    }
    if c == '.' {
        assert((name@ + seq!['.']) =~= path@.subrange(0, ln + 1));
    }
    c == '.'
}

/// Appends `import_line(r@)` to `out`.
fn write_import_line(out: &mut String, r: &ModuleRef)
    ensures
        final(out)@ == old(out)@ + import_line(r@),
{
    proof {
        reveal_strlit("import ");
        reveal_strlit("from ");
        reveal_strlit(" import ");
        reveal_strlit("\n");
    }
    match &r.symbol {
        None => {
            out.append("import ");
            out.append(r.path.as_str());
        },
        Some(s) => {
            out.append("from ");
            out.append(r.path.as_str());
            out.append(" import ");
            out.append(s.as_str());
        },
    }
    out.append("\n");
    assert(out@ =~= old(out)@ + import_line(r@));
}

impl ModuleDef {
    pub open spec fn wf(&self) -> bool {
        &&& forall|i: int| 0 <= i < self.classes@.len() ==> (#[trigger] self.classes@[i]).wf()
        &&& forall|i: int| 0 <= i < self.functions@.len() ==> (#[trigger] self.functions@[i]).wf()
    }

    /// Everything the module's classes and functions need, its own
    /// references included.
    pub fn import(&self) -> (r: ImportSet)
        requires
            self.wf(),
        ensures
            r.wf(),
            r@ == module_imports(*self),
    {
        let mut acc = ImportSet::new();
        let mut i: usize = 0;
        while i < self.classes.len()
            invariant
                self.wf(),
                i <= self.classes.len(),
                acc.wf(),
                acc@ == classes_imports(self.classes@.subrange(0, i as int)),
            decreases self.classes.len() - i,
        {
            self.classes[i].import_into(&mut acc);
            assert(self.classes@.subrange(0, i + 1).drop_last() =~= self.classes@.subrange(
                0,
                i as int,
            ));
            i = i + 1;
        }
        assert(self.classes@.subrange(0, self.classes.len() as int) =~= self.classes@);
        let ghost mid = acc@;
        let mut j: usize = 0;
        while j < self.functions.len()
            invariant
                self.wf(),
                j <= self.functions.len(),
                acc.wf(),
                acc@ == mid.union(functions_imports(self.functions@.subrange(0, j as int))),
            decreases self.functions.len() - j,
        {
            let fi = self.functions[j].import();
            acc.merge(&fi);
            assert(self.functions@.subrange(0, j + 1).drop_last() =~= self.functions@.subrange(
                0,
                j as int,
            ));
            assert(acc@ =~= mid.union(functions_imports(self.functions@.subrange(0, j + 1))));
            j = j + 1;
        }
        assert(self.functions@.subrange(0, self.functions.len() as int) =~= self.functions@);
        acc
    }

    /// The import block: each reference in order, but those to the module
    /// itself or to modules nested in it.
    pub fn write_header(&self, out: &mut String)
        requires
            self.wf(),
        ensures
            final(out)@ == old(out)@ + header_text(*self),
            forall|k: RefKey|
                #[trigger] header_keys(*self).contains(k) <==> module_imports(*self).contains(k)
                    && !is_own(k.0, self.name@),
    {
        let imp = self.import();
        proof {
            lemma_sorted_unique(sorted_keys(module_imports(*self)), imp.keys());
            lemma_elide_own_contents(imp.keys(), self.name@);
            assert forall|k: RefKey| imp.keys().contains(k) <==> #[trigger] imp@.contains(k) by {}
        }
        let ghost keys = imp.keys();
        let ghost start = out@;
        let mut wrote = false;
        let mut i: usize = 0;
        while i < imp.refs.len()
            invariant
                i <= imp.refs.len(),
                wrote == (out@.len() > start.len()),
                keys == imp.keys(),
                out@ == start + import_lines(elide_own(keys.subrange(0, i as int), self.name@)),
            decreases imp.refs.len() - i,
        {
            assert(keys.subrange(0, i + 1).drop_last() =~= keys.subrange(0, i as int));
            if !is_within(imp.refs[i].path.as_str(), self.name.as_str()) {
                write_import_line(out, &imp.refs[i]);
                proof { reveal_strlit("\n"); }
                wrote = true;
                let ghost e = elide_own(keys.subrange(0, i as int), self.name@);
                assert(e.push(keys[i as int]).drop_last() =~= e);
            }
            i = i + 1;
        }
        assert(keys.subrange(0, imp.refs.len() as int) =~= keys);
        if wrote {
            out.append("\n");
            proof { reveal_strlit("\n"); }
        }
        assert(out@ =~= old(out)@ + header_text(*self));
    }

    /// The module's stub text, with `unit` as the indent of each nesting level.
    pub fn render(&self, unit: &str) -> (r: String)
        requires
            self.wf(),
        ensures
            r@ == module_text(*self, unit@),
            forall|k: RefKey|
                #[trigger] header_keys(*self).contains(k) <==> module_imports(*self).contains(k)
                    && !is_own(k.0, self.name@),
    {
        proof {
            reveal_strlit("\n");
            reveal_strlit("");
        }
        assert(""@ =~= Seq::<char>::empty());
        let mut out = String::new();
        self.write_header(&mut out);
        let ghost after_header = out@;
        let mut i: usize = 0;
        while i < self.classes.len()
            invariant
                i <= self.classes.len(),
                out@ == after_header + classes_text(self.classes@.subrange(0, i as int), unit@),
            decreases self.classes.len() - i,
        {
            proof {
                reveal_strlit("\n");
                reveal_strlit("");
                assert(""@ =~= Seq::<char>::empty());
            }
            self.classes[i].fmt(&mut out, "", unit);
            out.append("\n");
            assert(self.classes@.subrange(0, i + 1).drop_last() =~= self.classes@.subrange(
                0,
                i as int,
            ));
            assert(out@ =~= after_header + classes_text(self.classes@.subrange(0, i + 1), unit@));
            i = i + 1;
        }
        assert(self.classes@.subrange(0, self.classes.len() as int) =~= self.classes@);
        let ghost after_classes = out@;
        let mut j: usize = 0;
        while j < self.functions.len()
            invariant
                j <= self.functions.len(),
                out@ == after_classes + functions_text(
                    self.functions@.subrange(0, j as int),
                    unit@,
                ),
            decreases self.functions.len() - j,
        {
            proof {
                reveal_strlit("\n");
                reveal_strlit("");
                assert(""@ =~= Seq::<char>::empty());
            }
            self.functions[j].fmt(&mut out, "", unit);
            out.append("\n");
            assert(self.functions@.subrange(0, j + 1).drop_last() =~= self.functions@.subrange(
                0,
                j as int,
            ));
            assert(out@ =~= after_classes + functions_text(
                self.functions@.subrange(0, j + 1),
                unit@,
            ));
            j = j + 1;
        }
        assert(self.functions@.subrange(0, self.functions.len() as int) =~= self.functions@);
        assert(out@ =~= module_text(*self, unit@));
        out
    }
}


/// Every module of the tree is well formed.
pub open spec fn tree_wf(m: ModuleDef) -> bool
    decreases m, 1int, 0int,
{
    m.wf() && forest_wf(m, m.submodules@.len() as int)
}

/// The first `n` modules nested in `m` are well formed, with all they hold.
pub open spec fn forest_wf(m: ModuleDef, n: int) -> bool
    decreases m, 0int, n,
{
    if n <= 0 || n > m.submodules@.len() {
        true
    } else {
        forest_wf(m, n - 1) && tree_wf(m.submodules@[n - 1])
    }
}

proof fn lemma_forest_wf_at(m: ModuleDef, n: int, i: int)
    requires
        forest_wf(m, n),
        0 <= i < n <= m.submodules@.len(),
    ensures
        tree_wf(m.submodules@[i]),
    decreases n,
{
    if i < n - 1 {
        lemma_forest_wf_at(m, n - 1, i);
    }
}

/// Name and text of `m` and then of each module nested in it, depth first.
pub open spec fn tree_texts(m: ModuleDef, unit: Seq<char>) -> Seq<(Seq<char>, Seq<char>)>
    decreases m, 1int, 0int,
{
    seq![(m.name@, module_text(m, unit))] + forest_texts(m, m.submodules@.len() as int, unit)
}

/// `tree_texts` of the first `n` modules nested in `m`, in order.
pub open spec fn forest_texts(m: ModuleDef, n: int, unit: Seq<char>) -> Seq<(Seq<char>, Seq<char>)>
    decreases m, 0int, n,
{
    if n <= 0 || n > m.submodules@.len() {
        Seq::empty()
    } else {
        forest_texts(m, n - 1, unit) + tree_texts(m.submodules@[n - 1], unit)
    }
}

/// The names and texts as characters.
pub open spec fn texts_view(v: Seq<(String, String)>) -> Seq<(Seq<char>, Seq<char>)> {
    v.map_values(|p: (String, String)| (p.0@, p.1@))
}

impl ModuleDef {
    /// Appends the name and text of this module, then of each module nested
    /// in it, depth first.
    pub fn render_tree_into(&self, unit: &str, out: &mut Vec<(String, String)>)
        requires
            tree_wf(*self),
        ensures
            texts_view(final(out)@) == texts_view(old(out)@) + tree_texts(*self, unit@),
        decreases self,
    {
        let text = self.render(unit);
        out.push((self.name.clone(), text));
        let ghost start = texts_view(old(out)@);
        assert(texts_view(out@) =~= start + seq![(self.name@, module_text(*self, unit@))]);
        let mut i: usize = 0;
        while i < self.submodules.len()
            invariant
                tree_wf(*self),
                i <= self.submodules.len(),
                texts_view(out@) == start + seq![(self.name@, module_text(*self, unit@))]
                    + forest_texts(*self, i as int, unit@),
            decreases self.submodules.len() - i,
        {
            proof {
                lemma_forest_wf_at(*self, self.submodules@.len() as int, i as int);
            }
            self.submodules[i].render_tree_into(unit, out);
            assert(texts_view(out@) =~= start + seq![(self.name@, module_text(*self, unit@))]
                + forest_texts(*self, i + 1, unit@));
            i = i + 1;
        }
    }

    /// The name and text of every module of the tree, depth first; each
    /// name is qualified by its parent's, which gives the nesting.
    pub fn render_tree(&self, unit: &str) -> (r: Vec<(String, String)>)
        requires
            tree_wf(*self),
        ensures
            texts_view(r@) == tree_texts(*self, unit@),
    {
        let mut out: Vec<(String, String)> = Vec::new();
        self.render_tree_into(unit, &mut out);
        assert(texts_view(out@) =~= tree_texts(*self, unit@));
        out
    }
}

} // verus!
