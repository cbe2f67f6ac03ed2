use stub_render::class::ClassDef;
use stub_render::imports::{ImportSet, ModuleRef};
use stub_render::member::{Arg, ArgMarker, MemberDef, TypeRef};
use stub_render::method::{FunctionDef, MethodDef, MethodType};
use stub_render::module::{is_within, ModuleDef};

fn int_type() -> TypeRef {
    TypeRef::builtin("int")
}

fn imported(name: &str, refs: Vec<ModuleRef>) -> TypeRef {
    let mut import = ImportSet::new();
    for r in refs {
        import.insert(r);
    }
    TypeRef { name: name.to_string(), import }
}

fn method(name: &str, kind: MethodType, args: Vec<Arg>, ret: TypeRef, doc: Vec<&str>) -> MethodDef {
    MethodDef {
        name: name.to_string(),
        args,
        ret,
        doc: doc.into_iter().map(|s| s.to_string()).collect(),
        kind,
    }
}

fn arg(name: &str, ty: TypeRef, default: Option<&str>, marker: ArgMarker) -> Arg {
    Arg { name: name.to_string(), ty, default: default.map(|d| d.to_string()), marker }
}

fn paths(set: &ImportSet) -> Vec<(String, Option<String>)> {
    set.refs.iter().map(|r| (r.path.clone(), r.symbol.clone())).collect()
}

#[test]
fn member_without_default_or_doc() {
    let m = MemberDef { name: "value".to_string(), ty: int_type(), default: None, doc: vec![] };
    assert_eq!(m.render(""), "value: int\n");
}

#[test]
fn member_with_default_and_doc() {
    let m = MemberDef {
        name: "value".to_string(),
        ty: int_type(),
        default: Some("0".to_string()),
        doc: vec!["the stored value".to_string()],
    };
    assert_eq!(m.render(""), "value: int = 0\nr\"\"\"\nthe stored value\n\"\"\"\n");
    assert_eq!(
        m.render("    "),
        "    value: int = 0\n    r\"\"\"\n    the stored value\n    \"\"\"\n"
    );
}

#[test]
fn member_import_is_its_type_import() {
    let m = MemberDef {
        name: "when".to_string(),
        ty: imported("datetime.date", vec![ModuleRef::module("datetime")]),
        default: None,
        doc: vec![],
    };
    assert_eq!(paths(&m.import()), vec![("datetime".to_string(), None)]);
}

#[test]
fn instance_method_without_doc() {
    let m = method("get_name", MethodType::Instance, vec![], TypeRef::builtin("str"), vec![]);
    assert_eq!(m.render("", "    "), "def get_name(self) -> str: ...\n");
}

#[test]
fn static_method_has_decorator_and_no_receiver() {
    let m = method("create", MethodType::Static, vec![], TypeRef::builtin("Foo"), vec![]);
    assert_eq!(m.render("", "    "), "@staticmethod\ndef create() -> Foo: ...\n");
}

#[test]
fn class_method_has_decorator_and_cls() {
    let m = method(
        "build",
        MethodType::Class,
        vec![arg("n", int_type(), None, ArgMarker::Regular)],
        TypeRef::builtin("Foo"),
        vec![],
    );
    assert_eq!(m.render("    ", "    "), "    @classmethod\n    def build(cls, n: int) -> Foo: ...\n");
}

#[test]
fn constructor_has_cls_and_no_decorator() {
    let m = method("__new__", MethodType::New, vec![], TypeRef::builtin("Foo"), vec![]);
    assert_eq!(m.render("", "    "), "def __new__(cls) -> Foo: ...\n");
}

#[test]
fn documented_method_has_block_and_no_placeholder() {
    let m = method(
        "area",
        MethodType::Instance,
        vec![],
        TypeRef::builtin("float"),
        vec!["Area of the shape.", "In square units."],
    );
    assert_eq!(
        m.render("    ", "    "),
        "    def area(self) -> float:\n        r\"\"\"\n        Area of the shape.\n        In square units.\n        \"\"\"\n"
    );
}

#[test]
fn arguments_keep_order_defaults_and_separators() {
    let args = vec![
        arg("a", int_type(), None, ArgMarker::LastPositionalOnly),
        arg("b", int_type(), Some("1"), ArgMarker::Regular),
        arg("c", TypeRef::builtin("str"), Some("\"x\""), ArgMarker::FirstKeywordOnly),
    ];
    let f = FunctionDef {
        name: "f".to_string(),
        args,
        ret: TypeRef::builtin("None"),
        doc: vec![],
    };
    assert_eq!(
        f.render("", "    "),
        "def f(a: int, /, b: int = 1, *, c: str = \"x\") -> None: ...\n"
    );
}

#[test]
fn method_import_joins_return_and_arguments() {
    let m = method(
        "load",
        MethodType::Static,
        vec![
            arg("p", imported("pathlib.Path", vec![ModuleRef::module("pathlib")]), None, ArgMarker::Regular),
            arg("q", imported("pathlib.Path", vec![ModuleRef::module("pathlib")]), None, ArgMarker::Regular),
        ],
        imported("typing.Any", vec![ModuleRef::module("typing")]),
        vec![],
    );
    assert_eq!(
        paths(&m.import()),
        vec![("pathlib".to_string(), None), ("typing".to_string(), None)]
    );
}

#[test]
fn import_set_sorts_and_deduplicates() {
    let mut s = ImportSet::new();
    s.insert(ModuleRef::symbol("typing", "Optional"));
    s.insert(ModuleRef::module("collections"));
    s.insert(ModuleRef::symbol("typing", "Any"));
    s.insert(ModuleRef::module("typing"));
    s.insert(ModuleRef::module("collections"));
    assert_eq!(
        paths(&s),
        vec![
            ("collections".to_string(), None),
            ("typing".to_string(), None),
            ("typing".to_string(), Some("Any".to_string())),
            ("typing".to_string(), Some("Optional".to_string())),
        ]
    );
}

#[test]
fn merging_in_either_order_gives_the_same_set() {
    let mut a = ImportSet::new();
    a.insert(ModuleRef::module("os"));
    a.insert(ModuleRef::module("abc"));
    let mut b = ImportSet::new();
    b.insert(ModuleRef::module("zlib"));
    b.insert(ModuleRef::module("abc"));
    let mut ab = a.duplicate();
    ab.merge(&b);
    let mut ba = b.duplicate();
    ba.merge(&a);
    let mut twice = ab.duplicate();
    twice.merge(&ab);
    assert_eq!(paths(&ab), paths(&ba));
    assert_eq!(paths(&ab), paths(&twice));
    assert_eq!(paths(&ab).len(), 3);
}

#[test]
fn class_with_base_from_another_module() {
    let c = ClassDef {
        name: "Child".to_string(),
        base: Some(imported("base.Parent", vec![ModuleRef::module("base")])),
        members: vec![],
        methods: vec![],
        doc: vec![],
    };
    let m = ModuleDef {
        name: "pkg".to_string(),
        classes: vec![c],
        functions: vec![],
        submodules: vec![],
    };
    assert_eq!(paths(&m.import()), vec![("base".to_string(), None)]);
    assert_eq!(m.render("    "), "import base\n\nclass Child(base.Parent):\n    ...\n\n");
}

#[test]
fn class_with_base_in_the_same_module() {
    let parent = ClassDef {
        name: "Parent".to_string(),
        base: None,
        members: vec![],
        methods: vec![],
        doc: vec![],
    };
    let child = ClassDef {
        name: "Child".to_string(),
        base: Some(imported("Parent", vec![ModuleRef::module("pkg")])),
        members: vec![],
        methods: vec![],
        doc: vec![],
    };
    let m = ModuleDef {
        name: "pkg".to_string(),
        classes: vec![parent, child],
        functions: vec![],
        submodules: vec![],
    };
    assert_eq!(m.render("    "), "class Parent:\n    ...\n\nclass Child(Parent):\n    ...\n\n");
}

#[test]
fn self_reference_is_not_imported() {
    let make = MethodDef {
        name: "clone_of".to_string(),
        args: vec![arg("other", imported("Node", vec![ModuleRef::module("tree.nodes")]), None, ArgMarker::Regular)],
        ret: imported("Node", vec![ModuleRef::module("tree")]),
        doc: vec![],
        kind: MethodType::Static,
    };
    let c = ClassDef {
        name: "Node".to_string(),
        base: None,
        members: vec![MemberDef {
            name: "parent".to_string(),
            ty: imported("typing.Optional[Node]", vec![ModuleRef::module("typing"), ModuleRef::module("tree")]),
            default: None,
            doc: vec![],
        }],
        methods: vec![make],
        doc: vec!["A node.".to_string()],
    };
    let m = ModuleDef {
        name: "tree".to_string(),
        classes: vec![c],
        functions: vec![],
        submodules: vec![],
    };
    assert_eq!(
        m.render("    "),
        "import typing\n\nclass Node:\n    r\"\"\"\n    A node.\n    \"\"\"\n    parent: typing.Optional[Node]\n    @staticmethod\n    def clone_of(other: Node) -> Node: ...\n\n"
    );
}

#[test]
fn render_twice_is_identical() {
    let f = FunctionDef {
        name: "sum".to_string(),
        args: vec![arg("xs", imported("typing.List[int]", vec![ModuleRef::module("typing")]), None, ArgMarker::Regular)],
        ret: int_type(),
        doc: vec!["Adds them up.".to_string()],
    };
    let m = ModuleDef {
        name: "calc".to_string(),
        classes: vec![],
        functions: vec![f],
        submodules: vec![],
    };
    let first = m.render("  ");
    let second = m.render("  ");
    assert_eq!(first, second);
    assert_eq!(
        first,
        "import typing\n\ndef sum(xs: typing.List[int]) -> int:\n  r\"\"\"\n  Adds them up.\n  \"\"\"\n\n"
    );
}

#[test]
fn symbol_imports_render_as_from_lines() {
    let f = FunctionDef {
        name: "f".to_string(),
        args: vec![],
        ret: imported("Any", vec![ModuleRef::symbol("typing", "Any")]),
        doc: vec![],
    };
    let m = ModuleDef { name: "m".to_string(), classes: vec![], functions: vec![f], submodules: vec![] };
    assert_eq!(m.render("    "), "from typing import Any\n\ndef f() -> Any: ...\n\n");
}

#[test]
fn nested_module_paths_are_own() {
    assert!(is_within("pkg", "pkg"));
    assert!(is_within("pkg.sub", "pkg"));
    assert!(!is_within("pkgs", "pkg"));
    assert!(!is_within("pk", "pkg"));
    assert!(!is_within("other", "pkg"));
}

#[test]
fn empty_class_with_members_has_no_placeholder() {
    let c = ClassDef {
        name: "P".to_string(),
        base: None,
        members: vec![MemberDef { name: "x".to_string(), ty: int_type(), default: None, doc: vec![] }],
        methods: vec![],
        doc: vec![],
    };
    assert_eq!(c.render("", "    "), "class P:\n    x: int\n");
}

#[test]
fn empty_module_renders_nothing() {
    let m = ModuleDef { name: "e".to_string(), classes: vec![], functions: vec![], submodules: vec![] };
    assert_eq!(m.render("    "), "");
}

#[test]
fn tree_lists_each_module_depth_first() {
    let leaf = ModuleDef {
        name: "pkg.sub.leaf".to_string(),
        classes: vec![],
        functions: vec![FunctionDef { name: "g".to_string(), args: vec![], ret: int_type(), doc: vec![] }],
        submodules: vec![],
    };
    let sub = ModuleDef {
        name: "pkg.sub".to_string(),
        classes: vec![],
        functions: vec![],
        submodules: vec![leaf],
    };
    let other = ModuleDef {
        name: "pkg.other".to_string(),
        classes: vec![],
        functions: vec![FunctionDef {
            name: "h".to_string(),
            args: vec![],
            ret: imported("pkg.sub.leaf.T", vec![ModuleRef::module("pkg.sub.leaf")]),
            doc: vec![],
        }],
        submodules: vec![],
    };
    let root = ModuleDef {
        name: "pkg".to_string(),
        classes: vec![],
        functions: vec![],
        submodules: vec![sub, other],
    };
    let all = root.render_tree("    ");
    let names: Vec<&str> = all.iter().map(|(n, _)| n.as_str()).collect();
    assert_eq!(names, vec!["pkg", "pkg.sub", "pkg.sub.leaf", "pkg.other"]);
    assert_eq!(all[0].1, "");
    assert_eq!(all[2].1, "def g() -> int: ...\n\n");
    assert_eq!(all[3].1, "import pkg.sub.leaf\n\ndef h() -> pkg.sub.leaf.T: ...\n\n");
}
