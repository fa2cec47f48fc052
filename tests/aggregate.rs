use capibara::document::{aggregate, Tree};
use capibara::fragment::{classify, entity_name_of, header_ref, header_summary, FragmentKind};
use capibara::loader::{
    discover_enums, discover_headers, discover_structs, discover_typedefs, Boundary, Diagnostic,
    FragmentFile, HeaderDir,
};
use capibara::affinity::{get_header_os_affinity, merge_tags, AffinityMap};
use capibara::model::{
    EnumVariant, Fragment, FunctionSignature, MacroKind, Return, StructField, TypedefRef,
    TypedefSource,
};
use capibara::reference::{resolve_parts, resolve_reference};
use capibara::text::{parent_of, stem_of, str_le};
use capibara::walk::{DirEntryInfo, WalkStep, Walker};

fn s(x: &str) -> String {
    x.to_string()
}

fn tags(xs: &[&str]) -> Vec<String> {
    xs.iter().map(|x| x.to_string()).collect()
}

fn boundary(path: &str) -> Boundary {
    Boundary { path: s(path), summary: Some(s("summary")) }
}

fn fragment<D>(os: &[&str], detail: D) -> Fragment<D> {
    Fragment { summary: s("sum"), description: s("desc"), os_affinity: tags(os), detail }
}

fn file<D>(name: &str, parsed: Option<Fragment<D>>) -> FragmentFile<D> {
    FragmentFile { file_name: s(name), parsed }
}

fn fields(names: &[&str]) -> Vec<StructField> {
    names
        .iter()
        .map(|n| StructField { name: s(n), field_type: s("int"), description: s("") })
        .collect()
}

fn typedef_file(name: &str, reference: &str) -> FragmentFile<TypedefSource> {
    file(
        name,
        Some(fragment(
            &[],
            TypedefSource { underlying: s("struct Point"), associated_ref: s(reference) },
        )),
    )
}

fn geometry_tree(reference: &str) -> Tree {
    let b = "/r/geometry/meta.yaml";
    Tree {
        boundaries: vec![boundary(b)],
        macros: vec![HeaderDir { boundary: boundary(b), files: vec![] }],
        enums: vec![HeaderDir { boundary: boundary(b), files: vec![] }],
        structs: vec![HeaderDir {
            boundary: boundary(b),
            files: vec![file("st-Point.yaml", Some(fragment(&["linux"], fields(&["x", "y"]))))],
        }],
        typedefs: vec![HeaderDir {
            boundary: boundary(b),
            files: vec![typedef_file("tf-PointAlias.yaml", reference)],
        }],
        functions: vec![HeaderDir { boundary: boundary(b), files: vec![] }],
    }
}

#[test]
fn single_header_struct_and_alias() {
    let (doc, diags) = aggregate(&s("/r"), &geometry_tree("geometry/Point"), s("now"), s("url"));
    assert!(diags.is_empty());
    assert_eq!(doc.headers.len(), 1);
    assert_eq!(doc.headers[0].header_ref, "geometry");
    assert_eq!(doc.headers[0].name, "geometry.h");
    assert_eq!(doc.headers[0].os_affinity, tags(&["linux"]));
    assert_eq!(doc.structs.len(), 1);
    assert_eq!(doc.structs[0].name, "Point");
    assert_eq!(doc.typedefs.len(), 1);
    assert_eq!(doc.typedefs[0].name, "PointAlias");
    match &doc.typedefs[0].detail.associated_ref {
        TypedefRef::Structure(st) => {
            assert_eq!(format!("{:?}", st), format!("{:?}", doc.structs[0]));
            assert_eq!(st.detail.len(), 2);
            assert_eq!(st.detail[0].name, "x");
            assert_eq!(st.detail[1].name, "y");
        }
        other => panic!("unexpected {:?}", other),
    }
}

#[test]
fn empty_reference_resolves_to_nothing() {
    let (doc, diags) = aggregate(&s("/r"), &geometry_tree(""), s("now"), s("url"));
    assert!(diags.is_empty());
    assert!(matches!(doc.typedefs[0].detail.associated_ref, TypedefRef::Unresolved));
}

#[test]
fn missing_reference_reports_once() {
    let (doc, diags) = aggregate(&s("/r"), &geometry_tree("missing/Thing"), s("now"), s("url"));
    assert_eq!(doc.typedefs.len(), 1);
    assert!(matches!(doc.typedefs[0].detail.associated_ref, TypedefRef::Unresolved));
    assert_eq!(diags.len(), 1);
    match &diags[0] {
        Diagnostic::UnresolvedReference(r) => assert_eq!(r, "missing/Thing"),
        other => panic!("unexpected {:?}", other),
    }
}

#[test]
fn malformed_reference_stops_the_alias_pass() {
    let b = "/r/geometry/meta.yaml";
    let dirs = vec![HeaderDir {
        boundary: boundary(b),
        files: vec![typedef_file("tf-A.yaml", "a/B"), typedef_file("tf-B.yaml", "noslash"), typedef_file("tf-C.yaml", "")],
    }];
    let mut aff = AffinityMap::new();
    let r = discover_typedefs(&s("/r"), &dirs, &mut aff, &vec![], &vec![]);
    assert_eq!(r.items.len(), 1);
    assert_eq!(r.items[0].name, "A");
    assert_eq!(r.diagnostics.len(), 2);
    assert!(matches!(&r.diagnostics[0], Diagnostic::UnresolvedReference(x) if x == "a/B"));
    assert!(matches!(&r.diagnostics[1], Diagnostic::MalformedReference(x) if x == "noslash"));
}

#[test]
fn run_twice_gives_the_same_document() {
    let (a, da) = aggregate(&s("/r"), &geometry_tree("geometry/Point"), s("t1"), s("url"));
    let (b, db) = aggregate(&s("/r"), &geometry_tree("geometry/Point"), s("t2"), s("url"));
    assert_eq!(format!("{:?}", a.headers), format!("{:?}", b.headers));
    assert_eq!(format!("{:?}", a.structs), format!("{:?}", b.structs));
    assert_eq!(format!("{:?}", a.typedefs), format!("{:?}", b.typedefs));
    assert_eq!(format!("{:?}", a.macros), format!("{:?}", b.macros));
    assert_eq!(format!("{:?}", a.functions), format!("{:?}", b.functions));
    assert_eq!(format!("{:?}", da), format!("{:?}", db));
    assert_eq!(a.build_date, "t1");
    assert_eq!(b.build_date, "t2");
}

fn entry(path: &str, name: &str, is_dir: bool) -> DirEntryInfo {
    DirEntryInfo { path: s(path), file_name: s(name), is_dir }
}

fn listing_of(path: &str) -> Vec<DirEntryInfo> {
    match path {
        "/r/parent" => vec![
            entry("/r/parent/meta.yaml", "meta.yaml", false),
            entry("/r/parent/st-A.yaml", "st-A.yaml", false),
            entry("/r/parent/child", "child", true),
        ],
        "/r/parent/child" => vec![
            entry("/r/parent/child/meta.yaml", "meta.yaml", false),
            entry("/r/parent/child/st-B.yaml", "st-B.yaml", false),
        ],
        _ => vec![],
    }
}

fn walk(root_listing: Vec<DirEntryInfo>) -> Vec<String> {
    let mut w = Walker::new(root_listing);
    loop {
        match w.step() {
            WalkStep::ReadDir(p) => w.enter(listing_of(&p)),
            WalkStep::Continue => {}
            WalkStep::Done => break,
        }
    }
    w.found()
}

#[test]
fn nested_headers_keep_their_own_affinity() {
    let found = walk(vec![entry("/r/parent", "parent", true)]);
    assert_eq!(found, vec![s("/r/parent/meta.yaml"), s("/r/parent/child/meta.yaml")]);
    let dirs = vec![
        HeaderDir {
            boundary: boundary(&found[0]),
            files: vec![file("st-A.yaml", Some(fragment(&["linux"], fields(&["a"]))))],
        },
        HeaderDir {
            boundary: boundary(&found[1]),
            files: vec![file("st-B.yaml", Some(fragment(&["macos"], fields(&["b"]))))],
        },
    ];
    let mut aff = AffinityMap::new();
    let structs = discover_structs(&s("/r"), &dirs, &mut aff);
    assert_eq!(structs.items.len(), 2);
    let bs: Vec<Boundary> = found.iter().map(|p| boundary(p)).collect();
    let headers = discover_headers(&s("/r"), &bs, &aff);
    assert_eq!(headers.items.len(), 2);
    assert_eq!(headers.items[0].header_ref, "parent");
    assert_eq!(headers.items[0].os_affinity, tags(&["linux"]));
    assert_eq!(headers.items[1].header_ref, "parent/child");
    assert_eq!(headers.items[1].os_affinity, tags(&["macos"]));
}

#[test]
fn walk_records_each_boundary_once() {
    let found = walk(vec![
        entry("/r/parent", "parent", true),
        entry("/r/parent", "parent", true),
        entry("/r/other.txt", "other.txt", false),
    ]);
    assert_eq!(found.len(), 2);
}

#[test]
fn enumeration_wins_over_structure() {
    let b = "/r/h/meta.yaml";
    let mut aff = AffinityMap::new();
    let enums = discover_enums(
        &s("/r"),
        &vec![HeaderDir {
            boundary: boundary(b),
            files: vec![file(
                "em-Same.yaml",
                Some(fragment(&[], vec![EnumVariant { name: s("ONE"), description: s("") }])),
            )],
        }],
        &mut aff,
    );
    let structs = discover_structs(
        &s("/r"),
        &vec![HeaderDir {
            boundary: boundary(b),
            files: vec![file("st-Same.yaml", Some(fragment(&[], fields(&["f"]))))],
        }],
        &mut aff,
    );
    let r = resolve_parts("h", "Same", &enums.items, &structs.items);
    match r {
        TypedefRef::Enumeration(e) => {
            assert_eq!(e.name, "Same");
            assert_eq!(e.detail[0].name, "ONE");
        }
        other => panic!("unexpected {:?}", other),
    }
    let r2 = resolve_parts("other", "Same", &enums.items, &structs.items);
    assert!(matches!(r2, TypedefRef::Unresolved));
}

#[test]
fn reference_splits_at_last_slash() {
    let b = "/r/a/b/meta.yaml";
    let mut aff = AffinityMap::new();
    let enums = discover_enums(
        &s("/r"),
        &vec![HeaderDir {
            boundary: boundary(b),
            files: vec![file("em-C.yaml", Some(fragment(&[], vec![])))],
        }],
        &mut aff,
    );
    let r = resolve_reference(&s("a/b/C"), &enums.items, &vec![]);
    assert!(matches!(r, Ok(TypedefRef::Enumeration(_))));
    assert!(resolve_reference(&s("/C"), &enums.items, &vec![]).is_err());
    assert!(resolve_reference(&s("a/"), &enums.items, &vec![]).is_err());
    assert!(matches!(resolve_reference(&s(""), &enums.items, &vec![]), Ok(TypedefRef::Unresolved)));
}

#[test]
fn malformed_header_stops_the_pass() {
    let dirs = vec![
        HeaderDir {
            boundary: boundary("/r/a/meta.yaml"),
            files: vec![file("st-A.yaml", Some(fragment(&["x"], fields(&[]))))],
        },
        HeaderDir {
            boundary: Boundary { path: s("/r/b/meta.yaml"), summary: None },
            files: vec![file("st-B.yaml", Some(fragment(&["y"], fields(&[]))))],
        },
        HeaderDir {
            boundary: boundary("/r/c/meta.yaml"),
            files: vec![file("st-C.yaml", Some(fragment(&["z"], fields(&[]))))],
        },
    ];
    let mut aff = AffinityMap::new();
    let r = discover_structs(&s("/r"), &dirs, &mut aff);
    assert_eq!(r.items.len(), 1);
    assert_eq!(r.items[0].name, "A");
    assert!(matches!(&r.diagnostics[..], [Diagnostic::MalformedHeader(p)] if p == "/r/b/meta.yaml"));
    assert_eq!(get_header_os_affinity(&aff, &s("c")), Vec::<String>::new());
    let bs = vec![boundary("/r/a/meta.yaml"), Boundary { path: s("/r/b/meta.yaml"), summary: None }];
    let h = discover_headers(&s("/r"), &bs, &aff);
    assert_eq!(h.items.len(), 1);
    assert_eq!(h.diagnostics.len(), 1);
}

#[test]
fn malformed_fragment_is_skipped() {
    let dirs = vec![HeaderDir {
        boundary: boundary("/r/a/meta.yaml"),
        files: vec![
            file("st-Bad.yaml", None),
            file("st-Good.yaml", Some(fragment(&[], fields(&[])))),
            file("em-Other.yaml", None),
            file("notes.txt", None),
        ],
    }];
    let mut aff = AffinityMap::new();
    let r = discover_structs(&s("/r"), &dirs, &mut aff);
    assert_eq!(r.items.len(), 1);
    assert_eq!(r.items[0].name, "Good");
    assert!(matches!(&r.diagnostics[..], [Diagnostic::MalformedFragment(n)] if n == "st-Bad.yaml"));
}

#[test]
fn entities_sorted_by_name_stably() {
    let dirs = vec![
        HeaderDir {
            boundary: boundary("/r/z/meta.yaml"),
            files: vec![
                file("st-b.yaml", Some(fragment(&[], fields(&[])))),
                file("st-a.yaml", Some(fragment(&[], fields(&[])))),
            ],
        },
        HeaderDir {
            boundary: boundary("/r/y/meta.yaml"),
            files: vec![
                file("st-a.yaml", Some(fragment(&[], fields(&[])))),
                file("st-B.yaml", Some(fragment(&[], fields(&[])))),
            ],
        },
    ];
    let mut aff = AffinityMap::new();
    let r = discover_structs(&s("/r"), &dirs, &mut aff);
    let names: Vec<(String, String)> =
        r.items.iter().map(|e| (e.name.clone(), e.header.header_ref.clone())).collect();
    assert_eq!(
        names,
        vec![(s("B"), s("y")), (s("a"), s("z")), (s("a"), s("y")), (s("b"), s("z"))]
    );
}

#[test]
fn affinity_union_keeps_first_seen_order() {
    let mut acc = tags(&["linux"]);
    merge_tags(&mut acc, &tags(&["macos", "linux", "windows", "macos"]));
    assert_eq!(acc, tags(&["linux", "macos", "windows"]));
    let mut aff = AffinityMap::new();
    aff.merge("h", &tags(&["b", "b", "a"]));
    aff.merge("h", &tags(&["c", "a"]));
    aff.merge("g", &tags(&["z"]));
    assert_eq!(get_header_os_affinity(&aff, &s("h")), tags(&["b", "a", "c"]));
    assert_eq!(get_header_os_affinity(&aff, &s("g")), tags(&["z"]));
    assert_eq!(get_header_os_affinity(&aff, &s("none")), Vec::<String>::new());
}

#[test]
fn names_and_paths() {
    assert_eq!(classify("mo-X.yaml"), Some(FragmentKind::Macro));
    assert_eq!(classify("em-X.yaml"), Some(FragmentKind::Enumeration));
    assert_eq!(classify("st-X.yaml"), Some(FragmentKind::Structure));
    assert_eq!(classify("tf-X.yaml"), Some(FragmentKind::Typedef));
    assert_eq!(classify("fn-X.yaml"), Some(FragmentKind::Function));
    assert_eq!(classify("meta.yaml"), None);
    assert_eq!(entity_name_of("fn-do_thing.yaml"), "do_thing");
    assert_eq!(entity_name_of("st-a.b.yaml"), "a.b");
    assert_eq!(stem_of("x.tar.gz"), "x.tar");
    assert_eq!(stem_of(".hidden"), ".hidden");
    assert_eq!(stem_of("plain"), "plain");
    assert_eq!(parent_of("/r/a/meta.yaml"), "/r/a");
    assert_eq!(header_ref("/r", "/r/a/b/meta.yaml"), "a/b");
    assert_eq!(header_ref("/r", "/other/meta.yaml"), "/other");
    let hs = header_summary("/r", "/r/sys/io/meta.yaml");
    assert_eq!(hs.header_ref, "sys/io");
    assert_eq!(hs.name, "sys/io.h");
    assert!(str_le("abc", "abd"));
    assert!(str_le("ab", "abc"));
    assert!(!str_le("b", "abc"));
    assert!(str_le("B", "a"));
    assert!(str_le("", ""));
}

#[test]
fn macro_and_function_kinds_pass_through() {
    let b = "/r/m/meta.yaml";
    let tree = Tree {
        boundaries: vec![boundary(b)],
        macros: vec![HeaderDir {
            boundary: boundary(b),
            files: vec![
                file("mo-OBJ.yaml", Some(fragment(&["linux"], MacroKind::Object))),
                file(
                    "mo-FN.yaml",
                    Some(fragment(
                        &["windows"],
                        MacroKind::Function {
                            result: Return { return_type: s("int"), description: s("r") },
                            parameters: vec![],
                        },
                    )),
                ),
            ],
        }],
        enums: vec![],
        structs: vec![],
        typedefs: vec![],
        functions: vec![HeaderDir {
            boundary: boundary(b),
            files: vec![file(
                "fn-run.yaml",
                Some(fragment(
                    &["linux", "macos"],
                    FunctionSignature {
                        result: Return { return_type: s("void"), description: s("") },
                        parameters: vec![],
                        associated: tags(&["FN"]),
                    },
                )),
            )],
        }],
    };
    let (doc, diags) = aggregate(&s("/r"), &tree, s("now"), s("url"));
    assert!(diags.is_empty());
    assert_eq!(doc.macros.len(), 2);
    assert_eq!(doc.macros[0].name, "FN");
    assert!(matches!(doc.macros[0].detail, MacroKind::Function { .. }));
    assert_eq!(doc.macros[1].name, "OBJ");
    assert_eq!(doc.functions[0].detail.associated, tags(&["FN"]));
    assert_eq!(doc.headers[0].os_affinity, tags(&["linux", "windows", "macos"]));
    assert_eq!(doc.reference_url, "url");
}
