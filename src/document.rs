//! The whole run: every entity pass, then the header pass, then assembly.

use crate::affinity::{lemma_record_all_is_union, record_all, union_for, AffinityMap};
use crate::fragment::FragmentKind;
use crate::loader::{
    contributions, discover_enums, discover_functions, discover_headers, discover_macros,
    discover_structs, discover_typedefs, header_of, header_reports, intact_len, load_diagnostics,
    loaded, loaded_headers, loaded_typedefs, resolution_reports, summary_test, Boundary, Diagnostic,
    EnumsView, HeaderDir, HeaderView, StructsView,
};
use crate::model::{
    EnumVariant, Enumeration, Function, FunctionSignature, Header, Macro, MacroKind,
    StructField, Structure, Typedef, TypedefSource,
};
use crate::order::{
    keys_ordered, lemma_sorted_by_key_members, lemma_sorted_by_key_ordered, sorted_by_key,
};
use vstd::prelude::*;

verus! {

/// The aggregated document.
#[derive(Debug)]
pub struct Document {
    pub build_date: String,
    pub reference_url: String,
    pub headers: Vec<Header>,
    pub macros: Vec<Macro>,
    pub enums: Vec<Enumeration>,
    pub structs: Vec<Structure>,
    pub typedefs: Vec<Typedef>,
    pub functions: Vec<Function>,
}

/// Wraps the sorted collections with the build date and reference URL.
pub fn assemble(
    build_date: String,
    reference_url: String,
    headers: Vec<Header>,
    macros: Vec<Macro>,
    enums: Vec<Enumeration>,
    structs: Vec<Structure>,
    typedefs: Vec<Typedef>,
    functions: Vec<Function>,
) -> (r: Document)
    ensures
        r.build_date == build_date,
        r.reference_url == reference_url,
        r.headers == headers,
        r.macros == macros,
        r.enums == enums,
        r.structs == structs,
        r.typedefs == typedefs,
        r.functions == functions,
{
    Document { build_date, reference_url, headers, macros, enums, structs, typedefs, functions }
}

/// The header tree as read: the boundary files in walk order, and for each
/// entity kind the header directories with that kind's fragment files.
#[derive(Debug)]
pub struct Tree {
    pub boundaries: Vec<Boundary>,
    pub macros: Vec<HeaderDir<MacroKind>>,
    pub enums: Vec<HeaderDir<Vec<EnumVariant>>>,
    pub structs: Vec<HeaderDir<Vec<StructField>>>,
    pub typedefs: Vec<HeaderDir<TypedefSource>>,
    pub functions: Vec<HeaderDir<FunctionSignature>>,
}

/// Every affinity contribution of a run, in the order the passes make them.
pub open spec fn run_contributions(root: Seq<char>, t: Tree) -> Seq<(Seq<char>, Seq<Seq<char>>)> {
    let enums = loaded(root, t.enums.deep_view(), FragmentKind::Enumeration);
    let structs = loaded(root, t.structs.deep_view(), FragmentKind::Structure);
    contributions(loaded(root, t.macros.deep_view(), FragmentKind::Macro)) + contributions(enums)
        + contributions(structs) + contributions(
        loaded_typedefs(
            root,
            t.typedefs.deep_view(),
            sorted_by_key::<Enumeration>(enums),
            sorted_by_key::<Structure>(structs),
        ),
    ) + contributions(loaded(root, t.functions.deep_view(), FragmentKind::Function))
}

/// The headers of a run.
pub open spec fn run_headers(root: Seq<char>, t: Tree) -> Seq<HeaderView> {
    sorted_by_key::<Header>(
        loaded_headers(
            root,
            t.boundaries.deep_view(),
            record_all(Map::empty(), run_contributions(root, t)),
        ),
    )
}

/// Runs the macro, enumeration, structure, type-alias and function passes,
/// then the header pass, which reads the tags they recorded, and assembles
/// the document. Also returns every diagnostic, pass by pass.
pub fn aggregate(filepath: &String, tree: &Tree, build_date: String, reference_url: String) -> (r: (
    Document,
    Vec<Diagnostic>,
))
    ensures
        r.0.build_date == build_date,
        r.0.reference_url == reference_url,
        r.0.headers.deep_view() == run_headers(filepath@, *tree),
        r.0.macros.deep_view() == sorted_by_key::<Macro>(
            loaded(filepath@, tree.macros.deep_view(), FragmentKind::Macro),
        ),
        r.0.enums.deep_view() == sorted_by_key::<Enumeration>(
            loaded(filepath@, tree.enums.deep_view(), FragmentKind::Enumeration),
        ),
        r.0.structs.deep_view() == sorted_by_key::<Structure>(
            loaded(filepath@, tree.structs.deep_view(), FragmentKind::Structure),
        ),
        r.0.typedefs.deep_view() == sorted_by_key::<Typedef>(
            loaded_typedefs(
                filepath@,
                tree.typedefs.deep_view(),
                r.0.enums.deep_view(),
                r.0.structs.deep_view(),
            ),
        ),
        r.0.functions.deep_view() == sorted_by_key::<Function>(
            loaded(filepath@, tree.functions.deep_view(), FragmentKind::Function),
        ),
        r.1.deep_view() == load_diagnostics(tree.macros.deep_view(), FragmentKind::Macro)
            + load_diagnostics(tree.enums.deep_view(), FragmentKind::Enumeration)
            + load_diagnostics(tree.structs.deep_view(), FragmentKind::Structure)
            + load_diagnostics(tree.typedefs.deep_view(), FragmentKind::Typedef)
            + resolution_reports(
            loaded(filepath@, tree.typedefs.deep_view(), FragmentKind::Typedef),
            r.0.enums.deep_view(),
            r.0.structs.deep_view(),
        ) + load_diagnostics(tree.functions.deep_view(), FragmentKind::Function)
            + header_reports(tree.boundaries.deep_view()),
{
    let mut os_affinities = AffinityMap::new();
    let mut macros = discover_macros(filepath, &tree.macros, &mut os_affinities);
    let mut enums = discover_enums(filepath, &tree.enums, &mut os_affinities);
    let mut structs = discover_structs(filepath, &tree.structs, &mut os_affinities);
    let mut typedefs = discover_typedefs(
        filepath,
        &tree.typedefs,
        &mut os_affinities,
        &enums.items,
        &structs.items,
    );
    let mut functions = discover_functions(filepath, &tree.functions, &mut os_affinities);
    proof {
        let m = contributions(loaded(filepath@, tree.macros.deep_view(), FragmentKind::Macro));
        let e = contributions(loaded(filepath@, tree.enums.deep_view(), FragmentKind::Enumeration));
        let s = contributions(loaded(filepath@, tree.structs.deep_view(), FragmentKind::Structure));
        let t = contributions(
            loaded_typedefs(
                filepath@,
                tree.typedefs.deep_view(),
                enums.items.deep_view(),
                structs.items.deep_view(),
            ),
        );
        let f = contributions(loaded(filepath@, tree.functions.deep_view(), FragmentKind::Function));
        lemma_record_all_append(Map::empty(), m, e);
        lemma_record_all_append(Map::empty(), m + e, s);
        lemma_record_all_append(Map::empty(), m + e + s, t);
        lemma_record_all_append(Map::empty(), m + e + s + t, f);
        assert(run_contributions(filepath@, *tree) == m + e + s + t + f);
    }
    let mut headers = discover_headers(filepath, &tree.boundaries, &os_affinities);
    let mut diagnostics: Vec<Diagnostic> = Vec::new();
    let ghost parts = seq![
        macros.diagnostics.deep_view(),
        enums.diagnostics.deep_view(),
        structs.diagnostics.deep_view(),
        typedefs.diagnostics.deep_view(),
        functions.diagnostics.deep_view(),
        headers.diagnostics.deep_view(),
    ];
    diagnostics.append(&mut macros.diagnostics);
    diagnostics.append(&mut enums.diagnostics);
    diagnostics.append(&mut structs.diagnostics);
    diagnostics.append(&mut typedefs.diagnostics);
    diagnostics.append(&mut functions.diagnostics);
    diagnostics.append(&mut headers.diagnostics);
    proof {
        assert(diagnostics.deep_view() =~= parts[0] + parts[1] + parts[2] + parts[3] + parts[4]
            + parts[5]);
    }
    let doc = assemble(
        build_date,
        reference_url,
        headers.items,
        macros.items,
        enums.items,
        structs.items,
        typedefs.items,
        functions.items,
    );
    (doc, diagnostics)
}

proof fn lemma_record_all_append(
    m: Map<Seq<char>, Seq<Seq<char>>>,
    a: Seq<(Seq<char>, Seq<Seq<char>>)>,
    b: Seq<(Seq<char>, Seq<Seq<char>>)>,
)
    ensures
        record_all(m, a + b) == record_all(record_all(m, a), b),
    decreases b.len(),
{
    if b.len() == 0 {
        assert(a + b =~= a);
    } else {
        assert((a + b).drop_last() =~= a + b.drop_last());
        assert((a + b).last() == b.last());
        lemma_record_all_append(m, a, b.drop_last());
    }
}

/// Every collection of a run is in lexical order of its key: headers by ref,
/// entities by name.
pub proof fn lemma_run_sorted(root: Seq<char>, t: Tree)
    ensures
        keys_ordered::<Header>(run_headers(root, t)),
        keys_ordered::<Macro>(
            sorted_by_key::<Macro>(loaded(root, t.macros.deep_view(), FragmentKind::Macro)),
        ),
        keys_ordered::<Enumeration>(
            sorted_by_key::<Enumeration>(
                loaded(root, t.enums.deep_view(), FragmentKind::Enumeration),
            ),
        ),
        keys_ordered::<Structure>(
            sorted_by_key::<Structure>(loaded(root, t.structs.deep_view(), FragmentKind::Structure)),
        ),
        forall|enums: EnumsView, structs: StructsView|
            keys_ordered::<Typedef>(
                #[trigger] sorted_by_key::<Typedef>(
                    loaded_typedefs(root, t.typedefs.deep_view(), enums, structs),
                ),
            ),
        keys_ordered::<Function>(
            sorted_by_key::<Function>(loaded(root, t.functions.deep_view(), FragmentKind::Function)),
        ),
{
    lemma_sorted_by_key_ordered::<Header>(
        loaded_headers(
            root,
            t.boundaries.deep_view(),
            record_all(Map::empty(), run_contributions(root, t)),
        ),
    );
    lemma_sorted_by_key_ordered::<Macro>(loaded(root, t.macros.deep_view(), FragmentKind::Macro));
    lemma_sorted_by_key_ordered::<Enumeration>(
        loaded(root, t.enums.deep_view(), FragmentKind::Enumeration),
    );
    lemma_sorted_by_key_ordered::<Structure>(
        loaded(root, t.structs.deep_view(), FragmentKind::Structure),
    );
    lemma_sorted_by_key_ordered::<Function>(
        loaded(root, t.functions.deep_view(), FragmentKind::Function),
    );
    assert forall|enums: EnumsView, structs: StructsView|
        keys_ordered::<Typedef>(
            #[trigger] sorted_by_key::<Typedef>(
                loaded_typedefs(root, t.typedefs.deep_view(), enums, structs),
            ),
        ) by {
        lemma_sorted_by_key_ordered::<Typedef>(
            loaded_typedefs(root, t.typedefs.deep_view(), enums, structs),
        );
    }
}

/// The OS tags of every header of a run are the first-seen-order union of
/// the tags of every entity, of any kind, whose header ref is the header's.
pub proof fn lemma_header_affinity_union(root: Seq<char>, t: Tree)
    ensures
        forall|i: int|
            0 <= i < run_headers(root, t).len() ==> (#[trigger] run_headers(root, t)[i]).3
                == union_for(run_contributions(root, t), run_headers(root, t)[i].0),
{
    let c = run_contributions(root, t);
    let aff = record_all(Map::empty(), c);
    let bs = t.boundaries.deep_view();
    let hs = loaded_headers(root, bs, aff);
    lemma_sorted_by_key_members::<Header>(hs);
    assert forall|i: int| 0 <= i < run_headers(root, t).len() implies (#[trigger] run_headers(
        root,
        t,
    )[i]).3 == union_for(c, run_headers(root, t)[i].0) by {
        let h = run_headers(root, t)[i];
        assert(hs.contains(h));
        let j = choose|j: int| 0 <= j < hs.len() && hs[j] == h;
        let n = intact_len(bs, summary_test());
        assert(hs[j] == header_of(root, bs.take(n)[j], aff));
        lemma_record_all_is_union(c, h.0);
    }
}

/// Two trees with the same contents.
pub open spec fn same_contents(a: Tree, b: Tree) -> bool {
    &&& a.boundaries.deep_view() == b.boundaries.deep_view()
    &&& a.macros.deep_view() == b.macros.deep_view()
    &&& a.enums.deep_view() == b.enums.deep_view()
    &&& a.structs.deep_view() == b.structs.deep_view()
    &&& a.typedefs.deep_view() == b.typedefs.deep_view()
    &&& a.functions.deep_view() == b.functions.deep_view()
}

/// Two runs over trees with the same contents give the same collections: the
/// document of `aggregate` differs between them at most in its build date.
pub proof fn lemma_run_repeatable(root: Seq<char>, a: Tree, b: Tree)
    requires
        same_contents(a, b),
    ensures
        run_headers(root, a) == run_headers(root, b),
        loaded(root, a.macros.deep_view(), FragmentKind::Macro) == loaded(
            root,
            b.macros.deep_view(),
            FragmentKind::Macro,
        ),
        loaded(root, a.enums.deep_view(), FragmentKind::Enumeration) == loaded(
            root,
            b.enums.deep_view(),
            FragmentKind::Enumeration,
        ),
        loaded(root, a.structs.deep_view(), FragmentKind::Structure) == loaded(
            root,
            b.structs.deep_view(),
            FragmentKind::Structure,
        ),
        loaded(root, a.typedefs.deep_view(), FragmentKind::Typedef) == loaded(
            root,
            b.typedefs.deep_view(),
            FragmentKind::Typedef,
        ),
        loaded(root, a.functions.deep_view(), FragmentKind::Function) == loaded(
            root,
            b.functions.deep_view(),
            FragmentKind::Function,
        ),
{
    assert(run_contributions(root, a) == run_contributions(root, b));
}

} // verus!
