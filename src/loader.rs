//! The loading passes: one per entity kind over the list of header
//! directories, each sorted by name, each folding its entities' OS tags into
//! the affinity accumulator.

use crate::affinity::{get_header_os_affinity, record_all, tags_of, AffinityMap};
use crate::fragment::{
    classify, entity_name, entity_name_of, header_name_of, header_ref_of, header_summary, kind_of,
    FragmentKind,
};
use crate::model::{
    Duplicate, Entity, Header, EntityView, EnumVariant, Enumeration, Fragment, FragmentView, Function,
    FunctionSignature, Macro, MacroKind, StructField, Structure, Typedef, TypedefDetail, TypedefRef,
    TypedefRefView, TypedefSource,
};
use crate::order::{sort_by_key, sorted_by_key, SortKey};
use crate::reference::{reference_captures, resolution_of, resolve_reference};
use vstd::prelude::*;

verus! {

/// A header boundary file as read: its path, and its summary when it parsed.
#[derive(Debug)]
pub struct Boundary {
    pub path: String,
    pub summary: Option<String>,
}

impl DeepView for Boundary {
    type V = (Seq<char>, Option<Seq<char>>);

    open spec fn deep_view(&self) -> (Seq<char>, Option<Seq<char>>) {
        (
            self.path@,
            match self.summary {
                Some(s) => Some(s@),
                None => None,
            },
        )
    }
}

/// A fragment file beside a boundary file: its name, and its record when it
/// parsed.
#[derive(Debug)]
pub struct FragmentFile<D> {
    pub file_name: String,
    pub parsed: Option<Fragment<D>>,
}

pub ghost struct FragmentFileView<V> {
    pub file_name: Seq<char>,
    pub parsed: Option<FragmentView<V>>,
}

impl<D: DeepView> DeepView for FragmentFile<D> {
    type V = FragmentFileView<D::V>;

    open spec fn deep_view(&self) -> FragmentFileView<D::V> {
        FragmentFileView {
            file_name: self.file_name@,
            parsed: match self.parsed {
                Some(f) => Some(f.deep_view()),
                None => None,
            },
        }
    }
}

/// One header directory as read for one entity kind.
#[derive(Debug)]
pub struct HeaderDir<D> {
    pub boundary: Boundary,
    pub files: Vec<FragmentFile<D>>,
}

pub ghost struct HeaderDirView<V> {
    pub boundary: (Seq<char>, Option<Seq<char>>),
    pub files: Seq<FragmentFileView<V>>,
}

impl<D: DeepView> DeepView for HeaderDir<D> {
    type V = HeaderDirView<D::V>;

    open spec fn deep_view(&self) -> HeaderDirView<D::V> {
        HeaderDirView { boundary: self.boundary.deep_view(), files: self.files.deep_view() }
    }
}

/// A problem reported while loading; none of them stops the run.
#[derive(Debug)]
pub enum Diagnostic {
    /// The boundary file at this path did not parse; the pass stopped there.
    MalformedHeader(String),
    /// The fragment file of this name did not parse and was skipped.
    MalformedFragment(String),
    /// A type alias reference that names no known entity.
    UnresolvedReference(String),
    /// A type alias reference not of the form `<header-ref>/<name>`; the pass
    /// stopped there.
    MalformedReference(String),
}

pub ghost enum DiagnosticView {
    MalformedHeader(Seq<char>),
    MalformedFragment(Seq<char>),
    UnresolvedReference(Seq<char>),
    MalformedReference(Seq<char>),
}

impl DeepView for Diagnostic {
    type V = DiagnosticView;

    open spec fn deep_view(&self) -> DiagnosticView {
        match self {
            Diagnostic::MalformedHeader(s) => DiagnosticView::MalformedHeader(s@),
            Diagnostic::MalformedFragment(s) => DiagnosticView::MalformedFragment(s@),
            Diagnostic::UnresolvedReference(s) => DiagnosticView::UnresolvedReference(s@),
            Diagnostic::MalformedReference(s) => DiagnosticView::MalformedReference(s@),
        }
    }
}

impl<D: DeepView> SortKey for Entity<D> {
    open spec fn key_of(v: EntityView<D::V>) -> Seq<char> {
        v.name
    }

    fn sort_key(&self) -> (r: &str) {
        self.name.as_str()
    }
}

/// Number of leading elements of `s` that satisfy `ok`.
pub open spec fn intact_len<A>(s: Seq<A>, ok: spec_fn(A) -> bool) -> int
    decreases s.len(),
{
    if s.len() == 0 || !ok(s[0]) {
        0
    } else {
        1 + intact_len(s.drop_first(), ok)
    }
}

pub proof fn lemma_intact_len<A>(s: Seq<A>, ok: spec_fn(A) -> bool, i: int)
    requires
        0 <= i <= s.len(),
        forall|j: int| 0 <= j < i ==> ok(#[trigger] s[j]),
        i < s.len() ==> !ok(s[i]),
    ensures
        intact_len(s, ok) == i,
    decreases s.len(),
{
    if s.len() > 0 && i > 0 {
        assert forall|j: int| 0 <= j < i - 1 implies ok(#[trigger] s.drop_first()[j]) by {
            assert(s.drop_first()[j] == s[j + 1]);
        }
        lemma_intact_len(s.drop_first(), ok, i - 1);
    }
}

/// The boundary file parsed.
pub open spec fn boundary_ok<V>(d: HeaderDirView<V>) -> bool {
    d.boundary.1 is Some
}

pub open spec fn boundary_test<V>() -> spec_fn(HeaderDirView<V>) -> bool {
    |d: HeaderDirView<V>| boundary_ok(d)
}

/// The entity a parsed fragment file describes.
pub open spec fn entity_of<V>(
    root: Seq<char>,
    boundary_path: Seq<char>,
    file_name: Seq<char>,
    f: FragmentView<V>,
) -> EntityView<V> {
    let r = header_ref_of(root, boundary_path);
    EntityView {
        name: entity_name(file_name),
        header: (r, header_name_of(r)),
        summary: f.summary,
        description: f.description,
        os_affinity: f.os_affinity,
        detail: f.detail,
    }
}

/// The entities of kind `k` that the files of one directory give, in order.
pub open spec fn dir_entities<V>(
    root: Seq<char>,
    boundary_path: Seq<char>,
    files: Seq<FragmentFileView<V>>,
    k: FragmentKind,
) -> Seq<EntityView<V>>
    decreases files.len(),
{
    if files.len() == 0 {
        Seq::empty()
    } else {
        let prev = dir_entities(root, boundary_path, files.drop_last(), k);
        let f = files.last();
        if kind_of(f.file_name) == Some(k) && f.parsed is Some {
            prev.push(entity_of(root, boundary_path, f.file_name, f.parsed->0))
        } else {
            prev
        }
    }
}

/// The files of kind `k` of one directory that did not parse, in order.
pub open spec fn dir_diagnostics<V>(files: Seq<FragmentFileView<V>>, k: FragmentKind) -> Seq<
    DiagnosticView,
>
    decreases files.len(),
{
    if files.len() == 0 {
        Seq::empty()
    } else {
        let prev = dir_diagnostics(files.drop_last(), k);
        let f = files.last();
        if kind_of(f.file_name) == Some(k) && f.parsed is None {
            prev.push(DiagnosticView::MalformedFragment(f.file_name))
        } else {
            prev
        }
    }
}

/// The entities of kind `k` of every directory of `dirs`, in order.
pub open spec fn all_entities<V>(root: Seq<char>, dirs: Seq<HeaderDirView<V>>, k: FragmentKind) -> Seq<
    EntityView<V>,
>
    decreases dirs.len(),
{
    if dirs.len() == 0 {
        Seq::empty()
    } else {
        all_entities(root, dirs.drop_last(), k) + dir_entities(
            root,
            dirs.last().boundary.0,
            dirs.last().files,
            k,
        )
    }
}

pub open spec fn all_diagnostics<V>(dirs: Seq<HeaderDirView<V>>, k: FragmentKind) -> Seq<
    DiagnosticView,
>
    decreases dirs.len(),
{
    if dirs.len() == 0 {
        Seq::empty()
    } else {
        all_diagnostics(dirs.drop_last(), k) + dir_diagnostics(dirs.last().files, k)
    }
}

/// The directories a pass reads: those before the first malformed boundary.
pub open spec fn read_dirs<V>(dirs: Seq<HeaderDirView<V>>) -> Seq<HeaderDirView<V>> {
    dirs.take(intact_len(dirs, boundary_test::<V>()))
}

/// The entities a pass of kind `k` loads, in load order.
pub open spec fn loaded<V>(root: Seq<char>, dirs: Seq<HeaderDirView<V>>, k: FragmentKind) -> Seq<
    EntityView<V>,
> {
    all_entities(root, read_dirs(dirs), k)
}

/// The diagnostics a pass of kind `k` reports, in order.
pub open spec fn load_diagnostics<V>(dirs: Seq<HeaderDirView<V>>, k: FragmentKind) -> Seq<
    DiagnosticView,
> {
    let n = intact_len(dirs, boundary_test::<V>());
    let tail = if n < dirs.len() {
        seq![DiagnosticView::MalformedHeader(dirs[n].boundary.0)]
    } else {
        Seq::empty()
    };
    all_diagnostics(read_dirs(dirs), k) + tail
}

/// The affinity contribution of each entity: its header ref and its tags.
pub open spec fn contributions<V>(es: Seq<EntityView<V>>) -> Seq<(Seq<char>, Seq<Seq<char>>)> {
    es.map_values(|e: EntityView<V>| (e.header.0, e.os_affinity))
}

/// Loads the entities of kind `k` from the directories, in order, up to the
/// first boundary file that did not parse.
pub fn load_entities<D: Duplicate>(root: &String, dirs: &Vec<HeaderDir<D>>, k: FragmentKind) -> (r: (
    Vec<Entity<D>>,
    Vec<Diagnostic>,
))
    ensures
        r.0.deep_view() == loaded(root@, dirs.deep_view(), k),
        r.1.deep_view() == load_diagnostics(dirs.deep_view(), k),
{
    let ghost dv = dirs.deep_view();
    let mut entities: Vec<Entity<D>> = Vec::new();
    let mut diagnostics: Vec<Diagnostic> = Vec::new();
    let mut i: usize = 0;
    proof {
        assert(dv.take(0) =~= Seq::<HeaderDirView<D::V>>::empty());
        assert(entities.deep_view() =~= Seq::<EntityView<D::V>>::empty());
        assert(diagnostics.deep_view() =~= Seq::<DiagnosticView>::empty());
    }
    while i < dirs.len()
        invariant
            i <= dirs.len(),
            dv == dirs.deep_view(),
            forall|j: int| 0 <= j < i ==> boundary_test::<D::V>()(#[trigger] dv[j]),
            entities.deep_view() == all_entities(root@, dv.take(i as int), k),
            diagnostics.deep_view() == all_diagnostics(dv.take(i as int), k),
        decreases dirs.len() - i,
    {
        let dir = &dirs[i];
        proof {
            assert(dv[i as int] == dir.deep_view());
        }
        if dir.boundary.summary.is_none() {
            proof {
                assert(dir.boundary.deep_view().1 is None);
                assert(dv[i as int].boundary == dir.boundary.deep_view());
                assert(!boundary_ok(dv[i as int]));
                assert(!boundary_test::<D::V>()(dv[i as int]));
                lemma_intact_len(dv, boundary_test::<D::V>(), i as int);
            }
            diagnostics.push(Diagnostic::MalformedHeader(dir.boundary.path.clone()));
            proof {
                assert(diagnostics.deep_view() =~= load_diagnostics(dv, k));
            }
            return (entities, diagnostics);
        }
        proof {
            assert(dir.boundary.deep_view().1 is Some);
            assert(dv[i as int].boundary == dir.boundary.deep_view());
            assert(boundary_ok(dv[i as int]));
            assert(boundary_test::<D::V>()(dv[i as int]));
        }
        let summary = header_summary(root.as_str(), dir.boundary.path.as_str());
        let ghost e0 = entities.deep_view();
        let ghost g0 = diagnostics.deep_view();
        let ghost fv = dir.files.deep_view();
        let mut j: usize = 0;
        proof {
            assert(fv.take(0) =~= Seq::<FragmentFileView<D::V>>::empty());
            assert(e0 + Seq::<EntityView<D::V>>::empty() =~= e0);
            assert(g0 + Seq::<DiagnosticView>::empty() =~= g0);
        }
        while j < dir.files.len()
            invariant
                i < dirs.len(),
                dir == &dirs[i as int],
                j <= dir.files.len(),
                fv == dir.files.deep_view(),
                summary.deep_view() == (
                    header_ref_of(root@, dir.boundary.path@),
                    header_name_of(header_ref_of(root@, dir.boundary.path@)),
                ),
                entities.deep_view() == e0 + dir_entities(
                    root@,
                    dir.boundary.path@,
                    fv.take(j as int),
                    k,
                ),
                diagnostics.deep_view() == g0 + dir_diagnostics(fv.take(j as int), k),
            decreases dir.files.len() - j,
        {
            let file = &dir.files[j];
            proof {
                assert(fv[j as int] == file.deep_view());
                assert(fv.take(j + 1).drop_last() =~= fv.take(j as int));
                assert(fv.take(j + 1).last() == fv[j as int]);
            }
            if classify(file.file_name.as_str()) == Some(k) {
                match &file.parsed {
                    Some(f) => {
                        let e = Entity {
                            name: entity_name_of(file.file_name.as_str()),
                            header: summary.duplicate(),
                            summary: f.summary.clone(),
                            description: f.description.clone(),
                            os_affinity: f.os_affinity.duplicate(),
                            detail: f.detail.duplicate(),
                        };
                        let ghost before = entities.deep_view();
                        entities.push(e);
                        proof {
                            assert(entities.deep_view() =~= before.push(e.deep_view()));
                            assert(e.deep_view() == entity_of(
                                root@,
                                dir.boundary.path@,
                                file.file_name@,
                                f.deep_view(),
                            ));
                        }
                    },
                    None => {
                        let ghost before = diagnostics.deep_view();
                        diagnostics.push(Diagnostic::MalformedFragment(file.file_name.clone()));
                        proof {
                            assert(diagnostics.deep_view() =~= before.push(
                                DiagnosticView::MalformedFragment(file.file_name@),
                            ));
                        }
                    },
                }
            }
            proof {
                assert(entities.deep_view() =~= e0 + dir_entities(
                    root@,
                    dir.boundary.path@,
                    fv.take(j + 1),
                    k,
                ));
                assert(diagnostics.deep_view() =~= g0 + dir_diagnostics(fv.take(j + 1), k));
            }
            j = j + 1;
        }
        proof {
            assert(fv.take(j as int) =~= fv);
            assert(dv.take(i + 1).drop_last() =~= dv.take(i as int));
            assert(dv.take(i + 1).last() == dv[i as int]);
        }
        i = i + 1;
    }
    proof {
        lemma_intact_len(dv, boundary_test::<D::V>(), i as int);
        assert(dv.take(i as int) =~= dv);
        assert(diagnostics.deep_view() =~= load_diagnostics(dv, k));
    }
    (entities, diagnostics)
}

/// What a loading pass hands on: its records, sorted, and what it reported.
#[derive(Debug)]
pub struct Loaded<T> {
    pub items: Vec<T>,
    pub diagnostics: Vec<Diagnostic>,
}

/// Merges the OS tags of each entity, in order, into its header's entry.
pub fn record_affinities<D: DeepView>(os_affinities: &mut AffinityMap, entities: &Vec<Entity<D>>)
    requires
        old(os_affinities).wf(),
    ensures
        final(os_affinities).wf(),
        final(os_affinities)@ == record_all(old(os_affinities)@, contributions(entities.deep_view())),
{
    let ghost ev = entities.deep_view();
    let mut i: usize = 0;
    proof {
        assert(contributions(ev.take(0)) =~= Seq::<(Seq<char>, Seq<Seq<char>>)>::empty());
    }
    while i < entities.len()
        invariant
            i <= entities.len(),
            ev == entities.deep_view(),
            os_affinities.wf(),
            os_affinities@ == record_all(old(os_affinities)@, contributions(ev.take(i as int))),
        decreases entities.len() - i,
    {
        let e = &entities[i];
        proof {
            assert(ev[i as int] == e.deep_view());
            assert(contributions(ev.take(i + 1)).drop_last() =~= contributions(ev.take(i as int)));
            assert(contributions(ev.take(i + 1)).last() == (e.header.header_ref@, e.os_affinity.deep_view()));
        }
        os_affinities.merge(e.header.header_ref.as_str(), &e.os_affinity);
        i = i + 1;
    }
    proof {
        assert(ev.take(i as int) =~= ev);
    }
}

/// A loading pass of kind `k`: loads, records affinities, sorts by name.
fn discover<D: Duplicate>(
    root: &String,
    dirs: &Vec<HeaderDir<D>>,
    k: FragmentKind,
    os_affinities: &mut AffinityMap,
) -> (r: Loaded<Entity<D>>)
    requires
        old(os_affinities).wf(),
    ensures
        final(os_affinities).wf(),
        final(os_affinities)@ == record_all(
            old(os_affinities)@,
            contributions(loaded(root@, dirs.deep_view(), k)),
        ),
        r.items.deep_view() == sorted_by_key::<Entity<D>>(loaded(root@, dirs.deep_view(), k)),
        r.diagnostics.deep_view() == load_diagnostics(dirs.deep_view(), k),
{
    let (entities, diagnostics) = load_entities(root, dirs, k);
    record_affinities(os_affinities, &entities);
    Loaded { items: sort_by_key(entities), diagnostics }
}

/// Loads every object or function macro (files tagged `mo-`).
pub fn discover_macros(
    filepath: &String,
    header_paths: &Vec<HeaderDir<MacroKind>>,
    os_affinities: &mut AffinityMap,
) -> (r: Loaded<Macro>)
    requires
        old(os_affinities).wf(),
    ensures
        final(os_affinities).wf(),
        final(os_affinities)@ == record_all(
            old(os_affinities)@,
            contributions(loaded(filepath@, header_paths.deep_view(), FragmentKind::Macro)),
        ),
        r.items.deep_view() == sorted_by_key::<Macro>(
            loaded(filepath@, header_paths.deep_view(), FragmentKind::Macro),
        ),
        r.diagnostics.deep_view() == load_diagnostics(header_paths.deep_view(), FragmentKind::Macro),
{
    discover(filepath, header_paths, FragmentKind::Macro, os_affinities)
}

/// Loads every enumeration (files tagged `em-`).
pub fn discover_enums(
    filepath: &String,
    header_paths: &Vec<HeaderDir<Vec<EnumVariant>>>,
    os_affinities: &mut AffinityMap,
) -> (r: Loaded<Enumeration>)
    requires
        old(os_affinities).wf(),
    ensures
        final(os_affinities).wf(),
        final(os_affinities)@ == record_all(
            old(os_affinities)@,
            contributions(loaded(filepath@, header_paths.deep_view(), FragmentKind::Enumeration)),
        ),
        r.items.deep_view() == sorted_by_key::<Enumeration>(
            loaded(filepath@, header_paths.deep_view(), FragmentKind::Enumeration),
        ),
        r.diagnostics.deep_view() == load_diagnostics(
            header_paths.deep_view(),
            FragmentKind::Enumeration,
        ),
{
    discover(filepath, header_paths, FragmentKind::Enumeration, os_affinities)
}

/// Loads every structure (files tagged `st-`).
pub fn discover_structs(
    filepath: &String,
    header_paths: &Vec<HeaderDir<Vec<StructField>>>,
    os_affinities: &mut AffinityMap,
) -> (r: Loaded<Structure>)
    requires
        old(os_affinities).wf(),
    ensures
        final(os_affinities).wf(),
        final(os_affinities)@ == record_all(
            old(os_affinities)@,
            contributions(loaded(filepath@, header_paths.deep_view(), FragmentKind::Structure)),
        ),
        r.items.deep_view() == sorted_by_key::<Structure>(
            loaded(filepath@, header_paths.deep_view(), FragmentKind::Structure),
        ),
        r.diagnostics.deep_view() == load_diagnostics(
            header_paths.deep_view(),
            FragmentKind::Structure,
        ),
{
    discover(filepath, header_paths, FragmentKind::Structure, os_affinities)
}

/// Loads every function (files tagged `fn-`).
pub fn discover_functions(
    filepath: &String,
    header_paths: &Vec<HeaderDir<FunctionSignature>>,
    os_affinities: &mut AffinityMap,
) -> (r: Loaded<Function>)
    requires
        old(os_affinities).wf(),
    ensures
        final(os_affinities).wf(),
        final(os_affinities)@ == record_all(
            old(os_affinities)@,
            contributions(loaded(filepath@, header_paths.deep_view(), FragmentKind::Function)),
        ),
        r.items.deep_view() == sorted_by_key::<Function>(
            loaded(filepath@, header_paths.deep_view(), FragmentKind::Function),
        ),
        r.diagnostics.deep_view() == load_diagnostics(
            header_paths.deep_view(),
            FragmentKind::Function,
        ),
{
    discover(filepath, header_paths, FragmentKind::Function, os_affinities)
}

pub type RawTypedefView = EntityView<(Seq<char>, Seq<char>)>;

pub type EnumsView = Seq<EntityView<Seq<(Seq<char>, Seq<char>)>>>;

pub type StructsView = Seq<EntityView<Seq<(Seq<char>, Seq<char>, Seq<char>)>>>;

/// The reference of a type alias is empty or of the form `<header-ref>/<name>`.
pub open spec fn reference_ok(e: RawTypedefView) -> bool {
    e.detail.1.len() == 0 || reference_captures(e.detail.1) is Some
}

pub open spec fn reference_test() -> spec_fn(RawTypedefView) -> bool {
    |e: RawTypedefView| reference_ok(e)
}

/// The target of a well-formed reference.
pub open spec fn target_of(reference: Seq<char>, enums: EnumsView, structs: StructsView) -> TypedefRefView {
    if reference.len() == 0 {
        TypedefRefView::Unresolved
    } else {
        let (h, d) = reference_captures(reference)->0;
        resolution_of(h, d, enums, structs)
    }
}

/// A type alias with its reference resolved.
pub open spec fn resolved_view(e: RawTypedefView, enums: EnumsView, structs: StructsView) -> EntityView<
    (Seq<char>, TypedefRefView),
> {
    EntityView {
        name: e.name,
        header: e.header,
        summary: e.summary,
        description: e.description,
        os_affinity: e.os_affinity,
        detail: (e.detail.0, target_of(e.detail.1, enums, structs)),
    }
}

/// The type aliases kept: those before the first malformed reference.
pub open spec fn kept_typedefs(raw: Seq<RawTypedefView>) -> Seq<RawTypedefView> {
    raw.take(intact_len(raw, reference_test()))
}

/// The kept type aliases, resolved, in load order.
pub open spec fn resolved_typedefs(raw: Seq<RawTypedefView>, enums: EnumsView, structs: StructsView) -> Seq<
    EntityView<(Seq<char>, TypedefRefView)>,
> {
    kept_typedefs(raw).map_values(|e: RawTypedefView| resolved_view(e, enums, structs))
}

/// One report for each non-empty reference of `s` that names nothing.
pub open spec fn unresolved_reports(s: Seq<RawTypedefView>, enums: EnumsView, structs: StructsView) -> Seq<
    DiagnosticView,
>
    decreases s.len(),
{
    if s.len() == 0 {
        Seq::empty()
    } else {
        let prev = unresolved_reports(s.drop_last(), enums, structs);
        let e = s.last();
        if e.detail.1.len() > 0 && target_of(e.detail.1, enums, structs)
            == TypedefRefView::Unresolved {
            prev.push(DiagnosticView::UnresolvedReference(e.detail.1))
        } else {
            prev
        }
    }
}

/// What resolution reports: unresolved references, then the malformed one
/// that stopped it, if any.
pub open spec fn resolution_reports(raw: Seq<RawTypedefView>, enums: EnumsView, structs: StructsView) -> Seq<
    DiagnosticView,
> {
    let n = intact_len(raw, reference_test());
    let tail = if n < raw.len() {
        seq![DiagnosticView::MalformedReference(raw[n].detail.1)]
    } else {
        Seq::empty()
    };
    unresolved_reports(kept_typedefs(raw), enums, structs) + tail
}

/// Resolves the reference of each type alias, in order, up to the first one
/// that is malformed.
pub fn resolve_typedefs(
    raw: &Vec<Entity<TypedefSource>>,
    enums: &Vec<Enumeration>,
    structs: &Vec<Structure>,
) -> (r: (Vec<Typedef>, Vec<Diagnostic>))
    ensures
        r.0.deep_view() == resolved_typedefs(raw.deep_view(), enums.deep_view(), structs.deep_view()),
        r.1.deep_view() == resolution_reports(
            raw.deep_view(),
            enums.deep_view(),
            structs.deep_view(),
        ),
{
    let ghost rv = raw.deep_view();
    let ghost ev = enums.deep_view();
    let ghost sv = structs.deep_view();
    let ghost f = |e: RawTypedefView| resolved_view(e, ev, sv);
    let mut out: Vec<Typedef> = Vec::new();
    let mut diagnostics: Vec<Diagnostic> = Vec::new();
    let mut i: usize = 0;
    proof {
        assert(rv.take(0) =~= Seq::<RawTypedefView>::empty());
        assert(out.deep_view() =~= rv.take(0).map_values(f));
        assert(diagnostics.deep_view() =~= Seq::<DiagnosticView>::empty());
    }
    while i < raw.len()
        invariant
            i <= raw.len(),
            rv == raw.deep_view(),
            ev == enums.deep_view(),
            sv == structs.deep_view(),
            f == (|e: RawTypedefView| resolved_view(e, ev, sv)),
            forall|j: int| 0 <= j < i ==> reference_test()(#[trigger] rv[j]),
            out.deep_view() == rv.take(i as int).map_values(f),
            diagnostics.deep_view() == unresolved_reports(rv.take(i as int), ev, sv),
        decreases raw.len() - i,
    {
        let e = &raw[i];
        proof {
            assert(rv[i as int] == e.deep_view());
            assert(rv.take(i + 1).drop_last() =~= rv.take(i as int));
            assert(rv.take(i + 1).last() == rv[i as int]);
        }
        match resolve_reference(&e.detail.associated_ref, enums, structs) {
            Ok(target) => {
                let unresolved = match &target {
                    TypedefRef::Unresolved => true,
                    _ => false,
                };
                let t = Entity {
                    name: e.name.clone(),
                    header: e.header.duplicate(),
                    summary: e.summary.clone(),
                    description: e.description.clone(),
                    os_affinity: e.os_affinity.duplicate(),
                    detail: TypedefDetail { underlying: e.detail.underlying.clone(), associated_ref: target },
                };
                let ghost before = out.deep_view();
                out.push(t);
                proof {
                    assert(reference_test()(rv[i as int]));
                    assert(t.deep_view() == f(rv[i as int]));
                    assert(out.deep_view() =~= before.push(f(rv[i as int])));
                    assert(rv.take(i + 1).map_values(f) =~= rv.take(i as int).map_values(f).push(
                        f(rv[i as int]),
                    ));
                }
                let empty = e.detail.associated_ref.as_str().unicode_len() == 0;
                if !empty && unresolved {
                    let ghost g = diagnostics.deep_view();
                    diagnostics.push(Diagnostic::UnresolvedReference(e.detail.associated_ref.clone()));
                    proof {
                        assert(diagnostics.deep_view() =~= g.push(
                            DiagnosticView::UnresolvedReference(e.detail.associated_ref@),
                        ));
                    }
                }
            },
            Err(()) => {
                proof {
                    assert(!reference_test()(rv[i as int]));
                    lemma_intact_len(rv, reference_test(), i as int);
                }
                let ghost g = diagnostics.deep_view();
                diagnostics.push(Diagnostic::MalformedReference(e.detail.associated_ref.clone()));
                proof {
                    assert(diagnostics.deep_view() =~= g.push(
                        DiagnosticView::MalformedReference(e.detail.associated_ref@),
                    ));
                    assert(diagnostics.deep_view() =~= resolution_reports(rv, ev, sv));
                }
                return (out, diagnostics);
            },
        }
        i = i + 1;
    }
    proof {
        lemma_intact_len(rv, reference_test(), i as int);
        assert(rv.take(i as int) =~= rv);
        assert(diagnostics.deep_view() =~= resolution_reports(rv, ev, sv));
    }
    (out, diagnostics)
}

/// The type aliases a pass loads, resolved, in load order.
pub open spec fn loaded_typedefs(
    root: Seq<char>,
    dirs: Seq<HeaderDirView<(Seq<char>, Seq<char>)>>,
    enums: EnumsView,
    structs: StructsView,
) -> Seq<EntityView<(Seq<char>, TypedefRefView)>> {
    resolved_typedefs(loaded(root, dirs, FragmentKind::Typedef), enums, structs)
}

/// Loads every type alias (files tagged `tf-`) and resolves its reference
/// against the enumerations and structures already loaded.
pub fn discover_typedefs(
    filepath: &String,
    header_paths: &Vec<HeaderDir<TypedefSource>>,
    os_affinities: &mut AffinityMap,
    enums: &Vec<Enumeration>,
    structs: &Vec<Structure>,
) -> (r: Loaded<Typedef>)
    requires
        old(os_affinities).wf(),
    ensures
        final(os_affinities).wf(),
        final(os_affinities)@ == record_all(
            old(os_affinities)@,
            contributions(
                loaded_typedefs(
                    filepath@,
                    header_paths.deep_view(),
                    enums.deep_view(),
                    structs.deep_view(),
                ),
            ),
        ),
        r.items.deep_view() == sorted_by_key::<Typedef>(
            loaded_typedefs(
                filepath@,
                header_paths.deep_view(),
                enums.deep_view(),
                structs.deep_view(),
            ),
        ),
        r.diagnostics.deep_view() == load_diagnostics(
            header_paths.deep_view(),
            FragmentKind::Typedef,
        ) + resolution_reports(
            loaded(filepath@, header_paths.deep_view(), FragmentKind::Typedef),
            enums.deep_view(),
            structs.deep_view(),
        ),
{
    let (raw, mut diagnostics) = load_entities(filepath, header_paths, FragmentKind::Typedef);
    let (typedefs, mut reports) = resolve_typedefs(&raw, enums, structs);
    let ghost d0 = diagnostics.deep_view();
    let ghost r0 = reports.deep_view();
    diagnostics.append(&mut reports);
    proof {
        assert(diagnostics.deep_view() =~= d0 + r0);
    }
    record_affinities(os_affinities, &typedefs);
    Loaded { items: sort_by_key(typedefs), diagnostics }
}

pub type HeaderView = (Seq<char>, Seq<char>, Seq<char>, Seq<Seq<char>>);

impl DeepView for Header {
    type V = HeaderView;

    open spec fn deep_view(&self) -> HeaderView {
        (self.header_ref@, self.name@, self.summary@, self.os_affinity.deep_view())
    }
}

impl SortKey for Header {
    open spec fn key_of(v: HeaderView) -> Seq<char> {
        v.0
    }

    fn sort_key(&self) -> (r: &str) {
        self.header_ref.as_str()
    }
}

pub open spec fn summary_test() -> spec_fn((Seq<char>, Option<Seq<char>>)) -> bool {
    |b: (Seq<char>, Option<Seq<char>>)| b.1 is Some
}

/// The header a parsed boundary file describes, with the tags recorded for it.
pub open spec fn header_of(
    root: Seq<char>,
    b: (Seq<char>, Option<Seq<char>>),
    affinities: Map<Seq<char>, Seq<Seq<char>>>,
) -> HeaderView {
    let r = header_ref_of(root, b.0);
    (r, header_name_of(r), b.1->0, tags_of(affinities, r))
}

/// The headers of the boundary files before the first that did not parse.
pub open spec fn loaded_headers(
    root: Seq<char>,
    bs: Seq<(Seq<char>, Option<Seq<char>>)>,
    affinities: Map<Seq<char>, Seq<Seq<char>>>,
) -> Seq<HeaderView> {
    bs.take(intact_len(bs, summary_test())).map_values(
        |b: (Seq<char>, Option<Seq<char>>)| header_of(root, b, affinities),
    )
}

/// The report of the header pass: the boundary file that stopped it, if any.
pub open spec fn header_reports(bs: Seq<(Seq<char>, Option<Seq<char>>)>) -> Seq<DiagnosticView> {
    let n = intact_len(bs, summary_test());
    if n < bs.len() {
        seq![DiagnosticView::MalformedHeader(bs[n].0)]
    } else {
        Seq::empty()
    }
}

/// Builds one header per boundary file, up to the first that did not parse,
/// with the OS tags that the entity passes recorded for it; sorted by ref.
/// Run it after every entity pass: it reads the tags as they stand.
pub fn discover_headers(
    filepath: &String,
    header_paths: &Vec<Boundary>,
    os_affinities: &AffinityMap,
) -> (r: Loaded<Header>)
    requires
        os_affinities.wf(),
    ensures
        r.items.deep_view() == sorted_by_key::<Header>(
            loaded_headers(filepath@, header_paths.deep_view(), os_affinities@),
        ),
        r.diagnostics.deep_view() == header_reports(header_paths.deep_view()),
{
    let ghost bv = header_paths.deep_view();
    let ghost f = |b: (Seq<char>, Option<Seq<char>>)| header_of(filepath@, b, os_affinities@);
    let mut headers: Vec<Header> = Vec::new();
    let mut diagnostics: Vec<Diagnostic> = Vec::new();
    let mut i: usize = 0;
    proof {
        assert(headers.deep_view() =~= bv.take(0).map_values(f));
    }
    while i < header_paths.len()
        invariant
            i <= header_paths.len(),
            bv == header_paths.deep_view(),
            os_affinities.wf(),
            f == (|b: (Seq<char>, Option<Seq<char>>)| header_of(filepath@, b, os_affinities@)),
            forall|j: int| 0 <= j < i ==> summary_test()(#[trigger] bv[j]),
            headers.deep_view() == bv.take(i as int).map_values(f),
            diagnostics.deep_view() == Seq::<DiagnosticView>::empty(),
        decreases header_paths.len() - i,
    {
        let b = &header_paths[i];
        proof {
            assert(bv[i as int] == b.deep_view());
        }
        match &b.summary {
            Some(summary) => {
                let hs = header_summary(filepath.as_str(), b.path.as_str());
                let os_affinity = get_header_os_affinity(os_affinities, &hs.header_ref);
                let h = Header {
                    header_ref: hs.header_ref,
                    name: hs.name,
                    summary: summary.clone(),
                    os_affinity,
                };
                let ghost before = headers.deep_view();
                headers.push(h);
                proof {
                    assert(summary_test()(bv[i as int]));
                    assert(h.deep_view() == f(bv[i as int]));
                    assert(headers.deep_view() =~= before.push(f(bv[i as int])));
                    assert(bv.take(i + 1).map_values(f) =~= bv.take(i as int).map_values(f).push(
                        f(bv[i as int]),
                    ));
                }
            },
            None => {
                proof {
                    assert(!summary_test()(bv[i as int]));
                    lemma_intact_len(bv, summary_test(), i as int);
                }
                diagnostics.push(Diagnostic::MalformedHeader(b.path.clone()));
                proof {
                    assert(diagnostics.deep_view() =~= header_reports(bv));
                }
                return Loaded { items: sort_by_key(headers), diagnostics };
            },
        }
        i = i + 1;
    }
    proof {
        lemma_intact_len(bv, summary_test(), i as int);
        assert(bv.take(i as int) =~= bv);
        assert(diagnostics.deep_view() =~= header_reports(bv));
    }
    Loaded { items: sort_by_key(headers), diagnostics }
}

} // verus!
