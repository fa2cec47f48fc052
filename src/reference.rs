//! Resolution of a type alias's textual reference into an embedded copy of
//! the enumeration or structure it names.

use crate::model::{Duplicate, EntityView, Enumeration, Structure, TypedefRef, TypedefRefView};
use crate::loader::{EnumsView, StructsView};
use crate::text::{last_index_of, str_eq};
use vstd::prelude::*;

verus! {

/// Groups one and two of the pattern `(.+)/(.+)` on a reference.
pub uninterp spec fn reference_captures(s: Seq<char>) -> Option<(Seq<char>, Seq<char>)>;

/// The split of a single-line reference: header ref and definition name on
/// either side of the last `/` that has a character before and after it.
pub open spec fn split_ref(s: Seq<char>) -> Option<(Seq<char>, Seq<char>)> {
    if s.len() == 0 {
        None
    } else {
        let i = last_index_of(s.drop_last(), '/');
        if i >= 1 {
            Some((s.subrange(0, i), s.subrange(i + 1, s.len() as int)))
        } else {
            None
        }
    }
}

/// Relies on `regex::Regex::captures` with the pattern `(.+)/(.+)`: groups one
/// and two of the leftmost-first match. `.` matches any character but a line
/// feed and both groups are greedy, so on one line the first group ends at the
/// last `/` that has a character on each side.
#[verifier::external_body]
fn capture_reference(s: &str) -> (r: Option<(String, String)>)
    ensures
        match r {
            Some((h, d)) => reference_captures(s@) == Some((h@, d@)),
            None => reference_captures(s@) is None,
        },
        !s@.contains('\n') ==> match r {
            Some((h, d)) => split_ref(s@) == Some((h@, d@)),
            None => split_ref(s@) is None,
        },
{
    let re = regex::Regex::new(r"(.+)/(.+)").unwrap();
    re.captures(s).map(
        |c|
            (
                c.get(1).map_or("", |m| m.as_str()).to_string(),
                c.get(2).map_or("", |m| m.as_str()).to_string(),
            ),
    )
}

/// `e` is named `d` and owned by the header `h`.
pub open spec fn names<V>(e: EntityView<V>, h: Seq<char>, d: Seq<char>) -> bool {
    e.name == d && e.header.0 == h
}

/// Index of the first entity of `items` named `d` under header `h`, or -1.
pub open spec fn first_index<V>(items: Seq<EntityView<V>>, h: Seq<char>, d: Seq<char>) -> int
    decreases items.len(),
{
    if items.len() == 0 {
        -1
    } else if names(items[0], h, d) {
        0
    } else {
        let k = first_index(items.drop_first(), h, d);
        if k < 0 {
            -1
        } else {
            k + 1
        }
    }
}

proof fn lemma_first_index<V>(items: Seq<EntityView<V>>, h: Seq<char>, d: Seq<char>, i: int)
    requires
        0 <= i <= items.len(),
        forall|j: int| 0 <= j < i ==> !names(#[trigger] items[j], h, d),
        i < items.len() ==> names(items[i], h, d),
    ensures
        first_index(items, h, d) == if i == items.len() {
            -1
        } else {
            i
        },
    decreases items.len(),
{
    if items.len() > 0 && i > 0 {
        assert forall|j: int| 0 <= j < i - 1 implies !names(#[trigger] items.drop_first()[j], h, d) by {
            assert(items.drop_first()[j] == items[j + 1]);
        }
        lemma_first_index(items.drop_first(), h, d, i - 1);
    }
}

/// The target that the reference `h/d` names: the first matching enumeration,
/// else the first matching structure, else nothing.
pub open spec fn resolution_of(
    h: Seq<char>,
    d: Seq<char>,
    enums: Seq<EntityView<Seq<(Seq<char>, Seq<char>)>>>,
    structs: Seq<EntityView<Seq<(Seq<char>, Seq<char>, Seq<char>)>>>,
) -> TypedefRefView {
    let ei = first_index(enums, h, d);
    let si = first_index(structs, h, d);
    if ei >= 0 {
        TypedefRefView::Enumeration(enums[ei])
    } else if si >= 0 {
        TypedefRefView::Structure(structs[si])
    } else {
        TypedefRefView::Unresolved
    }
}

/// Position of the first entity named `d` under header `h`.
fn find_entity<D: DeepView>(items: &Vec<crate::model::Entity<D>>, h: &str, d: &str) -> (r: Option<
    usize,
>)
    ensures
        match r {
            Some(i) => i < items.len() && i == first_index(items.deep_view(), h@, d@),
            None => first_index(items.deep_view(), h@, d@) == -1,
        },
{
    let ghost v = items.deep_view();
    let mut i: usize = 0;
    while i < items.len()
        invariant
            i <= items.len(),
            v == items.deep_view(),
            forall|j: int| 0 <= j < i ==> !names(#[trigger] v[j], h@, d@),
        decreases items.len() - i,
    {
        if str_eq(items[i].name.as_str(), d) && str_eq(items[i].header.header_ref.as_str(), h) {
            proof {
                lemma_first_index(v, h@, d@, i as int);
            }
            return Some(i);
        }
        i = i + 1;
    }
    proof {
        lemma_first_index(v, h@, d@, i as int);
    }
    None
}

/// Resolves the reference `header_ref/definition` against the loaded
/// enumerations, then structures; the first match is copied in whole.
pub fn resolve_parts(
    header_ref: &str,
    definition: &str,
    enums: &Vec<Enumeration>,
    structs: &Vec<Structure>,
) -> (r: TypedefRef)
    ensures
        r.deep_view() == resolution_of(
            header_ref@,
            definition@,
            enums.deep_view(),
            structs.deep_view(),
        ),
{
    match find_entity(enums, header_ref, definition) {
        Some(i) => TypedefRef::Enumeration(enums[i].duplicate()),
        None => match find_entity(structs, header_ref, definition) {
            Some(i) => TypedefRef::Structure(structs[i].duplicate()),
            None => TypedefRef::Unresolved,
        },
    }
}

/// Resolves a type alias's raw reference. An empty reference names nothing;
/// one that is not of the form `<header-ref>/<definition-name>` is an error.
pub fn resolve_reference(reference: &String, enums: &Vec<Enumeration>, structs: &Vec<Structure>) -> (r:
    Result<TypedefRef, ()>)
    ensures
        reference@.len() == 0 ==> r == Ok::<TypedefRef, ()>(TypedefRef::Unresolved),
        reference@.len() > 0 ==> match reference_captures(reference@) {
            None => r is Err,
            Some((h, d)) => r is Ok && r->Ok_0.deep_view() == resolution_of(
                h,
                d,
                enums.deep_view(),
                structs.deep_view(),
            ),
        },
{
    if reference.as_str().unicode_len() == 0 {
        return Ok(TypedefRef::Unresolved);
    }
    match capture_reference(reference.as_str()) {
        Some((h, d)) => Ok(resolve_parts(h.as_str(), d.as_str(), enums, structs)),
        None => Err(()),
    }
}

proof fn lemma_first_index_found<V>(items: Seq<EntityView<V>>, h: Seq<char>, d: Seq<char>)
    ensures
        -1 <= first_index(items, h, d) < items.len(),
        first_index(items, h, d) >= 0 ==> names(items[first_index(items, h, d)], h, d),
        first_index(items, h, d) == -1 <==> forall|i: int|
            0 <= i < items.len() ==> !names(#[trigger] items[i], h, d),
    decreases items.len(),
{
    if items.len() > 0 {
        let t = items.drop_first();
        lemma_first_index_found(t, h, d);
        if !names(items[0], h, d) {
            assert forall|i: int| 0 <= i < items.len() && first_index(t, h, d) == -1 implies !names(
                #[trigger] items[i],
                h,
                d,
            ) by {
                if i > 0 {
                    assert(items[i] == t[i - 1]);
                }
            }
            if first_index(t, h, d) >= 0 {
                assert(items[first_index(items, h, d)] == t[first_index(t, h, d)]);
            } else {
                assert forall|i: int| 0 <= i < items.len() implies !names(#[trigger] items[i], h, d) by {
                    if i > 0 {
                        assert(items[i] == t[i - 1]);
                    }
                }
            }
        }
    }
}

/// A reference `h/d` resolves to a copy of the first enumeration named `d`
/// under header `h` if there is one, else to a copy of the first such
/// structure, else to nothing.
pub proof fn lemma_resolution_correct(h: Seq<char>, d: Seq<char>, enums: EnumsView, structs: StructsView)
    ensures
        (exists|i: int| 0 <= i < enums.len() && names(#[trigger] enums[i], h, d)) ==> {
            let k = first_index(enums, h, d);
            &&& 0 <= k < enums.len()
            &&& names(enums[k], h, d)
            &&& resolution_of(h, d, enums, structs) == TypedefRefView::Enumeration(enums[k])
        },
        (forall|i: int| 0 <= i < enums.len() ==> !names(#[trigger] enums[i], h, d)) && (exists|
            j: int,
        | 0 <= j < structs.len() && names(#[trigger] structs[j], h, d)) ==> {
            let k = first_index(structs, h, d);
            &&& 0 <= k < structs.len()
            &&& names(structs[k], h, d)
            &&& resolution_of(h, d, enums, structs) == TypedefRefView::Structure(structs[k])
        },
        (forall|i: int| 0 <= i < enums.len() ==> !names(#[trigger] enums[i], h, d)) && (forall|
            j: int,
        | 0 <= j < structs.len() ==> !names(#[trigger] structs[j], h, d)) ==> resolution_of(
            h,
            d,
            enums,
            structs,
        ) == TypedefRefView::Unresolved,
{
    lemma_first_index_found(enums, h, d);
    lemma_first_index_found(structs, h, d);
}

/// When an enumeration and a structure share name and header, the
/// enumeration is the one resolved.
pub proof fn lemma_enumeration_precedence(
    h: Seq<char>,
    d: Seq<char>,
    enums: EnumsView,
    structs: StructsView,
    i: int,
    j: int,
)
    requires
        0 <= i < enums.len(),
        0 <= j < structs.len(),
        names(enums[i], h, d),
        names(structs[j], h, d),
    ensures
        resolution_of(h, d, enums, structs) is Enumeration,
{
    lemma_first_index_found(enums, h, d);
}

} // verus!
