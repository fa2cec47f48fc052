//! Classification of fragment files and the names derived from paths.

use crate::model::HeaderSummary;
use crate::text::{file_stem, has_prefix, parent_dir, parent_of, starts_with, stem_of};
use vstd::prelude::*;

verus! {

/// The entity kinds that fragment files describe.
#[derive(PartialEq, Eq, Structural, Clone, Copy, Debug)]
pub enum FragmentKind {
    Macro,
    Enumeration,
    Structure,
    Typedef,
    Function,
}

/// The file-name tag of each kind.
pub open spec fn kind_prefix(k: FragmentKind) -> Seq<char> {
    match k {
        FragmentKind::Macro => seq!['m', 'o', '-'],
        FragmentKind::Enumeration => seq!['e', 'm', '-'],
        FragmentKind::Structure => seq!['s', 't', '-'],
        FragmentKind::Typedef => seq!['t', 'f', '-'],
        FragmentKind::Function => seq!['f', 'n', '-'],
    }
}

/// The kind whose tag begins `name`, if any.
pub open spec fn kind_of(name: Seq<char>) -> Option<FragmentKind> {
    if has_prefix(name, kind_prefix(FragmentKind::Macro)) {
        Some(FragmentKind::Macro)
    } else if has_prefix(name, kind_prefix(FragmentKind::Enumeration)) {
        Some(FragmentKind::Enumeration)
    } else if has_prefix(name, kind_prefix(FragmentKind::Structure)) {
        Some(FragmentKind::Structure)
    } else if has_prefix(name, kind_prefix(FragmentKind::Typedef)) {
        Some(FragmentKind::Typedef)
    } else if has_prefix(name, kind_prefix(FragmentKind::Function)) {
        Some(FragmentKind::Function)
    } else {
        None
    }
}

/// The name of the entity that a fragment file of the given tag describes:
/// the file's stem without the tag.
pub open spec fn entity_name(file_name: Seq<char>) -> Seq<char> {
    file_stem(file_name).skip(3)
}

/// The header ref of a boundary file: its directory, relative to `root`.
pub open spec fn header_ref_of(root: Seq<char>, boundary_path: Seq<char>) -> Seq<char> {
    let dir = parent_dir(boundary_path);
    let lead = root.push('/');
    if has_prefix(dir, lead) {
        dir.skip(lead.len() as int)
    } else {
        dir
    }
}

/// The header file name of a header ref.
pub open spec fn header_name_of(header_ref: Seq<char>) -> Seq<char> {
    header_ref + seq!['.', 'h']
}

/// The file-name tag of a kind.
pub fn kind_tag(k: FragmentKind) -> (r: &'static str)
    ensures
        r@ == kind_prefix(k),
{
    match k {
        FragmentKind::Macro => {
            proof {
                reveal_strlit("mo-");
            }
            "mo-"
        },
        FragmentKind::Enumeration => {
            proof {
                reveal_strlit("em-");
            }
            "em-"
        },
        FragmentKind::Structure => {
            proof {
                reveal_strlit("st-");
            }
            "st-"
        },
        FragmentKind::Typedef => {
            proof {
                reveal_strlit("tf-");
            }
            "tf-"
        },
        FragmentKind::Function => {
            proof {
                reveal_strlit("fn-");
            }
            "fn-"
        },
    }
}

/// Classifies a fragment file by the tag its name begins with.
pub fn classify(file_name: &str) -> (r: Option<FragmentKind>)
    ensures
        r == kind_of(file_name@),
{
    if starts_with(file_name, kind_tag(FragmentKind::Macro)) {
        Some(FragmentKind::Macro)
    } else if starts_with(file_name, kind_tag(FragmentKind::Enumeration)) {
        Some(FragmentKind::Enumeration)
    } else if starts_with(file_name, kind_tag(FragmentKind::Structure)) {
        Some(FragmentKind::Structure)
    } else if starts_with(file_name, kind_tag(FragmentKind::Typedef)) {
        Some(FragmentKind::Typedef)
    } else if starts_with(file_name, kind_tag(FragmentKind::Function)) {
        Some(FragmentKind::Function)
    } else {
        None
    }
}

proof fn lemma_tagged_stem(name: Seq<char>)
    requires
        kind_of(name) is Some,
    ensures
        3 <= file_stem(name).len(),
{
    crate::text::lemma_last_index_bounds(name, '.');
    let i = crate::text::last_index_of(name, '.');
    if i > 0 {
        assert(name.subrange(0, 3)[0] == name[0]);
        assert(name.subrange(0, 3)[1] == name[1]);
        assert(name.subrange(0, 3)[2] == name[2]);
        assert(i >= 3);
    }
}

/// The entity name of a tagged fragment file.
pub fn entity_name_of(file_name: &str) -> (r: String)
    requires
        kind_of(file_name@) is Some,
    ensures
        r@ == entity_name(file_name@),
{
    proof {
        lemma_tagged_stem(file_name@);
    }
    let stem = stem_of(file_name);
    let n = stem.as_str().unicode_len();
    stem.as_str().substring_char(3, n).to_owned()
}

/// The header ref of a boundary file under `root`.
pub fn header_ref(root: &str, boundary_path: &str) -> (r: String)
    ensures
        r@ == header_ref_of(root@, boundary_path@),
{
    let dir = parent_of(boundary_path);
    let lead = String::from_str(root).concat("/");
    proof {
        reveal_strlit("/");
        assert(lead@ =~= root@.push('/'));
    }
    if starts_with(dir.as_str(), lead.as_str()) {
        let n = dir.as_str().unicode_len();
        let k = lead.as_str().unicode_len();
        dir.as_str().substring_char(k, n).to_owned()
    } else {
        dir
    }
}

/// The back-reference to the header of a boundary file under `root`.
pub fn header_summary(root: &str, boundary_path: &str) -> (r: HeaderSummary)
    ensures
        r.header_ref@ == header_ref_of(root@, boundary_path@),
        r.name@ == header_name_of(r.header_ref@),
{
    let header_ref = header_ref(root, boundary_path);
    let name = header_ref.clone().concat(".h");
    proof {
        reveal_strlit(".h");
    }
    HeaderSummary { header_ref, name }
}

} // verus!
