//! The accumulator that folds entity OS tags into their owning header.

use crate::model::Duplicate;
use crate::text::str_eq;
use vstd::prelude::*;

verus! {

/// `acc` followed by each tag of `tags` that is not already present, in order.
pub open spec fn union_tags(acc: Seq<Seq<char>>, tags: Seq<Seq<char>>) -> Seq<Seq<char>>
    decreases tags.len(),
{
    if tags.len() == 0 {
        acc
    } else {
        let prev = union_tags(acc, tags.drop_last());
        if prev.contains(tags.last()) {
            prev
        } else {
            prev.push(tags.last())
        }
    }
}

/// The tags recorded for `key`, empty when nothing was recorded.
pub open spec fn tags_of(m: Map<Seq<char>, Seq<Seq<char>>>, key: Seq<char>) -> Seq<Seq<char>> {
    if m.contains_key(key) {
        m[key]
    } else {
        Seq::empty()
    }
}

/// `m` after merging `tags` into the entry of `key`.
pub open spec fn record(
    m: Map<Seq<char>, Seq<Seq<char>>>,
    key: Seq<char>,
    tags: Seq<Seq<char>>,
) -> Map<Seq<char>, Seq<Seq<char>>> {
    m.insert(key, union_tags(tags_of(m, key), tags))
}

/// `m` after merging each `(key, tags)` contribution of `items`, in order.
pub open spec fn record_all(
    m: Map<Seq<char>, Seq<Seq<char>>>,
    items: Seq<(Seq<char>, Seq<Seq<char>>)>,
) -> Map<Seq<char>, Seq<Seq<char>>>
    decreases items.len(),
{
    if items.len() == 0 {
        m
    } else {
        record(record_all(m, items.drop_last()), items.last().0, items.last().1)
    }
}

/// The first-seen-order union of the tags of every contribution for `key`.
pub open spec fn union_for(items: Seq<(Seq<char>, Seq<Seq<char>>)>, key: Seq<char>) -> Seq<
    Seq<char>,
>
    decreases items.len(),
{
    if items.len() == 0 {
        Seq::empty()
    } else if items.last().0 == key {
        union_tags(union_for(items.drop_last(), key), items.last().1)
    } else {
        union_for(items.drop_last(), key)
    }
}

/// The union keeps every tag of both sides and adds nothing else.
pub proof fn lemma_union_tags_members(acc: Seq<Seq<char>>, tags: Seq<Seq<char>>)
    ensures
        union_tags(acc, tags).to_set() == acc.to_set().union(tags.to_set()),
        acc.no_duplicates() ==> union_tags(acc, tags).no_duplicates(),
        union_tags(acc, tags).len() >= acc.len(),
        union_tags(acc, tags).subrange(0, acc.len() as int) == acc,
    decreases tags.len(),
{
    if tags.len() > 0 {
        let prev = union_tags(acc, tags.drop_last());
        lemma_union_tags_members(acc, tags.drop_last());
        assert(tags.to_set() =~= tags.drop_last().to_set().insert(tags.last())) by {
            assert(tags =~= tags.drop_last().push(tags.last()));
            tags.drop_last().lemma_push_to_set_commute(tags.last());
        }
        if !prev.contains(tags.last()) {
            prev.lemma_push_to_set_commute(tags.last());
            assert(prev.push(tags.last()).subrange(0, acc.len() as int) =~= prev.subrange(
                0,
                acc.len() as int,
            ));
        } else {
            assert(prev.to_set().contains(tags.last()));
        }
        assert(union_tags(acc, tags).to_set() =~= acc.to_set().union(tags.to_set()));
    }
}

/// Merging contributions one at a time into an empty accumulator leaves, for
/// every key, the first-seen-order union of that key's contributions.
pub proof fn lemma_record_all_is_union(
    items: Seq<(Seq<char>, Seq<Seq<char>>)>,
    key: Seq<char>,
)
    ensures
        tags_of(record_all(Map::empty(), items), key) == union_for(items, key),
    decreases items.len(),
{
    if items.len() > 0 {
        lemma_record_all_is_union(items.drop_last(), key);
    }
}

/// Tags recorded per header ref.
pub struct AffinityMap {
    keys: Vec<String>,
    tags: Vec<Vec<String>>,
    model: Ghost<Map<Seq<char>, Seq<Seq<char>>>>,
}

impl View for AffinityMap {
    type V = Map<Seq<char>, Seq<Seq<char>>>;

    closed spec fn view(&self) -> Map<Seq<char>, Seq<Seq<char>>> {
        self.model@
    }
}

impl AffinityMap {
    pub closed spec fn wf(&self) -> bool {
        &&& self.keys.len() == self.tags.len()
        &&& forall|i: int, j: int|
            0 <= i < j < self.keys.len() ==> self.keys@[i]@ != self.keys@[j]@
        &&& forall|i: int|
            0 <= i < self.keys.len() ==> #[trigger] self.model@.contains_key(self.keys@[i]@)
                && self.model@[self.keys@[i]@] == self.tags@[i].deep_view()
        &&& forall|k: Seq<char>|
            #[trigger] self.model@.contains_key(k) ==> exists|i: int|
                0 <= i < self.keys.len() && self.keys@[i]@ == k
    }

    pub fn new() -> (r: AffinityMap)
        ensures
            r.wf(),
            r@ == Map::<Seq<char>, Seq<Seq<char>>>::empty(),
    {
        AffinityMap { keys: Vec::new(), tags: Vec::new(), model: Ghost(Map::empty()) }
    }

    fn find(&self, key: &str) -> (r: Option<usize>)
        requires
            self.wf(),
        ensures
            match r {
                Some(i) => i < self.keys.len() && self.keys@[i as int]@ == key@,
                None => !self@.contains_key(key@),
            },
    {
        let mut i: usize = 0;
        while i < self.keys.len()
            invariant
                self.wf(),
                i <= self.keys.len(),
                forall|j: int| 0 <= j < i ==> self.keys@[j]@ != key@,
            decreases self.keys.len() - i,
        {
            if str_eq(self.keys[i].as_str(), key) {
                return Some(i);
            }
            i = i + 1;
        }
        None
    }

    /// Merges `tags` into the entry of `key`, keeping first-seen order and
    /// adding only tags not yet present.
    pub fn merge(&mut self, key: &str, tags: &Vec<String>)
        requires
            old(self).wf(),
        ensures
            final(self).wf(),
            final(self)@ == record(old(self)@, key@, tags.deep_view()),
    {
        match self.find(key) {
            Some(i) => {
                let ghost before = self.tags@[i as int].deep_view();
                let mut entry = self.tags[i].duplicate();
                merge_tags(&mut entry, tags);
                self.tags.set(i, entry);
                self.model = Ghost(self.model@.insert(key@, union_tags(before, tags.deep_view())));
                assert forall|j: int| 0 <= j < self.keys.len() implies #[trigger] self.model@.contains_key(
                    self.keys@[j]@,
                ) && self.model@[self.keys@[j]@] == self.tags@[j].deep_view() by {
                    if j != i {
                        assert(old(self).keys@[j]@ != old(self).keys@[i as int]@ || j == i);
                    }
                }
                assert forall|k: Seq<char>| #[trigger] self.model@.contains_key(k) implies exists|
                    j: int,
                | 0 <= j < self.keys.len() && self.keys@[j]@ == k by {
                    if k != key@ {
                        assert(old(self).model@.contains_key(k));
                        let j = choose|j: int| 0 <= j < old(self).keys.len() && old(self).keys@[j]@ == k;
                        assert(self.keys@[j]@ == k);
                    } else {
                        assert(self.keys@[i as int]@ == k);
                    }
                }
            },
            None => {
                let mut entry: Vec<String> = Vec::new();
                assert(entry.deep_view() =~= Seq::<Seq<char>>::empty());
                merge_tags(&mut entry, tags);
                self.keys.push(key.to_owned());
                self.tags.push(entry);
                self.model = Ghost(self.model@.insert(key@, union_tags(Seq::empty(), tags.deep_view())));
                let ghost n = old(self).keys.len();
                assert forall|j: int| 0 <= j < n implies old(self).keys@[j]@ != key@ by {
                    assert(old(self).model@.contains_key(old(self).keys@[j]@));
                }
                assert forall|j: int| 0 <= j < self.keys.len() implies #[trigger] self.model@.contains_key(
                    self.keys@[j]@,
                ) && self.model@[self.keys@[j]@] == self.tags@[j].deep_view() by {
                    if j < n {
                        assert(old(self).model@.contains_key(old(self).keys@[j]@));
                    }
                }
                assert forall|k: Seq<char>| #[trigger] self.model@.contains_key(k) implies exists|
                    j: int,
                | 0 <= j < self.keys.len() && self.keys@[j]@ == k by {
                    if k != key@ {
                        assert(old(self).model@.contains_key(k));
                        let j = choose|j: int| 0 <= j < old(self).keys.len() && old(self).keys@[j]@ == k;
                        assert(self.keys@[j]@ == k);
                    } else {
                        assert(self.keys@[self.keys.len() - 1]@ == k);
                    }
                }
            },
        }
    }

    /// The tags recorded for `key`.
    pub fn tags_for(&self, key: &str) -> (r: Vec<String>)
        requires
            self.wf(),
        ensures
            r.deep_view() == tags_of(self@, key@),
    {
        match self.find(key) {
            Some(i) => self.tags[i].duplicate(),
            None => {
                let r: Vec<String> = Vec::new();
                assert(r.deep_view() =~= Seq::<Seq<char>>::empty());
                r
            },
        }
    }
}

/// Whether `tag` occurs in `v`.
fn contains_tag(v: &Vec<String>, tag: &String) -> (r: bool)
    ensures
        r == v.deep_view().contains(tag@),
{
    let mut i: usize = 0;
    while i < v.len()
        invariant
            i <= v.len(),
            forall|j: int| 0 <= j < i ==> v@[j]@ != tag@,
        decreases v.len() - i,
    {
        if v[i] == *tag {
            assert(v.deep_view()[i as int] == tag@);
            return true;
        }
        i = i + 1;
    }
    assert(!v.deep_view().contains(tag@)) by {
        if v.deep_view().contains(tag@) {
            let j = choose|j: int| 0 <= j < v.deep_view().len() && v.deep_view()[j] == tag@;
            assert(v@[j]@ == tag@);
        }
    }
    false
}

/// Appends to `acc` each tag of `tags` that it does not hold yet.
pub fn merge_tags(acc: &mut Vec<String>, tags: &Vec<String>)
    ensures
        final(acc).deep_view() == union_tags(old(acc).deep_view(), tags.deep_view()),
{
    let mut i: usize = 0;
    while i < tags.len()
        invariant
            i <= tags.len(),
            acc.deep_view() == union_tags(old(acc).deep_view(), tags.deep_view().subrange(0, i as int)),
        decreases tags.len() - i,
    {
        proof {
            assert(tags.deep_view().subrange(0, 0) =~= Seq::<Seq<char>>::empty());
        }
        let ghost prefix = tags.deep_view().subrange(0, i as int);
        let ghost next = tags.deep_view().subrange(0, i + 1);
        assert(next.drop_last() =~= prefix);
        assert(next.last() == tags@[i as int]@);
        if !contains_tag(acc, &tags[i]) {
            let t = tags[i].clone();
            acc.push(t);
            assert(acc.deep_view() =~= union_tags(old(acc).deep_view(), prefix).push(tags@[i as int]@));
        }
        i = i + 1;
    }
    assert(tags.deep_view().subrange(0, tags.len() as int) =~= tags.deep_view());
}

/// The OS tags recorded for a header, or none.
pub fn get_header_os_affinity(os_affinities: &AffinityMap, header_ref: &String) -> (r: Vec<String>)
    requires
        os_affinities.wf(),
    ensures
        r.deep_view() == tags_of(os_affinities@, header_ref@),
{
    os_affinities.tags_for(header_ref.as_str())
}

} // verus!
