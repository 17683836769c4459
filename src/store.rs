use vstd::prelude::*;
use crate::path::{
    SPPath, path_lt, lemma_path_lt_irreflexive, lemma_path_lt_total, lemma_path_lt_transitive,
};
use crate::value::{SPValue, ValueModel};

verus! {

/// What the store knows of one path: its last value and the replacement
/// text that a user has typed but not submitted yet.
pub type EntryModel = (ValueModel, Seq<char>);

/// The model of a store: each observed path with its entry.
pub type StoreModel = Map<Seq<Seq<char>>, EntryModel>;

/// One entry of the state store.
pub struct StateInfo {
    pub path: SPPath,
    pub value: SPValue,
    pub new_value: String,
}

impl StateInfo {
    pub open spec fn entry(&self) -> EntryModel {
        (self.value@, self.new_value@)
    }
}

/// The entries of a sequence, keyed by path; a later entry for a path wins.
pub open spec fn entries_map(s: Seq<StateInfo>) -> StoreModel
    decreases s.len(),
{
    if s.len() == 0 {
        Map::empty()
    } else {
        entries_map(s.drop_last()).insert(s.last().path@, s.last().entry())
    }
}

/// No two entries share a path.
pub open spec fn unique_paths(s: Seq<StateInfo>) -> bool {
    forall|i: int, j: int| 0 <= i < j < s.len() ==> s[i].path@ != s[j].path@
}

/// The map that a batch of updates describes: a later update of a path wins.
pub open spec fn updates_map(u: Seq<(SPPath, SPValue)>) -> Map<Seq<Seq<char>>, ValueModel>
    decreases u.len(),
{
    if u.len() == 0 {
        Map::empty()
    } else {
        updates_map(u.drop_last()).insert(u.last().0@, u.last().1@)
    }
}

/// One update merged into a store: the value is replaced and a pending edit
/// kept, or a new entry with no pending edit is made.
pub open spec fn merge_one(m: StoreModel, k: Seq<Seq<char>>, v: ValueModel) -> StoreModel {
    if m.contains_key(k) {
        m.insert(k, (v, m[k].1))
    } else {
        m.insert(k, (v, Seq::empty()))
    }
}

/// A batch of updates merged into a store, one after the other.
pub open spec fn merge_spec(m: StoreModel, u: Seq<(SPPath, SPValue)>) -> StoreModel
    decreases u.len(),
{
    if u.len() == 0 {
        m
    } else {
        merge_one(merge_spec(m, u.drop_last()), u.last().0@, u.last().1@)
    }
}

/// A store merged with the map of a batch: per path, the batch's value wins,
/// and a pending edit stays.
pub open spec fn merge_map(m: StoreModel, w: Map<Seq<Seq<char>>, ValueModel>) -> StoreModel {
    Map::new(
        |k: Seq<Seq<char>>| m.contains_key(k) || w.contains_key(k),
        |k: Seq<Seq<char>>|
            if w.contains_key(k) {
                (w[k], if m.contains_key(k) { m[k].1 } else { Seq::empty() })
            } else {
                m[k]
            },
    )
}

/// Merging a batch is merging the map that it describes.
pub proof fn lemma_merge_spec_is_merge_map(m: StoreModel, u: Seq<(SPPath, SPValue)>)
    ensures
        merge_spec(m, u) == merge_map(m, updates_map(u)),
    decreases u.len(),
{
    if u.len() == 0 {
        assert(merge_map(m, Map::empty()) =~= m);
    } else {
        lemma_merge_spec_is_merge_map(m, u.drop_last());
        assert(merge_spec(m, u) =~= merge_map(m, updates_map(u)));
    }
}

/// Merging a batch a second time changes nothing.
pub proof fn lemma_merge_idempotent(s: StoreModel, u: Seq<(SPPath, SPValue)>)
    ensures
        merge_spec(merge_spec(s, u), u) == merge_spec(s, u),
{
    lemma_merge_spec_is_merge_map(s, u);
    lemma_merge_spec_is_merge_map(merge_spec(s, u), u);
    assert(merge_map(merge_map(s, updates_map(u)), updates_map(u)) =~= merge_map(
        s,
        updates_map(u),
    ));
}

/// Two batches that update no common path can be merged in either order.
pub proof fn lemma_merge_disjoint_commutes(
    s: StoreModel,
    u1: Seq<(SPPath, SPValue)>,
    u2: Seq<(SPPath, SPValue)>,
)
    requires
        updates_map(u1).dom().disjoint(updates_map(u2).dom()),
    ensures
        merge_spec(merge_spec(s, u1), u2) == merge_spec(merge_spec(s, u2), u1),
{
    lemma_merge_spec_is_merge_map(s, u1);
    lemma_merge_spec_is_merge_map(s, u2);
    lemma_merge_spec_is_merge_map(merge_spec(s, u1), u2);
    lemma_merge_spec_is_merge_map(merge_spec(s, u2), u1);
    let w1 = updates_map(u1);
    let w2 = updates_map(u2);
    assert forall|k: Seq<Seq<char>>| !(w1.contains_key(k) && w2.contains_key(k)) by {
        if w1.contains_key(k) && w2.contains_key(k) {
            assert(w1.dom().intersect(w2.dom()).contains(k));
        }
    }
    assert(merge_map(merge_map(s, w1), w2) =~= merge_map(merge_map(s, w2), w1));
}

/// Merging two batches one after the other is merging their concatenation.
pub proof fn lemma_merge_concat(s: StoreModel, u1: Seq<(SPPath, SPValue)>, u2: Seq<(SPPath, SPValue)>)
    ensures
        merge_spec(merge_spec(s, u1), u2) == merge_spec(s, u1 + u2),
    decreases u2.len(),
{
    if u2.len() == 0 {
        assert(u1 + u2 =~= u1);
    } else {
        lemma_merge_concat(s, u1, u2.drop_last());
        assert((u1 + u2).drop_last() =~= u1 + u2.drop_last());
    }
}

proof fn lemma_entries_map_index(s: Seq<StateInfo>, i: int)
    requires
        unique_paths(s),
        0 <= i < s.len(),
    ensures
        entries_map(s).contains_key(s[i].path@),
        entries_map(s)[s[i].path@] == s[i].entry(),
    decreases s.len(),
{
    if i < s.len() - 1 {
        lemma_entries_map_index(s.drop_last(), i);
    }
}

proof fn lemma_entries_map_keys(s: Seq<StateInfo>, p: Seq<Seq<char>>)
    ensures
        entries_map(s).contains_key(p) <==> exists|i: int| 0 <= i < s.len() && s[i].path@ == p,
    decreases s.len(),
{
    if s.len() > 0 {
        lemma_entries_map_keys(s.drop_last(), p);
        if entries_map(s.drop_last()).contains_key(p) {
            let i = choose|i: int| 0 <= i < s.len() - 1 && s.drop_last()[i].path@ == p;
            assert(s[i].path@ == p);
        }
        if exists|i: int| 0 <= i < s.len() && s[i].path@ == p {
            let i = choose|i: int| 0 <= i < s.len() && s[i].path@ == p;
            if i < s.len() - 1 {
                assert(s.drop_last()[i].path@ == p);
            }
        }
    }
}

proof fn lemma_entries_map_update(s: Seq<StateInfo>, i: int, e: StateInfo)
    requires
        unique_paths(s),
        0 <= i < s.len(),
        e.path@ == s[i].path@,
    ensures
        unique_paths(s.update(i, e)),
        entries_map(s.update(i, e)) == entries_map(s).insert(e.path@, e.entry()),
    decreases s.len(),
{
    let t = s.update(i, e);
    if i == s.len() - 1 {
        assert(t.drop_last() =~= s.drop_last());
        assert(entries_map(t) =~= entries_map(s).insert(e.path@, e.entry()));
    } else {
        assert(t.drop_last() =~= s.drop_last().update(i, e));
        lemma_entries_map_update(s.drop_last(), i, e);
        assert(s.last().path@ != e.path@);
        assert(entries_map(t) =~= entries_map(s).insert(e.path@, e.entry()));
    }
}

/// Strictly increasing in path order.
pub open spec fn sorted_by_path(s: Seq<StateInfo>) -> bool {
    forall|i: int, j: int| 0 <= i < j < s.len() ==> path_lt(s[i].path@, s[j].path@)
}

impl Clone for StateInfo {
    fn clone(&self) -> (r: StateInfo)
        ensures
            r.path@ == self.path@,
            r.entry() == self.entry(),
    {
        StateInfo { path: self.path.clone(), value: self.value.clone(), new_value: self.new_value.clone() }
    }
}

/// Two sequences whose entries agree in path and content describe the same
/// map.
proof fn lemma_entries_map_same(a: Seq<StateInfo>, b: Seq<StateInfo>)
    requires
        a.len() == b.len(),
        forall|j: int| 0 <= j < a.len() ==> (#[trigger] a[j]).path@ == b[j].path@ && a[j].entry()
            == b[j].entry(),
    ensures
        entries_map(a) == entries_map(b),
        unique_paths(a) == unique_paths(b),
    decreases a.len(),
{
    if a.len() > 0 {
        lemma_entries_map_same(a.drop_last(), b.drop_last());
        assert(a.last() == a[a.len() - 1]);
    }
    if unique_paths(b) {
        assert forall|i: int, j: int| 0 <= i < j < a.len() implies a[i].path@ != a[j].path@ by {
            assert(a[i].path@ == b[i].path@ && a[j].path@ == b[j].path@);
        }
    }
    if unique_paths(a) {
        assert forall|i: int, j: int| 0 <= i < j < b.len() implies b[i].path@ != b[j].path@ by {
            assert(a[i].path@ == b[i].path@ && a[j].path@ == b[j].path@);
        }
    }
}

/// The entries of a sequence with one more at its end.
proof fn lemma_entries_map_push(s: Seq<StateInfo>, e: StateInfo)
    ensures
        entries_map(s.push(e)) == entries_map(s).insert(e.path@, e.entry()),
{
    assert(s.push(e).drop_last() =~= s);
}

/// Whether some entry of the sequence has the path.
pub open spec fn has_path(s: Seq<StateInfo>, p: Seq<Seq<char>>) -> bool {
    exists|i: int| 0 <= i < s.len() && s[i].path@ == p
}

/// Merges two runs sorted by path that share no path into one sorted run.
fn merge_runs(a: &Vec<StateInfo>, b: &Vec<StateInfo>) -> (r: Vec<StateInfo>)
    requires
        sorted_by_path(a@),
        sorted_by_path(b@),
        forall|i: int, j: int| 0 <= i < a@.len() && 0 <= j < b@.len() ==> a@[i].path@ != b@[j].path@,
    ensures
        sorted_by_path(r@),
        r@.len() == a@.len() + b@.len(),
        entries_map(r@) == entries_map(a@).union_prefer_right(entries_map(b@)),
{
    let mut out: Vec<StateInfo> = Vec::new();
    let mut i: usize = 0;
    let mut j: usize = 0;
    assert(entries_map(a@.take(0)).union_prefer_right(entries_map(b@.take(0))) =~= entries_map(out@));
    while i < a.len() || j < b.len()
        invariant
            sorted_by_path(a@),
            sorted_by_path(b@),
            forall|x: int, y: int| 0 <= x < a@.len() && 0 <= y < b@.len() ==> a@[x].path@ != b@[y].path@,
            i <= a@.len(),
            j <= b@.len(),
            out@.len() == i + j,
            sorted_by_path(out@),
            i < a@.len() ==> forall|k: int| 0 <= k < out@.len() ==> path_lt(#[trigger] out@[k].path@, a@[i as int].path@),
            j < b@.len() ==> forall|k: int| 0 <= k < out@.len() ==> path_lt(#[trigger] out@[k].path@, b@[j as int].path@),
            entries_map(out@) == entries_map(a@.take(i as int)).union_prefer_right(entries_map(b@.take(j as int))),
        decreases a@.len() + b@.len() - i - j,
    {
        let take_a = if i >= a.len() {
            false
        } else if j >= b.len() {
            true
        } else {
            a[i].path.lt(&b[j].path)
        };
        let ghost before = out@;
        if take_a {
            let x = a[i].clone();
            proof {
                if j < b@.len() && !path_lt(a@[i as int].path@, b@[j as int].path@) {
                    lemma_path_lt_total(a@[i as int].path@, b@[j as int].path@);
                }
                lemma_entries_map_push(before, x);
                assert(a@.take(i + 1) =~= a@.take(i as int).push(a@[i as int]));
                lemma_entries_map_push(a@.take(i as int), a@[i as int]);
                lemma_entries_map_keys(b@.take(j as int), x.path@);
                if has_path(b@.take(j as int), x.path@) {
                    let y = choose|y: int| 0 <= y < j && b@.take(j as int)[y].path@ == x.path@;
                    assert(b@[y].path@ == a@[i as int].path@);
                }
            }
            out.push(x);
            proof {
                assert(entries_map(out@) =~= entries_map(a@.take(i + 1)).union_prefer_right(
                    entries_map(b@.take(j as int)),
                ));
                assert forall|k: int| 0 <= k < out@.len() && i + 1 < a@.len() implies path_lt(
                    #[trigger] out@[k].path@,
                    a@[i + 1].path@,
                ) by {
                    if k < before.len() {
                        lemma_path_lt_transitive(out@[k].path@, a@[i as int].path@, a@[i + 1].path@);
                    }
                }
            }
            i = i + 1;
        } else {
            let x = b[j].clone();
            proof {
                if i < a@.len() {
                    lemma_path_lt_total(a@[i as int].path@, b@[j as int].path@);
                }
                lemma_entries_map_push(before, x);
                assert(b@.take(j + 1) =~= b@.take(j as int).push(b@[j as int]));
                lemma_entries_map_push(b@.take(j as int), b@[j as int]);
            }
            out.push(x);
            proof {
                assert(entries_map(out@) =~= entries_map(a@.take(i as int)).union_prefer_right(
                    entries_map(b@.take(j + 1)),
                ));
                assert forall|k: int| 0 <= k < out@.len() && j + 1 < b@.len() implies path_lt(
                    #[trigger] out@[k].path@,
                    b@[j + 1].path@,
                ) by {
                    if k < before.len() {
                        lemma_path_lt_transitive(out@[k].path@, b@[j as int].path@, b@[j + 1].path@);
                    }
                }
            }
            j = j + 1;
        }
    }
    assert(a@.take(i as int) =~= a@);
    assert(b@.take(j as int) =~= b@);
    out
}

proof fn lemma_sorted_unique(s: Seq<StateInfo>)
    requires
        sorted_by_path(s),
    ensures
        unique_paths(s),
{
    assert forall|i: int, j: int| 0 <= i < j < s.len() implies s[i].path@ != s[j].path@ by {
        lemma_path_lt_irreflexive(s[i].path@);
    }
}

/// Sorts entries that share no path by path, in O(n log n) comparisons.
fn sort_by_path(v: Vec<StateInfo>) -> (r: Vec<StateInfo>)
    requires
        unique_paths(v@),
    ensures
        sorted_by_path(r@),
        unique_paths(r@),
        entries_map(r@) == entries_map(v@),
        r@.len() == v@.len(),
    decreases v@.len(),
{
    if v.len() <= 1 {
        return v;
    }
    let ghost whole = v@;
    let mut left = v;
    let mid = left.len() / 2;
    let right = left.split_off(mid);
    proof {
        assert(whole =~= left@ + right@);
        assert forall|i: int, j: int| 0 <= i < j < left@.len() implies left@[i].path@ != left@[j].path@ by {
            assert(left@[i] == whole[i] && left@[j] == whole[j]);
        }
        assert forall|i: int, j: int| 0 <= i < j < right@.len() implies right@[i].path@ != right@[j].path@ by {
            assert(right@[i] == whole[mid + i] && right@[j] == whole[mid + j]);
        }
    }
    let sl = sort_by_path(left);
    let sr = sort_by_path(right);
    proof {
        assert forall|x: int, y: int| 0 <= x < sl@.len() && 0 <= y < sr@.len() implies sl@[x].path@ != sr@[y].path@ by {
            lemma_entries_map_keys(sl@, sl@[x].path@);
            lemma_entries_map_keys(left@, sl@[x].path@);
            lemma_entries_map_keys(sr@, sr@[y].path@);
            lemma_entries_map_keys(right@, sr@[y].path@);
            if sl@[x].path@ == sr@[y].path@ {
                let a = choose|a: int| 0 <= a < left@.len() && left@[a].path@ == sl@[x].path@;
                let b = choose|b: int| 0 <= b < right@.len() && right@[b].path@ == sr@[y].path@;
                assert(whole[a] == left@[a] && whole[mid + b] == right@[b]);
            }
        }
    }
    let r = merge_runs(&sl, &sr);
    proof {
        lemma_sorted_unique(r@);
        lemma_entries_map_concat(left@, right@);
        assert(whole == left@ + right@);
    }
    r
}

/// The entries of a concatenation: the later part wins on a shared path.
proof fn lemma_entries_map_concat(a: Seq<StateInfo>, b: Seq<StateInfo>)
    ensures
        entries_map(a + b) == entries_map(a).union_prefer_right(entries_map(b)),
    decreases b.len(),
{
    if b.len() == 0 {
        assert(a + b =~= a);
        assert(entries_map(a).union_prefer_right(Map::empty()) =~= entries_map(a));
    } else {
        lemma_entries_map_concat(a, b.drop_last());
        assert((a + b).drop_last() =~= a + b.drop_last());
        assert(entries_map(a + b) =~= entries_map(a).union_prefer_right(entries_map(b)));
    }
}

/// The mutable snapshot of every path observed, with its last known value.
pub struct StateStore {
    pub entries: Vec<StateInfo>,
}

impl View for StateStore {
    type V = StoreModel;

    open spec fn view(&self) -> StoreModel {
        entries_map(self.entries@)
    }
}

impl StateStore {
    /// At most one entry per path.
    pub open spec fn wf(&self) -> bool {
        unique_paths(self.entries@)
    }

    /// The value of each observed path.
    pub open spec fn values(&self) -> Map<Seq<Seq<char>>, ValueModel> {
        self@.map_values(|e: EntryModel| e.0)
    }

    /// An empty store.
    pub fn new() -> (r: StateStore)
        ensures
            r.wf(),
            r@ == Map::<Seq<Seq<char>>, EntryModel>::empty(),
    {
        StateStore { entries: Vec::new() }
    }

    /// The number of observed paths.
    pub fn len(&self) -> (r: usize)
        requires
            self.wf(),
        ensures
            r == self@.len(),
    {
        proof {
            self.lemma_len();
        }
        self.entries.len()
    }

    proof fn lemma_len(&self)
        requires
            self.wf(),
        ensures
            self@.len() == self.entries@.len(),
    {
        lemma_entries_map_len(self.entries@);
    }

    /// The position of the entry for a path.
    fn find(&self, p: &SPPath) -> (r: Option<usize>)
        requires
            self.wf(),
        ensures
            r.is_some() ==> r.unwrap() < self.entries@.len() && self.entries@[r.unwrap() as int].path@
                == p@,
            r.is_none() ==> !self@.contains_key(p@),
    {
        let mut i: usize = 0;
        while i < self.entries.len()
            invariant
                i <= self.entries@.len(),
                forall|j: int| 0 <= j < i ==> self.entries@[j].path@ != p@,
            decreases self.entries@.len() - i,
        {
            if self.entries[i].path.eq(p) {
                return Some(i);
            }
            i = i + 1;
        }
        proof {
            lemma_entries_map_keys(self.entries@, p@);
        }
        None
    }

    /// The value of a path, or `None` where the path was never observed.
    pub fn get(&self, p: &SPPath) -> (r: Option<&SPValue>)
        requires
            self.wf(),
        ensures
            r.is_some() == self@.contains_key(p@),
            r.is_some() ==> r.unwrap()@ == self@[p@].0,
    {
        match self.find(p) {
            Some(i) => {
                proof {
                    lemma_entries_map_index(self.entries@, i as int);
                }
                Some(&self.entries[i].value)
            },
            None => None,
        }
    }

    /// The text that a user typed for a path and has not submitted, or `None`
    /// where the path was never observed.
    pub fn pending_edit(&self, p: &SPPath) -> (r: Option<&String>)
        requires
            self.wf(),
        ensures
            r.is_some() == self@.contains_key(p@),
            r.is_some() ==> r.unwrap()@ == self@[p@].1,
    {
        match self.find(p) {
            Some(i) => {
                proof {
                    lemma_entries_map_index(self.entries@, i as int);
                }
                Some(&self.entries[i].new_value)
            },
            None => None,
        }
    }

    /// Records the text that a user typed as the new value of a path; does
    /// nothing where the path was never observed.
    pub fn set_pending_edit(&mut self, p: &SPPath, text: String)
        requires
            old(self).wf(),
        ensures
            final(self).wf(),
            final(self)@ == if old(self)@.contains_key(p@) {
                old(self)@.insert(p@, (old(self)@[p@].0, text@))
            } else {
                old(self)@
            },
    {
        match self.find(p) {
            Some(i) => {
                proof {
                    lemma_entries_map_index(self.entries@, i as int);
                }
                let e = StateInfo {
                    path: self.entries[i].path.clone(),
                    value: self.entries[i].value.clone(),
                    new_value: text,
                };
                proof {
                    lemma_entries_map_update(self.entries@, i as int, e);
                }
                self.entries.set(i, e);
            },
            None => {},
        }
    }

    /// Drops the pending edit of a path.
    pub fn clear_pending_edit(&mut self, p: &SPPath)
        requires
            old(self).wf(),
        ensures
            final(self).wf(),
            final(self)@ == if old(self)@.contains_key(p@) {
                old(self)@.insert(p@, (old(self)@[p@].0, Seq::empty()))
            } else {
                old(self)@
            },
    {
        self.set_pending_edit(p, String::new());
    }

    /// Every entry, in path order. The store is left as it is.
    pub fn sorted_entries(&self) -> (r: Vec<StateInfo>)
        requires
            self.wf(),
        ensures
            sorted_by_path(r@),
            unique_paths(r@),
            entries_map(r@) == self@,
            r@.len() == self@.len(),
    {
        let mut copy: Vec<StateInfo> = Vec::new();
        let mut i: usize = 0;
        while i < self.entries.len()
            invariant
                i <= self.entries@.len(),
                copy@.len() == i,
                forall|j: int| 0 <= j < i ==> (#[trigger] copy@[j]).path@ == self.entries@[j].path@
                    && copy@[j].entry() == self.entries@[j].entry(),
            decreases self.entries@.len() - i,
        {
            copy.push(self.entries[i].clone());
            i = i + 1;
        }
        proof {
            lemma_entries_map_same(copy@, self.entries@);
            self.lemma_len();
        }
        sort_by_path(copy)
    }

    /// The value of every observed path, in the order of the entries.
    pub fn values_list(&self) -> (r: Vec<(SPPath, SPValue)>)
        requires
            self.wf(),
        ensures
            updates_map(r@) == self.values(),
    {
        let mut out: Vec<(SPPath, SPValue)> = Vec::new();
        let mut i: usize = 0;
        while i < self.entries.len()
            invariant
                self.wf(),
                i <= self.entries@.len(),
                updates_map(out@) == entries_map(self.entries@.take(i as int)).map_values(
                    |e: EntryModel| e.0,
                ),
            decreases self.entries@.len() - i,
        {
            let pair = (self.entries[i].path.clone(), self.entries[i].value.clone());
            let ghost before = out@;
            out.push(pair);
            proof {
                assert(self.entries@.take(i + 1).drop_last() =~= self.entries@.take(i as int));
                assert(out@.drop_last() =~= before);
                assert(updates_map(out@) =~= entries_map(self.entries@.take(i + 1)).map_values(
                    |e: EntryModel| e.0,
                ));
            }
            i = i + 1;
        }
        assert(self.entries@.take(i as int) =~= self.entries@);
        out
    }

    /// Merges one update: the value of an observed path is replaced, keeping
    /// its pending edit; an unseen path gets a new entry.
    pub fn merge_update(&mut self, p: SPPath, v: SPValue)
        requires
            old(self).wf(),
        ensures
            final(self).wf(),
            final(self)@ == merge_one(old(self)@, p@, v@),
    {
        match self.find(&p) {
            Some(i) => {
                proof {
                    lemma_entries_map_index(self.entries@, i as int);
                }
                let new_value = self.entries[i].new_value.clone();
                let e = StateInfo { path: p, value: v, new_value };
                proof {
                    lemma_entries_map_update(self.entries@, i as int, e);
                }
                self.entries.set(i, e);
            },
            None => {
                let e = StateInfo { path: p, value: v, new_value: String::new() };
                proof {
                    lemma_entries_map_keys(self.entries@, e.path@);
                    assert forall|j: int| 0 <= j < self.entries@.len() implies self.entries@[j].path@
                        != e.path@ by {}
                }
                self.entries.push(e);
                proof {
                    assert(self.entries@.drop_last() =~= old(self).entries@);
                }
            },
        }
    }

    /// Merges a batch of updates, in order: the last update of a path wins.
    /// Entries of paths that the batch does not name stay as they were.
    pub fn merge(&mut self, updates: Vec<(SPPath, SPValue)>)
        requires
            old(self).wf(),
        ensures
            final(self).wf(),
            final(self)@ == merge_spec(old(self)@, updates@),
    {
        let ghost u = updates@;
        let mut rest = updates;
        let ghost m0 = self@;
        // the batch is taken from its end twice, which restores its order
        let mut items: Vec<(SPPath, SPValue)> = Vec::new();
        while rest.len() > 0
            invariant
                u == rest@ + items@.reverse(),
            decreases rest@.len(),
        {
            let x = rest.pop().unwrap();
            proof {
                assert(u =~= rest@ + (items@.push(x)).reverse());
            }
            items.push(x);
        }
        assert(u =~= items@.reverse());
        let ghost n = items@.len();
        while items.len() > 0
            invariant
                self.wf(),
                u.len() == n,
                items@.len() <= n,
                forall|j: int| 0 <= j < items@.len() ==> items@[j] == u[n - 1 - j],
                self@ == merge_spec(m0, u.take(n - items@.len())),
            decreases items@.len(),
        {
            let ghost k = n - items@.len();
            let x = items.pop().unwrap();
            assert(x == u[k]);
            assert(u.take(k + 1).drop_last() =~= u.take(k));
            self.merge_update(x.0, x.1);
        }
        assert(u.take(n as int) =~= u);
    }
}

proof fn lemma_entries_map_len(s: Seq<StateInfo>)
    requires
        unique_paths(s),
    ensures
        entries_map(s).len() == s.len(),
        entries_map(s).dom().finite(),
    decreases s.len(),
{
    if s.len() > 0 {
        lemma_entries_map_len(s.drop_last());
        lemma_entries_map_keys(s.drop_last(), s.last().path@);
        if entries_map(s.drop_last()).contains_key(s.last().path@) {
            let i = choose|i: int| 0 <= i < s.len() - 1 && s.drop_last()[i].path@ == s.last().path@;
            assert(s[i].path@ == s[s.len() - 1].path@);
        }
    }
}

} // verus!
