use vstd::prelude::*;
use crate::path::SPPath;
use crate::store::StateStore;
use crate::value::{SPValue, ValueModel};

verus! {

broadcast use vstd::std_specs::vec::group_vec_axioms;

/// A snapshot of the state: the value of each observed path.
pub type Snapshot = Map<Seq<Seq<char>>, ValueModel>;

/// One side of an equality: a literal value, or a path read from the state.
pub enum PredicateValue {
    SPValue(SPValue),
    SPPath(SPPath),
}

/// A boolean expression over the state.
pub enum Predicate {
    TRUE,
    FALSE,
    AND(Vec<Predicate>),
    OR(Vec<Predicate>),
    NOT(Box<Predicate>),
    EQ(PredicateValue, PredicateValue),
}

/// The value that one side of an equality stands for, or `None` for a path
/// that the snapshot does not hold.
pub open spec fn resolve(v: PredicateValue, s: Snapshot) -> Option<ValueModel> {
    match v {
        PredicateValue::SPValue(x) => Some(x@),
        PredicateValue::SPPath(p) => if s.contains_key(p@) {
            Some(s[p@])
        } else {
            None
        },
    }
}

/// The truth of a predicate in a snapshot. An equality that reads a path
/// absent from the snapshot is false.
pub open spec fn eval_spec(p: Predicate, s: Snapshot) -> bool
    decreases p,
{
    match p {
        Predicate::TRUE => true,
        Predicate::FALSE => false,
        Predicate::AND(ps) => eval_all(ps@, s),
        Predicate::OR(ps) => eval_any(ps@, s),
        Predicate::NOT(q) => !eval_spec(*q, s),
        Predicate::EQ(l, r) => match (resolve(l, s), resolve(r, s)) {
            (Some(a), Some(b)) => a == b,
            _ => false,
        },
    }
}

/// Every predicate of the sequence holds.
pub open spec fn eval_all(ps: Seq<Predicate>, s: Snapshot) -> bool
    decreases ps,
{
    if ps.len() == 0 {
        true
    } else {
        eval_all(ps.subrange(0, ps.len() - 1), s) && eval_spec(ps[ps.len() - 1], s)
    }
}

/// Some predicate of the sequence holds.
pub open spec fn eval_any(ps: Seq<Predicate>, s: Snapshot) -> bool
    decreases ps,
{
    if ps.len() == 0 {
        false
    } else {
        eval_any(ps.subrange(0, ps.len() - 1), s) || eval_spec(ps[ps.len() - 1], s)
    }
}

/// An equality that reads a path the snapshot does not hold is false,
/// whatever it is compared with.
pub proof fn lemma_eq_absent_path_false(p: SPPath, x: SPValue, s: Snapshot)
    requires
        !s.contains_key(p@),
    ensures
        !eval_spec(Predicate::EQ(PredicateValue::SPPath(p), PredicateValue::SPValue(x)), s),
        !eval_spec(Predicate::EQ(PredicateValue::SPValue(x), PredicateValue::SPPath(p)), s),
{
}

impl PredicateValue {
    /// The value this side stands for in the store.
    fn resolve<'a>(&'a self, state: &'a StateStore) -> (r: Option<&'a SPValue>)
        requires
            state.wf(),
        ensures
            r.is_some() == resolve(*self, state.values()).is_some(),
            r.is_some() ==> r.unwrap()@ == resolve(*self, state.values()).unwrap(),
    {
        match self {
            PredicateValue::SPValue(x) => Some(x),
            PredicateValue::SPPath(p) => state.get(p),
        }
    }
}

impl Predicate {
    /// Evaluates this predicate against the values of the store.
    pub fn eval(&self, state: &StateStore) -> (r: bool)
        requires
            state.wf(),
        ensures
            r == eval_spec(*self, state.values()),
        decreases self,
    {
        match self {
            Predicate::TRUE => true,
            Predicate::FALSE => false,
            Predicate::AND(ps) => {
                let mut i: usize = 0;
                assert(ps@.subrange(0, 0) =~= Seq::<Predicate>::empty());
                while i < ps.len()
                    invariant
                        *self == Predicate::AND(*ps),
                        state.wf(),
                        i <= ps@.len(),
                        eval_all(ps@.subrange(0, i as int), state.values()),
                    decreases ps@.len() - i,
                {
                    assert(decreases_to!(*ps => ps[i as int]));
                    assert(decreases_to!(*self => (*self)->AND_0));
                    assert(ps@.subrange(0, i + 1).subrange(0, i as int) =~= ps@.subrange(0, i as int));
                    if !ps[i].eval(state) {
                        proof {
                            lemma_all_prefix(ps@, i + 1, state.values());
                        }
                        return false;
                    }
                    i = i + 1;
                }
                assert(ps@.subrange(0, i as int) =~= ps@);
                true
            },
            Predicate::OR(ps) => {
                let mut i: usize = 0;
                assert(ps@.subrange(0, 0) =~= Seq::<Predicate>::empty());
                while i < ps.len()
                    invariant
                        *self == Predicate::OR(*ps),
                        state.wf(),
                        i <= ps@.len(),
                        !eval_any(ps@.subrange(0, i as int), state.values()),
                    decreases ps@.len() - i,
                {
                    assert(decreases_to!(*ps => ps[i as int]));
                    assert(decreases_to!(*self => (*self)->OR_0));
                    assert(ps@.subrange(0, i + 1).subrange(0, i as int) =~= ps@.subrange(0, i as int));
                    if ps[i].eval(state) {
                        proof {
                            lemma_any_prefix(ps@, i + 1, state.values());
                        }
                        return true;
                    }
                    i = i + 1;
                }
                assert(ps@.subrange(0, i as int) =~= ps@);
                false
            },
            Predicate::NOT(q) => !q.eval(state),
            Predicate::EQ(l, r) => {
                let a = l.resolve(state);
                let b = r.resolve(state);
                match (a, b) {
                    (Some(x), Some(y)) => x.eq(y),
                    _ => false,
                }
            },
        }
    }
}

/// Where a prefix fails, the whole sequence fails.
proof fn lemma_all_prefix(ps: Seq<Predicate>, k: int, s: Snapshot)
    requires
        0 <= k <= ps.len(),
        !eval_all(ps.subrange(0, k), s),
    ensures
        !eval_all(ps, s),
    decreases ps.len() - k,
{
    if k < ps.len() {
        assert(ps.subrange(0, k + 1).subrange(0, k) =~= ps.subrange(0, k));
        lemma_all_prefix(ps, k + 1, s);
    } else {
        assert(ps.subrange(0, k) =~= ps);
    }
}

/// Where a prefix holds one true predicate, so does the whole sequence.
proof fn lemma_any_prefix(ps: Seq<Predicate>, k: int, s: Snapshot)
    requires
        0 <= k <= ps.len(),
        eval_any(ps.subrange(0, k), s),
    ensures
        eval_any(ps, s),
    decreases ps.len() - k,
{
    if k < ps.len() {
        assert(ps.subrange(0, k + 1).subrange(0, k) =~= ps.subrange(0, k));
        lemma_any_prefix(ps, k + 1, s);
    } else {
        assert(ps.subrange(0, k) =~= ps);
    }
}

} // verus!
