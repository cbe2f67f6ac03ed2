//! Module references and the deduplicated, sorted set of them that each
//! declaration requires.
use vstd::prelude::*;
use vstd::string::*;
use crate::order::{
    lemma_seq_lt_irreflexive, lemma_seq_lt_total, lemma_seq_lt_transitive, seq_lt, str_lt,
};

verus! {

/// A reference to an outside module: its qualified path and, optionally, one
/// symbol imported from it.
pub struct ModuleRef {
    pub path: String,
    pub symbol: Option<String>,
}

/// What a reference denotes: its path and its symbol, as characters.
pub type RefKey = (Seq<char>, Option<Seq<char>>);

pub open spec fn opt_view(o: Option<String>) -> Option<Seq<char>> {
    match o {
        Some(s) => Some(s@),
        None => None,
    }
}

impl View for ModuleRef {
    type V = RefKey;

    open spec fn view(&self) -> RefKey {
        (self.path@, opt_view(self.symbol))
    }
}

/// `None` sorts before any symbol; symbols sort lexicographically.
pub open spec fn opt_lt(a: Option<Seq<char>>, b: Option<Seq<char>>) -> bool {
    match (a, b) {
        (None, Some(_)) => true,
        (Some(x), Some(y)) => seq_lt(x, y),
        _ => false,
    }
}

/// The order of an import block: by path, then by symbol.
pub open spec fn key_lt(a: RefKey, b: RefKey) -> bool {
    seq_lt(a.0, b.0) || (a.0 == b.0 && opt_lt(a.1, b.1))
}

pub proof fn lemma_key_lt_irreflexive(a: RefKey)
    ensures
        !key_lt(a, a),
{
    lemma_seq_lt_irreflexive(a.0);
    if let Some(x) = a.1 {
        lemma_seq_lt_irreflexive(x);
    }
}

pub proof fn lemma_key_lt_transitive(a: RefKey, b: RefKey, c: RefKey)
    requires
        key_lt(a, b),
        key_lt(b, c),
    ensures
        key_lt(a, c),
{
    if seq_lt(a.0, b.0) && seq_lt(b.0, c.0) {
        lemma_seq_lt_transitive(a.0, b.0, c.0);
    }
    if let (Some(x), Some(y), Some(z)) = (a.1, b.1, c.1) {
        if seq_lt(x, y) && seq_lt(y, z) {
            lemma_seq_lt_transitive(x, y, z);
        }
    }
}

pub proof fn lemma_key_lt_total(a: RefKey, b: RefKey)
    requires
        a != b,
    ensures
        key_lt(a, b) || key_lt(b, a),
{
    if a.0 != b.0 {
        lemma_seq_lt_total(a.0, b.0);
    } else {
        match (a.1, b.1) {
            (Some(x), Some(y)) => {
                lemma_seq_lt_total(x, y);
            },
            _ => {},
        }
    }
}

/// Strictly ascending in the import order: sorted, and no key twice.
pub open spec fn strictly_sorted(s: Seq<RefKey>) -> bool {
    forall|i: int, j: int| 0 <= i < j < s.len() ==> key_lt(#[trigger] s[i], #[trigger] s[j])
}

/// Two strictly sorted sequences that hold the same keys are the same sequence.
pub proof fn lemma_sorted_unique(s1: Seq<RefKey>, s2: Seq<RefKey>)
    requires
        strictly_sorted(s1),
        strictly_sorted(s2),
        s1.to_set() == s2.to_set(),
    ensures
        s1 == s2,
    decreases s1.len(),
{
    if s1.len() == 0 {
        if s2.len() > 0 {
            assert(s2.to_set().contains(s2[0]));
        }
        assert(s1 =~= s2);
    } else {
        assert(s1.to_set().contains(s1[0]));
        let j = choose|j: int| 0 <= j < s2.len() && s2[j] == s1[0];
        assert(s2.to_set().contains(s2[0]));
        let i = choose|i: int| 0 <= i < s1.len() && s1[i] == s2[0];
        if j > 0 {
            if i > 0 {
                lemma_key_lt_transitive(s2[0], s1[0], s2[0]);
            } else {
                lemma_key_lt_irreflexive(s2[0]);
            }
            lemma_key_lt_irreflexive(s2[0]);
        }
        assert(s1[0] == s2[0]);
        let t1 = s1.drop_first();
        let t2 = s2.drop_first();
        assert forall|k: RefKey| t1.to_set().contains(k) implies t2.to_set().contains(k) by {
            let a = choose|a: int| 0 <= a < t1.len() && t1[a] == k;
            assert(s1.to_set().contains(k));
            let b = choose|b: int| 0 <= b < s2.len() && s2[b] == k;
            if b == 0 {
                lemma_key_lt_irreflexive(k);
            }
            assert(t2[b - 1] == k);
        }
        assert forall|k: RefKey| t2.to_set().contains(k) implies t1.to_set().contains(k) by {
            let a = choose|a: int| 0 <= a < t2.len() && t2[a] == k;
            assert(s2.to_set().contains(k));
            let b = choose|b: int| 0 <= b < s1.len() && s1[b] == k;
            if b == 0 {
                lemma_key_lt_irreflexive(k);
            }
            assert(t1[b - 1] == k);
        }
        assert(t1.to_set() =~= t2.to_set());
        lemma_sorted_unique(t1, t2);
        assert(s1 =~= seq![s1[0]] + t1);
        assert(s2 =~= seq![s2[0]] + t2);
    }
}

impl ModuleRef {
    /// A reference to the module at `path` as a whole.
    pub fn module(path: &str) -> (r: ModuleRef)
        ensures
            r@ == (path@, None::<Seq<char>>),
    {
        ModuleRef { path: path.to_string(), symbol: None }
    }

    /// A reference to `symbol` of the module at `path`.
    pub fn symbol(path: &str, symbol: &str) -> (r: ModuleRef)
        ensures
            r@ == (path@, Some(symbol@)),
    {
        ModuleRef { path: path.to_string(), symbol: Some(symbol.to_string()) }
    }

    /// An independent copy.
    pub fn duplicate(&self) -> (r: ModuleRef)
        ensures
            r@ == self@,
    {
        let symbol = match &self.symbol {
            Some(s) => Some(s.clone()),
            None => None,
        };
        ModuleRef { path: self.path.clone(), symbol }
    }
}

/// Decides `key_lt(a@, b@)`.
pub fn ref_lt(a: &ModuleRef, b: &ModuleRef) -> (r: bool)
    ensures
        r == key_lt(a@, b@),
{
    if str_lt(a.path.as_str(), b.path.as_str()) {
        return true;
    }
    if a.path != b.path {
        return false;
    }
    match (&a.symbol, &b.symbol) {
        (None, Some(_)) => true,
        (Some(x), Some(y)) => str_lt(x.as_str(), y.as_str()),
        _ => false,
    }
}

/// Decides `a@ == b@`.
pub fn ref_eq(a: &ModuleRef, b: &ModuleRef) -> (r: bool)
    ensures
        r == (a@ == b@),
{
    if a.path != b.path {
        return false;
    }
    match (&a.symbol, &b.symbol) {
        (None, None) => true,
        (Some(x), Some(y)) => *x == *y,
        _ => false,
    }
}

/// A deduplicated set of module references, kept in import order.
pub struct ImportSet {
    pub refs: Vec<ModuleRef>,
}

impl View for ImportSet {
    type V = Set<RefKey>;

    open spec fn view(&self) -> Set<RefKey> {
        self.keys().to_set()
    }
}

impl ImportSet {
    /// The references in the order an import block lists them.
    pub open spec fn keys(&self) -> Seq<RefKey> {
        self.refs@.map_values(|r: ModuleRef| r@)
    }

    pub open spec fn wf(&self) -> bool {
        strictly_sorted(self.keys())
    }

    /// The empty set.
    pub fn new() -> (r: ImportSet)
        ensures
            r.wf(),
            r@ == Set::<RefKey>::empty(),
    {
        let r = ImportSet { refs: Vec::new() };
        assert(r.keys() =~= Seq::<RefKey>::empty());
        assert(r@ =~= Set::<RefKey>::empty());
        r
    }

    /// Adds `r`, keeping the order and dropping a duplicate.
    pub fn insert(&mut self, r: ModuleRef)
        requires
            old(self).wf(),
        ensures
            final(self).wf(),
            final(self)@ == old(self)@.insert(r@),
    {
        let ghost old_keys = self.keys();
        let mut p: usize = 0;
        while p < self.refs.len() && ref_lt(&self.refs[p], &r)
            invariant
                p <= self.refs.len(),
                self.keys() == old_keys,
                forall|i: int| 0 <= i < p ==> key_lt(#[trigger] old_keys[i], r@),
            decreases self.refs.len() - p,
        {
            p = p + 1;
        }
        if p < self.refs.len() && ref_eq(&self.refs[p], &r) {
            assert(old_keys[p as int] == r@);
            assert(self@ =~= old(self)@.insert(r@));
            return;
        }
        proof {
            assert forall|j: int| p <= j < old_keys.len() implies key_lt(r@, #[trigger] old_keys[j]) by {
                assert(!key_lt(old_keys[p as int], r@));
                assert(old_keys[p as int] != r@);
                lemma_key_lt_total(old_keys[p as int], r@);
                if j > p {
                    lemma_key_lt_transitive(r@, old_keys[p as int], old_keys[j]);
                }
            }
        }
        let ghost k = r@;
        self.refs.insert(p, r);
        assert(self.keys() =~= old_keys.insert(p as int, k));
        assert(self@ =~= old(self)@.insert(k)) by {
            assert forall|x: RefKey| self@.contains(x) <==> old(self)@.insert(k).contains(x) by {
                if self@.contains(x) {
                    let i = choose|i: int| 0 <= i < self.keys().len() && self.keys()[i] == x;
                    if i > p {
                        assert(old_keys[i - 1] == x);
                    } else if i < p {
                        assert(old_keys[i] == x);
                    }
                }
                if old(self)@.contains(x) {
                    let i = choose|i: int| 0 <= i < old_keys.len() && old_keys[i] == x;
                    if i >= p {
                        assert(self.keys()[i + 1] == x);
                    } else {
                        assert(self.keys()[i] == x);
                    }
                }
                if x == k {
                    assert(self.keys()[p as int] == x);
                }
            }
        }
    }

    /// Adds every reference of `other`.
    pub fn merge(&mut self, other: &ImportSet)
        requires
            old(self).wf(),
        ensures
            final(self).wf(),
            final(self)@ == old(self)@.union(other@),
    {
        let mut i: usize = 0;
        while i < other.refs.len()
            invariant
                i <= other.refs.len(),
                self.wf(),
                self@ == old(self)@.union(other.keys().subrange(0, i as int).to_set()),
            decreases other.refs.len() - i,
        {
            let r = other.refs[i].duplicate();
            self.insert(r);
            assert(other.keys().subrange(0, i + 1) =~= other.keys().subrange(0, i as int).push(
                other.keys()[i as int],
            ));
            proof {
                other.keys().subrange(0, i as int).lemma_push_to_set_commute(other.keys()[i as int]);
            }
            assert(self@ =~= old(self)@.union(other.keys().subrange(0, i + 1).to_set()));
            i = i + 1;
        }
        assert(other.keys().subrange(0, other.refs.len() as int) =~= other.keys());
    }

    /// An independent copy.
    pub fn duplicate(&self) -> (r: ImportSet)
        requires
            self.wf(),
        ensures
            r.wf(),
            r.keys() == self.keys(),
    {
        let mut out: Vec<ModuleRef> = Vec::new();
        let mut i: usize = 0;
        while i < self.refs.len()
            invariant
                i <= self.refs.len(),
                out@.len() == i,
                forall|j: int| 0 <= j < i ==> (#[trigger] out@[j])@ == self.refs@[j]@,
            decreases self.refs.len() - i,
        {
            out.push(self.refs[i].duplicate());
            i = i + 1;
        }
        let r = ImportSet { refs: out };
        assert(r.keys() =~= self.keys());
        r
    }
}

/// Merging import sets in any order, any number of times, yields the same
/// import block: a well-formed set's sequence is fixed by the references it
/// holds, and union is commutative, associative and idempotent.
pub proof fn lemma_import_order_independent(a: ImportSet, b: ImportSet)
    requires
        a.wf(),
        b.wf(),
        a@ == b@,
    ensures
        a.keys() == b.keys(),
{
    lemma_sorted_unique(a.keys(), b.keys());
}

/// Set union, on which merging rests, is commutative, associative and idempotent.
pub proof fn lemma_union_laws(x: Set<RefKey>, y: Set<RefKey>, z: Set<RefKey>)
    ensures
        x.union(y) == y.union(x),
        x.union(y).union(z) == x.union(y.union(z)),
        x.union(x) == x,
{
    assert(x.union(y) =~= y.union(x));
    assert(x.union(y).union(z) =~= x.union(y.union(z)));
    assert(x.union(x) =~= x);
}

} // verus!
