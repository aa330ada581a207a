//! Name → value tables kept in name order, each name once (the cookies and
//! headers of a session).

use vstd::prelude::*;

verus! {

/// Strict lexicographic order of texts by code point: the order of `str`'s
/// `Ord` (UTF-8 keeps the order of code points).
pub open spec fn text_lt(a: Seq<char>, b: Seq<char>) -> bool
    decreases a.len(),
{
    if a.len() == 0 {
        b.len() > 0
    } else if b.len() == 0 {
        false
    } else if a[0] != b[0] {
        a[0] < b[0]
    } else {
        text_lt(a.drop_first(), b.drop_first())
    }
}

pub proof fn lemma_text_lt_irreflexive(a: Seq<char>)
    ensures
        !text_lt(a, a),
    decreases a.len(),
{
    if a.len() > 0 {
        lemma_text_lt_irreflexive(a.drop_first());
    }
}

pub proof fn lemma_text_lt_total(a: Seq<char>, b: Seq<char>)
    ensures
        a == b || text_lt(a, b) || text_lt(b, a),
    decreases a.len(),
{
    if a.len() > 0 && b.len() > 0 && a[0] == b[0] {
        lemma_text_lt_total(a.drop_first(), b.drop_first());
        if a.drop_first() == b.drop_first() {
            assert(a =~= seq![a[0]] + a.drop_first());
            assert(b =~= seq![b[0]] + b.drop_first());
        }
    } else if a.len() == 0 && b.len() == 0 {
        assert(a =~= b);
    }
}

pub proof fn lemma_text_lt_transitive(a: Seq<char>, b: Seq<char>, c: Seq<char>)
    requires
        text_lt(a, b),
        text_lt(b, c),
    ensures
        text_lt(a, c),
    decreases a.len(),
{
    if a.len() > 0 && a[0] == b[0] && b[0] == c[0] {
        lemma_text_lt_transitive(a.drop_first(), b.drop_first(), c.drop_first());
    }
}

/// Names strictly increasing: in order, and none twice.
pub open spec fn names_sorted(p: Seq<(Seq<char>, Seq<char>)>) -> bool {
    forall|i: int, j: int| 0 <= i < j < p.len() ==> text_lt(#[trigger] p[i].0, #[trigger] p[j].0)
}

/// The table as a map from names to values.
pub open spec fn pairs_map(p: Seq<(Seq<char>, Seq<char>)>) -> Map<Seq<char>, Seq<char>> {
    Map::new(
        |n: Seq<char>| exists|i: int| 0 <= i < p.len() && #[trigger] p[i].0 == n,
        |n: Seq<char>| value_of(p, n),
    )
}

/// A position holding name `n`, if there is one.
pub open spec fn pos_of(p: Seq<(Seq<char>, Seq<char>)>, n: Seq<char>) -> int {
    choose|i: int| 0 <= i < p.len() && #[trigger] p[i].0 == n
}

/// The value at a position holding name `n`.
pub open spec fn value_of(p: Seq<(Seq<char>, Seq<char>)>, n: Seq<char>) -> Seq<char> {
    p[pos_of(p, n)].1
}

/// The views of stored pairs.
pub open spec fn pair_views(e: Seq<(String, String)>) -> Seq<(Seq<char>, Seq<char>)> {
    e.map_values(|x: (String, String)| (x.0@, x.1@))
}

proof fn lemma_sorted_unique(p: Seq<(Seq<char>, Seq<char>)>, i: int, j: int)
    requires
        names_sorted(p),
        0 <= i < p.len(),
        0 <= j < p.len(),
        i != j,
    ensures
        p[i].0 != p[j].0,
{
    if i < j {
        assert(text_lt(p[i].0, p[j].0));
        if p[i].0 == p[j].0 {
            lemma_text_lt_irreflexive(p[i].0);
        }
    } else {
        assert(text_lt(p[j].0, p[i].0));
        if p[i].0 == p[j].0 {
            lemma_text_lt_irreflexive(p[i].0);
        }
    }
}

/// In a sorted table the value of a name is the one at its position.
proof fn lemma_map_at(p: Seq<(Seq<char>, Seq<char>)>, i: int)
    requires
        names_sorted(p),
        0 <= i < p.len(),
    ensures
        pairs_map(p).contains_key(p[i].0),
        pairs_map(p)[p[i].0] == p[i].1,
{
    let n = p[i].0;
    assert(0 <= i < p.len() && p[i].0 == n);
    let c = pos_of(p, n);
    if c != i {
        lemma_sorted_unique(p, c, i);
    }
    assert(pairs_map(p)[n] == value_of(p, n));
}

proof fn lemma_map_update(p: Seq<(Seq<char>, Seq<char>)>, q: Seq<(Seq<char>, Seq<char>)>, i: int, v: Seq<char>)
    requires
        names_sorted(p),
        0 <= i < p.len(),
        q == p.update(i, (p[i].0, v)),
    ensures
        names_sorted(q),
        pairs_map(q) =~= pairs_map(p).insert(p[i].0, v),
{
    assert(names_sorted(q)) by {
        assert forall|a: int, b: int| 0 <= a < b < q.len() implies text_lt(#[trigger] q[a].0, #[trigger] q[b].0) by {
            assert(text_lt(p[a].0, p[b].0));
        }
    }
    let m1 = pairs_map(q);
    let m2 = pairs_map(p).insert(p[i].0, v);
    assert forall|n: Seq<char>| m1.contains_key(n) <==> m2.contains_key(n) by {
        if m1.contains_key(n) {
            let c = pos_of(q, n);
            assert(p[c].0 == n);
        }
        if m2.contains_key(n) && n != p[i].0 {
            let c = pos_of(p, n);
            assert(q[c].0 == n);
        }
        if n == p[i].0 {
            assert(q[i].0 == n);
        }
    }
    assert forall|n: Seq<char>| m1.contains_key(n) implies m1[n] == m2[n] by {
        let c = pos_of(q, n);
        lemma_map_at(q, c);
        if c != i {
            lemma_map_at(p, c);
            lemma_sorted_unique(p, c, i);
        }
    }
}

proof fn lemma_map_insert(p: Seq<(Seq<char>, Seq<char>)>, q: Seq<(Seq<char>, Seq<char>)>, i: int, k: Seq<char>, v: Seq<char>)
    requires
        names_sorted(p),
        names_sorted(q),
        0 <= i <= p.len(),
        q == p.insert(i, (k, v)),
    ensures
        pairs_map(q) =~= pairs_map(p).insert(k, v),
{
    let m1 = pairs_map(q);
    let m2 = pairs_map(p).insert(k, v);
    assert forall|n: Seq<char>| m1.contains_key(n) <==> m2.contains_key(n) by {
        if m1.contains_key(n) && n != k {
            let c = pos_of(q, n);
            if c < i {
                assert(p[c].0 == n);
            } else {
                assert(c != i);
                assert(p[c - 1].0 == n);
            }
        }
        if m2.contains_key(n) && n != k {
            let c = pos_of(p, n);
            if c < i {
                assert(q[c].0 == n);
            } else {
                assert(q[c + 1].0 == n);
            }
        }
        if n == k {
            assert(q[i].0 == n);
        }
    }
    assert forall|n: Seq<char>| m1.contains_key(n) implies m1[n] == m2[n] by {
        let c = pos_of(q, n);
        lemma_map_at(q, c);
        if c < i {
            lemma_map_at(p, c);
            lemma_sorted_unique(q, c, i);
        } else if c > i {
            lemma_map_at(p, c - 1);
            lemma_sorted_unique(q, c, i);
        }
    }
}

/// Names with their values, in name order, each name once.
#[derive(Debug)]
pub struct NamedValues {
    entries: Vec<(String, String)>,
}

impl View for NamedValues {
    type V = Map<Seq<char>, Seq<char>>;

    open spec fn view(&self) -> Map<Seq<char>, Seq<char>> {
        pairs_map(self.pairs())
    }
}

impl NamedValues {
    #[verifier::type_invariant]
    spec fn sorted(self) -> bool {
        names_sorted(pair_views(self.entries@))
    }

    /// The pairs in name order.
    pub closed spec fn pairs(self) -> Seq<(Seq<char>, Seq<char>)> {
        pair_views(self.entries@)
    }

    pub fn new() -> (r: Self)
        ensures
            r.pairs().len() == 0,
            r@ == Map::<Seq<char>, Seq<char>>::empty(),
    {
        let r = NamedValues { entries: Vec::new() };
        assert(r@ =~= Map::<Seq<char>, Seq<char>>::empty());
        r
    }

    /// Set `name` to `value`, replacing an earlier value of that name.
    pub fn insert(&mut self, name: &str, value: &str)
        ensures
            final(self)@ == old(self)@.insert(name@, value@),
            final(self).pairs().len() == old(self).pairs().len() + (if old(self)@.contains_key(name@) {
                0int
            } else {
                1int
            }),
    {
        proof {
            use_type_invariant(&*self);
        }
        let ghost p = self.pairs();
        let mut i: usize = 0;
        while i < self.entries.len()
            invariant
                p == pair_views(self.entries@),
                names_sorted(p),
                i <= p.len(),
                forall|j: int| 0 <= j < i ==> text_lt(#[trigger] p[j].0, name@),
            ensures
                i <= p.len(),
                forall|j: int| 0 <= j < i ==> text_lt(#[trigger] p[j].0, name@),
                i < p.len() ==> !text_lt(p[i as int].0, name@),
            decreases self.entries.len() - i,
        {
            if !text_less(self.entries[i].0.as_str(), name) {
                break;
            }
            i = i + 1;
        }
        let mut v: Vec<(String, String)> = Vec::new();
        std::mem::swap(&mut v, &mut self.entries);
        assert(pair_views(v@) == p);
        if i < v.len() && crate::text::str_eq(v[i].0.as_str(), name) {
            let key = v[i].0.clone();
            v.set(i, (key, String::from_str(value)));
            proof {
                assert(pair_views(v@) =~= p.update(i as int, (p[i as int].0, value@)));
                lemma_map_update(p, pair_views(v@), i as int, value@);
                lemma_map_at(p, i as int);
            }
        } else {
            proof {
                if i < p.len() {
                    assert(p[i as int].0 == v@[i as int].0@);
                    lemma_text_lt_total(p[i as int].0, name@);
                    assert(text_lt(name@, p[i as int].0));
                }
                assert forall|c: int| 0 <= c < p.len() implies #[trigger] p[c].0 != name@ by {
                    if c < i {
                        assert(text_lt(p[c].0, name@));
                        if p[c].0 == name@ {
                            lemma_text_lt_irreflexive(name@);
                        }
                    } else {
                        if c > i {
                            assert(text_lt(p[i as int].0, p[c].0));
                            lemma_text_lt_transitive(name@, p[i as int].0, p[c].0);
                        }
                        assert(text_lt(name@, p[c].0));
                        if p[c].0 == name@ {
                            lemma_text_lt_irreflexive(name@);
                        }
                    }
                }
            }
            v.insert(i, (String::from_str(name), String::from_str(value)));
            proof {
                let q = pair_views(v@);
                assert(q =~= p.insert(i as int, (name@, value@)));
                assert forall|a: int, b: int| 0 <= a < b < q.len() implies text_lt(#[trigger] q[a].0, #[trigger] q[b].0) by {
                    if b < i {
                        assert(text_lt(p[a].0, p[b].0));
                    } else if b == i {
                        assert(text_lt(p[a].0, name@));
                    } else if a == i {
                        if b - 1 > i {
                            assert(text_lt(p[i as int].0, p[b - 1].0));
                            lemma_text_lt_transitive(name@, p[i as int].0, p[b - 1].0);
                        }
                    } else if a < i {
                        assert(text_lt(p[a].0, p[b - 1].0));
                    } else {
                        assert(text_lt(p[a - 1].0, p[b - 1].0));
                    }
                }
                lemma_map_insert(p, q, i as int, name@, value@);
            }
        }
        self.entries = v;
    }

    /// The value of `name`, if set.
    pub fn get(&self, name: &str) -> (r: Option<&str>)
        ensures
            self@.contains_key(name@) ==> (r matches Some(s) && s@ == self@[name@]),
            !self@.contains_key(name@) ==> r is None,
    {
        proof {
            use_type_invariant(self);
        }
        let ghost p = self.pairs();
        let mut i: usize = 0;
        while i < self.entries.len()
            invariant
                p == pair_views(self.entries@),
                names_sorted(p),
                i <= p.len(),
                forall|j: int| 0 <= j < i ==> #[trigger] p[j].0 != name@,
            decreases self.entries.len() - i,
        {
            if crate::text::str_eq(self.entries[i].0.as_str(), name) {
                proof {
                    lemma_map_at(p, i as int);
                }
                return Some(self.entries[i].1.as_str());
            }
            i = i + 1;
        }
        None
    }

    pub fn len(&self) -> (r: usize)
        ensures
            r == self.pairs().len(),
    {
        self.entries.len()
    }

    pub fn is_empty(&self) -> (r: bool)
        ensures
            r == (self.pairs().len() == 0),
            r ==> self@ == Map::<Seq<char>, Seq<char>>::empty(),
    {
        let r = self.entries.len() == 0;
        if r {
            assert(self@ =~= Map::<Seq<char>, Seq<char>>::empty());
        }
        r
    }

    /// Remove every entry.
    pub fn clear(&mut self)
        ensures
            final(self).pairs().len() == 0,
            final(self)@ == Map::<Seq<char>, Seq<char>>::empty(),
    {
        self.entries = Vec::new();
        assert(self@ =~= Map::<Seq<char>, Seq<char>>::empty());
    }

    /// The entries in name order, each name once.
    pub fn entries(&self) -> (r: &[(String, String)])
        ensures
            pair_views(r@) == self.pairs(),
            names_sorted(self.pairs()),
    {
        proof {
            use_type_invariant(self);
        }
        self.entries.as_slice()
    }

    /// Keep the entries whose name `keep_name` accepts for `allowed` (see
    /// `allowed_name`).
    pub fn retain_allowed(&mut self, allowed: &Vec<String>)
        ensures
            final(self).pairs() == kept_pairs(old(self).pairs(), allowed@, old(self).pairs().len() as int),
    {
        proof {
            use_type_invariant(&*self);
        }
        let ghost p = self.pairs();
        let mut out: Vec<(String, String)> = Vec::new();
        let mut i: usize = 0;
        while i < self.entries.len()
            invariant
                p == pair_views(self.entries@),
                names_sorted(p),
                i <= p.len(),
                pair_views(out@) == kept_pairs(p, allowed@, i as int),
                names_sorted(pair_views(out@)),
                forall|k: int, j: int|
                    0 <= k < out@.len() && i <= j < p.len() ==> text_lt(
                        #[trigger] pair_views(out@)[k].0,
                        #[trigger] p[j].0,
                    ),
            decreases self.entries.len() - i,
        {
            if name_allowed(allowed, self.entries[i].0.as_str()) {
                let e = (self.entries[i].0.clone(), self.entries[i].1.clone());
                let ghost before = pair_views(out@);
                out.push(e);
                proof {
                    let q = pair_views(out@);
                    assert(q =~= before.push(p[i as int]));
                    assert forall|a: int, b: int| 0 <= a < b < q.len() implies text_lt(#[trigger] q[a].0, #[trigger] q[b].0) by {
                        if b == before.len() {
                            assert(text_lt(before[a].0, p[i as int].0));
                        } else {
                            assert(text_lt(before[a].0, before[b].0));
                        }
                    }
                    assert forall|k: int, j: int| 0 <= k < q.len() && i + 1 <= j < p.len() implies text_lt(
                        #[trigger] q[k].0,
                        #[trigger] p[j].0,
                    ) by {
                        if k == before.len() {
                            assert(text_lt(p[i as int].0, p[j].0));
                        } else {
                            assert(text_lt(before[k].0, p[j].0));
                        }
                    }
                }
            }
            i = i + 1;
        }
        self.entries = out;
    }
}

impl Clone for NamedValues {
    fn clone(&self) -> (r: Self)
        ensures
            r.pairs() == self.pairs(),
    {
        proof {
            use_type_invariant(self);
        }
        let mut out: Vec<(String, String)> = Vec::new();
        let mut i: usize = 0;
        while i < self.entries.len()
            invariant
                i <= self.entries@.len(),
                out@.len() == i,
                names_sorted(pair_views(self.entries@)),
                pair_views(out@) == pair_views(self.entries@).take(i as int),
            decreases self.entries.len() - i,
        {
            let ghost before = out@;
            out.push((self.entries[i].0.clone(), self.entries[i].1.clone()));
            assert(out@ == before.push(out@[i as int]));
            assert(pair_views(out@)[i as int] == pair_views(self.entries@)[i as int]);
            assert(pair_views(out@) =~= pair_views(self.entries@).take(i as int + 1));
            i = i + 1;
        }
        assert(pair_views(self.entries@).take(i as int) =~= pair_views(self.entries@));
        NamedValues { entries: out }
    }
}

/// `name` equals one of `allowed`, ASCII case ignored.
pub open spec fn allowed_name(allowed: Seq<String>, name: Seq<char>) -> bool {
    exists|i: int| 0 <= i < allowed.len() && crate::text::lower((#[trigger] allowed[i])@) == crate::text::lower(name)
}

/// The first `k` pairs whose names are allowed, in order.
pub open spec fn kept_pairs(p: Seq<(Seq<char>, Seq<char>)>, allowed: Seq<String>, k: int) -> Seq<
    (Seq<char>, Seq<char>),
>
    decreases k,
{
    if k <= 0 || k > p.len() {
        Seq::empty()
    } else {
        let prev = kept_pairs(p, allowed, k - 1);
        if allowed_name(allowed, p[k - 1].0) {
            prev.push(p[k - 1])
        } else {
            prev
        }
    }
}

/// Whether `name` is among `allowed`, ASCII case ignored.
pub fn name_allowed(allowed: &Vec<String>, name: &str) -> (r: bool)
    ensures
        r == allowed_name(allowed@, name@),
{
    let mut i: usize = 0;
    while i < allowed.len()
        invariant
            i <= allowed@.len(),
            forall|j: int| 0 <= j < i ==> crate::text::lower((#[trigger] allowed@[j])@) != crate::text::lower(name@),
        decreases allowed.len() - i,
    {
        if crate::text::eq_ignore_ascii_case(allowed[i].as_str(), name) {
            return true;
        }
        i = i + 1;
    }
    false
}

/// Whether `a` comes strictly before `b` (see `text_lt`).
pub fn text_less(a: &str, b: &str) -> (r: bool)
    ensures
        r == text_lt(a@, b@),
{
    let x = crate::text::chars_of(a);
    let y = crate::text::chars_of(b);
    let mut i: usize = 0;
    assert(a@.skip(0) =~= a@);
    assert(b@.skip(0) =~= b@);
    while i < x.len() && i < y.len()
        invariant
            x@ == a@,
            y@ == b@,
            i <= x@.len(),
            i <= y@.len(),
            text_lt(a@, b@) == text_lt(a@.skip(i as int), b@.skip(i as int)),
        decreases x.len() - i,
    {
        let ghost (s, t) = (a@.skip(i as int), b@.skip(i as int));
        if x[i] != y[i] {
            return x[i] < y[i];
        }
        assert(s.drop_first() =~= a@.skip(i + 1));
        assert(t.drop_first() =~= b@.skip(i + 1));
        i = i + 1;
    }
    x.len() - i == 0 && y.len() - i > 0
}

} // verus!
