//! Node identifiers: their order, their canonical case, and sorted
//! duplicate-free lists of them.

use vstd::prelude::*;
use vstd::std_specs::iter::IteratorSpec;

verus! {

/// A node identifier as contracts see it.
pub type Id = Seq<char>;

/// Strict lexicographic order on identifiers, by code point.
pub open spec fn id_before(a: Id, b: Id) -> bool
    decreases a.len(),
{
    if b.len() == 0 {
        false
    } else if a.len() == 0 {
        true
    } else if a[0] != b[0] {
        a[0] < b[0]
    } else {
        id_before(a.drop_first(), b.drop_first())
    }
}

/// How one identifier stands to another in the order of `id_before`.
#[derive(Clone, Copy, Debug, PartialEq, Eq, Structural)]
pub enum Placement {
    Before,
    Same,
    After,
}

/// The placement of `a` relative to `b`.
pub open spec fn placement(a: Id, b: Id) -> Placement {
    if a == b {
        Placement::Same
    } else if id_before(a, b) {
        Placement::Before
    } else {
        Placement::After
    }
}

/// No identifier stands before itself.
pub proof fn lemma_before_irreflexive(a: Id)
    ensures
        !id_before(a, a),
    decreases a.len(),
{
    if a.len() > 0 {
        lemma_before_irreflexive(a.drop_first());
    }
}

/// Of two different identifiers exactly one stands before the other.
pub proof fn lemma_before_total(a: Id, b: Id)
    ensures
        a != b ==> (id_before(a, b) <==> !id_before(b, a)),
        a == b ==> !id_before(a, b) && !id_before(b, a),
    decreases a.len(),
{
    if a == b {
        lemma_before_irreflexive(a);
    } else if a.len() > 0 && b.len() > 0 {
        if a[0] == b[0] {
            lemma_before_total(a.drop_first(), b.drop_first());
            if a.drop_first() == b.drop_first() {
                assert(a =~= seq![a[0]] + a.drop_first());
                assert(b =~= seq![b[0]] + b.drop_first());
            }
        }
    } else if a.len() == 0 && b.len() == 0 {
        assert(a =~= b);
    }
}

/// The order is transitive.
pub proof fn lemma_before_transitive(a: Id, b: Id, c: Id)
    requires
        id_before(a, b),
        id_before(b, c),
    ensures
        id_before(a, c),
    decreases a.len(),
{
    if a.len() > 0 && b.len() > 0 && c.len() > 0 {
        if a[0] == b[0] && b[0] == c[0] {
            lemma_before_transitive(a.drop_first(), b.drop_first(), c.drop_first());
        }
    }
}

/// Two non-empty identifiers with the same first character are equal
/// exactly when their remainders are.
proof fn lemma_same_head(a: Id, b: Id)
    requires
        a.len() > 0,
        b.len() > 0,
        a[0] == b[0],
    ensures
        placement(a, b) == placement(a.drop_first(), b.drop_first()),
{
    if a.drop_first() == b.drop_first() {
        assert(a =~= seq![a[0]] + a.drop_first());
        assert(b =~= seq![b[0]] + b.drop_first());
    }
}

/// Compares two identifiers in the order of `id_before`.
pub fn compare_ids(a: &str, b: &str) -> (r: Placement)
    ensures
        r == placement(a@, b@),
{
    let mut left = a.chars();
    let mut right = b.chars();
    let ghost mut done: int = 0;
    proof {
        assert(a@.skip(0) =~= a@);
        assert(b@.skip(0) =~= b@);
    }
    loop
        invariant
            0 <= done <= a@.len(),
            done <= b@.len(),
            left.remaining() == a@.skip(done),
            right.remaining() == b@.skip(done),
            placement(a@, b@) == placement(a@.skip(done), b@.skip(done)),
        decreases a@.len() - done,
    {
        let x = left.next();
        let y = right.next();
        match (x, y) {
            (None, None) => {
                assert(a@.skip(done) =~= b@.skip(done));
                return Placement::Same;
            },
            (None, Some(_)) => {
                return Placement::Before;
            },
            (Some(_), None) => {
                return Placement::After;
            },
            (Some(p), Some(q)) => {
                if p != q {
                    if p < q {
                        return Placement::Before;
                    } else {
                        return Placement::After;
                    }
                }
                proof {
                    lemma_same_head(a@.skip(done), b@.skip(done));
                    assert(a@.skip(done).drop_first() =~= a@.skip(done + 1));
                    assert(b@.skip(done).drop_first() =~= b@.skip(done + 1));
                    done = done + 1;
                }
            },
        }
    }
}

/// The upper-case form of an ASCII lower-case letter; any other character
/// is left as it is.
pub open spec fn upper_char(c: char) -> char {
    if 'a' <= c && c <= 'z' {
        ((c as u8) - 32) as char
    } else {
        c
    }
}

/// The canonical form of an identifier: every ASCII letter in upper case.
pub open spec fn canonical(id: Id) -> Id {
    Seq::new(id.len(), |i: int| upper_char(id[i]))
}

/// Bringing an identifier into canonical form twice changes nothing more.
pub proof fn law_canonical_idempotent(id: Id)
    ensures
        canonical(canonical(id)) == canonical(id),
{
    assert(canonical(canonical(id)) =~= canonical(id));
}

/// Calls `str::to_ascii_uppercase`, which returns a copy of the string in
/// which the ASCII letters `a` to `z` stand as `A` to `Z` and every other
/// character is unchanged.
#[verifier::external_body]
fn ascii_uppercase(s: &str) -> (r: String)
    ensures
        r@ == canonical(s@),
{
    s.to_ascii_uppercase()
}

/// The canonical form of `id`, under which the registry files a node and
/// the read interface looks one up.
pub fn normalize(id: &str) -> (r: String)
    ensures
        r@ == canonical(id@),
{
    ascii_uppercase(id)
}

/// The identifiers that a list of strings holds, in its order.
pub open spec fn id_list(v: Seq<String>) -> Seq<Id> {
    Seq::new(v.len(), |i: int| v[i]@)
}

/// A list with one more identifier put in holds that identifier and what it
/// held before.
pub proof fn lemma_insert_members(s: Seq<Id>, at: int, id: Id)
    requires
        0 <= at <= s.len(),
    ensures
        forall|x: Id| s.insert(at, id).contains(x) <==> (s.contains(x) || x == id),
{
    let t = s.insert(at, id);
    assert forall|x: Id| t.contains(x) <==> (s.contains(x) || x == id) by {
        if t.contains(x) {
            let k = choose|k: int| 0 <= k < t.len() && t[k] == x;
            if k < at {
                assert(s[k] == x);
            } else if k > at {
                assert(s[k - 1] == x);
            }
        }
        if s.contains(x) {
            let k = choose|k: int| 0 <= k < s.len() && s[k] == x;
            if k < at {
                assert(t[k] == x);
            } else {
                assert(t[k + 1] == x);
            }
        }
        if x == id {
            assert(t[at] == x);
        }
    }
}

/// Every identifier of `s` stands before all that follow it.
pub open spec fn increasing(s: Seq<Id>) -> bool {
    forall|i: int, j: int| 0 <= i < j < s.len() ==> id_before(#[trigger] s[i], #[trigger] s[j])
}

/// An increasing list holds no identifier twice.
pub proof fn lemma_increasing_distinct(s: Seq<Id>, i: int, j: int)
    requires
        increasing(s),
        0 <= i < s.len(),
        0 <= j < s.len(),
        s[i] == s[j],
    ensures
        i == j,
{
    lemma_before_irreflexive(s[i]);
}

/// Two increasing lists with the same members are the same list.
pub proof fn law_increasing_unique(s: Seq<Id>, t: Seq<Id>)
    requires
        increasing(s),
        increasing(t),
        forall|id: Id| s.contains(id) <==> t.contains(id),
    ensures
        s == t,
    decreases s.len(),
{
    if s.len() == 0 {
        if t.len() > 0 {
            assert(t.contains(t[0]));
        }
        assert(s =~= t);
    } else if t.len() == 0 {
        assert(s.contains(s[0]));
    } else {
        // The two least members coincide: each is a member of the other
        // list, and neither can stand before the other.
        assert(s.contains(s[0]));
        assert(t.contains(t[0]));
        let i = choose|i: int| 0 <= i < t.len() && t[i] == s[0];
        let j = choose|j: int| 0 <= j < s.len() && s[j] == t[0];
        lemma_before_total(s[0], t[0]);
        if s[0] != t[0] {
            assert(i > 0);
            assert(j > 0);
            assert(id_before(t[0], t[i]));
            assert(id_before(s[0], s[j]));
        }
        let s1 = s.drop_first();
        let t1 = t.drop_first();
        assert forall|id: Id| s1.contains(id) <==> t1.contains(id) by {
            if s1.contains(id) {
                let k = choose|k: int| 0 <= k < s1.len() && s1[k] == id;
                assert(s[k + 1] == id);
                assert(id_before(s[0], s[k + 1]));
                lemma_before_irreflexive(id);
                assert(s.contains(id));
                let m = choose|m: int| 0 <= m < t.len() && t[m] == id;
                assert(m > 0);
                assert(t1[m - 1] == id);
            }
            if t1.contains(id) {
                let k = choose|k: int| 0 <= k < t1.len() && t1[k] == id;
                assert(t[k + 1] == id);
                assert(id_before(t[0], t[k + 1]));
                lemma_before_irreflexive(id);
                assert(t.contains(id));
                let m = choose|m: int| 0 <= m < s.len() && s[m] == id;
                assert(m > 0);
                assert(s1[m - 1] == id);
            }
        }
        assert(increasing(s1)) by {
            assert forall|a: int, b: int| 0 <= a < b < s1.len() implies id_before(
                #[trigger] s1[a],
                #[trigger] s1[b],
            ) by {
                assert(id_before(s[a + 1], s[b + 1]));
            }
        }
        assert(increasing(t1)) by {
            assert forall|a: int, b: int| 0 <= a < b < t1.len() implies id_before(
                #[trigger] t1[a],
                #[trigger] t1[b],
            ) by {
                assert(id_before(t[a + 1], t[b + 1]));
            }
        }
        law_increasing_unique(s1, t1);
        assert(s =~= seq![s[0]] + s1);
        assert(t =~= seq![t[0]] + t1);
    }
}

/// A list of identifiers kept in increasing order, so that none occurs twice
/// and each is found by bisection.
#[derive(Debug)]
pub struct IdIndex {
    ids: Vec<String>,
}

impl IdIndex {
    /// The identifiers, in order.
    pub closed spec fn view(&self) -> Seq<Id> {
        Seq::new(self.ids.len() as nat, |i: int| self.ids[i]@)
    }

    /// The list is in increasing order.
    pub open spec fn wf(&self) -> bool {
        increasing(self@)
    }

    /// The empty list.
    pub fn new() -> (r: Self)
        ensures
            r.wf(),
            r@ == Seq::<Id>::empty(),
    {
        let r = IdIndex { ids: Vec::new() };
        assert(r@ =~= Seq::<Id>::empty());
        r
    }

    /// The number of identifiers.
    pub fn len(&self) -> (n: usize)
        ensures
            n == self@.len(),
    {
        self.ids.len()
    }

    /// The identifier at position `i`.
    pub fn id_at(&self, i: usize) -> (r: &String)
        requires
            i < self@.len(),
        ensures
            r@ == self@[i as int],
    {
        &self.ids[i]
    }

    /// Finds `id`: `Ok` with its position where the list holds it, `Err` with
    /// the position at which it would have to be inserted where not.
    pub fn locate(&self, id: &str) -> (r: Result<usize, usize>)
        requires
            self.wf(),
        ensures
            match r {
                Ok(i) => i < self@.len() && self@[i as int] == id@,
                Err(i) => {
                    &&& i <= self@.len()
                    &&& !self@.contains(id@)
                    &&& forall|k: int| 0 <= k < i ==> id_before(#[trigger] self@[k], id@)
                    &&& forall|k: int| i <= k < self@.len() ==> id_before(id@, #[trigger] self@[k])
                },
            },
    {
        let mut lo: usize = 0;
        let mut hi: usize = self.ids.len();
        while lo < hi
            invariant
                self.wf(),
                0 <= lo <= hi <= self@.len(),
                self@.len() == self.ids.len(),
                forall|k: int| 0 <= k < lo ==> id_before(#[trigger] self@[k], id@),
                forall|k: int| hi <= k < self@.len() ==> id_before(id@, #[trigger] self@[k]),
            decreases hi - lo,
        {
            let mid: usize = lo + (hi - lo) / 2;
            match compare_ids(self.ids[mid].as_str(), id) {
                Placement::Same => {
                    return Ok(mid);
                },
                Placement::Before => {
                    proof {
                        assert forall|k: int| 0 <= k < mid + 1 implies id_before(
                            #[trigger] self@[k],
                            id@,
                        ) by {
                            if k < mid {
                                lemma_before_transitive(self@[k], self@[mid as int], id@);
                            }
                        }
                    }
                    lo = mid + 1;
                },
                Placement::After => {
                    proof {
                        lemma_before_total(self@[mid as int], id@);
                        assert forall|k: int| mid <= k < self@.len() implies id_before(
                            id@,
                            #[trigger] self@[k],
                        ) by {
                            if k > mid {
                                lemma_before_transitive(id@, self@[mid as int], self@[k]);
                            }
                        }
                    }
                    hi = mid;
                },
            }
        }
        proof {
            assert forall|k: int| 0 <= k < self@.len() implies self@[k] != id@ by {
                lemma_before_irreflexive(id@);
            }
        }
        Err(lo)
    }

    /// Whether the list holds `id`.
    pub fn contains(&self, id: &str) -> (r: bool)
        requires
            self.wf(),
        ensures
            r == self@.contains(id@),
    {
        self.locate(id).is_ok()
    }

    /// Puts `id` at position `at`, which `locate` gave for it.
    pub fn insert_at(&mut self, at: usize, id: String)
        requires
            old(self).wf(),
            at <= old(self)@.len(),
            forall|k: int| 0 <= k < at ==> id_before(#[trigger] old(self)@[k], id@),
            forall|k: int| at <= k < old(self)@.len() ==> id_before(id@, #[trigger] old(self)@[k]),
        ensures
            final(self).wf(),
            final(self)@ == old(self)@.insert(at as int, id@),
    {
        let ghost before = self@;
        self.ids.insert(at, id);
        proof {
            assert(self@ =~= before.insert(at as int, id@));
            assert forall|i: int, j: int| 0 <= i < j < self@.len() implies id_before(
                #[trigger] self@[i],
                #[trigger] self@[j],
            ) by {
                if j < at {
                    assert(id_before(before[i], before[j]));
                } else if j == at {
                    assert(id_before(before[i], id@));
                } else if i < at {
                    assert(id_before(before[i], before[j - 1]));
                } else if i == at {
                    assert(id_before(id@, before[j - 1]));
                } else {
                    assert(id_before(before[i - 1], before[j - 1]));
                }
            }
        }
    }

    /// The identifiers of `names`, each once, in increasing order.
    pub fn from_list(names: &Vec<String>) -> (r: Self)
        ensures
            r.wf(),
            forall|id: Id| r@.contains(id) <==> id_list(names@).contains(id),
    {
        let mut index = IdIndex::new();
        let ghost listed = id_list(names@);
        let mut i: usize = 0;
        while i < names.len()
            invariant
                0 <= i <= names.len(),
                listed == id_list(names@),
                index.wf(),
                forall|id: Id| index@.contains(id) <==> listed.take(i as int).contains(id),
            decreases names.len() - i,
        {
            let id = &names[i];
            let ghost before = index@;
            proof {
                assert(listed[i as int] == id@);
                assert(listed.take(i + 1) =~= listed.take(i as int).insert(i as int, id@));
                lemma_insert_members(listed.take(i as int), i as int, id@);
            }
            match index.locate(id.as_str()) {
                Ok(at) => {
                    assert(before[at as int] == id@);
                    assert(before.contains(id@));
                },
                Err(at) => {
                    index.insert_at(at, id.clone());
                    proof {
                        lemma_insert_members(before, at as int, id@);
                    }
                },
            }
            assert forall|x: Id| index@.contains(x) <==> listed.take(i + 1).contains(x) by {
                assert(listed.take(i + 1).contains(x) <==> (listed.take(i as int).contains(x) || x
                    == id@));
                assert(index@.contains(x) <==> (before.contains(x) || x == id@));
            }
            i += 1;
        }
        assert(listed.take(i as int) =~= listed);
        index
    }

    /// A copy of the identifiers, in order.
    pub fn to_vec(&self) -> (r: Vec<String>)
        ensures
            id_list(r@) == self@,
    {
        let mut out: Vec<String> = Vec::new();
        let mut i: usize = 0;
        while i < self.ids.len()
            invariant
                0 <= i <= self.ids.len(),
                out@.len() == i,
                forall|k: int| 0 <= k < i ==> (#[trigger] out@[k])@ == self.ids[k]@,
            decreases self.ids.len() - i,
        {
            out.push(self.ids[i].clone());
            i += 1;
        }
        assert(id_list(out@) =~= self@);
        out
    }
}

} // verus!
