//! Lexicographic order on character sequences (the order of `str`, and so of
//! `BTreeMap<String, _>` keys), and a sorted set of string records built on it.
use vstd::prelude::*;

verus! {

/// `a` sorts before `b`, character by character, a proper prefix first.
pub open spec fn chars_lt(a: Seq<char>, b: Seq<char>) -> bool
    decreases a.len(),
{
    if a.len() == 0 {
        b.len() > 0
    } else if b.len() == 0 {
        false
    } else if a[0] != b[0] {
        a[0] < b[0]
    } else {
        chars_lt(a.drop_first(), b.drop_first())
    }
}

/// Compares `a` and `b`: negative where `a` sorts first, zero where they are
/// equal, positive where `b` sorts first.
pub fn chars_cmp(a: &Vec<char>, b: &Vec<char>) -> (r: i8)
    ensures
        r < 0 ==> chars_lt(a@, b@),
        r == 0 ==> a@ == b@,
        r > 0 ==> chars_lt(b@, a@),
{
    let mut i: usize = 0;
    assert(a@.skip(0) =~= a@);
    assert(b@.skip(0) =~= b@);
    while i < a.len() && i < b.len()
        invariant
            i <= a@.len(),
            i <= b@.len(),
            a@.take(i as int) == b@.take(i as int),
            chars_lt(a@, b@) == chars_lt(a@.skip(i as int), b@.skip(i as int)),
            chars_lt(b@, a@) == chars_lt(b@.skip(i as int), a@.skip(i as int)),
        decreases a.len() - i,
    {
        assert(a@.skip(i as int)[0] == a@[i as int]);
        assert(b@.skip(i as int)[0] == b@[i as int]);
        if a[i] != b[i] {
            if a[i] < b[i] {
                return -1;
            } else {
                return 1;
            }
        }
        assert(a@.skip(i as int).drop_first() =~= a@.skip(i + 1));
        assert(b@.skip(i as int).drop_first() =~= b@.skip(i + 1));
        assert(a@.take(i + 1) =~= a@.take(i as int).push(a@[i as int]));
        assert(b@.take(i + 1) =~= b@.take(i as int).push(b@[i as int]));
        i = i + 1;
    }
    if i < b.len() {
        assert(a@.skip(i as int).len() == 0);
        -1
    } else if i < a.len() {
        assert(b@.skip(i as int).len() == 0);
        1
    } else {
        assert(a@ =~= a@.take(i as int));
        assert(b@ =~= b@.take(i as int));
        0
    }
}

/// A record of four strings, ordered field by field.
pub type Quad = (Seq<char>, Seq<char>, Seq<char>, Seq<char>);

/// `x` sorts before `y`: by the first field, then the second, and so on.
pub open spec fn quad_lt(x: Quad, y: Quad) -> bool {
    chars_lt(x.0, y.0) || (x.0 == y.0 && (chars_lt(x.1, y.1) || (x.1 == y.1 && (chars_lt(x.2, y.2)
        || (x.2 == y.2 && chars_lt(x.3, y.3))))))
}

/// A record of four strings.
#[derive(Clone, Debug)]
pub struct Record {
    pub a: Vec<char>,
    pub b: Vec<char>,
    pub c: Vec<char>,
    pub d: Vec<char>,
}

impl View for Record {
    type V = Quad;

    open spec fn view(&self) -> Quad {
        (self.a@, self.b@, self.c@, self.d@)
    }
}

/// Compares two records as `quad_lt` orders them.
pub fn record_cmp(x: &Record, y: &Record) -> (r: i8)
    ensures
        r < 0 ==> quad_lt(x@, y@),
        r == 0 ==> x@ == y@,
        r > 0 ==> quad_lt(y@, x@),
{
    let c = chars_cmp(&x.a, &y.a);
    if c != 0 {
        return c;
    }
    let c = chars_cmp(&x.b, &y.b);
    if c != 0 {
        return c;
    }
    let c = chars_cmp(&x.c, &y.c);
    if c != 0 {
        return c;
    }
    chars_cmp(&x.d, &y.d)
}

/// The views of a vector of records.
pub open spec fn record_views(v: Seq<Record>) -> Seq<Quad> {
    v.map_values(|r: Record| r@)
}

/// Each record sorts strictly before the next.
pub open spec fn strictly_sorted(q: Seq<Quad>) -> bool {
    forall|i: int| 0 <= i < q.len() - 1 ==> quad_lt(#[trigger] q[i], q[i + 1])
}

/// Adds `x` to the sorted records `q`, where no equal record is there yet.
pub(crate) fn insert_sorted(q: &mut Vec<Record>, x: Record)
    requires
        strictly_sorted(record_views(old(q)@)),
    ensures
        strictly_sorted(record_views(final(q)@)),
        record_views(final(q)@).to_set() == record_views(old(q)@).to_set().insert(x@),
{
    let ghost q0 = record_views(q@);
    let mut i: usize = 0;
    while i < q.len()
        invariant
            i <= q@.len(),
            q0 == record_views(q@),
            strictly_sorted(q0),
            i > 0 ==> quad_lt(q0[i - 1], x@),
        ensures
            i <= q@.len(),
            q0 == record_views(q@),
            i > 0 ==> quad_lt(q0[i - 1], x@),
            i < q@.len() ==> quad_lt(x@, q0[i as int]),
        decreases q.len() - i,
    {
        let c = record_cmp(&q[i], &x);
        if c == 0 {
            assert(q0[i as int] == x@);
            assert(q0.to_set().insert(x@) =~= q0.to_set());
            return;
        }
        if c > 0 {
            assert(record_views(q@)[i as int] == q@[i as int]@);
            break;
        }
        i = i + 1;
    }
    let ghost at = i;
    q.insert(i, x);
    let ghost q1 = record_views(q@);
    assert(q1 =~= q0.insert(at as int, x@));
    assert forall|k: int| 0 <= k < q1.len() - 1 implies quad_lt(#[trigger] q1[k], q1[k + 1]) by {
        if k + 1 < at {
            assert(q1[k] == q0[k] && q1[k + 1] == q0[k + 1]);
        } else if k + 1 == at {
            assert(q1[k] == q0[k]);
        } else if k == at {
        } else {
            assert(q1[k] == q0[k - 1] && q1[k + 1] == q0[k]);
        }
    }
    assert forall|y: Quad| q1.to_set().contains(y) <==> q0.to_set().insert(x@).contains(y) by {
        if q1.to_set().contains(y) {
            let k = choose|k: int| 0 <= k < q1.len() && q1[k] == y;
            if k < at {
                assert(q0[k] == y);
            } else if k > at {
                assert(q0[k - 1] == y);
            }
        }
        if q0.to_set().contains(y) {
            let k = choose|k: int| 0 <= k < q0.len() && q0[k] == y;
            if k < at {
                assert(q1[k] == y);
            } else {
                assert(q1[k + 1] == y);
            }
        }
        if y == x@ {
            assert(q1[at as int] == y);
        }
    }
    assert(q1.to_set() =~= q0.to_set().insert(x@));
}

proof fn chars_lt_irreflexive(a: Seq<char>)
    ensures
        !chars_lt(a, a),
    decreases a.len(),
{
    if a.len() > 0 {
        chars_lt_irreflexive(a.drop_first());
    }
}

proof fn chars_lt_transitive(a: Seq<char>, b: Seq<char>, c: Seq<char>)
    requires
        chars_lt(a, b),
        chars_lt(b, c),
    ensures
        chars_lt(a, c),
    decreases a.len(),
{
    if a.len() > 0 && b.len() > 0 && c.len() > 0 && a[0] == b[0] && b[0] == c[0] {
        chars_lt_transitive(a.drop_first(), b.drop_first(), c.drop_first());
    }
}

proof fn quad_lt_irreflexive(x: Quad)
    ensures
        !quad_lt(x, x),
{
    chars_lt_irreflexive(x.0);
    chars_lt_irreflexive(x.1);
    chars_lt_irreflexive(x.2);
    chars_lt_irreflexive(x.3);
}

proof fn quad_lt_transitive(x: Quad, y: Quad, z: Quad)
    requires
        quad_lt(x, y),
        quad_lt(y, z),
    ensures
        quad_lt(x, z),
{
    if chars_lt(x.0, y.0) && chars_lt(y.0, z.0) {
        chars_lt_transitive(x.0, y.0, z.0);
    }
    if chars_lt(x.1, y.1) && chars_lt(y.1, z.1) {
        chars_lt_transitive(x.1, y.1, z.1);
    }
    if chars_lt(x.2, y.2) && chars_lt(y.2, z.2) {
        chars_lt_transitive(x.2, y.2, z.2);
    }
    if chars_lt(x.3, y.3) && chars_lt(y.3, z.3) {
        chars_lt_transitive(x.3, y.3, z.3);
    }
}

proof fn sorted_pairwise(q: Seq<Quad>, i: int, j: int)
    requires
        strictly_sorted(q),
        0 <= i < j < q.len(),
    ensures
        quad_lt(q[i], q[j]),
    decreases j - i,
{
    if j > i + 1 {
        sorted_pairwise(q, i, j - 1);
        assert(quad_lt(q[j - 1], q[j]));
        quad_lt_transitive(q[i], q[j - 1], q[j]);
    }
}

proof fn sorted_tail(q: Seq<Quad>)
    requires
        strictly_sorted(q),
        q.len() > 0,
    ensures
        strictly_sorted(q.drop_first()),
        !q.drop_first().to_set().contains(q[0]),
        q.drop_first().to_set() == q.to_set().remove(q[0]),
{
    let t = q.drop_first();
    assert forall|i: int| 0 <= i < t.len() - 1 implies quad_lt(#[trigger] t[i], t[i + 1]) by {
        assert(t[i] == q[i + 1] && t[i + 1] == q[i + 2]);
    }
    if t.to_set().contains(q[0]) {
        let k = choose|k: int| 0 <= k < t.len() && t[k] == q[0];
        sorted_pairwise(q, 0, k + 1);
        quad_lt_irreflexive(q[0]);
    }
    assert forall|y: Quad| t.to_set().contains(y) <==> q.to_set().remove(q[0]).contains(y) by {
        if q.to_set().contains(y) && y != q[0] {
            let k = choose|k: int| 0 <= k < q.len() && q[k] == y;
            assert(k > 0);
            assert(t[k - 1] == y);
        }
        if t.to_set().contains(y) {
            let k = choose|k: int| 0 <= k < t.len() && t[k] == y;
            assert(q[k + 1] == y);
        }
    }
    assert(t.to_set() =~= q.to_set().remove(q[0]));
}

/// A strictly sorted sequence is determined by the set of its elements.
pub proof fn sorted_enumeration_is_unique(q1: Seq<Quad>, q2: Seq<Quad>)
    requires
        strictly_sorted(q1),
        strictly_sorted(q2),
        q1.to_set() == q2.to_set(),
    ensures
        q1 == q2,
    decreases q1.len(),
{
    if q1.len() == 0 || q2.len() == 0 {
        if q1.len() > 0 {
            assert(q1.to_set().contains(q1[0]));
        }
        if q2.len() > 0 {
            assert(q2.to_set().contains(q2[0]));
        }
        assert(q1 =~= q2);
    } else {
        assert(q1.to_set().contains(q1[0]));
        assert(q2.to_set().contains(q2[0]));
        let k = choose|k: int| 0 <= k < q2.len() && q2[k] == q1[0];
        let m = choose|m: int| 0 <= m < q1.len() && q1[m] == q2[0];
        if q1[0] != q2[0] {
            assert(k > 0 && m > 0);
            sorted_pairwise(q2, 0, k);
            sorted_pairwise(q1, 0, m);
            quad_lt_transitive(q1[0], q2[0], q1[0]);
            quad_lt_irreflexive(q1[0]);
        }
        sorted_tail(q1);
        sorted_tail(q2);
        sorted_enumeration_is_unique(q1.drop_first(), q2.drop_first());
        assert(q1 =~= seq![q1[0]] + q1.drop_first());
        assert(q2 =~= seq![q2[0]] + q2.drop_first());
    }
}

} // verus!
