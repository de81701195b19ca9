//! The latest values of a device, by name.
use vstd::prelude::*;

use crate::number::{Number, NumberData};
use crate::text;

verus! {

/// Whether one text comes before another: by the first character in which they differ, and
/// a text before its continuations.
pub open spec fn text_before(a: Seq<char>, b: Seq<char>) -> bool
    decreases a.len(),
{
    if b.len() == 0 {
        false
    } else if a.len() == 0 {
        true
    } else if a[0] != b[0] {
        (a[0] as int) < (b[0] as int)
    } else {
        text_before(a.skip(1), b.skip(1))
    }
}

/// The order of texts is strict and total.
pub proof fn law_text_order(a: Seq<char>, b: Seq<char>)
    ensures
        !(text_before(a, b) && text_before(b, a)),
        !text_before(a, a),
        a == b || text_before(a, b) || text_before(b, a),
    decreases a.len(),
{
    if a.len() > 0 {
        law_text_order(a.skip(1), a.skip(1));
    }
    if a.len() > 0 && b.len() > 0 && a[0] == b[0] {
        law_text_order(a.skip(1), b.skip(1));
        if a.skip(1) == b.skip(1) {
            assert(a =~= seq![a[0]] + a.skip(1));
            assert(b =~= seq![b[0]] + b.skip(1));
        }
    } else if a.len() == 0 && b.len() == 0 {
        assert(a =~= b);
    }
}

/// The order of texts is transitive.
pub proof fn law_text_order_transitive(a: Seq<char>, b: Seq<char>, c: Seq<char>)
    requires
        text_before(a, b),
        text_before(b, c),
    ensures
        text_before(a, c),
    decreases a.len(),
{
    if a.len() > 0 && a[0] == b[0] && b[0] == c[0] {
        law_text_order_transitive(a.skip(1), b.skip(1), c.skip(1));
    }
}

fn chars_before(a: &[char], b: &[char]) -> (r: bool)
    ensures
        r == text_before(a@, b@),
{
    let mut i: usize = 0;
    proof {
        assert(a@.skip(0) =~= a@);
        assert(b@.skip(0) =~= b@);
    }
    while i < a.len() && i < b.len() && a[i] == b[i]
        invariant
            i <= a@.len(),
            i <= b@.len(),
            text_before(a@, b@) == text_before(a@.skip(i as int), b@.skip(i as int)),
        decreases a@.len() - i,
    {
        proof {
            assert(a@.skip(i as int).skip(1) =~= a@.skip(i + 1));
            assert(b@.skip(i as int).skip(1) =~= b@.skip(i + 1));
        }
        i = i + 1;
    }
    if i == b.len() {
        false
    } else if i == a.len() {
        true
    } else {
        a[i] < b[i]
    }
}

/// Values by name, in the order of the names.
#[derive(Debug)]
pub struct Telemetry {
    rows: Vec<(String, Number)>,
}

/// The names stand in order, each once.
pub open spec fn in_order(rows: Seq<(String, Number)>) -> bool {
    forall|i: int, j: int|
        0 <= i < j < rows.len() ==> text_before((#[trigger] rows[i]).0@, (#[trigger] rows[j]).0@)
}

pub open spec fn named(rows: Seq<(String, Number)>, name: Seq<char>) -> bool {
    exists|i: int| 0 <= i < rows.len() && (#[trigger] rows[i]).0@ == name
}

/// The values of the rows, by name.
pub open spec fn values_of(rows: Seq<(String, Number)>) -> Map<Seq<char>, NumberData> {
    Map::new(
        |name: Seq<char>| named(rows, name),
        |name: Seq<char>|
            rows[choose|i: int| 0 <= i < rows.len() && (#[trigger] rows[i]).0@ == name].1@,
    )
}

proof fn lemma_value(rows: Seq<(String, Number)>, i: int)
    requires
        in_order(rows),
        0 <= i < rows.len(),
    ensures
        values_of(rows).contains_key(rows[i].0@),
        values_of(rows)[rows[i].0@] == rows[i].1@,
{
    let name = rows[i].0@;
    assert(named(rows, name));
    let j = choose|j: int| 0 <= j < rows.len() && (#[trigger] rows[j]).0@ == name;
    law_text_order(name, name);
}

impl View for Telemetry {
    type V = Map<Seq<char>, NumberData>;

    closed spec fn view(&self) -> Map<Seq<char>, NumberData> {
        values_of(self.rows@)
    }
}

impl Telemetry {
    #[verifier::type_invariant]
    spec fn wf(self) -> bool {
        in_order(self.rows@)
    }

    pub fn new() -> (r: Self)
        ensures
            r@ == Map::<Seq<char>, NumberData>::empty(),
    {
        let r = Telemetry { rows: Vec::new() };
        proof {
            assert(r@ =~= Map::<Seq<char>, NumberData>::empty());
        }
        r
    }

    /// The rows, by increasing name.
    pub fn rows(&self) -> (r: &Vec<(String, Number)>)
        ensures
            in_order(r@),
            self@ == values_of(r@),
    {
        proof {
            use_type_invariant(self);
        }
        &self.rows
    }

    /// Sets the value of a name.
    pub fn insert(&mut self, name: String, value: Number)
        ensures
            final(self)@ == old(self)@.insert(name@, value@),
    {
        proof {
            use_type_invariant(&*self);
        }
        let ghost before = self.rows@;
        let ghost id = name@;
        let ghost v = value@;
        let key: Vec<char> = text::chars_of(name.as_str());
        let mut rows: Vec<(String, Number)> = Vec::new();
        std::mem::swap(&mut rows, &mut self.rows);
        let mut at: usize = 0;
        while at < rows.len() && chars_before(
            text::chars_of(rows[at].0.as_str()).as_slice(),
            key.as_slice(),
        )
            invariant
                at <= rows@.len(),
                rows@ == before,
                key@ == id,
                forall|k: int| 0 <= k < at ==> text_before((#[trigger] before[k]).0@, id),
            decreases rows@.len() - at,
        {
            at = at + 1;
        }
        let replace: bool = at < rows.len() && text::same_text(rows[at].0.as_str(), name.as_str());
        if replace {
            rows.set(at, (name, value));
        } else {
            rows.insert(at, (name, value));
        }
        proof {
            let after = rows@;
            law_text_order(id, id);
            if at < before.len() {
                law_text_order(before[at as int].0@, id);
            }
            assert forall|k: int| at <= k < before.len() && !(replace && k == at) implies text_before(
                id,
                #[trigger] before[k].0@,
            ) by {
                if k > at {
                    assert(text_before(before[at as int].0@, before[k].0@));
                    if before[at as int].0@ != id {
                        law_text_order_transitive(id, before[at as int].0@, before[k].0@);
                    }
                }
            }
            assert(in_order(after)) by {
                assert forall|i: int, j: int| 0 <= i < j < after.len() implies text_before(
                    (#[trigger] after[i]).0@,
                    (#[trigger] after[j]).0@,
                ) by {
                    let bi = if replace || i < at {
                        i
                    } else {
                        i - 1
                    };
                    let bj = if replace || j < at {
                        j
                    } else {
                        j - 1
                    };
                    if i != at && j != at {
                        assert(after[i] == before[bi] && after[j] == before[bj]);
                    } else if i == at {
                        assert(after[j] == before[bj]);
                    } else {
                        assert(after[i] == before[i]);
                    }
                }
            }
            assert(after[at as int].0@ == id);
            lemma_value(after, at as int);
            assert forall|k: Seq<char>| values_of(after).contains_key(k) == values_of(
                before,
            ).insert(id, v).contains_key(k) by {
                if named(before, k) {
                    let i = choose|i: int| 0 <= i < before.len() && (#[trigger] before[i]).0@ == k;
                    let j = if replace || i < at {
                        i
                    } else {
                        i + 1
                    };
                    assert(after[j].0@ == k);
                }
                if named(after, k) && k != id {
                    let i = choose|i: int| 0 <= i < after.len() && (#[trigger] after[i]).0@ == k;
                    let j = if replace || i < at {
                        i
                    } else {
                        i - 1
                    };
                    assert(before[j].0@ == k);
                }
            }
            assert forall|k: Seq<char>| values_of(after).contains_key(k) implies values_of(after)[k]
                == values_of(before).insert(id, v)[k] by {
                let i = choose|i: int| 0 <= i < after.len() && (#[trigger] after[i]).0@ == k;
                lemma_value(after, i);
                if k != id {
                    let j = if replace || i < at {
                        i
                    } else {
                        i - 1
                    };
                    assert(before[j] == after[i]);
                    lemma_value(before, j);
                }
            }
            assert(values_of(after) =~= values_of(before).insert(id, v));
        }
        self.rows = rows;
    }
}

impl Clone for Telemetry {
    fn clone(&self) -> (r: Self)
        ensures
            r@ == self@,
    {
        proof {
            use_type_invariant(self);
        }
        let mut rows: Vec<(String, Number)> = Vec::new();
        for i in 0..self.rows.len()
            invariant
                rows@.len() == i,
                forall|k: int|
                    0 <= k < i ==> (#[trigger] rows@[k]).0@ == self.rows@[k].0@ && rows@[k].1@
                        == self.rows@[k].1@,
        {
            rows.push((text::owned(self.rows[i].0.as_str()), self.rows[i].1.clone()));
        }
        proof {
            let (a, b) = (self.rows@, rows@);
            assert forall|i: int, j: int| 0 <= i < j < b.len() implies text_before(
                (#[trigger] b[i]).0@,
                (#[trigger] b[j]).0@,
            ) by {
                assert(text_before(a[i].0@, a[j].0@));
            }
            assert forall|k: Seq<char>| values_of(a).contains_key(k) == values_of(b).contains_key(
                k,
            ) by {
                if named(a, k) {
                    let i = choose|i: int| 0 <= i < a.len() && (#[trigger] a[i]).0@ == k;
                    assert(b[i].0@ == k);
                }
                if named(b, k) {
                    let i = choose|i: int| 0 <= i < b.len() && (#[trigger] b[i]).0@ == k;
                    assert(a[i].0@ == k);
                }
            }
            assert forall|k: Seq<char>| values_of(a).contains_key(k) implies values_of(a)[k]
                == values_of(b)[k] by {
                let i = choose|i: int| 0 <= i < a.len() && (#[trigger] a[i]).0@ == k;
                lemma_value(a, i);
                lemma_value(b, i);
            }
            assert(values_of(a) =~= values_of(b));
        }
        Telemetry { rows }
    }
}

/// The order of texts is that of their first difference: the one whose character there is
/// smaller comes first, and a text comes before every longer one that it begins.
pub proof fn law_text_order_by_first_difference(
    p: Seq<char>,
    x: char,
    a: Seq<char>,
    y: char,
    b: Seq<char>,
)
    ensures
        (x as int) < (y as int) ==> text_before(p + seq![x] + a, p + seq![y] + b),
        text_before(p, p + seq![y] + b),
    decreases p.len(),
{
    let s = p + seq![x] + a;
    let t = p + seq![y] + b;
    if p.len() == 0 {
        assert(s[0] == x && t[0] == y);
    } else {
        let q = p.skip(1);
        law_text_order_by_first_difference(q, x, a, y, b);
        assert(s.skip(1) =~= q + seq![x] + a);
        assert(t.skip(1) =~= q + seq![y] + b);
        assert(s[0] == p[0] && t[0] == p[0]);
    }
}

} // verus!
