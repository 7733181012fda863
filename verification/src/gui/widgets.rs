//! Widgets a radio brought with it, by name.
//!
//! A console that has not linked a radio's widgets has none of them; that is
//! its ordinary state.

use vstd::prelude::*;
use vstd::string::*;

verus! {

/// Whether `a` stands before `b` at position `k`: up to there they agree, and
/// there `a` ends or has the smaller character.
pub open spec fn earlier_at(a: Seq<char>, b: Seq<char>, k: int) -> bool {
    &&& 0 <= k <= a.len()
    &&& k < b.len()
    &&& forall|i: int| 0 <= i < k ==> a[i] == b[i]
    &&& k == a.len() || (a[k] as int) < (b[k] as int)
}

/// Whether one name is sorted before another.
pub open spec fn earlier(a: Seq<char>, b: Seq<char>) -> bool {
    exists|k: int| earlier_at(a, b, k)
}

/// Of two different names one is sorted before the other, and not the other
/// way round.
pub proof fn names_are_ordered(a: Seq<char>, b: Seq<char>)
    ensures
        a == b || earlier(a, b) || earlier(b, a),
        !(earlier(a, b) && earlier(b, a)),
        !earlier(a, a),
{
    let k = agreement(a, b, 0);
    if earlier(a, b) && earlier(b, a) {
        let p = choose|k: int| earlier_at(a, b, k);
        let q = choose|k: int| earlier_at(b, a, k);
        if p < q {
            assert(b[p] == a[p]);
        } else if q < p {
            assert(a[q] == b[q]);
        }
        assert(false);
    }
    if earlier(a, a) {
        let p = choose|k: int| earlier_at(a, a, k);
        assert(false);
    }
    if a != b {
        if k == a.len() && k == b.len() {
            assert(a =~= b);
        } else if k < b.len() && (k == a.len() || (a[k] as int) < (b[k] as int)) {
            assert(earlier_at(a, b, k));
        } else {
            assert(earlier_at(b, a, k));
        }
    }
}

/// How far two names agree, from `from` on.
proof fn agreement(a: Seq<char>, b: Seq<char>, from: int) -> (k: int)
    requires
        0 <= from <= a.len(),
        from <= b.len(),
        forall|i: int| 0 <= i < from ==> a[i] == b[i],
    ensures
        from <= k <= a.len(),
        k <= b.len(),
        forall|i: int| 0 <= i < k ==> a[i] == b[i],
        k == a.len() || k == b.len() || a[k] != b[k],
    decreases a.len() - from,
{
    if from == a.len() || from == b.len() || a[from] != b[from] {
        from
    } else {
        agreement(a, b, from + 1)
    }
}

/// The order of names is transitive.
pub proof fn names_stay_ordered(a: Seq<char>, b: Seq<char>, c: Seq<char>)
    requires
        earlier(a, b),
        earlier(b, c),
    ensures
        earlier(a, c),
{
    let p = choose|k: int| earlier_at(a, b, k);
    let q = choose|k: int| earlier_at(b, c, k);
    if p < q {
        assert(b[p] == c[p]);
        assert(earlier_at(a, c, p));
    } else if q < p {
        assert(a[q] == b[q]);
        assert(earlier_at(a, c, q));
    } else {
        assert(earlier_at(a, c, p));
    }
}

/// Whether the name `a` is sorted before `b`.
pub fn is_earlier(a: &str, b: &str) -> (r: bool)
    ensures
        r == earlier(a@, b@),
{
    let la: usize = a.unicode_len();
    let lb: usize = b.unicode_len();
    let mut k: usize = 0;
    while k < la && k < lb
        invariant
            la == a@.len(),
            lb == b@.len(),
            k <= la,
            k <= lb,
            forall|i: int| 0 <= i < k ==> a@[i] == b@[i],
        decreases la - k,
    {
        let ca: u32 = a.get_char(k) as u32;
        let cb: u32 = b.get_char(k) as u32;
        if ca < cb {
            assert(earlier_at(a@, b@, k as int));
            return true;
        }
        if cb < ca {
            proof {
                assert(earlier_at(b@, a@, k as int));
                names_are_ordered(a@, b@);
            }
            return false;
        }
        k += 1;
    }
    if k < lb {
        assert(earlier_at(a@, b@, k as int));
        return true;
    }
    proof {
        if k < la {
            assert(earlier_at(b@, a@, k as int));
        } else {
            assert(a@ =~= b@);
        }
        names_are_ordered(a@, b@);
    }
    false
}

/// A painter and its name.
#[derive(Debug)]
pub struct Widget<P> {
    pub name: String,
    pub painter: P,
}

/// The widgets an application has supplied. A painter is whatever the
/// application draws with.
#[derive(Debug)]
pub struct Widgets<P> {
    pub widgets: Vec<Widget<P>>,
}

impl<P> Widgets<P> {
    /// No name occurs twice, and the names are sorted.
    pub open spec fn wf(self) -> bool {
        forall|i: int, j: int|
            0 <= i < j < self.widgets@.len() ==> earlier(
                (#[trigger] self.widgets@[i]).name@,
                (#[trigger] self.widgets@[j]).name@,
            )
    }

    pub open spec fn at(self, i: int, name: Seq<char>) -> bool {
        0 <= i < self.widgets@.len() && self.widgets@[i].name@ == name
    }

    /// The painter registered under a name.
    pub open spec fn found(self, name: Seq<char>) -> Option<P> {
        if exists|i: int| self.at(i, name) {
            Some(self.widgets@[choose|i: int| self.at(i, name)].painter)
        } else {
            None
        }
    }

    /// A name is registered in one place.
    proof fn found_there(self, i: int, name: Seq<char>)
        requires
            self.wf(),
            self.at(i, name),
        ensures
            self.found(name) == Some(self.widgets@[i].painter),
    {
        let j = choose|j: int| self.at(j, name);
        names_are_ordered(name, name);
        if i < j {
            assert(earlier(self.widgets@[i].name@, self.widgets@[j].name@));
        } else if j < i {
            assert(earlier(self.widgets@[j].name@, self.widgets@[i].name@));
        }
    }

    /// No widgets.
    pub fn new() -> (r: Self)
        ensures
            r.wf(),
            r.widgets@.len() == 0,
            forall|name: Seq<char>| #[trigger] r.found(name) is None,
    {
        Widgets { widgets: Vec::new() }
    }

    /// Where a name is, or where it would be inserted.
    fn place(&self, name: &str) -> (r: (usize, bool))
        requires
            self.wf(),
        ensures
            r.0 <= self.widgets@.len(),
            r.1 ==> self.at(r.0 as int, name@),
            !r.1 ==> forall|i: int| !self.at(i, name@),
            forall|i: int|
                0 <= i < r.0 ==> earlier((#[trigger] self.widgets@[i]).name@, name@),
            !r.1 ==> forall|i: int|
                r.0 <= i < self.widgets@.len() ==> earlier(
                    name@,
                    (#[trigger] self.widgets@[i]).name@,
                ),
    {
        let mut i: usize = 0;
        while i < self.widgets.len() && is_earlier(self.widgets[i].name.as_str(), name)
            invariant
                i <= self.widgets@.len(),
                forall|j: int|
                    0 <= j < i ==> earlier((#[trigger] self.widgets@[j]).name@, name@),
            decreases self.widgets@.len() - i,
        {
            i += 1;
        }
        let here: bool = i < self.widgets.len() && !is_earlier(
            name,
            self.widgets[i].name.as_str(),
        );
        proof {
            names_are_ordered(name@, name@);
            if i < self.widgets@.len() {
                names_are_ordered(self.widgets@[i as int].name@, name@);
                if !here {
                    assert forall|j: int| i <= j < self.widgets@.len() implies earlier(
                        name@,
                        (#[trigger] self.widgets@[j]).name@,
                    ) by {
                        if i < j {
                            names_stay_ordered(
                                name@,
                                self.widgets@[i as int].name@,
                                self.widgets@[j].name@,
                            );
                        }
                    }
                }
            }
            if !here {
                assert forall|j: int| !self.at(j, name@) by {
                    if 0 <= j < self.widgets@.len() && self.widgets@[j].name@ == name@ {
                        if j < i {
                            assert(earlier(self.widgets@[j].name@, name@));
                        } else {
                            assert(earlier(name@, self.widgets@[j].name@));
                        }
                    }
                }
            }
        }
        (i, here)
    }

    /// Register a painter under the name a layout will use for it. One that
    /// was registered under this name before is replaced.
    pub fn register(&mut self, name: String, painter: P)
        requires
            old(self).wf(),
        ensures
            final(self).wf(),
            final(self).found(name@) == Some(painter),
            forall|other: Seq<char>|
                other != name@ ==> #[trigger] final(self).found(other) == old(self).found(other),
            final(self).widgets@.len() == old(self).widgets@.len() + (if old(self).found(name@) is None {
                1int
            } else {
                0
            }),
    {
        let ghost before = *self;
        let ghost key = name@;
        let (i, here) = self.place(name.as_str());
        let ghost w = Widget { name, painter };
        if here {
            self.widgets.set(i, Widget { name, painter });
        } else {
            self.widgets.insert(i, Widget { name, painter });
        }
        proof {
            let after = *self;
            if here {
                assert(after.widgets@ == before.widgets@.update(i as int, w));
                before.found_there(i as int, key);
            } else {
                assert(after.widgets@ == before.widgets@.insert(i as int, w));
            }
            assert(after.wf()) by {
                assert forall|a: int, b: int| 0 <= a < b < after.widgets@.len() implies earlier(
                    (#[trigger] after.widgets@[a]).name@,
                    (#[trigger] after.widgets@[b]).name@,
                ) by {
                    let x = if !here && a > i {
                        a - 1
                    } else {
                        a
                    };
                    let y = if !here && b > i {
                        b - 1
                    } else {
                        b
                    };
                    if a != i {
                        assert(after.widgets@[a].name@ == before.widgets@[x].name@);
                    }
                    if b != i {
                        assert(after.widgets@[b].name@ == before.widgets@[y].name@);
                    }
                    if here {
                        assert(before.widgets@[i as int].name@ == key);
                        assert(earlier(before.widgets@[a].name@, before.widgets@[b].name@));
                    } else if a == i {
                        assert(earlier(key, before.widgets@[y].name@));
                    } else if b == i {
                        assert(earlier(before.widgets@[x].name@, key));
                    } else {
                        assert(earlier(before.widgets@[x].name@, before.widgets@[y].name@));
                    }
                }
            }
            assert(after.at(i as int, key));
            after.found_there(i as int, key);
            assert forall|other: Seq<char>| other != key implies #[trigger] after.found(other)
                == before.found(other) by {
                if exists|p: int| before.at(p, other) {
                    let p = choose|p: int| before.at(p, other);
                    let q = if !here && p >= i {
                        p + 1
                    } else {
                        p
                    };
                    assert(after.widgets@[q] == before.widgets@[p]);
                    assert(after.at(q, other));
                    after.found_there(q, other);
                    before.found_there(p, other);
                } else if exists|q: int| after.at(q, other) {
                    let q = choose|q: int| after.at(q, other);
                    let p = if !here && q > i {
                        q - 1
                    } else {
                        q
                    };
                    assert(after.widgets@[q] == before.widgets@[p]);
                    assert(before.at(p, other));
                }
            }
        }
    }

    /// The painter of a name, if this application has it.
    pub fn get(&self, name: &str) -> (r: Option<&P>)
        requires
            self.wf(),
        ensures
            match self.found(name@) {
                Some(painter) => r matches Some(p) && *p == painter,
                None => r is None,
            },
    {
        let (i, here) = self.place(name);
        if here {
            proof {
                self.found_there(i as int, name@);
            }
            Some(&self.widgets[i].painter)
        } else {
            None
        }
    }

    /// Whether a name is registered.
    pub fn has(&self, name: &str) -> (r: bool)
        requires
            self.wf(),
        ensures
            r == self.found(name@) is Some,
    {
        self.place(name).1
    }

    /// Whether nothing is registered.
    pub fn is_empty(&self) -> (r: bool)
        ensures
            r == (self.widgets@.len() == 0),
            r ==> forall|name: Seq<char>| #[trigger] self.found(name) is None,
    {
        self.widgets.len() == 0
    }

    /// Every name that is registered, sorted.
    pub fn names(&self) -> (r: Vec<&str>)
        requires
            self.wf(),
        ensures
            r@.len() == self.widgets@.len(),
            forall|i: int| 0 <= i < r@.len() ==> (#[trigger] r@[i])@ == self.widgets@[i].name@,
            forall|i: int, j: int|
                0 <= i < j < r@.len() ==> earlier((#[trigger] r@[i])@, (#[trigger] r@[j])@),
            forall|name: Seq<char>|
                (exists|i: int| 0 <= i < r@.len() && (#[trigger] r@[i])@ == name) == (
                #[trigger] self.found(name) is Some),
    {
        let mut out: Vec<&str> = Vec::new();
        let mut i: usize = 0;
        while i < self.widgets.len()
            invariant
                i <= self.widgets@.len(),
                out@.len() == i,
                forall|j: int| 0 <= j < i ==> (#[trigger] out@[j])@ == self.widgets@[j].name@,
            decreases self.widgets@.len() - i,
        {
            out.push(self.widgets[i].name.as_str());
            i += 1;
        }
        proof {
            assert forall|name: Seq<char>|
                (exists|i: int| 0 <= i < out@.len() && (#[trigger] out@[i])@ == name) == (
                #[trigger] self.found(name) is Some) by {
                if exists|i: int| self.at(i, name) {
                    let i = choose|i: int| self.at(i, name);
                    assert(out@[i]@ == name);
                }
                if exists|i: int| 0 <= i < out@.len() && (#[trigger] out@[i])@ == name {
                    let i = choose|i: int| 0 <= i < out@.len() && (#[trigger] out@[i])@ == name;
                    assert(self.at(i, name));
                }
            }
        }
        out
    }
}

/// Names are sorted as in a dictionary: a name stands before any that goes on
/// behind it, and at the first difference the smaller character decides.
pub proof fn names_are_sorted_as_in_a_dictionary(
    front: Seq<char>,
    a: char,
    b: char,
    rest: Seq<char>,
    other: Seq<char>,
)
    requires
        (a as int) < (b as int),
    ensures
        earlier(front, front.push(a) + rest),
        earlier(front.push(a) + rest, front.push(b) + other),
{
    assert(earlier_at(front, front.push(a) + rest, front.len() as int));
    assert(earlier_at(front.push(a) + rest, front.push(b) + other, front.len() as int));
}

impl<P> Widgets<P> {
    /// Every painter that is registered is found under its name, and under no
    /// name that is not registered is there any.
    pub proof fn a_registered_painter_is_found(self, i: int, name: Seq<char>)
        requires
            self.wf(),
        ensures
            0 <= i < self.widgets@.len() ==> self.found(self.widgets@[i].name@) == Some(
                self.widgets@[i].painter,
            ),
            (forall|j: int|
                0 <= j < self.widgets@.len() ==> (#[trigger] self.widgets@[j]).name@ != name)
                ==> self.found(name) is None,
    {
        if 0 <= i < self.widgets@.len() {
            self.found_there(i, self.widgets@[i].name@);
        }
    }
}

} // verus!
