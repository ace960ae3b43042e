use vstd::prelude::*;
use crate::value::{HtmlValueType, Value};

verus! {

/// The variables that the entries bind: a later entry for a name overrides an earlier one.
pub open spec fn bindings(entries: Seq<(String, HtmlValueType)>) -> Map<Seq<char>, Value>
    decreases entries.len(),
{
    if entries.len() == 0 {
        Map::empty()
    } else {
        bindings(entries.drop_last()).insert(entries.last().0@, entries.last().1@)
    }
}

/// The variables of a program: names bound to values.
pub struct VarContext {
    entries: Vec<(String, HtmlValueType)>,
}

impl View for VarContext {
    type V = Map<Seq<char>, Value>;

    closed spec fn view(&self) -> Map<Seq<char>, Value> {
        bindings(self.entries@)
    }
}

/// Where no entry after index `j` binds `k`, the bindings are those of the entries up to `j`.
proof fn lemma_bindings_prefix(entries: Seq<(String, HtmlValueType)>, k: Seq<char>, j: int)
    requires
        0 <= j <= entries.len(),
        forall|m: int| j <= m < entries.len() ==> (#[trigger] entries[m]).0@ != k,
    ensures
        bindings(entries).contains_key(k) == bindings(entries.take(j)).contains_key(k),
        bindings(entries).contains_key(k) ==> bindings(entries)[k] == bindings(entries.take(j))[k],
    decreases entries.len(),
{
    if entries.len() > j {
        let d = entries.drop_last();
        assert(entries.take(j) =~= d.take(j));
        assert forall|m: int| j <= m < d.len() implies (#[trigger] d[m]).0@ != k by {
            assert(d[m] == entries[m]);
        }
        lemma_bindings_prefix(d, k, j);
    } else {
        assert(entries.take(j) =~= entries);
    }
}

/// Replacing the value of the last entry for a name rebinds the name.
proof fn lemma_bindings_update(
    entries: Seq<(String, HtmlValueType)>,
    j: int,
    e: (String, HtmlValueType),
)
    requires
        0 <= j < entries.len(),
        entries[j].0@ == e.0@,
        forall|m: int| j < m < entries.len() ==> (#[trigger] entries[m]).0@ != e.0@,
    ensures
        bindings(entries.update(j, e)) == bindings(entries).insert(e.0@, e.1@),
    decreases entries.len(),
{
    let u = entries.update(j, e);
    if j == entries.len() - 1 {
        assert(u.drop_last() =~= entries.drop_last());
        assert(bindings(u) =~= bindings(entries).insert(e.0@, e.1@));
    } else {
        let d = entries.drop_last();
        assert(u.drop_last() =~= d.update(j, e));
        assert forall|m: int| j < m < d.len() implies (#[trigger] d[m]).0@ != e.0@ by {
            assert(d[m] == entries[m]);
        }
        lemma_bindings_update(d, j, e);
        assert(entries.last().0@ != e.0@);
        assert(bindings(u) =~= bindings(entries).insert(e.0@, e.1@));
    }
}

impl VarContext {
    /// A context without variables.
    pub fn new() -> (r: VarContext)
        ensures
            r@ == Map::<Seq<char>, Value>::empty(),
    {
        VarContext { entries: Vec::new() }
    }

    /// The index of the last entry for `name`.
    fn find(&self, name: &String) -> (r: Option<usize>)
        ensures
            match r {
                Some(j) => {
                    &&& j < self.entries.len()
                    &&& self.entries@[j as int].0@ == name@
                    &&& forall|m: int|
                        j < m < self.entries.len() ==> (#[trigger] self.entries@[m]).0@ != name@
                },
                None => forall|m: int|
                    0 <= m < self.entries.len() ==> (#[trigger] self.entries@[m]).0@ != name@,
            },
    {
        let mut i: usize = self.entries.len();
        while i > 0
            invariant
                i <= self.entries.len(),
                forall|m: int|
                    i <= m < self.entries.len() ==> (#[trigger] self.entries@[m]).0@ != name@,
            decreases i,
        {
            i = i - 1;
            if self.entries[i].0 == *name {
                return Some(i);
            }
        }
        None
    }

    /// A copy of the value bound to `name`, if it is bound.
    pub fn lookup(&self, name: &String) -> (r: Option<HtmlValueType>)
        ensures
            match r {
                Some(v) => self@.contains_key(name@) && v@ == self@[name@],
                None => !self@.contains_key(name@),
            },
    {
        match self.find(name) {
            Some(j) => {
                proof {
                    lemma_bindings_prefix(self.entries@, name@, j + 1);
                    let t = self.entries@.take(j + 1);
                    assert(t.drop_last() =~= self.entries@.take(j as int));
                }
                Some(self.entries[j].1.duplicate())
            },
            None => {
                proof {
                    lemma_bindings_prefix(self.entries@, name@, 0);
                    assert(self.entries@.take(0) =~= Seq::<(String, HtmlValueType)>::empty());
                }
                None
            },
        }
    }

    /// Binds `name` to `value`, replacing an earlier binding.
    pub fn insert(&mut self, name: String, value: HtmlValueType)
        ensures
            final(self)@ == old(self)@.insert(name@, value@),
    {
        match self.find(&name) {
            Some(j) => {
                proof {
                    lemma_bindings_update(self.entries@, j as int, (name, value));
                }
                self.entries.set(j, (name, value));
            },
            None => {
                let ghost before = self.entries@;
                self.entries.push((name, value));
                proof {
                    assert(self.entries@.drop_last() =~= before);
                }
            },
        }
    }

    /// A copy of the context, with the same bindings.
    pub fn duplicate(&self) -> (r: VarContext)
        ensures
            r@ == self@,
    {
        let mut entries: Vec<(String, HtmlValueType)> = Vec::new();
        let mut i: usize = 0;
        while i < self.entries.len()
            invariant
                i <= self.entries.len(),
                entries.len() == i,
                forall|m: int|
                    0 <= m < i ==> (#[trigger] entries@[m]).0@ == self.entries@[m].0@
                        && entries@[m].1@ == self.entries@[m].1@,
            decreases self.entries.len() - i,
        {
            let k = self.entries[i].0.clone();
            let v = self.entries[i].1.duplicate();
            entries.push((k, v));
            i = i + 1;
        }
        let r = VarContext { entries };
        proof {
            lemma_bindings_same(r.entries@, self.entries@);
        }
        r
    }
}

/// Entries with the same names and values bind the same.
proof fn lemma_bindings_same(a: Seq<(String, HtmlValueType)>, b: Seq<(String, HtmlValueType)>)
    requires
        a.len() == b.len(),
        forall|m: int| 0 <= m < a.len() ==> (#[trigger] a[m]).0@ == b[m].0@ && a[m].1@ == b[m].1@,
    ensures
        bindings(a) == bindings(b),
    decreases a.len(),
{
    if a.len() > 0 {
        lemma_bindings_same(a.drop_last(), b.drop_last());
    }
}

} // verus!
