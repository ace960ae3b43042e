use vstd::prelude::*;
use crate::text::{chars_of, decimal, int_to_decimal, push_str};

verus! {

/// The mathematical meaning of a value on the interpreter's stack.
pub enum Value {
    Str(Seq<char>),
    Int(i64),
    Bool(bool),
    Null,
    Array(Seq<Value>),
}

/// A value that the HTML programs compute with.
#[derive(Debug)]
pub enum HtmlValueType {
    Str(String),
    Int(i64),
    Bool(bool),
    Null,
    Array(Vec<HtmlValueType>),
}

impl HtmlValueType {
    /// The deep view of a value.
    pub open spec fn model(&self) -> Value
        decreases self,
    {
        match self {
            HtmlValueType::Str(s) => Value::Str(s@),
            HtmlValueType::Int(i) => Value::Int(*i),
            HtmlValueType::Bool(b) => Value::Bool(*b),
            HtmlValueType::Null => Value::Null,
            HtmlValueType::Array(v) => Value::Array(
                Seq::new(
                    v.len() as nat,
                    |i: int|
                        if 0 <= i < v.len() {
                            proof {
                                vstd::std_specs::vec::axiom_vec_index_decreases(*v, i);
                            }
                            v[i].model()
                        } else {
                            Value::Null
                        },
                ),
            ),
        }
    }
}

/// The deep view of a sequence of values.
pub open spec fn models(s: Seq<HtmlValueType>) -> Seq<Value> {
    s.map_values(|x: HtmlValueType| x.model())
}

impl View for HtmlValueType {
    type V = Value;

    open spec fn view(&self) -> Value {
        self.model()
    }
}

/// The elements of `parts`, with `sep` between each two neighbours.
pub open spec fn join_sep(parts: Seq<Seq<char>>, sep: Seq<char>) -> Seq<char>
    decreases parts.len(),
{
    if parts.len() == 0 {
        Seq::empty()
    } else if parts.len() == 1 {
        parts[0]
    } else {
        join_sep(parts.drop_last(), sep) + sep + parts.last()
    }
}

/// How a value is printed: a string as it is, an integer in decimal, `true`, `false`,
/// `null`, and an array as its printed elements between `[` and `]`, separated by `, `.
pub open spec fn display(v: Value) -> Seq<char>
    decreases v,
{
    match v {
        Value::Str(s) => s,
        Value::Int(n) => decimal(n as int),
        Value::Bool(b) => if b {
            "true"@
        } else {
            "false"@
        },
        Value::Null => "null"@,
        Value::Array(items) => "["@ + join_sep(display_all(items), ", "@) + "]"@,
    }
}

/// The printed forms of the elements of an array.
pub open spec fn display_all(items: Seq<Value>) -> Seq<Seq<char>>
    decreases items,
{
    Seq::new(
        items.len(),
        |i: int|
            if 0 <= i < items.len() {
                proof {
                    vstd::seq::axiom_seq_index_decreases(items, i);
                }
                display(items[i])
            } else {
                Seq::empty()
            },
    )
}

pub proof fn lemma_model_array(v: Vec<HtmlValueType>)
    ensures
        HtmlValueType::Array(v)@ == Value::Array(models(v@)),
{
    let m = HtmlValueType::Array(v).model();
    assert(m->Array_0 =~= models(v@));
}

/// The deep view of a sequence with a value in front.
pub proof fn lemma_models_cons(v: HtmlValueType, s: Seq<HtmlValueType>)
    ensures
        models(seq![v] + s) == seq![v@] + models(s),
{
    assert(models(seq![v] + s) =~= seq![v@] + models(s));
}

/// The deep view of a sequence without its first element.
pub proof fn lemma_models_tail(s: Seq<HtmlValueType>)
    requires
        s.len() > 0,
    ensures
        models(s.subrange(1, s.len() as int)) == models(s).drop_first(),
        models(s)[0] == s[0]@,
{
    assert(models(s.subrange(1, s.len() as int)) =~= models(s).drop_first());
}

/// The deep view of two sequences joined.
pub proof fn lemma_models_concat(a: Seq<HtmlValueType>, b: Seq<HtmlValueType>)
    ensures
        models(a + b) == models(a) + models(b),
{
    assert(models(a + b) =~= models(a) + models(b));
}

impl HtmlValueType {
    /// Appends the printed form of the value to `out`.
    pub fn display_into(&self, out: &mut String)
        ensures
            final(out)@ == old(out)@ + display(self@),
        decreases self,
    {
        match self {
            HtmlValueType::Str(s) => push_str(out, s.as_str()),
            HtmlValueType::Int(n) => {
                let d = int_to_decimal(*n);
                push_str(out, d.as_str());
            },
            HtmlValueType::Bool(b) => {
                if *b {
                    push_str(out, "true");
                } else {
                    push_str(out, "false");
                }
            },
            HtmlValueType::Null => push_str(out, "null"),
            HtmlValueType::Array(items) => {
                proof {
                    lemma_model_array(*items);
                }
                let ghost parts = display_all(models(items@));
                let ghost start = out@;
                push_str(out, "[");
                let mut i: usize = 0;
                while i < items.len()
                    invariant
                        i <= items.len(),
                        parts == display_all(models(items@)),
                        *self == HtmlValueType::Array(*items),
                        out@ == start + "["@ + join_sep(parts.take(i as int), ", "@),
                    decreases items.len() - i,
                {
                    let ghost before = out@;
                    if i > 0 {
                        push_str(out, ", ");
                    }
                    proof {
                        vstd::std_specs::vec::axiom_vec_index_decreases(*items, i as int);
                        assert(decreases_to!(*self => (*self)->Array_0));
                    }
                    items[i].display_into(out);
                    proof {
                        let t = parts.take(i + 1);
                        assert(t.drop_last() =~= parts.take(i as int));
                        assert(t.last() == display(items@[i as int]@));
                        if i == 0 {
                            assert(parts.take(0) =~= Seq::<Seq<char>>::empty());
                        }
                    }
                    i = i + 1;
                    assert(out@ =~= start + "["@ + join_sep(parts.take(i as int), ", "@));
                }
                push_str(out, "]");
                assert(parts.take(items.len() as int) =~= parts);
                assert(out@ =~= start + display(self@));
            },
        }
    }

    /// The printed form of the value.
    pub fn to_display_string(&self) -> (s: String)
        ensures
            s@ == display(self@),
    {
        let mut s = String::new();
        self.display_into(&mut s);
        assert(s@ =~= display(self@));
        s
    }

    /// A copy of the value, element by element.
    pub fn duplicate(&self) -> (r: HtmlValueType)
        ensures
            r@ == self@,
        decreases self,
    {
        match self {
            HtmlValueType::Str(s) => HtmlValueType::Str(s.clone()),
            HtmlValueType::Int(n) => HtmlValueType::Int(*n),
            HtmlValueType::Bool(b) => HtmlValueType::Bool(*b),
            HtmlValueType::Null => HtmlValueType::Null,
            HtmlValueType::Array(items) => {
                let mut copy: Vec<HtmlValueType> = Vec::new();
                let mut i: usize = 0;
                while i < items.len()
                    invariant
                        i <= items.len(),
                        copy.len() == i,
                        *self == HtmlValueType::Array(*items),
                        forall|j: int| 0 <= j < i ==> (#[trigger] copy@[j])@ == items@[j]@,
                    decreases items.len() - i,
                {
                    proof {
                        vstd::std_specs::vec::axiom_vec_index_decreases(*items, i as int);
                        assert(decreases_to!(*self => (*self)->Array_0));
                    }
                    let e = items[i].duplicate();
                    copy.push(e);
                    i = i + 1;
                }
                proof {
                    lemma_model_array(*items);
                    lemma_model_array(copy);
                    assert(models(copy@) =~= models(items@));
                }
                HtmlValueType::Array(copy)
            },
        }
    }
}

/// Whether two values are equal: of the same kind, with equal contents, arrays element by element.
pub fn values_equal(a: &HtmlValueType, b: &HtmlValueType) -> (r: bool)
    ensures
        r == (a@ == b@),
    decreases a,
{
    match (a, b) {
        (HtmlValueType::Str(x), HtmlValueType::Str(y)) => *x == *y,
        (HtmlValueType::Int(x), HtmlValueType::Int(y)) => *x == *y,
        (HtmlValueType::Bool(x), HtmlValueType::Bool(y)) => *x == *y,
        (HtmlValueType::Null, HtmlValueType::Null) => true,
        (HtmlValueType::Array(x), HtmlValueType::Array(y)) => {
            proof {
                lemma_model_array(*x);
                lemma_model_array(*y);
            }
            if x.len() != y.len() {
                assert(models(x@).len() != models(y@).len());
                return false;
            }
            let mut i: usize = 0;
            while i < x.len()
                invariant
                    i <= x.len(),
                    x.len() == y.len(),
                    *a == HtmlValueType::Array(*x),
                    *b == HtmlValueType::Array(*y),
                    models(x@) == (*a)@->Array_0,
                    models(y@) == (*b)@->Array_0,
                    forall|j: int| 0 <= j < i ==> (#[trigger] x@[j])@ == y@[j]@,
                decreases x.len() - i,
            {
                proof {
                    vstd::std_specs::vec::axiom_vec_index_decreases(*x, i as int);
                }
                if !values_equal(&x[i], &y[i]) {
                    assert(models(x@)[i as int] != models(y@)[i as int]);
                    return false;
                }
                i = i + 1;
            }
            assert(models(x@) =~= models(y@));
            true
        },
        _ => false,
    }
}

impl PartialEq for HtmlValueType {
    fn eq(&self, other: &Self) -> (r: bool) {
        values_equal(self, other)
    }
}

impl vstd::std_specs::cmp::PartialEqSpecImpl for HtmlValueType {
    open spec fn obeys_eq_spec() -> bool {
        true
    }

    open spec fn eq_spec(&self, other: &Self) -> bool {
        self@ == other@
    }
}

impl Clone for HtmlValueType {
    fn clone(&self) -> (r: Self)
        ensures
            r@ == self@,
    {
        self.duplicate()
    }
}

} // verus!
