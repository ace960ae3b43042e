use vstd::prelude::*;
use ego_tree::NodeId;
use crate::html::{
    attribute, css_first_match, element_name, first_child, next_sibling, text_content, NodeInfo,
};
use crate::ops::{byte_len, Halt};
use crate::semantics::{
    call_selector, exec_children, exec_li, exec_node, exec_ol_items, run_loop, starts_with, strip_prefixes,
    strip_suffixes, tag_of, Run, State, Tag,
};
use crate::text::{decimal, parse_int};
use crate::value::{display, display_all, join_sep, Value};

verus! {

/// The size of an integer.
pub open spec fn abs(x: int) -> int {
    if x < 0 {
        -x
    } else {
        x
    }
}

/// The element names that the laws below speak of stand for their instructions.
proof fn lemma_names()
    ensures
        tag_of("s"@) == Tag::S,
        tag_of("ol"@) == Tag::Ol,
        tag_of("cite"@) == Tag::Cite,
        tag_of("small"@) == Tag::Op(crate::ops::StackOp::Small),
        tag_of("big"@) == Tag::Op(crate::ops::StackOp::Big),
        tag_of("b"@) == Tag::Op(crate::ops::StackOp::B),
        tag_of("bdo"@) == Tag::Op(crate::ops::StackOp::Bdo),
        tag_of("dbi"@) == Tag::Op(crate::ops::StackOp::Dbi),
        tag_of("i"@) == Tag::I,
        tag_of("data"@) == Tag::Data,
        tag_of("output"@) == Tag::Output,
        tag_of("dt"@) == Tag::Op(crate::ops::StackOp::Dt),
        tag_of("del"@) == Tag::Op(crate::ops::StackOp::Del),
        tag_of("em"@) == Tag::Op(crate::ops::StackOp::Em),
        tag_of("dd"@) == Tag::Op(crate::ops::StackOp::Dd),
        tag_of("sub"@) == Tag::Op(crate::ops::StackOp::Sub),
        tag_of("ul"@) == Tag::Op(crate::ops::StackOp::Ul),
        tag_of("div"@) == Tag::Op(crate::ops::StackOp::Div),
        tag_of("var"@) == Tag::Var,
        tag_of("a"@) == Tag::A,
        tag_of("rt"@) == Tag::Rt,
        tag_of("dfn"@) == Tag::Dfn,
{
    reveal_strlit("s");
    assert("s"@ =~= seq!['s']);
    reveal_strlit("data");
    assert("data"@ =~= seq!['d', 'a', 't', 'a']);
    reveal_strlit("ol");
    assert("ol"@ =~= seq!['o', 'l']);
    reveal_strlit("cite");
    assert("cite"@ =~= seq!['c', 'i', 't', 'e']);
    reveal_strlit("output");
    assert("output"@ =~= seq!['o', 'u', 't', 'p', 'u', 't']);
    reveal_strlit("dt");
    assert("dt"@ =~= seq!['d', 't']);
    reveal_strlit("del");
    assert("del"@ =~= seq!['d', 'e', 'l']);
    reveal_strlit("small");
    assert("small"@ =~= seq!['s', 'm', 'a', 'l', 'l']);
    reveal_strlit("big");
    assert("big"@ =~= seq!['b', 'i', 'g']);
    reveal_strlit("em");
    assert("em"@ =~= seq!['e', 'm']);
    reveal_strlit("dd");
    assert("dd"@ =~= seq!['d', 'd']);
    reveal_strlit("sub");
    assert("sub"@ =~= seq!['s', 'u', 'b']);
    reveal_strlit("ul");
    assert("ul"@ =~= seq!['u', 'l']);
    reveal_strlit("div");
    assert("div"@ =~= seq!['d', 'i', 'v']);
    reveal_strlit("b");
    assert("b"@ =~= seq!['b']);
    reveal_strlit("bdo");
    assert("bdo"@ =~= seq!['b', 'd', 'o']);
    reveal_strlit("dbi");
    assert("dbi"@ =~= seq!['d', 'b', 'i']);
    reveal_strlit("i");
    assert("i"@ =~= seq!['i']);
    assert("b"@[0] != "s"@[0]);
    assert("i"@[0] != "s"@[0]);
    assert("i"@[0] != "b"@[0]);
    reveal_strlit("a");
    assert("a"@ =~= seq!['a']);
    reveal_strlit("rt");
    assert("rt"@ =~= seq!['r', 't']);
    reveal_strlit("var");
    assert("var"@ =~= seq!['v', 'a', 'r']);
    reveal_strlit("dfn");
    assert("dfn"@ =~= seq!['d', 'f', 'n']);
    assert("a"@[0] != "s"@[0]);
    assert("a"@[0] != "b"@[0]);
    assert("a"@[0] != "i"@[0]);
}

/// A step that went on normally, with `stack` as the new stack and nothing else changed.
pub open spec fn stack_becomes(s: State, fuel: nat, stack: Seq<Value>) -> Run {
    Run { state: State { stack, ..s }, fuel: (fuel - 1) as nat, halt: None }
}

/// `big` takes the top value `v1` and the value `v2` below it and pushes whether `v1` is
/// the smaller: integers by value, strings by their number of UTF-8 bytes, arrays by their
/// number of items.
pub proof fn law_big_is_less_than(
    d: Map<NodeId, NodeInfo>,
    id: NodeId,
    s: State,
    fuel: nat,
    v1: Value,
    v2: Value,
    rest: Seq<Value>,
)
    requires
        fuel > 0,
        element_name(d, id) == Some("big"@),
        s.stack == seq![v1, v2] + rest,
    ensures
        ({
            let r = exec_node(d, id, s, fuel);
            match (v1, v2) {
                (Value::Int(a), Value::Int(b)) => r == stack_becomes(
                    s,
                    fuel,
                    seq![Value::Bool(a < b)] + rest,
                ),
                (Value::Str(a), Value::Str(b)) => r == stack_becomes(
                    s,
                    fuel,
                    seq![Value::Bool(byte_len(a) < byte_len(b))] + rest,
                ),
                (Value::Array(a), Value::Array(b)) => r == stack_becomes(
                    s,
                    fuel,
                    seq![Value::Bool(a.len() < b.len())] + rest,
                ),
                _ => r.halt matches Some(Halt::Error(_)),
            }
        }),
{
    lemma_names();
    assert(s.stack.skip(2) =~= rest);
}

/// `small` takes the top value `v1` and the value `v2` below it and pushes whether `v1` is
/// the larger: integers by value, strings by their number of UTF-8 bytes, arrays by their
/// number of items.
pub proof fn law_small_is_greater_than(
    d: Map<NodeId, NodeInfo>,
    id: NodeId,
    s: State,
    fuel: nat,
    v1: Value,
    v2: Value,
    rest: Seq<Value>,
)
    requires
        fuel > 0,
        element_name(d, id) == Some("small"@),
        s.stack == seq![v1, v2] + rest,
    ensures
        ({
            let r = exec_node(d, id, s, fuel);
            match (v1, v2) {
                (Value::Int(a), Value::Int(b)) => r == stack_becomes(
                    s,
                    fuel,
                    seq![Value::Bool(a > b)] + rest,
                ),
                (Value::Str(a), Value::Str(b)) => r == stack_becomes(
                    s,
                    fuel,
                    seq![Value::Bool(byte_len(a) > byte_len(b))] + rest,
                ),
                (Value::Array(a), Value::Array(b)) => r == stack_becomes(
                    s,
                    fuel,
                    seq![Value::Bool(a.len() > b.len())] + rest,
                ),
                _ => r.halt matches Some(Halt::Error(_)),
            }
        }),
{
    lemma_names();
    assert(s.stack.skip(2) =~= rest);
}

/// Whether two values of one kind differ in what `big` and `small` compare.
pub open spec fn differ(v1: Value, v2: Value) -> bool {
    match (v1, v2) {
        (Value::Int(a), Value::Int(b)) => a != b,
        (Value::Str(a), Value::Str(b)) => byte_len(a) != byte_len(b),
        (Value::Array(a), Value::Array(b)) => a.len() != b.len(),
        _ => false,
    }
}

/// Whether two values are opposite booleans.
pub open spec fn opposite(a: Value, b: Value) -> bool {
    match (a, b) {
        (Value::Bool(x), Value::Bool(y)) => x == !y,
        _ => false,
    }
}

/// `big` and `small` mirror each other: `big` on the two top values answers what `small`
/// answers with the two swapped, and on two strings of different byte lengths, or two
/// integers or two arrays that differ in what is compared, they answer opposite things.
pub proof fn law_big_mirrors_small(
    d: Map<NodeId, NodeInfo>,
    big: NodeId,
    small: NodeId,
    s: State,
    fuel: nat,
    v1: Value,
    v2: Value,
    rest: Seq<Value>,
)
    requires
        fuel > 0,
        element_name(d, big) == Some("big"@),
        element_name(d, small) == Some("small"@),
        s.stack == seq![v1, v2] + rest,
        (v1 is Int && v2 is Int) || (v1 is Str && v2 is Str) || (v1 is Array && v2 is Array),
    ensures
        ({
            let rb = exec_node(d, big, s, fuel);
            let rs = exec_node(d, small, State { stack: seq![v2, v1] + rest, ..s }, fuel);
            let ro = exec_node(d, small, s, fuel);
            &&& rb.halt is None
            &&& rb.state.stack == rs.state.stack
            &&& differ(v1, v2) ==> opposite(rb.state.stack[0], ro.state.stack[0])
        }),
{
    law_big_is_less_than(d, big, s, fuel, v1, v2, rest);
    law_small_is_greater_than(d, small, State { stack: seq![v2, v1] + rest, ..s }, fuel, v2, v1, rest);
    law_small_is_greater_than(d, small, s, fuel, v1, v2, rest);
}

/// `b` takes two booleans from the top of the stack and pushes their conjunction.
pub proof fn law_b_is_and(
    d: Map<NodeId, NodeInfo>,
    id: NodeId,
    s: State,
    fuel: nat,
    x: bool,
    y: bool,
    rest: Seq<Value>,
)
    requires
        fuel > 0,
        element_name(d, id) == Some("b"@),
        s.stack == seq![Value::Bool(x), Value::Bool(y)] + rest,
    ensures
        exec_node(d, id, s, fuel) == stack_becomes(s, fuel, seq![Value::Bool(x && y)] + rest),
{
    lemma_names();
    assert(s.stack.skip(2) =~= rest);
}

/// `bdo` takes two booleans from the top of the stack and pushes their disjunction.
pub proof fn law_bdo_is_or(
    d: Map<NodeId, NodeInfo>,
    id: NodeId,
    s: State,
    fuel: nat,
    x: bool,
    y: bool,
    rest: Seq<Value>,
)
    requires
        fuel > 0,
        element_name(d, id) == Some("bdo"@),
        s.stack == seq![Value::Bool(x), Value::Bool(y)] + rest,
    ensures
        exec_node(d, id, s, fuel) == stack_becomes(s, fuel, seq![Value::Bool(x || y)] + rest),
{
    lemma_names();
    assert(s.stack.skip(2) =~= rest);
}

/// `dbi` replaces the boolean on top of the stack by its negation.
pub proof fn law_dbi_is_not(
    d: Map<NodeId, NodeInfo>,
    id: NodeId,
    s: State,
    fuel: nat,
    x: bool,
    rest: Seq<Value>,
)
    requires
        fuel > 0,
        element_name(d, id) == Some("dbi"@),
        s.stack == seq![Value::Bool(x)] + rest,
    ensures
        exec_node(d, id, s, fuel) == stack_becomes(s, fuel, seq![Value::Bool(!x)] + rest),
{
    lemma_names();
    assert(s.stack.drop_first() =~= rest);
}

/// An `ol` whose items ran without stopping and pushed `pushed` (top first) on the stack it
/// found replaces those values by one array of them in the order they were pushed, and
/// leaves the values below untouched; where the items pushed nothing, the stack stays.
pub proof fn law_ol_gathers_what_its_items_pushed(
    d: Map<NodeId, NodeInfo>,
    id: NodeId,
    s: State,
    fuel: nat,
    pushed: Seq<Value>,
)
    requires
        fuel > 0,
        element_name(d, id) == Some("ol"@),
        exec_ol_items(d, first_child(d, id), s, (fuel - 1) as nat).halt is None,
        exec_ol_items(d, first_child(d, id), s, (fuel - 1) as nat).state.stack == pushed
            + s.stack,
    ensures
        ({
            let items = exec_ol_items(d, first_child(d, id), s, (fuel - 1) as nat);
            let r = exec_node(d, id, s, fuel);
            &&& r.halt is None
            &&& r.fuel == items.fuel
            &&& r.state == State {
                stack: if pushed.len() > 0 {
                    seq![Value::Array(pushed.reverse())] + s.stack
                } else {
                    s.stack
                },
                ..items.state
            }
            &&& pushed.len() > 0 ==> r.state.stack.len() == s.stack.len() + 1
        }),
{
    lemma_names();
    let after = pushed + s.stack;
    assert(after.take(pushed.len() as int) =~= pushed);
    assert(after.skip(pushed.len() as int) =~= s.stack);
}

/// `i` always takes its condition from the stack: where it is `true` it runs its children
/// on the rest of the stack; any other value is dropped and nothing runs.
pub proof fn law_i_consumes_its_condition(
    d: Map<NodeId, NodeInfo>,
    id: NodeId,
    s: State,
    fuel: nat,
)
    requires
        fuel > 0,
        element_name(d, id) == Some("i"@),
        s.stack.len() > 0,
    ensures
        ({
            let popped = State { stack: s.stack.drop_first(), ..s };
            let r = exec_node(d, id, s, fuel);
            if s.stack[0] == Value::Bool(true) {
                r == exec_children(d, first_child(d, id), popped, (fuel - 1) as nat)
            } else {
                r == stack_becomes(s, fuel, s.stack.drop_first())
            }
        }),
{
    lemma_names();
}

/// `s` pushes the text it holds as a string (the empty string where it holds nothing).
pub proof fn law_s_pushes_its_text(
    d: Map<NodeId, NodeInfo>,
    id: NodeId,
    c: NodeId,
    s: State,
    fuel: nat,
    t: Seq<char>,
)
    requires
        fuel > 0,
        element_name(d, id) == Some("s"@),
        first_child(d, id) == Some(c),
        text_content(d, c) == Some(t),
    ensures
        exec_node(d, id, s, fuel) == stack_becomes(s, fuel, seq![Value::Str(t)] + s.stack),
{
    lemma_names();
}

/// `cite` pushes the value its text names: `true` and `false` the booleans, `null` the null
/// value whatever the variables hold, and any other text the value of that variable, or
/// null where no variable has that name.
pub proof fn law_cite_pushes_what_it_names(
    d: Map<NodeId, NodeInfo>,
    id: NodeId,
    c: NodeId,
    s: State,
    fuel: nat,
    t: Seq<char>,
)
    requires
        fuel > 0,
        element_name(d, id) == Some("cite"@),
        first_child(d, id) == Some(c),
        text_content(d, c) == Some(t),
    ensures
        ({
            let r = exec_node(d, id, s, fuel);
            &&& t == "true"@ ==> r == stack_becomes(s, fuel, seq![Value::Bool(true)] + s.stack)
            &&& t == "false"@ ==> r == stack_becomes(s, fuel, seq![Value::Bool(false)] + s.stack)
            &&& t == "null"@ ==> r == stack_becomes(s, fuel, seq![Value::Null] + s.stack)
            &&& t != "true"@ && t != "false"@ && t != "null"@ && s.vars.contains_key(t) ==> r
                == stack_becomes(s, fuel, seq![s.vars[t]] + s.stack)
            &&& t != "true"@ && t != "false"@ && t != "null"@ && !s.vars.contains_key(t) ==> r
                == stack_becomes(s, fuel, seq![Value::Null] + s.stack)
        }),
{
    lemma_names();
    reveal_strlit("true");
    reveal_strlit("false");
    reveal_strlit("null");
    assert("null"@[0] != "true"@[0]);
    assert("null"@.len() != "false"@.len());
}

/// Whether `c` is `x` held to the range of `i64`: `x` itself where it fits, else the bound
/// that `x` passed.
pub open spec fn saturates_to(x: int, c: i64) -> bool {
    &&& i64::MIN <= x <= i64::MAX ==> c == x
    &&& x > i64::MAX ==> c == i64::MAX
    &&& x < i64::MIN ==> c == i64::MIN
}

/// The step went on normally and replaced the two top values by one integer.
pub open spec fn two_became_int(s: State, fuel: nat, rest: Seq<Value>, r: Run) -> bool {
    &&& r.halt is None
    &&& r.fuel == fuel - 1
    &&& r.state == State { stack: seq![r.state.stack[0]] + rest, ..s }
    &&& r.state.stack[0] is Int
}

/// `dd` on two integers pushes the one below the top plus the top, saturating at the bounds
/// of `i64`; on two strings, the one below followed by the top; on two arrays, the items of
/// the one below followed by those of the top.
pub proof fn law_dd_adds(
    d: Map<NodeId, NodeInfo>,
    id: NodeId,
    s: State,
    fuel: nat,
    v1: Value,
    v2: Value,
    rest: Seq<Value>,
)
    requires
        fuel > 0,
        element_name(d, id) == Some("dd"@),
        s.stack == seq![v1, v2] + rest,
    ensures
        ({
            let r = exec_node(d, id, s, fuel);
            match (v1, v2) {
                (Value::Int(a), Value::Int(b)) => two_became_int(s, fuel, rest, r) && saturates_to(
                    b + a,
                    r.state.stack[0]->Int_0,
                ),
                (Value::Str(a), Value::Str(b)) => r == stack_becomes(
                    s,
                    fuel,
                    seq![Value::Str(b + a)] + rest,
                ),
                (Value::Array(a), Value::Array(b)) => r == stack_becomes(
                    s,
                    fuel,
                    seq![Value::Array(b + a)] + rest,
                ),
                _ => r.halt matches Some(Halt::Error(_)),
            }
        }),
{
    lemma_names();
    assert(s.stack.skip(2) =~= rest);
}

/// `sub` on two integers pushes the one below the top minus the top, saturating.
pub proof fn law_sub_subtracts(
    d: Map<NodeId, NodeInfo>,
    id: NodeId,
    s: State,
    fuel: nat,
    a: i64,
    b: i64,
    rest: Seq<Value>,
)
    requires
        fuel > 0,
        element_name(d, id) == Some("sub"@),
        s.stack == seq![Value::Int(a), Value::Int(b)] + rest,
    ensures
        ({
            let r = exec_node(d, id, s, fuel);
            two_became_int(s, fuel, rest, r) && saturates_to(b - a, r.state.stack[0]->Int_0)
        }),
{
    lemma_names();
    assert(s.stack.skip(2) =~= rest);
}

/// `ul` on two integers pushes their product, saturating.
pub proof fn law_ul_multiplies(
    d: Map<NodeId, NodeInfo>,
    id: NodeId,
    s: State,
    fuel: nat,
    a: i64,
    b: i64,
    rest: Seq<Value>,
)
    requires
        fuel > 0,
        element_name(d, id) == Some("ul"@),
        s.stack == seq![Value::Int(a), Value::Int(b)] + rest,
    ensures
        ({
            let r = exec_node(d, id, s, fuel);
            two_became_int(s, fuel, rest, r) && saturates_to(a * b, r.state.stack[0]->Int_0)
        }),
{
    lemma_names();
    assert(s.stack.skip(2) =~= rest);
}

/// What division rounded toward zero leaves: `x - q * d` is smaller than `d` in size and
/// has the sign of `x` (or is zero).
proof fn lemma_trunc_div(x: int, d: int)
    requires
        d != 0,
    ensures
        ({
            let q = crate::ops::trunc_div(x, d);
            let m = x - q * d;
            &&& -abs(d) < m < abs(d)
            &&& (x >= 0 ==> m >= 0)
            &&& (x <= 0 ==> m <= 0)
            &&& abs(q) <= abs(x)
        }),
{
    let q = crate::ops::trunc_div(x, d);
    if x == 0 {
    } else if x > 0 && d > 0 {
        vstd::arithmetic::div_mod::lemma_fundamental_div_mod(x, d);
        vstd::arithmetic::div_mod::lemma_mod_bound(x, d);
        vstd::arithmetic::div_mod::lemma_div_pos_is_pos(x, d);
        vstd::arithmetic::div_mod::lemma_div_is_ordered_by_denominator(x, 1, d);
        assert(q * d == d * (x / d)) by (nonlinear_arith)
            requires
                q == x / d,
        ;
    } else if x < 0 && d < 0 {
        let (y, e) = (-x, -d);
        vstd::arithmetic::div_mod::lemma_fundamental_div_mod(y, e);
        vstd::arithmetic::div_mod::lemma_mod_bound(y, e);
        vstd::arithmetic::div_mod::lemma_div_pos_is_pos(y, e);
        vstd::arithmetic::div_mod::lemma_div_is_ordered_by_denominator(y, 1, e);
        assert(q == y / e);
        assert(q * d == -(e * (y / e))) by (nonlinear_arith)
            requires
                q == y / e,
                d == -e,
        ;
    } else if x < 0 {
        let y = -x;
        vstd::arithmetic::div_mod::lemma_fundamental_div_mod(y, d);
        vstd::arithmetic::div_mod::lemma_mod_bound(y, d);
        vstd::arithmetic::div_mod::lemma_div_pos_is_pos(y, d);
        vstd::arithmetic::div_mod::lemma_div_is_ordered_by_denominator(y, 1, d);
        assert(q == -(y / d));
        assert(q * d == -(d * (y / d))) by (nonlinear_arith)
            requires
                q == -(y / d),
        ;
    } else {
        let e = -d;
        vstd::arithmetic::div_mod::lemma_fundamental_div_mod(x, e);
        vstd::arithmetic::div_mod::lemma_mod_bound(x, e);
        vstd::arithmetic::div_mod::lemma_div_pos_is_pos(x, e);
        vstd::arithmetic::div_mod::lemma_div_is_ordered_by_denominator(x, 1, e);
        assert(q == -(x / e));
        assert(q * d == e * (x / e)) by (nonlinear_arith)
            requires
                q == -(x / e),
                d == -e,
        ;
    }
}

/// `div` on two integers, the top not zero, pushes the quotient of the one below by the
/// top, rounded toward zero: what is left over is smaller than the divisor in size and has
/// the sign of the dividend. The one quotient that does not fit, `i64::MIN / -1`, gives
/// `i64::MAX`.
pub proof fn law_div_rounds_toward_zero(
    d: Map<NodeId, NodeInfo>,
    id: NodeId,
    s: State,
    fuel: nat,
    a: i64,
    b: i64,
    rest: Seq<Value>,
)
    requires
        fuel > 0,
        element_name(d, id) == Some("div"@),
        s.stack == seq![Value::Int(a), Value::Int(b)] + rest,
        a != 0,
    ensures
        ({
            let r = exec_node(d, id, s, fuel);
            let q = r.state.stack[0]->Int_0;
            let m = b - q * a;
            &&& two_became_int(s, fuel, rest, r)
            &&& b == i64::MIN && a == -1 ==> q == i64::MAX
            &&& !(b == i64::MIN && a == -1) ==> {
                &&& -abs(a as int) < m < abs(a as int)
                &&& (b >= 0 ==> m >= 0)
                &&& (b <= 0 ==> m <= 0)
            }
        }),
{
    lemma_names();
    assert(s.stack.skip(2) =~= rest);
    lemma_trunc_div(b as int, a as int);
    let q = crate::ops::trunc_div(b as int, a as int);
    if b == i64::MIN && a == -1 {
        assert(q == -(b as int));
    } else {
        if a == -1 {
            assert(q == -(b as int));
        } else if a == 1 {
            assert(q == b);
        } else {
            assert(abs(q) <= abs(b as int));
        }
    }
}

/// `em` pushes whether the two top values are equal.
pub proof fn law_em_is_equality(
    d: Map<NodeId, NodeInfo>,
    id: NodeId,
    s: State,
    fuel: nat,
    v1: Value,
    v2: Value,
    rest: Seq<Value>,
)
    requires
        fuel > 0,
        element_name(d, id) == Some("em"@),
        s.stack == seq![v1, v2] + rest,
    ensures
        exec_node(d, id, s, fuel) == stack_becomes(s, fuel, seq![Value::Bool(v1 == v2)] + rest),
{
    lemma_names();
    assert(s.stack.skip(2) =~= rest);
}

/// `dt` pushes a copy of the top value, and `del` drops the top value; on an empty stack
/// both do nothing.
pub proof fn law_dt_copies_and_del_drops(
    d: Map<NodeId, NodeInfo>,
    dt: NodeId,
    del: NodeId,
    s: State,
    fuel: nat,
)
    requires
        fuel > 0,
        element_name(d, dt) == Some("dt"@),
        element_name(d, del) == Some("del"@),
    ensures
        s.stack.len() > 0 ==> exec_node(d, dt, s, fuel) == stack_becomes(
            s,
            fuel,
            seq![s.stack[0]] + s.stack,
        ),
        s.stack.len() > 0 ==> exec_node(d, del, s, fuel) == stack_becomes(
            s,
            fuel,
            s.stack.drop_first(),
        ),
        s.stack.len() == 0 ==> exec_node(d, dt, s, fuel) == stack_becomes(s, fuel, s.stack),
        s.stack.len() == 0 ==> exec_node(d, del, s, fuel) == stack_becomes(s, fuel, s.stack),
{
    lemma_names();
}

/// `output` prints the printed form of the top value and a newline after what was printed
/// before, and leaves the stack as it was; on an empty stack it is an error.
pub proof fn law_output_prints_the_top(d: Map<NodeId, NodeInfo>, id: NodeId, s: State, fuel: nat)
    requires
        fuel > 0,
        element_name(d, id) == Some("output"@),
    ensures
        ({
            let r = exec_node(d, id, s, fuel);
            &&& s.stack.len() > 0 ==> r == Run {
                state: State { out: s.out + display(s.stack[0]) + seq!['\n'], ..s },
                fuel: (fuel - 1) as nat,
                halt: None,
            }
            &&& s.stack.len() == 0 ==> r.halt matches Some(Halt::Error(_))
        }),
{
    lemma_names();
}

/// `data` whose `value` is an integer written in decimal pushes that integer.
pub proof fn law_data_pushes_its_value(
    d: Map<NodeId, NodeInfo>,
    id: NodeId,
    s: State,
    fuel: nat,
    n: i64,
)
    requires
        fuel > 0,
        element_name(d, id) == Some("data"@),
        attribute(d, id, "value"@) == Some(decimal(n as int)),
    ensures
        exec_node(d, id, s, fuel) == stack_becomes(s, fuel, seq![Value::Int(n)] + s.stack),
{
    lemma_names();
    crate::laws::law_decimal_parses_back(n);
}

/// `var` takes the top value from the stack and binds the name in its `title` to it.
pub proof fn law_var_stores_the_top(
    d: Map<NodeId, NodeInfo>,
    id: NodeId,
    s: State,
    fuel: nat,
    name: Seq<char>,
)
    requires
        fuel > 0,
        element_name(d, id) == Some("var"@),
        attribute(d, id, "title"@) == Some(name),
        s.stack.len() > 0,
    ensures
        exec_node(d, id, s, fuel) == (Run {
            state: State {
                stack: s.stack.drop_first(),
                vars: s.vars.insert(name, s.stack[0]),
                ..s
            },
            fuel: (fuel - 1) as nat,
            halt: None,
        }),
{
    lemma_names();
}

/// How values are printed: a string as it is, `null`, `true` and `false` by name, an
/// integer in a form that parses back to it, and an array between `[` and `]` with its
/// printed items separated by `, `, so that adding an item to a non-empty array adds `, `
/// and the printed item before the `]`.
pub proof fn law_printed_forms(t: Seq<char>, b: bool, n: i64, x: Value, xs: Seq<Value>, y: Value)
    ensures
        display(Value::Str(t)) == t,
        display(Value::Null) == "null"@,
        display(Value::Bool(b)) == (if b {
            "true"@
        } else {
            "false"@
        }),
        parse_int(display(Value::Int(n))) == Some(n),
        display(Value::Array(Seq::empty())) == "["@ + "]"@,
        display(Value::Array(seq![x])) == "["@ + display(x) + "]"@,
        xs.len() > 0 ==> display(Value::Array(xs.push(y))) == display(Value::Array(xs)).drop_last()
            + ", "@ + display(y) + "]"@,
{
    crate::laws::law_decimal_parses_back(n);
    let e = Seq::<Value>::empty();
    assert(display_all(e) =~= Seq::<Seq<char>>::empty());
    assert(display_all(seq![x]) =~= seq![display(x)]);
    if xs.len() > 0 {
        let p = display_all(xs);
        let q = display_all(xs.push(y));
        assert(q.drop_last() =~= p);
        assert(q.last() == display(y));
        reveal_strlit("]");
        let inner = join_sep(p, ", "@);
        assert(("["@ + inner + "]"@).drop_last() =~= "["@ + inner);
        assert(display(Value::Array(xs.push(y))) =~= "["@ + (inner + ", "@ + display(y)) + "]"@);
    }
}

/// A link whose `href` is `javascript:` followed by a name (holding neither `:` nor `(`)
/// and `()` is a call: it pushes its next sibling as the return point and moves the cursor
/// to the element whose id is that name. A link with any other `href` moves the cursor to
/// the first element that the `href`, read as a selector, matches, and pushes nothing; where
/// nothing matches, the program cannot go on.
pub proof fn law_link_jumps_and_calls(
    d: Map<NodeId, NodeInfo>,
    id: NodeId,
    s: State,
    fuel: nat,
    href: Seq<char>,
    name: Seq<char>,
)
    requires
        fuel > 1,
        element_name(d, id) == Some("a"@),
        attribute(d, id, "href"@) == Some(href),
        first_child(d, id) is None,
    ensures
        ({
            let r = exec_node(d, id, s, fuel);
            &&& href == "javascript:"@ + name + "()"@ && !name.contains(':') && !name.contains('(')
                ==> match css_first_match(d, seq!['#'] + name) {
                Some(Some(t)) => r == (Run {
                    state: State {
                        cursor: Some(t),
                        call_stack: seq![next_sibling(d, id)] + s.call_stack,
                        ..s
                    },
                    fuel: (fuel - 2) as nat,
                    halt: None,
                }),
                _ => r.halt is Some,
            }
            &&& !starts_with(href, "javascript:"@) ==> match css_first_match(d, href) {
                Some(Some(t)) => r == (Run {
                    state: State { cursor: Some(t), ..s },
                    fuel: (fuel - 1) as nat,
                    halt: None,
                }),
                Some(None) => r.halt == Some(Halt::Fault(crate::ops::Fault::NoJumpTarget)),
                None => r.halt matches Some(Halt::Error(_)),
            }
        }),
{
    lemma_names();
    let p = "javascript:"@;
    reveal_strlit("javascript:");
    reveal_strlit("()");
    if href == p + name + "()"@ && !name.contains(':') && !name.contains('(') {
        let x = name + "()"@;
        assert(href =~= p + x);
        assert(href.take(11) =~= p);
        assert(href.skip(11) =~= x);
        if 0 < p.len() <= x.len() && x.take(11) == p {
            if name.len() > 10 {
                assert(x.take(11)[10] == name[10]);
            } else if name.len() == 10 {
                assert(x.take(11)[10] == '(');
            } else {
                assert(x.take(11)[10] == x[10]);
                assert(x[10] == ')');
            }
            assert(p[10] == ':');
            assert(false);
        }
        assert(p.len() == 11);
        assert(strip_prefixes(x, p) == x);
        assert(strip_prefixes(href, p) == strip_prefixes(href.skip(11), p));
        assert(strip_prefixes(href, p) == x);
        assert(x.skip(x.len() - 2) =~= "()"@);
        assert(x.take(x.len() - 2) =~= name);
        if 0 < 2 <= name.len() && name.skip(name.len() - 2) == "()"@ {
            assert(name.skip(name.len() - 2)[0] == name[name.len() - 2]);
            assert(name.contains('('));
        }
        assert(strip_suffixes(name, "()"@) == name);
        assert(strip_suffixes(x, "()"@) == strip_suffixes(x.take(x.len() - 2), "()"@));
        assert(strip_suffixes(x, "()"@) == name);
        assert(call_selector(href) == seq!['#'] + name);
    }
}

/// `rt` takes the cursor off the program, so that the main loop ends; nothing else changes.
pub proof fn law_rt_ends_the_program(d: Map<NodeId, NodeInfo>, id: NodeId, s: State, fuel: nat)
    requires
        fuel > 0,
        element_name(d, id) == Some("rt"@),
    ensures
        exec_node(d, id, s, fuel) == (Run {
            state: State { cursor: None, ..s },
            fuel: (fuel - 1) as nat,
            halt: None,
        }),
{
    lemma_names();
}

/// `dfn` runs its children as a program of their own, from its first child on, and then
/// returns: the cursor goes to the return point on top of the call stack, which is taken
/// off, and the variables are those from before the call.
pub proof fn law_dfn_runs_its_body_and_returns(
    d: Map<NodeId, NodeInfo>,
    id: NodeId,
    c: NodeId,
    s: State,
    fuel: nat,
)
    requires
        fuel > 0,
        element_name(d, id) == Some("dfn"@),
        first_child(d, id) == Some(c),
    ensures
        ({
            let body = run_loop(d, State { cursor: Some(c), ..s }, (fuel - 1) as nat);
            let r = exec_node(d, id, s, fuel);
            body.halt is None && body.state.call_stack.len() > 0 ==> r == (Run {
                state: State {
                    cursor: body.state.call_stack[0],
                    call_stack: body.state.call_stack.drop_first(),
                    vars: s.vars,
                    ..body.state
                },
                fuel: body.fuel,
                halt: None,
            })
        }),
{
    lemma_names();
}

/// The items of an `ol` are its `li` children: of each, only the first element child runs,
/// and children of the `ol` that are not `li` elements are passed over.
pub proof fn law_list_item_runs_its_first_element(
    d: Map<NodeId, NodeInfo>,
    other: NodeId,
    li: NodeId,
    g: NodeId,
    s: State,
    fuel: nat,
)
    requires
        fuel > 3,
        element_name(d, other) != Some("li"@),
        next_sibling(d, other) == Some(li),
        element_name(d, li) == Some("li"@),
        next_sibling(d, li) is None,
        first_child(d, li) == Some(g),
        element_name(d, g) is Some,
        exec_node(d, g, s, (fuel - 3) as nat).halt is None,
        exec_node(d, g, s, (fuel - 3) as nat).fuel > 0,
    ensures
        ({
            let r = exec_ol_items(d, Some(other), s, fuel);
            &&& r.halt is None
            &&& r.state == exec_node(d, g, s, (fuel - 3) as nat).state
        }),
{
    let r = exec_node(d, g, s, (fuel - 3) as nat);
    assert(exec_li(d, Some(g), s, (fuel - 2) as nat) == r);
    let k = crate::semantics::at_most(r.fuel, (fuel - 2) as nat);
    assert(k > 0);
    assert(exec_ol_items(d, None, r.state, k).state == r.state);
    assert(exec_ol_items(d, None, r.state, k).halt is None);
    assert(exec_ol_items(d, Some(li), s, (fuel - 1) as nat).state == r.state);
}

} // verus!
