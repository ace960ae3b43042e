use vstd::prelude::*;
use ego_tree::NodeId;
use crate::html::{attribute, first_child, next_sibling, element_name, text_content, NodeInfo};
use crate::ops::{apply_op, combine, Halt, StackOp};
use crate::text::{decimal, digits_of, lemma_digits_of, parse_int};
use crate::value::{HtmlValueType, Value};
use vstd::std_specs::cmp::PartialEqSpec;
use crate::semantics::{
    at_most, exec_children, exec_li, exec_node, exec_ol_items, exec_tag, run_loop, tag_of,
    Run, State, Tag,
};

verus! {

/// What every run keeps: it never gains fuel, and what was printed stays printed.
pub open spec fn keeps(s: State, fuel: nat, r: Run) -> bool {
    &&& r.fuel <= fuel
    &&& s.out.is_prefix_of(r.state.out)
}

proof fn lemma_prefix_trans(a: Seq<char>, b: Seq<char>, c: Seq<char>)
    requires
        a.is_prefix_of(b),
        b.is_prefix_of(c),
    ensures
        a.is_prefix_of(c),
{
    assert forall|i: int| 0 <= i < a.len() implies a[i] == c[i] by {
        assert(a[i] == b[i]);
        assert(b[i] == c.subrange(0, b.len() as int)[i]);
    }
    assert(a =~= c.subrange(0, a.len() as int));
}

proof fn lemma_prefix_refl(a: Seq<char>)
    ensures
        a.is_prefix_of(a),
{
    assert(a =~= a.subrange(0, a.len() as int));
}

proof fn lemma_prefix_append(a: Seq<char>, b: Seq<char>)
    ensures
        a.is_prefix_of(a + b),
{
    assert(a =~= (a + b).subrange(0, a.len() as int));
}

/// Running a node never gains fuel and never takes back what was printed.
pub proof fn law_node_keeps(d: Map<NodeId, NodeInfo>, id: NodeId, s: State, fuel: nat)
    ensures
        keeps(s, fuel, exec_node(d, id, s, fuel)),
    decreases fuel, 3nat,
{
    lemma_prefix_refl(s.out);
    if fuel > 0 {
        match element_name(d, id) {
            Some(name) => {
                law_tag_keeps(d, id, tag_of(name), s, (fuel - 1) as nat);
            },
            None => {},
        }
    }
}

/// Running an element never gains fuel and never takes back what was printed.
pub proof fn law_tag_keeps(d: Map<NodeId, NodeInfo>, id: NodeId, tag: Tag, s: State, f: nat)
    ensures
        keeps(s, f, exec_tag(d, id, tag, s, f)),
    decreases f, 2nat,
{
    lemma_prefix_refl(s.out);
    match tag {
        Tag::Output => {
            if s.stack.len() > 0 {
                lemma_prefix_append(s.out, crate::value::display(s.stack[0]) + seq!['\n']);
                assert(s.out + crate::value::display(s.stack[0]) + seq!['\n'] =~= s.out + (
                crate::value::display(s.stack[0]) + seq!['\n']));
            }
        },
        Tag::Ol => {
            law_items_keep(d, first_child(d, id), s, f);
        },
        Tag::I => {
            if s.stack.len() > 0 && s.stack[0] == crate::value::Value::Bool(true) {
                let s1 = State { stack: s.stack.drop_first(), ..s };
                law_children_keep(d, first_child(d, id), s1, f);
            }
        },
        Tag::A => {
            match attribute(d, id, "href"@) {
                Some(href) => {
                    law_children_keep(d, first_child(d, id), s, f);
                },
                None => {},
            }
        },
        Tag::Dfn => {
            match first_child(d, id) {
                Some(c) => {
                    law_loop_keeps(d, State { cursor: Some(c), ..s }, f);
                },
                None => {},
            }
        },
        _ => {},
    }
}

/// Running siblings in turn never gains fuel and never takes back what was printed.
pub proof fn law_children_keep(d: Map<NodeId, NodeInfo>, child: Option<NodeId>, s: State, fuel: nat)
    ensures
        keeps(s, fuel, exec_children(d, child, s, fuel)),
    decreases fuel, 1nat,
{
    lemma_prefix_refl(s.out);
    if fuel > 0 {
        let f = (fuel - 1) as nat;
        match child {
            Some(c) => {
                law_node_keeps(d, c, s, f);
                let r = exec_node(d, c, s, f);
                if r.halt is None {
                    law_children_keep(d, next_sibling(d, c), r.state, at_most(r.fuel, f));
                    lemma_prefix_trans(
                        s.out,
                        r.state.out,
                        exec_children(d, next_sibling(d, c), r.state, at_most(r.fuel, f)).state.out,
                    );
                }
            },
            None => {},
        }
    }
}

/// Running list items never gains fuel and never takes back what was printed.
pub proof fn law_items_keep(d: Map<NodeId, NodeInfo>, child: Option<NodeId>, s: State, fuel: nat)
    ensures
        keeps(s, fuel, exec_ol_items(d, child, s, fuel)),
    decreases fuel, 1nat,
{
    lemma_prefix_refl(s.out);
    if fuel > 0 {
        let f = (fuel - 1) as nat;
        match child {
            Some(c) => {
                if element_name(d, c) == Some("li"@) {
                    law_li_keeps(d, first_child(d, c), s, f);
                    let r = exec_li(d, first_child(d, c), s, f);
                    if r.halt is None {
                        law_items_keep(d, next_sibling(d, c), r.state, at_most(r.fuel, f));
                        lemma_prefix_trans(
                            s.out,
                            r.state.out,
                            exec_ol_items(
                                d,
                                next_sibling(d, c),
                                r.state,
                                at_most(r.fuel, f),
                            ).state.out,
                        );
                    }
                } else {
                    law_items_keep(d, next_sibling(d, c), s, f);
                }
            },
            None => {},
        }
    }
}

/// Running the first element of a list item never gains fuel and never takes back what was printed.
pub proof fn law_li_keeps(d: Map<NodeId, NodeInfo>, child: Option<NodeId>, s: State, fuel: nat)
    ensures
        keeps(s, fuel, exec_li(d, child, s, fuel)),
    decreases fuel, 1nat,
{
    lemma_prefix_refl(s.out);
    if fuel > 0 {
        let f = (fuel - 1) as nat;
        match child {
            Some(g) => {
                if element_name(d, g) is Some {
                    law_node_keeps(d, g, s, f);
                } else {
                    law_li_keeps(d, next_sibling(d, g), s, f);
                }
            },
            None => {},
        }
    }
}

/// The main loop never gains fuel and never takes back what was printed.
pub proof fn law_loop_keeps(d: Map<NodeId, NodeInfo>, s: State, fuel: nat)
    ensures
        keeps(s, fuel, run_loop(d, s, fuel)),
    decreases fuel, 1nat,
{
    lemma_prefix_refl(s.out);
    if fuel > 0 {
        let f = (fuel - 1) as nat;
        match s.cursor {
            Some(c) => {
                if d.contains_key(c) {
                    match next_sibling(d, c) {
                        Some(n) => {
                            let s1 = State { cursor: Some(n), ..s };
                            law_node_keeps(d, c, s1, f);
                            let r = exec_node(d, c, s1, f);
                            if r.halt is None {
                                law_loop_keeps(d, r.state, at_most(r.fuel, f));
                                lemma_prefix_trans(
                                    s.out,
                                    r.state.out,
                                    run_loop(d, r.state, at_most(r.fuel, f)).state.out,
                                );
                            }
                        },
                        None => {},
                    }
                }
            },
            None => {},
        }
    }
}

/// Whether a run got to its end or stopped for a reason other than fuel.
pub open spec fn finished(r: Run) -> bool {
    !(r.halt matches Some(Halt::OutOfFuel))
}

/// The same run with `k` more units of fuel left at its end.
pub open spec fn with_more(r: Run, k: nat) -> Run {
    Run { fuel: r.fuel + k, ..r }
}

/// A node run that does not run out of fuel gives the same result with more fuel.
pub proof fn law_node_more_fuel(d: Map<NodeId, NodeInfo>, id: NodeId, s: State, fuel: nat, k: nat)
    requires
        finished(exec_node(d, id, s, fuel)),
    ensures
        exec_node(d, id, s, fuel + k) == with_more(exec_node(d, id, s, fuel), k),
    decreases fuel, 3nat,
{
    if fuel > 0 {
        match element_name(d, id) {
            Some(name) => {
                assert((fuel + k - 1) as nat == (fuel - 1) as nat + k);
                law_tag_more_fuel(d, id, tag_of(name), s, (fuel - 1) as nat, k);
            },
            None => {},
        }
    }
}

/// An element run that does not run out of fuel gives the same result with more fuel.
pub proof fn law_tag_more_fuel(d: Map<NodeId, NodeInfo>, id: NodeId, tag: Tag, s: State, f: nat, k: nat)
    requires
        finished(exec_tag(d, id, tag, s, f)),
    ensures
        exec_tag(d, id, tag, s, f + k) == with_more(exec_tag(d, id, tag, s, f), k),
    decreases f, 2nat,
{
    match tag {
        Tag::Ol => {
            law_items_more_fuel(d, first_child(d, id), s, f, k);
        },
        Tag::I => {
            if s.stack.len() > 0 && s.stack[0] == crate::value::Value::Bool(true) {
                let s1 = State { stack: s.stack.drop_first(), ..s };
                law_children_more_fuel(d, first_child(d, id), s1, f, k);
            }
        },
        Tag::A => {
            match attribute(d, id, "href"@) {
                Some(href) => {
                    if crate::semantics::starts_with(href, "javascript:"@) {
                        law_children_more_fuel(d, first_child(d, id), s, f, k);
                    }
                },
                None => {},
            }
        },
        Tag::Dfn => {
            match first_child(d, id) {
                Some(c) => {
                    law_loop_more_fuel(d, State { cursor: Some(c), ..s }, f, k);
                },
                None => {},
            }
        },
        _ => {},
    }
}

/// Running siblings without running out of fuel gives the same result with more fuel.
pub proof fn law_children_more_fuel(
    d: Map<NodeId, NodeInfo>,
    child: Option<NodeId>,
    s: State,
    fuel: nat,
    k: nat,
)
    requires
        finished(exec_children(d, child, s, fuel)),
    ensures
        exec_children(d, child, s, fuel + k) == with_more(exec_children(d, child, s, fuel), k),
    decreases fuel, 1nat,
{
    if fuel > 0 {
        let f = (fuel - 1) as nat;
        assert((fuel + k - 1) as nat == f + k);
        match child {
            Some(c) => {
                let r = exec_node(d, c, s, f);
                law_node_keeps(d, c, s, f);
                law_node_more_fuel(d, c, s, f, k);
                if r.halt is None {
                    law_children_more_fuel(d, next_sibling(d, c), r.state, r.fuel, k);
                }
            },
            None => {},
        }
    }
}

/// Running list items without running out of fuel gives the same result with more fuel.
pub proof fn law_items_more_fuel(
    d: Map<NodeId, NodeInfo>,
    child: Option<NodeId>,
    s: State,
    fuel: nat,
    k: nat,
)
    requires
        finished(exec_ol_items(d, child, s, fuel)),
    ensures
        exec_ol_items(d, child, s, fuel + k) == with_more(exec_ol_items(d, child, s, fuel), k),
    decreases fuel, 1nat,
{
    if fuel > 0 {
        let f = (fuel - 1) as nat;
        assert((fuel + k - 1) as nat == f + k);
        match child {
            Some(c) => {
                if element_name(d, c) == Some("li"@) {
                    let r = exec_li(d, first_child(d, c), s, f);
                    law_li_keeps(d, first_child(d, c), s, f);
                    law_li_more_fuel(d, first_child(d, c), s, f, k);
                    if r.halt is None {
                        law_items_more_fuel(d, next_sibling(d, c), r.state, r.fuel, k);
                    }
                } else {
                    law_items_more_fuel(d, next_sibling(d, c), s, f, k);
                }
            },
            None => {},
        }
    }
}

/// Running a list item without running out of fuel gives the same result with more fuel.
pub proof fn law_li_more_fuel(
    d: Map<NodeId, NodeInfo>,
    child: Option<NodeId>,
    s: State,
    fuel: nat,
    k: nat,
)
    requires
        finished(exec_li(d, child, s, fuel)),
    ensures
        exec_li(d, child, s, fuel + k) == with_more(exec_li(d, child, s, fuel), k),
    decreases fuel, 1nat,
{
    if fuel > 0 {
        let f = (fuel - 1) as nat;
        assert((fuel + k - 1) as nat == f + k);
        match child {
            Some(g) => {
                if element_name(d, g) is Some {
                    law_node_more_fuel(d, g, s, f, k);
                } else {
                    law_li_more_fuel(d, next_sibling(d, g), s, f, k);
                }
            },
            None => {},
        }
    }
}

/// A main loop that does not run out of fuel gives the same result with more fuel.
pub proof fn law_loop_more_fuel(d: Map<NodeId, NodeInfo>, s: State, fuel: nat, k: nat)
    requires
        finished(run_loop(d, s, fuel)),
    ensures
        run_loop(d, s, fuel + k) == with_more(run_loop(d, s, fuel), k),
    decreases fuel, 1nat,
{
    if fuel > 0 {
        let f = (fuel - 1) as nat;
        assert((fuel + k - 1) as nat == f + k);
        match s.cursor {
            Some(c) => {
                if d.contains_key(c) {
                    match next_sibling(d, c) {
                        Some(n) => {
                            let s1 = State { cursor: Some(n), ..s };
                            let r = exec_node(d, c, s1, f);
                            law_node_keeps(d, c, s1, f);
                            law_node_more_fuel(d, c, s1, f, k);
                            if r.halt is None {
                                law_loop_more_fuel(d, r.state, r.fuel, k);
                            }
                        },
                        None => {},
                    }
                }
            },
            None => {},
        }
    }
}

/// An integer printed in decimal parses back to itself: `data` reads what `output` writes.
pub proof fn law_decimal_parses_back(n: i64)
    ensures
        parse_int(decimal(n as int)) == Some(n),
{
    if n < 0 {
        let m = (-(n as int)) as nat;
        lemma_digits_of(m);
        let s = decimal(n as int);
        assert(s.skip(1) =~= digits_of(m));
    } else {
        lemma_digits_of(n as nat);
        let s = digits_of(n as nat);
        assert(crate::text::is_digit(s[0]));
    }
}

/// A call (`dfn`) leaves the variables as they were: what its body binds stays inside it.
pub proof fn law_call_keeps_variables(d: Map<NodeId, NodeInfo>, id: NodeId, s: State, f: nat)
    ensures
        exec_tag(d, id, Tag::Dfn, s, f).state.vars == s.vars,
{
}

/// A value stored by `var` under a name is what a later `cite` of that name pushes,
/// unless the name is `true`, `false` or `null`.
pub proof fn law_variable_reads_back(
    d: Map<NodeId, NodeInfo>,
    store: NodeId,
    read: NodeId,
    text: NodeId,
    s: State,
    f: nat,
    g: nat,
    name: Seq<char>,
)
    requires
        s.stack.len() > 0,
        attribute(d, store, "title"@) == Some(name),
        first_child(d, read) == Some(text),
        text_content(d, text) == Some(name),
        name != "true"@,
        name != "false"@,
        name != "null"@,
    ensures
        ({
            let r1 = exec_tag(d, store, Tag::Var, s, f);
            let r2 = exec_tag(d, read, Tag::Cite, r1.state, g);
            &&& r1.halt is None
            &&& r2.halt is None
            &&& r2.state.stack == seq![s.stack[0]] + s.stack.drop_first()
        }),
{
}

/// `dt` then `del` leaves the stack as it was.
pub proof fn law_copy_then_drop(stack: Seq<Value>)
    ensures
        apply_op(StackOp::Del, apply_op(StackOp::Dt, stack).0) == (stack, None::<Halt>),
{
    if stack.len() > 0 {
        assert((seq![stack[0]] + stack).drop_first() =~= stack);
    }
}

/// `dt` then `em` replaces the top value by `true`: every value equals its copy.
pub proof fn law_copy_is_equal(stack: Seq<Value>)
    requires
        stack.len() > 0,
    ensures
        apply_op(StackOp::Em, apply_op(StackOp::Dt, stack).0) == (
            seq![Value::Bool(true)] + stack.drop_first(),
            None::<Halt>,
        ),
{
    let t = seq![stack[0]] + stack;
    assert(t.skip(2) =~= stack.drop_first());
}

/// `em` is symmetric: swapping the two top values does not change its answer.
pub proof fn law_equality_symmetric(a: Value, b: Value)
    ensures
        combine(StackOp::Em, a, b) == combine(StackOp::Em, b, a),
{
}

/// The `==` of values is an equivalence: reflexive, symmetric and transitive.
pub proof fn law_value_equality_is_equivalence(a: HtmlValueType, b: HtmlValueType, c: HtmlValueType)
    ensures
        a.eq_spec(&a),
        a.eq_spec(&b) == b.eq_spec(&a),
        a.eq_spec(&b) && b.eq_spec(&c) ==> a.eq_spec(&c),
{
}

/// The main loop ends at a node without a next sibling, without running it.
pub proof fn law_last_node_not_run(d: Map<NodeId, NodeInfo>, s: State, fuel: nat)
    requires
        fuel > 0,
        s.cursor matches Some(c) && next_sibling(d, c) is None,
    ensures
        run_loop(d, s, fuel) == crate::semantics::go(s, (fuel - 1) as nat),
{
}

/// `rt` ends the main loop: it stops at its next round with nothing more run.
pub proof fn law_return_ends_loop(d: Map<NodeId, NodeInfo>, id: NodeId, s: State, f: nat, fuel: nat)
    requires
        fuel > 0,
    ensures
        ({
            let r = exec_tag(d, id, Tag::Rt, s, f);
            &&& r.halt is None
            &&& run_loop(d, r.state, fuel) == crate::semantics::go(r.state, (fuel - 1) as nat)
        }),
{
}

/// The answer to a request does not depend on the fuel, once the fuel suffices: an answer
/// other than `OutOfFuel` stays the same with more fuel.
pub proof fn law_answer_more_fuel(source: Seq<char>, fuel: nat, k: nat)
    requires
        !(crate::program::answer(source, fuel) is OutOfFuel),
    ensures
        crate::program::answer(source, fuel + k) == crate::program::answer(source, fuel),
{
    let d = crate::html::fragment_nodes(source);
    match crate::html::css_first_match(d, "main"@) {
        Some(Some(m)) => match first_child(d, m) {
            Some(c) => {
                law_loop_more_fuel(d, crate::program::start_state(c), fuel, k);
            },
            None => {},
        },
        _ => {},
    }
}

/// One round of the main loop: at a node of the document that has a next sibling, the loop
/// moves the cursor to that sibling, runs the node, and goes on from the state the node left,
/// unless the node stopped the run.
pub proof fn law_loop_step(d: Map<NodeId, NodeInfo>, s: State, fuel: nat, c: NodeId, n: NodeId)
    requires
        fuel > 0,
        s.cursor == Some(c),
        d.contains_key(c),
        next_sibling(d, c) == Some(n),
    ensures
        ({
            let r = exec_node(d, c, State { cursor: Some(n), ..s }, (fuel - 1) as nat);
            run_loop(d, s, fuel) == if r.halt is Some {
                r
            } else {
                run_loop(d, r.state, r.fuel)
            }
        }),
{
    law_node_keeps(d, c, State { cursor: Some(n), ..s }, (fuel - 1) as nat);
}

proof fn lemma_var_and_cite_tags()
    ensures
        tag_of("var"@) == Tag::Var,
        tag_of("cite"@) == Tag::Cite,
{
    reveal_strlit("s");
    assert("s"@ =~= seq!['s']);
    reveal_strlit("data");
    assert("data"@ =~= seq!['d', 'a', 't', 'a']);
    reveal_strlit("ol");
    assert("ol"@ =~= seq!['o', 'l']);
    reveal_strlit("cite");
    assert("cite"@ =~= seq!['c', 'i', 't', 'e']);
    reveal_strlit("output");
    assert("output"@ =~= seq!['o', 'u', 't', 'p', 'u', 't']);
    reveal_strlit("dt");
    assert("dt"@ =~= seq!['d', 't']);
    reveal_strlit("del");
    assert("del"@ =~= seq!['d', 'e', 'l']);
    reveal_strlit("small");
    assert("small"@ =~= seq!['s', 'm', 'a', 'l', 'l']);
    reveal_strlit("big");
    assert("big"@ =~= seq!['b', 'i', 'g']);
    reveal_strlit("em");
    assert("em"@ =~= seq!['e', 'm']);
    reveal_strlit("dd");
    assert("dd"@ =~= seq!['d', 'd']);
    reveal_strlit("sub");
    assert("sub"@ =~= seq!['s', 'u', 'b']);
    reveal_strlit("ul");
    assert("ul"@ =~= seq!['u', 'l']);
    reveal_strlit("div");
    assert("div"@ =~= seq!['d', 'i', 'v']);
    reveal_strlit("b");
    assert("b"@ =~= seq!['b']);
    reveal_strlit("bdo");
    assert("bdo"@ =~= seq!['b', 'd', 'o']);
    reveal_strlit("dbi");
    assert("dbi"@ =~= seq!['d', 'b', 'i']);
    reveal_strlit("i");
    assert("i"@ =~= seq!['i']);
    reveal_strlit("a");
    assert("a"@ =~= seq!['a']);
    reveal_strlit("rt");
    assert("rt"@ =~= seq!['r', 't']);
    reveal_strlit("var");
    assert("var"@ =~= seq!['v', 'a', 'r']);
}

/// A `var` element titled `name` followed by a `cite` element whose text is `name` (not
/// `true`, `false` or `null`) puts back on the stack the value that `var` took from it, binds
/// `name` to that value, and leaves the cursor, the call stack and the output as they were.
/// This holds whenever the two runs have at least one unit of fuel each.
pub proof fn law_store_then_read(
    d: Map<NodeId, NodeInfo>,
    store: NodeId,
    read: NodeId,
    text: NodeId,
    s: State,
    f: nat,
    g: nat,
    name: Seq<char>,
)
    requires
        f > 0,
        g > 0,
        s.stack.len() > 0,
        element_name(d, store) == Some("var"@),
        attribute(d, store, "title"@) == Some(name),
        element_name(d, read) == Some("cite"@),
        first_child(d, read) == Some(text),
        text_content(d, text) == Some(name),
        name != "true"@,
        name != "false"@,
        name != "null"@,
    ensures
        ({
            let r1 = exec_node(d, store, s, f);
            let r2 = exec_node(d, read, r1.state, g);
            &&& r1.halt is None
            &&& r2.halt is None
            &&& r2.state.stack == s.stack
            &&& r2.state.vars == s.vars.insert(name, s.stack[0])
            &&& r2.state.cursor == s.cursor
            &&& r2.state.call_stack == s.call_stack
            &&& r2.state.out == s.out
        }),
{
    lemma_var_and_cite_tags();
    assert(seq![s.stack[0]] + s.stack.drop_first() =~= s.stack);
}

} // verus!
