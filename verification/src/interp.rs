use vstd::prelude::*;
use std::collections::VecDeque;
use ego_tree::NodeId;
use scraper::Html;
use crate::html::{
    css_first_match,
    attribute_of, element_name_of, first_child_of, has_node, html_nodes, next_sibling_of,
    select_first, text_of,
};
use crate::ops::{apply_stack_op, halt_of, Fault, Halt, Stop};
use crate::semantics::{
    call_selector, exec_children, exec_li, exec_node, exec_ol_items, exec_tag, run_loop,
    reaches_fault, strip_prefixes, strip_suffixes, tag_of, Run, State, Tag,
};
use crate::text::{chars_of, owned, parse_i64, push_char, push_str, string_of};
use crate::value::{lemma_model_array, lemma_models_cons, lemma_models_tail, models, HtmlValueType};
use crate::vars::VarContext;

verus! {

/// Whether two character sequences are equal.
fn chars_equal(a: &Vec<char>, b: &Vec<char>) -> (r: bool)
    ensures
        r == (a@ == b@),
{
    if a.len() != b.len() {
        return false;
    }
    let mut i: usize = 0;
    while i < a.len()
        invariant
            i <= a.len(),
            a.len() == b.len(),
            forall|j: int| 0 <= j < i ==> a@[j] == b@[j],
        decreases a.len() - i,
    {
        if a[i] != b[i] {
            return false;
        }
        i = i + 1;
    }
    assert(a@ =~= b@);
    true
}

/// Whether the characters `v` spell the text `lit`.
fn spells(v: &Vec<char>, lit: &str) -> (r: bool)
    ensures
        r == (v@ == lit@),
{
    let w = chars_of(lit);
    chars_equal(v, &w)
}

/// The instruction that an element name stands for.
pub fn decode_tag(name: &str) -> (t: Tag)
    ensures
        t == tag_of(name@),
{
    let v = chars_of(name);
    if spells(&v, "s") {
        Tag::S
    } else if spells(&v, "data") {
        Tag::Data
    } else if spells(&v, "ol") {
        Tag::Ol
    } else if spells(&v, "cite") {
        Tag::Cite
    } else if spells(&v, "output") {
        Tag::Output
    } else if spells(&v, "dt") {
        Tag::Op(crate::ops::StackOp::Dt)
    } else if spells(&v, "del") {
        Tag::Op(crate::ops::StackOp::Del)
    } else if spells(&v, "small") {
        Tag::Op(crate::ops::StackOp::Small)
    } else if spells(&v, "big") {
        Tag::Op(crate::ops::StackOp::Big)
    } else if spells(&v, "em") {
        Tag::Op(crate::ops::StackOp::Em)
    } else if spells(&v, "dd") {
        Tag::Op(crate::ops::StackOp::Dd)
    } else if spells(&v, "sub") {
        Tag::Op(crate::ops::StackOp::Sub)
    } else if spells(&v, "ul") {
        Tag::Op(crate::ops::StackOp::Ul)
    } else if spells(&v, "div") {
        Tag::Op(crate::ops::StackOp::Div)
    } else if spells(&v, "b") {
        Tag::Op(crate::ops::StackOp::B)
    } else if spells(&v, "bdo") {
        Tag::Op(crate::ops::StackOp::Bdo)
    } else if spells(&v, "dbi") {
        Tag::Op(crate::ops::StackOp::Dbi)
    } else if spells(&v, "i") {
        Tag::I
    } else if spells(&v, "a") {
        Tag::A
    } else if spells(&v, "rt") {
        Tag::Rt
    } else if spells(&v, "var") {
        Tag::Var
    } else if spells(&v, "dfn") {
        Tag::Dfn
    } else {
        Tag::Unknown
    }
}

/// Whether `p` occurs in `s` at index `i`.
fn occurs_at(s: &Vec<char>, i: usize, p: &Vec<char>) -> (r: bool)
    requires
        i + p.len() <= s.len(),
    ensures
        r == (s@.subrange(i as int, i + p.len()) == p@),
{
    let mut k: usize = 0;
    while k < p.len()
        invariant
            k <= p.len(),
            i + p.len() <= s.len(),
            forall|j: int| 0 <= j < k ==> s@[i + j] == p@[j],
        decreases p.len() - k,
    {
        if s[i + k] != p[k] {
            assert(s@.subrange(i as int, i + p.len())[k as int] != p@[k as int]);
            return false;
        }
        k = k + 1;
    }
    assert(s@.subrange(i as int, i + p.len()) =~= p@);
    true
}

/// The characters of `s` from index `a` up to index `b`.
fn slice_of(s: &Vec<char>, a: usize, b: usize) -> (r: Vec<char>)
    requires
        a <= b <= s.len(),
    ensures
        r@ == s@.subrange(a as int, b as int),
{
    let mut r: Vec<char> = Vec::new();
    let mut i: usize = a;
    while i < b
        invariant
            a <= i <= b <= s.len(),
            r@ == s@.subrange(a as int, i as int),
        decreases b - i,
    {
        r.push(s[i]);
        i = i + 1;
        assert(r@ =~= s@.subrange(a as int, i as int));
    }
    r
}

/// `s` without all leading copies of `p`.
fn strip_leading(s: &Vec<char>, p: &Vec<char>) -> (r: Vec<char>)
    ensures
        r@ == strip_prefixes(s@, p@),
{
    let mut i: usize = 0;
    let mut more = true;
    assert(s@.skip(0) =~= s@);
    while more
        invariant
            i <= s.len(),
            strip_prefixes(s@, p@) == strip_prefixes(s@.skip(i as int), p@),
            !more ==> strip_prefixes(s@.skip(i as int), p@) == s@.skip(i as int),
        decreases s.len() - i + (if more { 1int } else { 0int }),
    {
        if p.len() > 0 && p.len() <= s.len() - i && occurs_at(s, i, p) {
            let ghost rest = s@.skip(i as int);
            assert(rest.take(p.len() as int) =~= s@.subrange(i as int, i + p.len()));
            assert(rest.skip(p.len() as int) =~= s@.skip(i + p.len()));
            i = i + p.len();
        } else {
            proof {
                let rest = s@.skip(i as int);
                if 0 < p.len() <= rest.len() {
                    assert(rest.take(p.len() as int) =~= s@.subrange(i as int, i + p.len()));
                }
            }
            more = false;
        }
    }
    slice_of(s, i, s.len())
}

/// `s` without all trailing copies of `p`.
fn strip_trailing(s: &Vec<char>, p: &Vec<char>) -> (r: Vec<char>)
    ensures
        r@ == strip_suffixes(s@, p@),
{
    let mut j: usize = s.len();
    let mut more = true;
    assert(s@.take(s.len() as int) =~= s@);
    while more
        invariant
            j <= s.len(),
            strip_suffixes(s@, p@) == strip_suffixes(s@.take(j as int), p@),
            !more ==> strip_suffixes(s@.take(j as int), p@) == s@.take(j as int),
        decreases j + (if more { 1int } else { 0int }),
    {
        if p.len() > 0 && p.len() <= j && occurs_at(s, j - p.len(), p) {
            let ghost head = s@.take(j as int);
            assert(head.skip(head.len() - p.len()) =~= s@.subrange(j - p.len(), j as int));
            assert(head.take(head.len() - p.len()) =~= s@.take(j - p.len()));
            j = j - p.len();
        } else {
            proof {
                let head = s@.take(j as int);
                if 0 < p.len() <= head.len() {
                    assert(head.skip(head.len() - p.len()) =~= s@.subrange(j - p.len(), j as int));
                }
            }
            more = false;
        }
    }
    slice_of(s, 0, j)
}

/// The selector that a `javascript:` link jumps to.
fn call_selector_of(href: &Vec<char>) -> (r: String)
    ensures
        r@ == call_selector(href@),
{
    let prefix = chars_of("javascript:");
    let suffix = chars_of("()");
    let name = strip_trailing(&strip_leading(href, &prefix), &suffix);
    let mut r = String::new();
    push_char(&mut r, '#');
    let tail = string_of(&name);
    push_str(&mut r, tail.as_str());
    assert(r@ =~= call_selector(href@));
    r
}

/// The state of a run that these variables hold.
pub open spec fn state_of(
    cursor: Option<NodeId>,
    stack: VecDeque<HtmlValueType>,
    call_stack: VecDeque<Option<NodeId>>,
    vars: VarContext,
    out: String,
) -> State {
    State { cursor, stack: models(stack@), call_stack: call_stack@, vars: vars@, out: out@ }
}

/// Whether a run ended in the state that these variables hold, with this fuel and this result.
pub open spec fn ends_as(
    run: Run,
    cursor: Option<NodeId>,
    stack: VecDeque<HtmlValueType>,
    call_stack: VecDeque<Option<NodeId>>,
    vars: VarContext,
    out: String,
    fuel: u64,
    r: Result<(), Stop>,
) -> bool {
    &&& run.state == state_of(cursor, stack, call_stack, vars, out)
    &&& run.fuel == fuel as nat
    &&& run.halt == halt_of(r)
}

/// Runs the node `node` of `document`, on any input: as `exec_html_instructions` does, and
/// where the run reaches a fault, it stops there with `Stop::Fault`.
pub fn run_node(
    document: &Html,
    cursor_node: &mut Option<NodeId>,
    node: NodeId,
    stack: &mut VecDeque<HtmlValueType>,
    cursors_stack: &mut VecDeque<Option<NodeId>>,
    vars_context: &mut VarContext,
    stdout: &mut String,
    fuel: &mut u64,
) -> (r: Result<(), Stop>)
    ensures
        ends_as(
            exec_node(
                html_nodes(*document),
                node,
                state_of(
                    *old(cursor_node),
                    *old(stack),
                    *old(cursors_stack),
                    *old(vars_context),
                    *old(stdout),
                ),
                *old(fuel) as nat,
            ),
            *final(cursor_node),
            *final(stack),
            *final(cursors_stack),
            *final(vars_context),
            *final(stdout),
            *final(fuel),
            r,
        ),
        *final(fuel) <= *old(fuel),
    decreases *old(fuel), 3nat,
{
    if *fuel == 0 {
        return Err(Stop::OutOfFuel);
    }
    *fuel = *fuel - 1;
    match element_name_of(document, node) {
        None => Ok(()),
        Some(name) => {
            let tag = decode_tag(name.as_str());
            exec_element(
                document,
                cursor_node,
                node,
                tag,
                stack,
                cursors_stack,
                vars_context,
                stdout,
                fuel,
            )
        },
    }
}

/// Runs the element `node`, which stands for `tag`.
fn exec_element(
    document: &Html,
    cursor_node: &mut Option<NodeId>,
    node: NodeId,
    tag: Tag,
    stack: &mut VecDeque<HtmlValueType>,
    cursors_stack: &mut VecDeque<Option<NodeId>>,
    vars_context: &mut VarContext,
    stdout: &mut String,
    fuel: &mut u64,
) -> (r: Result<(), Stop>)
    ensures
        ends_as(
            exec_tag(
                html_nodes(*document),
                node,
                tag,
                state_of(
                    *old(cursor_node),
                    *old(stack),
                    *old(cursors_stack),
                    *old(vars_context),
                    *old(stdout),
                ),
                *old(fuel) as nat,
            ),
            *final(cursor_node),
            *final(stack),
            *final(cursors_stack),
            *final(vars_context),
            *final(stdout),
            *final(fuel),
            r,
        ),
        *final(fuel) <= *old(fuel),
    decreases *old(fuel), 2nat,
{
    let ghost s0 = old(stack)@;
    match tag {
        Tag::S => match first_child_of(document, node) {
            None => {
                let v = HtmlValueType::Str(String::new());
                proof {
                    lemma_models_cons(v, s0);
                }
                stack.push_front(v);
                Ok(())
            },
            Some(c) => match text_of(document, c) {
                Some(t) => {
                    let v = HtmlValueType::Str(t);
                    proof {
                        lemma_models_cons(v, s0);
                    }
                    stack.push_front(v);
                    Ok(())
                },
                None => Err(Stop::Error(owned("The `s` tag child must be plain text"))),
            },
        },
        Tag::Data => match attribute_of(document, node, "value") {
            None => Err(Stop::Error(owned("The data must have the `value` attribute"))),
            Some(text) => match parse_i64(text.as_str()) {
                Some(n) => {
                    let v = HtmlValueType::Int(n);
                    proof {
                        lemma_models_cons(v, s0);
                    }
                    stack.push_front(v);
                    Ok(())
                },
                None => Err(
                    Stop::Error(owned("The `value` attribute must containt a valid integer")),
                ),
            },
        },
        Tag::Cite => match first_child_of(document, node) {
            None => Err(Stop::Error(owned("The `cite` tag child must be boolean or null"))),
            Some(c) => match text_of(document, c) {
                None => Err(Stop::Error(owned("The `cite` tag child must be boolean or null"))),
                Some(t) => {
                    let tv = chars_of(t.as_str());
                    let v = if spells(&tv, "true") {
                        HtmlValueType::Bool(true)
                    } else if spells(&tv, "false") {
                        HtmlValueType::Bool(false)
                    } else if spells(&tv, "null") {
                        HtmlValueType::Null
                    } else {
                        match vars_context.lookup(&t) {
                            Some(x) => x,
                            None => HtmlValueType::Null,
                        }
                    };
                    proof {
                        lemma_models_cons(v, s0);
                    }
                    stack.push_front(v);
                    Ok(())
                },
            },
        },
        Tag::Output => {
            if stack.len() == 0 {
                Err(Stop::Error(owned("Attemp to peek an empty stack from `output` tag")))
            } else {
                proof {
                    lemma_models_tail(s0);
                }
                let ghost out0 = stdout@;
                stack[0].display_into(stdout);
                push_char(stdout, '\n');
                assert(stdout@ =~= out0 + crate::value::display(models(s0)[0]) + seq!['\n']);
                Ok(())
            }
        },
        Tag::Op(op) => apply_stack_op(op, stack),
        Tag::Ol => {
            let before = stack.len();
            let first = first_child_of(document, node);
            exec_items(
                document,
                cursor_node,
                first,
                stack,
                cursors_stack,
                vars_context,
                stdout,
                fuel,
            )?;
            if stack.len() < before {
                return Err(Stop::Fault(Fault::ListShrankStack));
            }
            let n = stack.len() - before;
            if n > 0 {
                let ghost s1 = stack@;
                let mut items: Vec<HtmlValueType> = Vec::new();
                let mut k: usize = 0;
                while k < n
                    invariant
                        k <= n <= s1.len(),
                        items@ == s1.take(k as int).reverse(),
                        stack@ == s1.skip(k as int),
                    decreases n - k,
                {
                    let x = stack.pop_front();
                    assert(s1.skip(k as int).subrange(1, s1.len() - k) =~= s1.skip(k + 1));
                    match x {
                        Some(x) => {
                            items.insert(0, x);
                        },
                        None => {},
                    }
                    k = k + 1;
                    assert(items@ =~= s1.take(k as int).reverse());
                }
                proof {
                    lemma_model_array(items);
                    assert(models(items@) =~= models(s1).take(n as int).reverse());
                    assert(models(s1.skip(n as int)) =~= models(s1).skip(n as int));
                }
                let v = HtmlValueType::Array(items);
                proof {
                    lemma_models_cons(v, stack@);
                }
                stack.push_front(v);
            }
            Ok(())
        },
        Tag::I => {
            let top = stack.pop_front();
            proof {
                if s0.len() > 0 {
                    lemma_models_tail(s0);
                }
            }
            match top {
                Some(HtmlValueType::Bool(true)) => {
                    let first = first_child_of(document, node);
                    exec_siblings(
                        document,
                        cursor_node,
                        first,
                        stack,
                        cursors_stack,
                        vars_context,
                        stdout,
                        fuel,
                    )
                },
                Some(x) => {
                    proof {
                        match x {
                            HtmlValueType::Array(v) => lemma_model_array(v),
                            _ => {},
                        }
                    }
                    Ok(())
                },
                None => Ok(()),
            }
        },
        Tag::A => match attribute_of(document, node, "href") {
            None => Err(Stop::Error(String::new())),
            Some(href) => {
                let hv = chars_of(href.as_str());
                let prefix = chars_of("javascript:");
                let is_call = prefix.len() <= hv.len() && occurs_at(&hv, 0, &prefix);
                proof {
                    if prefix.len() <= hv.len() {
                        assert(hv@.take(prefix.len() as int) =~= hv@.subrange(0, prefix.len() as int));
                    }
                }
                if is_call {
                    let first = first_child_of(document, node);
                    exec_siblings(
                        document,
                        cursor_node,
                        first,
                        stack,
                        cursors_stack,
                        vars_context,
                        stdout,
                        fuel,
                    )?;
                    let next = next_sibling_of(document, node);
                    cursors_stack.push_front(next);
                    let target = call_selector_of(&hv);
                    jump_to(document, cursor_node, target.as_str())
                } else {
                    jump_to(document, cursor_node, href.as_str())
                }
            },
        },
        Tag::Rt => {
            *cursor_node = None;
            Ok(())
        },
        Tag::Var => match stack.pop_front() {
            None => Err(Stop::Fault(Fault::AssignFromEmptyStack)),
            Some(value) => {
                proof {
                    lemma_models_tail(s0);
                }
                match attribute_of(document, node, "title") {
                    None => Err(Stop::Error(String::new())),
                    Some(title) => {
                        vars_context.insert(title, value);
                        Ok(())
                    },
                }
            },
        },
        Tag::Dfn => match first_child_of(document, node) {
            None => Err(Stop::Fault(Fault::CallWithoutBody)),
            Some(c) => {
                *cursor_node = Some(c);
                let return_point: Option<Option<NodeId>> = if cursors_stack.len() > 0 {
                    Some(cursors_stack[0])
                } else {
                    None
                };
                let mut scope = vars_context.duplicate();
                run_main_loop(
                    document,
                    cursor_node,
                    stack,
                    cursors_stack,
                    &mut scope,
                    stdout,
                    fuel,
                )?;
                match cursors_stack.pop_front() {
                    Some(v) => {
                        *cursor_node = v;
                        Ok(())
                    },
                    None => match return_point {
                        Some(v) => {
                            *cursor_node = v;
                            Ok(())
                        },
                        None => Err(Stop::Error(owned("NO RETURN POINT"))),
                    },
                }
            },
        },
        Tag::Unknown => Ok(()),
    }
}

/// Runs the node `child` and its next siblings in turn.
fn exec_siblings(
    document: &Html,
    cursor_node: &mut Option<NodeId>,
    child: Option<NodeId>,
    stack: &mut VecDeque<HtmlValueType>,
    cursors_stack: &mut VecDeque<Option<NodeId>>,
    vars_context: &mut VarContext,
    stdout: &mut String,
    fuel: &mut u64,
) -> (r: Result<(), Stop>)
    ensures
        ends_as(
            exec_children(
                html_nodes(*document),
                child,
                state_of(
                    *old(cursor_node),
                    *old(stack),
                    *old(cursors_stack),
                    *old(vars_context),
                    *old(stdout),
                ),
                *old(fuel) as nat,
            ),
            *final(cursor_node),
            *final(stack),
            *final(cursors_stack),
            *final(vars_context),
            *final(stdout),
            *final(fuel),
            r,
        ),
        *final(fuel) <= *old(fuel),
    decreases *old(fuel), 1nat,
{
    let ghost total = exec_children(
        html_nodes(*document),
        child,
        state_of(*cursor_node, *stack, *cursors_stack, *vars_context, *stdout),
        *fuel as nat,
    );
    let mut current = child;
    loop
        invariant
            exec_children(
                html_nodes(*document),
                current,
                state_of(*cursor_node, *stack, *cursors_stack, *vars_context, *stdout),
                *fuel as nat,
            ) == total,
            total == exec_children(
                html_nodes(*document),
                child,
                state_of(
                    *old(cursor_node),
                    *old(stack),
                    *old(cursors_stack),
                    *old(vars_context),
                    *old(stdout),
                ),
                *old(fuel) as nat,
            ),
            *fuel <= *old(fuel),
        decreases *fuel,
    {
        if *fuel == 0 {
            return Err(Stop::OutOfFuel);
        }
        *fuel = *fuel - 1;
        match current {
            None => {
                return Ok(());
            },
            Some(c) => {
                run_node(
                    document,
                    cursor_node,
                    c,
                    stack,
                    cursors_stack,
                    vars_context,
                    stdout,
                    fuel,
                )?;
                current = next_sibling_of(document, c);
            },
        }
    }
}

/// Runs the items of a list from `child` on: of each `li`, its first element child.
fn exec_items(
    document: &Html,
    cursor_node: &mut Option<NodeId>,
    child: Option<NodeId>,
    stack: &mut VecDeque<HtmlValueType>,
    cursors_stack: &mut VecDeque<Option<NodeId>>,
    vars_context: &mut VarContext,
    stdout: &mut String,
    fuel: &mut u64,
) -> (r: Result<(), Stop>)
    ensures
        ends_as(
            exec_ol_items(
                html_nodes(*document),
                child,
                state_of(
                    *old(cursor_node),
                    *old(stack),
                    *old(cursors_stack),
                    *old(vars_context),
                    *old(stdout),
                ),
                *old(fuel) as nat,
            ),
            *final(cursor_node),
            *final(stack),
            *final(cursors_stack),
            *final(vars_context),
            *final(stdout),
            *final(fuel),
            r,
        ),
        *final(fuel) <= *old(fuel),
    decreases *old(fuel), 1nat,
{
    let ghost total = exec_ol_items(
        html_nodes(*document),
        child,
        state_of(*cursor_node, *stack, *cursors_stack, *vars_context, *stdout),
        *fuel as nat,
    );
    let mut current = child;
    loop
        invariant
            exec_ol_items(
                html_nodes(*document),
                current,
                state_of(*cursor_node, *stack, *cursors_stack, *vars_context, *stdout),
                *fuel as nat,
            ) == total,
            total == exec_ol_items(
                html_nodes(*document),
                child,
                state_of(
                    *old(cursor_node),
                    *old(stack),
                    *old(cursors_stack),
                    *old(vars_context),
                    *old(stdout),
                ),
                *old(fuel) as nat,
            ),
            *fuel <= *old(fuel),
        decreases *fuel,
    {
        if *fuel == 0 {
            return Err(Stop::OutOfFuel);
        }
        *fuel = *fuel - 1;
        match current {
            None => {
                return Ok(());
            },
            Some(c) => {
                let is_item = match element_name_of(document, c) {
                    Some(n) => {
                        let nv = chars_of(n.as_str());
                        spells(&nv, "li")
                    },
                    None => false,
                };
                if is_item {
                    let first = first_child_of(document, c);
                    exec_first_element(
                        document,
                        cursor_node,
                        first,
                        stack,
                        cursors_stack,
                        vars_context,
                        stdout,
                        fuel,
                    )?;
                }
                current = next_sibling_of(document, c);
            },
        }
    }
}

/// Runs the first element among `child` and its next siblings.
fn exec_first_element(
    document: &Html,
    cursor_node: &mut Option<NodeId>,
    child: Option<NodeId>,
    stack: &mut VecDeque<HtmlValueType>,
    cursors_stack: &mut VecDeque<Option<NodeId>>,
    vars_context: &mut VarContext,
    stdout: &mut String,
    fuel: &mut u64,
) -> (r: Result<(), Stop>)
    ensures
        ends_as(
            exec_li(
                html_nodes(*document),
                child,
                state_of(
                    *old(cursor_node),
                    *old(stack),
                    *old(cursors_stack),
                    *old(vars_context),
                    *old(stdout),
                ),
                *old(fuel) as nat,
            ),
            *final(cursor_node),
            *final(stack),
            *final(cursors_stack),
            *final(vars_context),
            *final(stdout),
            *final(fuel),
            r,
        ),
        *final(fuel) <= *old(fuel),
    decreases *old(fuel), 1nat,
{
    let ghost total = exec_li(
        html_nodes(*document),
        child,
        state_of(*cursor_node, *stack, *cursors_stack, *vars_context, *stdout),
        *fuel as nat,
    );
    let mut current = child;
    loop
        invariant
            exec_li(
                html_nodes(*document),
                current,
                state_of(*cursor_node, *stack, *cursors_stack, *vars_context, *stdout),
                *fuel as nat,
            ) == total,
            total == exec_li(
                html_nodes(*document),
                child,
                state_of(
                    *old(cursor_node),
                    *old(stack),
                    *old(cursors_stack),
                    *old(vars_context),
                    *old(stdout),
                ),
                *old(fuel) as nat,
            ),
            *fuel <= *old(fuel),
        decreases *fuel,
    {
        if *fuel == 0 {
            return Err(Stop::OutOfFuel);
        }
        *fuel = *fuel - 1;
        match current {
            None => {
                return Ok(());
            },
            Some(c) => {
                match element_name_of(document, c) {
                    Some(_) => {
                        return run_node(
                            document,
                            cursor_node,
                            c,
                            stack,
                            cursors_stack,
                            vars_context,
                            stdout,
                            fuel,
                        );
                    },
                    None => {},
                }
                current = next_sibling_of(document, c);
            },
        }
    }
}

/// The main loop, on any input: as `html_exec_loop` does, and where the run reaches a fault,
/// it stops there with `Stop::Fault`.
pub fn run_main_loop(
    document: &Html,
    cursor_node: &mut Option<NodeId>,
    stack: &mut VecDeque<HtmlValueType>,
    cursors_stack: &mut VecDeque<Option<NodeId>>,
    vars_context: &mut VarContext,
    stdout: &mut String,
    fuel: &mut u64,
) -> (r: Result<(), Stop>)
    ensures
        ends_as(
            run_loop(
                html_nodes(*document),
                state_of(
                    *old(cursor_node),
                    *old(stack),
                    *old(cursors_stack),
                    *old(vars_context),
                    *old(stdout),
                ),
                *old(fuel) as nat,
            ),
            *final(cursor_node),
            *final(stack),
            *final(cursors_stack),
            *final(vars_context),
            *final(stdout),
            *final(fuel),
            r,
        ),
        *final(fuel) <= *old(fuel),
    decreases *old(fuel), 1nat,
{
    let ghost total = run_loop(
        html_nodes(*document),
        state_of(*cursor_node, *stack, *cursors_stack, *vars_context, *stdout),
        *fuel as nat,
    );
    loop
        invariant
            run_loop(
                html_nodes(*document),
                state_of(*cursor_node, *stack, *cursors_stack, *vars_context, *stdout),
                *fuel as nat,
            ) == total,
            total == run_loop(
                html_nodes(*document),
                state_of(
                    *old(cursor_node),
                    *old(stack),
                    *old(cursors_stack),
                    *old(vars_context),
                    *old(stdout),
                ),
                *old(fuel) as nat,
            ),
            *fuel <= *old(fuel),
        decreases *fuel,
    {
        if *fuel == 0 {
            return Err(Stop::OutOfFuel);
        }
        *fuel = *fuel - 1;
        match *cursor_node {
            None => {
                return Ok(());
            },
            Some(c) => {
                if !has_node(document, c) {
                    return Ok(());
                }
                match next_sibling_of(document, c) {
                    None => {
                        return Ok(());
                    },
                    Some(n) => {
                        *cursor_node = Some(n);
                        run_node(
                            document,
                            cursor_node,
                            c,
                            stack,
                            cursors_stack,
                            vars_context,
                            stdout,
                            fuel,
                        )?;
                    },
                }
            },
        }
    }
}

/// Runs the node `node` of `document`: an element by its name; any other node does nothing.
/// Each node run takes one unit of `fuel`; a run without fuel stops with `OutOfFuel`. A run
/// that reaches a fault has no meaning and is left out (see `Fault`).
pub fn exec_html_instructions(
    document: &Html,
    cursor_node: &mut Option<NodeId>,
    node: NodeId,
    stack: &mut VecDeque<HtmlValueType>,
    cursors_stack: &mut VecDeque<Option<NodeId>>,
    vars_context: &mut VarContext,
    stdout: &mut String,
    fuel: &mut u64,
) -> (r: Result<(), Stop>)
    requires
        !reaches_fault(
            exec_node(
                html_nodes(*document),
                node,
                state_of(
                    *old(cursor_node),
                    *old(stack),
                    *old(cursors_stack),
                    *old(vars_context),
                    *old(stdout),
                ),
                *old(fuel) as nat,
            ),
        ),
    ensures
        ends_as(
            exec_node(
                html_nodes(*document),
                node,
                state_of(
                    *old(cursor_node),
                    *old(stack),
                    *old(cursors_stack),
                    *old(vars_context),
                    *old(stdout),
                ),
                *old(fuel) as nat,
            ),
            *final(cursor_node),
            *final(stack),
            *final(cursors_stack),
            *final(vars_context),
            *final(stdout),
            *final(fuel),
            r,
        ),
        *final(fuel) <= *old(fuel),
        !(r matches Err(Stop::Fault(_))),
{
    run_node(document, cursor_node, node, stack, cursors_stack, vars_context, stdout, fuel)
}

/// The main loop: while the cursor is on a node of `document` that has a next sibling, it
/// moves the cursor to that sibling and runs the node; a node without a next sibling ends
/// the loop without being run. Each round takes one unit of `fuel`. A run that reaches a
/// fault has no meaning and is left out (see `Fault`).
pub fn html_exec_loop(
    document: &Html,
    cursor_node: &mut Option<NodeId>,
    stack: &mut VecDeque<HtmlValueType>,
    cursors_stack: &mut VecDeque<Option<NodeId>>,
    vars_context: &mut VarContext,
    stdout: &mut String,
    fuel: &mut u64,
) -> (r: Result<(), Stop>)
    requires
        !reaches_fault(
            run_loop(
                html_nodes(*document),
                state_of(
                    *old(cursor_node),
                    *old(stack),
                    *old(cursors_stack),
                    *old(vars_context),
                    *old(stdout),
                ),
                *old(fuel) as nat,
            ),
        ),
    ensures
        ends_as(
            run_loop(
                html_nodes(*document),
                state_of(
                    *old(cursor_node),
                    *old(stack),
                    *old(cursors_stack),
                    *old(vars_context),
                    *old(stdout),
                ),
                *old(fuel) as nat,
            ),
            *final(cursor_node),
            *final(stack),
            *final(cursors_stack),
            *final(vars_context),
            *final(stdout),
            *final(fuel),
            r,
        ),
        *final(fuel) <= *old(fuel),
        !(r matches Err(Stop::Fault(_))),
{
    run_main_loop(document, cursor_node, stack, cursors_stack, vars_context, stdout, fuel)
}

/// Moves the cursor to the first element that `selector` matches.
fn jump_to(document: &Html, cursor_node: &mut Option<NodeId>, selector: &str) -> (r: Result<
    (),
    Stop,
>)
    ensures
        match css_first_match(html_nodes(*document), selector@) {
            None => r matches Err(e) && e@ == Halt::Error(Seq::empty()) && *final(cursor_node)
                == *old(cursor_node),
            Some(None) => r matches Err(e) && e@ == Halt::Fault(Fault::NoJumpTarget)
                && *final(cursor_node) == *old(cursor_node),
            Some(Some(t)) => r is Ok && *final(cursor_node) == Some(t),
        },
{
    match select_first(document, selector) {
        Err(()) => Err(Stop::Error(String::new())),
        Ok(None) => Err(Stop::Fault(Fault::NoJumpTarget)),
        Ok(Some(t)) => {
            *cursor_node = Some(t);
            Ok(())
        },
    }
}

} // verus!
