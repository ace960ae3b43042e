use vstd::prelude::*;
use ego_tree::NodeId;
use crate::html::{
    attribute, css_first_match, element_name, first_child, next_sibling, text_content, NodeInfo,
};
use crate::ops::{apply_op, Fault, Halt, StackOp};
use crate::text::parse_int;
use crate::value::{display, Value};

verus! {

/// The state of a running program.
#[verifier::ext_equal]
pub struct State {
    /// The node that the main loop runs next.
    pub cursor: Option<NodeId>,
    /// The value stack, top first.
    pub stack: Seq<Value>,
    /// The stack of return points, top first.
    pub call_stack: Seq<Option<NodeId>>,
    /// The variables.
    pub vars: Map<Seq<char>, Value>,
    /// What the program has printed.
    pub out: Seq<char>,
}

/// Where a run ends: the state, the fuel left, and why it stopped early, if it did.
#[verifier::ext_equal]
pub struct Run {
    pub state: State,
    pub fuel: nat,
    pub halt: Option<Halt>,
}

/// Whether a run stopped at a point at which the program cannot go on.
pub open spec fn reaches_fault(r: Run) -> bool {
    r.halt matches Some(Halt::Fault(_))
}

/// What an element does, by its name.
#[derive(Debug, Clone, Copy, PartialEq, Eq, Structural)]
pub enum Tag {
    S,
    Data,
    Ol,
    Cite,
    Output,
    Op(StackOp),
    I,
    A,
    Rt,
    Var,
    Dfn,
    Unknown,
}

/// The instruction that an element name stands for.
pub open spec fn tag_of(name: Seq<char>) -> Tag {
    if name == "s"@ {
        Tag::S
    } else if name == "data"@ {
        Tag::Data
    } else if name == "ol"@ {
        Tag::Ol
    } else if name == "cite"@ {
        Tag::Cite
    } else if name == "output"@ {
        Tag::Output
    } else if name == "dt"@ {
        Tag::Op(StackOp::Dt)
    } else if name == "del"@ {
        Tag::Op(StackOp::Del)
    } else if name == "small"@ {
        Tag::Op(StackOp::Small)
    } else if name == "big"@ {
        Tag::Op(StackOp::Big)
    } else if name == "em"@ {
        Tag::Op(StackOp::Em)
    } else if name == "dd"@ {
        Tag::Op(StackOp::Dd)
    } else if name == "sub"@ {
        Tag::Op(StackOp::Sub)
    } else if name == "ul"@ {
        Tag::Op(StackOp::Ul)
    } else if name == "div"@ {
        Tag::Op(StackOp::Div)
    } else if name == "b"@ {
        Tag::Op(StackOp::B)
    } else if name == "bdo"@ {
        Tag::Op(StackOp::Bdo)
    } else if name == "dbi"@ {
        Tag::Op(StackOp::Dbi)
    } else if name == "i"@ {
        Tag::I
    } else if name == "a"@ {
        Tag::A
    } else if name == "rt"@ {
        Tag::Rt
    } else if name == "var"@ {
        Tag::Var
    } else if name == "dfn"@ {
        Tag::Dfn
    } else {
        Tag::Unknown
    }
}

/// Whether `s` begins with `p`.
pub open spec fn starts_with(s: Seq<char>, p: Seq<char>) -> bool {
    p.len() <= s.len() && s.take(p.len() as int) == p
}

/// `s` without all leading copies of `p`, as `str::trim_start_matches` gives it.
pub open spec fn strip_prefixes(s: Seq<char>, p: Seq<char>) -> Seq<char>
    decreases s.len(),
{
    if 0 < p.len() <= s.len() && s.take(p.len() as int) == p {
        strip_prefixes(s.skip(p.len() as int), p)
    } else {
        s
    }
}

/// `s` without all trailing copies of `p`, as `str::trim_end_matches` gives it.
pub open spec fn strip_suffixes(s: Seq<char>, p: Seq<char>) -> Seq<char>
    decreases s.len(),
{
    if 0 < p.len() <= s.len() && s.skip(s.len() - p.len()) == p {
        strip_suffixes(s.take(s.len() - p.len()), p)
    } else {
        s
    }
}

/// The selector that a `javascript:` link jumps to: `#`, then the link without its
/// leading `javascript:` and its trailing `()`.
pub open spec fn call_selector(href: Seq<char>) -> Seq<char> {
    seq!['#'] + strip_suffixes(strip_prefixes(href, "javascript:"@), "()"@)
}

/// A run that goes on normally.
pub open spec fn go(s: State, fuel: nat) -> Run {
    Run { state: s, fuel, halt: None }
}

/// A run that stops early.
pub open spec fn halt(s: State, fuel: nat, h: Halt) -> Run {
    Run { state: s, fuel, halt: Some(h) }
}

/// The state with `v` pushed on the stack.
pub open spec fn push(s: State, v: Value) -> State {
    State { stack: seq![v] + s.stack, ..s }
}

/// The stack without its top value, where it has one.
pub open spec fn pop(stack: Seq<Value>) -> Seq<Value> {
    if stack.len() > 0 {
        stack.drop_first()
    } else {
        stack
    }
}

/// The smaller of the fuel that a step left and the fuel it was given.
pub open spec fn at_most(a: nat, b: nat) -> nat {
    if a <= b {
        a
    } else {
        b
    }
}

/// The messages of the errors that a program can make.
pub open spec fn msg_s() -> Seq<char> {
    "The `s` tag child must be plain text"@
}

pub open spec fn msg_data_invalid() -> Seq<char> {
    "The `value` attribute must containt a valid integer"@
}

pub open spec fn msg_data_missing() -> Seq<char> {
    "The data must have the `value` attribute"@
}

pub open spec fn msg_cite() -> Seq<char> {
    "The `cite` tag child must be boolean or null"@
}

pub open spec fn msg_output() -> Seq<char> {
    "Attemp to peek an empty stack from `output` tag"@
}

pub open spec fn msg_no_return() -> Seq<char> {
    "NO RETURN POINT"@
}

/// Moves the cursor to the first element that `selector` matches.
pub open spec fn jump(d: Map<NodeId, NodeInfo>, s: State, fuel: nat, selector: Seq<char>) -> Run {
    match css_first_match(d, selector) {
        None => halt(s, fuel, Halt::Error(Seq::empty())),
        Some(None) => halt(s, fuel, Halt::Fault(Fault::NoJumpTarget)),
        Some(Some(t)) => go(State { cursor: Some(t), ..s }, fuel),
    }
}

/// What the value of a `cite` with the text `t` is.
pub open spec fn cited(t: Seq<char>, vars: Map<Seq<char>, Value>) -> Value {
    if t == "true"@ {
        Value::Bool(true)
    } else if t == "false"@ {
        Value::Bool(false)
    } else if t == "null"@ {
        Value::Null
    } else if vars.contains_key(t) {
        vars[t]
    } else {
        Value::Null
    }
}

/// The stack after an `ol` whose items turned `before` into `after`: the values that
/// they pushed, gathered into one array in the order they were pushed.
pub open spec fn gather(before: Seq<Value>, after: Seq<Value>) -> Seq<Value> {
    let n = after.len() - before.len();
    if n > 0 {
        seq![Value::Array(after.take(n).reverse())] + after.skip(n)
    } else {
        after
    }
}

/// Runs node `id` of the document `d`: elements by their name, other nodes do nothing.
/// Each node run takes one unit of fuel.
pub open spec fn exec_node(d: Map<NodeId, NodeInfo>, id: NodeId, s: State, fuel: nat) -> Run
    decreases fuel, 3nat,
{
    if fuel == 0 {
        halt(s, 0, Halt::OutOfFuel)
    } else {
        match element_name(d, id) {
            None => go(s, (fuel - 1) as nat),
            Some(name) => exec_tag(d, id, tag_of(name), s, (fuel - 1) as nat),
        }
    }
}

/// Runs the element `id`, which stands for `tag`.
pub open spec fn exec_tag(d: Map<NodeId, NodeInfo>, id: NodeId, tag: Tag, s: State, f: nat) -> Run
    decreases f, 2nat,
{
    match tag {
        Tag::S => match first_child(d, id) {
            None => go(push(s, Value::Str(Seq::empty())), f),
            Some(c) => match text_content(d, c) {
                Some(t) => go(push(s, Value::Str(t)), f),
                None => halt(s, f, Halt::Error(msg_s())),
            },
        },
        Tag::Data => match attribute(d, id, "value"@) {
            None => halt(s, f, Halt::Error(msg_data_missing())),
            Some(v) => match parse_int(v) {
                Some(n) => go(push(s, Value::Int(n)), f),
                None => halt(s, f, Halt::Error(msg_data_invalid())),
            },
        },
        Tag::Cite => match first_child(d, id) {
            None => halt(s, f, Halt::Error(msg_cite())),
            Some(c) => match text_content(d, c) {
                None => halt(s, f, Halt::Error(msg_cite())),
                Some(t) => go(push(s, cited(t, s.vars)), f),
            },
        },
        Tag::Output => if s.stack.len() == 0 {
            halt(s, f, Halt::Error(msg_output()))
        } else {
            go(State { out: s.out + display(s.stack[0]) + seq!['\n'], ..s }, f)
        },
        Tag::Op(op) => {
            let (st, h) = apply_op(op, s.stack);
            Run { state: State { stack: st, ..s }, fuel: f, halt: h }
        },
        Tag::Ol => {
            let r = exec_ol_items(d, first_child(d, id), s, f);
            if r.halt is Some {
                r
            } else if r.state.stack.len() < s.stack.len() {
                halt(r.state, r.fuel, Halt::Fault(Fault::ListShrankStack))
            } else {
                go(State { stack: gather(s.stack, r.state.stack), ..r.state }, r.fuel)
            }
        },
        Tag::I => if s.stack.len() > 0 && s.stack[0] == Value::Bool(true) {
            exec_children(d, first_child(d, id), State { stack: s.stack.drop_first(), ..s }, f)
        } else {
            go(State { stack: pop(s.stack), ..s }, f)
        },
        Tag::A => match attribute(d, id, "href"@) {
            None => halt(s, f, Halt::Error(Seq::empty())),
            Some(href) => if starts_with(href, "javascript:"@) {
                let r = exec_children(d, first_child(d, id), s, f);
                if r.halt is Some {
                    r
                } else {
                    jump(
                        d,
                        State { call_stack: seq![next_sibling(d, id)] + r.state.call_stack, ..r.state },
                        r.fuel,
                        call_selector(href),
                    )
                }
            } else {
                jump(d, s, f, href)
            },
        },
        Tag::Rt => go(State { cursor: None, ..s }, f),
        Tag::Var => if s.stack.len() == 0 {
            halt(s, f, Halt::Fault(Fault::AssignFromEmptyStack))
        } else {
            let s1 = State { stack: s.stack.drop_first(), ..s };
            match attribute(d, id, "title"@) {
                None => halt(s1, f, Halt::Error(Seq::empty())),
                Some(t) => go(State { vars: s.vars.insert(t, s.stack[0]), ..s1 }, f),
            }
        },
        Tag::Dfn => match first_child(d, id) {
            None => halt(s, f, Halt::Fault(Fault::CallWithoutBody)),
            Some(c) => {
                let r = run_loop(d, State { cursor: Some(c), ..s }, f);
                let s2 = State { vars: s.vars, ..r.state };
                if r.halt is Some {
                    Run { state: s2, fuel: r.fuel, halt: r.halt }
                } else if s2.call_stack.len() > 0 {
                    go(State { cursor: s2.call_stack[0], call_stack: s2.call_stack.drop_first(), ..s2 }, r.fuel)
                } else if s.call_stack.len() > 0 {
                    go(State { cursor: s.call_stack[0], ..s2 }, r.fuel)
                } else {
                    halt(s2, r.fuel, Halt::Error(msg_no_return()))
                }
            },
        },
        Tag::Unknown => go(s, f),
    }
}

/// Runs the node `child` and its next siblings in turn; each step takes one unit of fuel.
pub open spec fn exec_children(
    d: Map<NodeId, NodeInfo>,
    child: Option<NodeId>,
    s: State,
    fuel: nat,
) -> Run
    decreases fuel, 1nat,
{
    if fuel == 0 {
        halt(s, 0, Halt::OutOfFuel)
    } else {
        let f = (fuel - 1) as nat;
        match child {
            None => go(s, f),
            Some(c) => {
                let r = exec_node(d, c, s, f);
                if r.halt is Some {
                    r
                } else {
                    exec_children(d, next_sibling(d, c), r.state, at_most(r.fuel, f))
                }
            },
        }
    }
}

/// Runs the items of a list from `child` on: of each `li`, its first element child.
pub open spec fn exec_ol_items(
    d: Map<NodeId, NodeInfo>,
    child: Option<NodeId>,
    s: State,
    fuel: nat,
) -> Run
    decreases fuel, 1nat,
{
    if fuel == 0 {
        halt(s, 0, Halt::OutOfFuel)
    } else {
        let f = (fuel - 1) as nat;
        match child {
            None => go(s, f),
            Some(c) => if element_name(d, c) == Some("li"@) {
                let r = exec_li(d, first_child(d, c), s, f);
                if r.halt is Some {
                    r
                } else {
                    exec_ol_items(d, next_sibling(d, c), r.state, at_most(r.fuel, f))
                }
            } else {
                exec_ol_items(d, next_sibling(d, c), s, f)
            },
        }
    }
}

/// Runs the first element among `child` and its next siblings.
pub open spec fn exec_li(d: Map<NodeId, NodeInfo>, child: Option<NodeId>, s: State, fuel: nat) -> Run
    decreases fuel, 1nat,
{
    if fuel == 0 {
        halt(s, 0, Halt::OutOfFuel)
    } else {
        let f = (fuel - 1) as nat;
        match child {
            None => go(s, f),
            Some(g) => if element_name(d, g) is Some {
                exec_node(d, g, s, f)
            } else {
                exec_li(d, next_sibling(d, g), s, f)
            },
        }
    }
}

/// The main loop: while the cursor is on a node of the document that has a next sibling,
/// it moves the cursor to that sibling and runs the node. A node without a next sibling
/// ends the loop without being run. Each round takes one unit of fuel.
pub open spec fn run_loop(d: Map<NodeId, NodeInfo>, s: State, fuel: nat) -> Run
    decreases fuel, 1nat,
{
    if fuel == 0 {
        halt(s, 0, Halt::OutOfFuel)
    } else {
        let f = (fuel - 1) as nat;
        match s.cursor {
            None => go(s, f),
            Some(c) => if !d.contains_key(c) {
                go(s, f)
            } else {
                match next_sibling(d, c) {
                    None => go(s, f),
                    Some(n) => {
                        let r = exec_node(d, c, State { cursor: Some(n), ..s }, f);
                        if r.halt is Some {
                            r
                        } else {
                            run_loop(d, r.state, at_most(r.fuel, f))
                        }
                    },
                }
            },
        }
    }
}

} // verus!
