use vstd::prelude::*;
use std::collections::VecDeque;
use ego_tree::NodeId;
use crate::html::{
    css_first_match, first_child, first_child_of, fragment_nodes, parse_fragment, select_first,
};
use crate::interp::run_main_loop;
use crate::ops::{Fault, Halt, Stop};
use crate::semantics::{run_loop, State};
use crate::text::{owned, push_str};
use crate::value::HtmlValueType;
use crate::vars::VarContext;

verus! {

/// The answer to a request, as a model.
pub enum Answer {
    /// The program ran to its end and printed this.
    Output(Seq<char>),
    /// The `main` element has no children.
    Empty,
    /// The request is refused with this message.
    BadRequest(Seq<char>),
    /// The run reached a point at which the program cannot go on.
    Fault(Fault),
    /// The run used up its fuel.
    OutOfFuel,
}

/// The answer to a request.
#[derive(Debug)]
pub enum Response {
    /// The program ran to its end and printed this (status 200, plain text).
    Output(String),
    /// The `main` element has no children (status 200, empty body).
    Empty,
    /// The request is refused with this message (status 400, plain text).
    BadRequest(String),
    /// The run reached a point at which the program cannot go on.
    Fault(Fault),
    /// The run used up its fuel.
    OutOfFuel,
}

impl View for Response {
    type V = Answer;

    open spec fn view(&self) -> Answer {
        match self {
            Response::Output(s) => Answer::Output(s@),
            Response::Empty => Answer::Empty,
            Response::BadRequest(s) => Answer::BadRequest(s@),
            Response::Fault(f) => Answer::Fault(*f),
            Response::OutOfFuel => Answer::OutOfFuel,
        }
    }
}

/// The state in which a program starts: the cursor on `first`, nothing else.
pub open spec fn start_state(first: NodeId) -> State {
    State {
        cursor: Some(first),
        stack: Seq::empty(),
        call_stack: Seq::empty(),
        vars: Map::empty(),
        out: Seq::empty(),
    }
}

/// The answer to a request whose body is `source`: the program is the children of the first
/// `main` element of the parsed fragment, run by the main loop from the first child on.
/// (The selector `main` always parses, so the last arm is the fragment without a `main`.)
pub open spec fn answer(source: Seq<char>, fuel: nat) -> Answer {
    let d = fragment_nodes(source);
    match css_first_match(d, "main"@) {
        Some(Some(m)) => match first_child(d, m) {
            None => Answer::Empty,
            Some(c) => {
                let r = run_loop(d, start_state(c), fuel);
                match r.halt {
                    None => Answer::Output(r.state.out),
                    Some(Halt::Error(e)) => Answer::BadRequest("ERROR: "@ + e),
                    Some(Halt::Fault(f)) => Answer::Fault(f),
                    Some(Halt::OutOfFuel) => Answer::OutOfFuel,
                }
            },
        },
        _ => Answer::BadRequest("ERROR: `main` tag is required"@),
    }
}

/// Runs the program that a request body holds, with `fuel` units of fuel, and gives the answer.
pub fn run_program(source: &str, fuel: u64) -> (r: Response)
    ensures
        r@ == answer(source@, fuel as nat),
{
    let document = parse_fragment(source);
    let main = match select_first(&document, "main") {
        Ok(Some(m)) => m,
        _ => {
            return Response::BadRequest(owned("ERROR: `main` tag is required"));
        },
    };
    let first = match first_child_of(&document, main) {
        None => {
            return Response::Empty;
        },
        Some(c) => c,
    };
    let mut cursor = Some(first);
    let mut stack: VecDeque<HtmlValueType> = VecDeque::new();
    let mut cursors: VecDeque<Option<NodeId>> = VecDeque::new();
    let mut vars = VarContext::new();
    let mut stdout = String::new();
    let mut left = fuel;
    proof {
        assert(crate::value::models(stack@) =~= Seq::<crate::value::Value>::empty());
        assert(crate::interp::state_of(cursor, stack, cursors, vars, stdout) =~= start_state(first));
    }
    match run_main_loop(
        &document,
        &mut cursor,
        &mut stack,
        &mut cursors,
        &mut vars,
        &mut stdout,
        &mut left,
    ) {
        Ok(()) => Response::Output(stdout),
        Err(Stop::Error(e)) => {
            let mut msg = owned("ERROR: ");
            push_str(&mut msg, e.as_str());
            Response::BadRequest(msg)
        },
        Err(Stop::Fault(f)) => Response::Fault(f),
        Err(Stop::OutOfFuel) => Response::OutOfFuel,
    }
}

} // verus!
