use html_lang::interp::{run_main_loop, run_node};
use html_lang::ops::{Fault, Stop};
use html_lang::vars::VarContext;
use html_lang::{exec_html_instructions, html_exec_loop, HtmlValueType};
use scraper::{Html, Selector};
use std::collections::VecDeque;

fn first(doc: &Html, selector: &str) -> ego_tree::NodeId {
    let sel = Selector::parse(selector).unwrap();
    doc.select(&sel).next().unwrap().id()
}

#[test]
fn one_instruction_pushes_its_value() {
    let doc = Html::parse_fragment("<main><data value=\"7\"></data></main>");
    let node = first(&doc, "data");
    let mut cursor = None;
    let mut stack: VecDeque<HtmlValueType> = VecDeque::new();
    let mut calls: VecDeque<Option<ego_tree::NodeId>> = VecDeque::new();
    let mut vars = VarContext::new();
    let mut out = String::new();
    let mut fuel: u64 = 10;
    let r = exec_html_instructions(
        &doc, &mut cursor, node, &mut stack, &mut calls, &mut vars, &mut out, &mut fuel,
    );
    assert!(r.is_ok());
    assert_eq!(stack.len(), 1);
    assert!(stack[0] == HtmlValueType::Int(7));
    assert_eq!(fuel, 9);
    assert!(out.is_empty());
}

#[test]
fn main_loop_runs_all_but_the_last_node() {
    let doc = Html::parse_fragment(
        "<main><data value=\"5\"></data><output></output><output></output></main>",
    );
    let start = first(&doc, "data");
    let mut cursor = Some(start);
    let mut stack: VecDeque<HtmlValueType> = VecDeque::new();
    let mut calls: VecDeque<Option<ego_tree::NodeId>> = VecDeque::new();
    let mut vars = VarContext::new();
    let mut out = String::new();
    let mut fuel: u64 = 100;
    let r = html_exec_loop(
        &doc, &mut cursor, &mut stack, &mut calls, &mut vars, &mut out, &mut fuel,
    );
    assert!(r.is_ok());
    assert_eq!(out, "5\n");
    assert_eq!(stack.len(), 1);
}

#[test]
fn division_by_zero_stops_with_a_fault() {
    let doc = Html::parse_fragment(
        "<main><data value=\"1\"></data><data value=\"0\"></data><div></div><p></p></main>",
    );
    let start = first(&doc, "data");
    let mut cursor = Some(start);
    let mut stack: VecDeque<HtmlValueType> = VecDeque::new();
    let mut calls: VecDeque<Option<ego_tree::NodeId>> = VecDeque::new();
    let mut vars = VarContext::new();
    let mut out = String::new();
    let mut fuel: u64 = 100;
    let r = run_main_loop(
        &doc, &mut cursor, &mut stack, &mut calls, &mut vars, &mut out, &mut fuel,
    );
    assert!(matches!(r, Err(Stop::Fault(Fault::DivisionByZero))));
}

#[test]
fn assignment_from_empty_stack_stops_with_a_fault() {
    let doc = Html::parse_fragment("<main><var title=\"x\"></var></main>");
    let node = first(&doc, "var");
    let mut cursor = None;
    let mut stack: VecDeque<HtmlValueType> = VecDeque::new();
    let mut calls: VecDeque<Option<ego_tree::NodeId>> = VecDeque::new();
    let mut vars = VarContext::new();
    let mut out = String::new();
    let mut fuel: u64 = 10;
    let r = run_node(
        &doc, &mut cursor, node, &mut stack, &mut calls, &mut vars, &mut out, &mut fuel,
    );
    assert!(matches!(r, Err(Stop::Fault(Fault::AssignFromEmptyStack))));
}
