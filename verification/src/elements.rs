//! What is asked of an element of the page, and what follows from its answers.

use crate::browser;
use crate::browser::Browser;
use crate::cdp;
use crate::cdp::Command;
use crate::cdp::CommandV;
use crate::input;
use crate::json;
use crate::json::Json;
use crate::json::JsonV;
use crate::text;
use crate::text::Text;
use vstd::prelude::*;

verus! {

// ---------------------------------------------------------------------- calls

/// Calls a function on an element, without arguments.
pub fn call(session: &str, object: &str, func: &str) -> (r: Command)
    ensures
        r@ == browser::call_command(session@, object@, func@, Seq::empty()),
{
    let args: Vec<Json> = Vec::new();
    proof {
        assert(text::views(args@) =~= Seq::<JsonV>::empty());
    }
    browser::call_on(session, object, func, &args)
}

/// Calls a function on an element, with one argument.
pub fn call_with(session: &str, object: &str, func: &str, arg: Json) -> (r: Command)
    ensures
        r@ == browser::call_command(session@, object@, func@, seq![arg@]),
{
    let mut args: Vec<Json> = Vec::new();
    args.push(arg);
    proof {
        assert(text::views(args@) =~= seq![arg@]);
    }
    browser::call_on(session, object, func, &args)
}

/// Makes options of a list selected, and answers which.
pub fn select_option(session: &str, object: &str, values: &Vec<String>) -> (r: Command)
    ensures
        r@ == browser::call_command(
            session@,
            object@,
            "function(v) { return __bmcp.selectOptions(this, v); }"@,
            seq![json::str_list(text::views(values@))],
        ),
{
    call_with(session, object, "function(v) { return __bmcp.selectOptions(this, v); }", Json::strs(values))
}

/// Brings an element into view, and answers the area that it takes on the page.
pub fn measure(session: &str, object: &str) -> (r: Command)
    ensures
        r@ == browser::call_command(
            session@,
            object@,
            "function() { this.scrollIntoView({ block: 'nearest', inline: 'nearest', behavior: 'instant' }); const r = this.getBoundingClientRect(); return { x: r.left + scrollX, y: r.top + scrollY, w: r.width, h: r.height }; }"@,
            Seq::empty(),
        ),
{
    call(
        session,
        object,
        "function() { this.scrollIntoView({ block: 'nearest', inline: 'nearest', behavior: 'instant' }); const r = this.getBoundingClientRect(); return { x: r.left + scrollX, y: r.top + scrollY, w: r.width, h: r.height }; }",
    )
}

impl Browser {
    /// Asks for a locator of an element, for use in tests.
    pub fn locator_for(&self, session: &str, object: &str) -> (r: Command)
        ensures
            r@ == browser::call_command(
                session@,
                object@,
                "function(a) { return __bmcp.generateLocator(this, a); }"@,
                seq![JsonV::Str(self@.cfg.test_id_attribute)],
            ),
    {
        call_with(
            session,
            object,
            "function(a) { return __bmcp.generateLocator(this, a); }",
            Json::str(&self.cfg.test_id_attribute),
        )
    }
}

// ---------------------------------------------------------------------- filling and typing

/// Makes a field ready for a text, and answers whether the text has still to be inserted.
pub fn begin_fill(session: &str, object: &str, t: &str) -> (r: Command)
    ensures
        r@ == browser::call_command(
            session@,
            object@,
            "function(v) { return __bmcp.beginFill(this, v); }"@,
            seq![JsonV::Str(t@)],
        ),
{
    call_with(session, object, "function(v) { return __bmcp.beginFill(this, v); }", Json::str(t))
}

/// What is left to do after a field was made ready for a text: the text is inserted where the field
/// says so.
pub fn fill(session: &str, t: &str, mode: &Json) -> (r: Option<Command>)
    ensures
        match r {
            Some(c) => mode@ == JsonV::Str("insert"@) && c@ == input::insert_command(session@, t@),
            None => mode@ != JsonV::Str("insert"@),
        },
{
    if mode.is_str("insert") {
        Some(input::insert_text(session, t))
    } else {
        None
    }
}

/// Puts the cursor into a field.
pub fn focus(session: &str, object: &str) -> (r: Command)
    ensures
        r@ == browser::call_command(
            session@,
            object@,
            "function() { __bmcp.focusForTyping(this); }"@,
            Seq::empty(),
        ),
{
    call(session, object, "function() { __bmcp.focusForTyping(this); }")
}

/// A step of typing into a field.
pub enum TypeStep {
    /// Put the cursor into the field.
    Focus,
    /// Send keys, one after the other.
    Keys(Vec<Command>),
    /// Fill the field at once.
    Fill,
    /// Press Enter.
    Submit,
}

/// What a `TypeStep` holds.
pub enum TypeStepV {
    Focus,
    Keys(Seq<CommandV>),
    Fill,
    Submit,
}

impl View for TypeStep {
    type V = TypeStepV;

    open spec fn view(&self) -> TypeStepV {
        match self {
            TypeStep::Focus => TypeStepV::Focus,
            TypeStep::Keys(v) => TypeStepV::Keys(text::views(v@)),
            TypeStep::Fill => TypeStepV::Fill,
            TypeStep::Submit => TypeStepV::Submit,
        }
    }
}

/// The steps of typing a text: slowly, key by key, or at once; Enter is pressed at the end where the
/// text is submitted.
pub open spec fn type_plan(session: Text, t: Text, slowly: bool, submit: bool) -> Seq<TypeStepV> {
    (if slowly {
        seq![TypeStepV::Focus, TypeStepV::Keys(input::type_commands(session, t))]
    } else {
        seq![TypeStepV::Fill]
    }) + (if submit {
        seq![TypeStepV::Submit]
    } else {
        Seq::empty()
    })
}

/// The steps of typing a text.
pub fn type_into(session: &str, t: &str, slowly: bool, submit: bool) -> (r: Vec<TypeStep>)
    ensures
        text::views(r@) == type_plan(session@, t@, slowly, submit),
{
    let mut out: Vec<TypeStep> = Vec::new();
    if slowly {
        out.push(TypeStep::Focus);
        out.push(TypeStep::Keys(input::type_slowly(session, t)));
    } else {
        out.push(TypeStep::Fill);
    }
    if submit {
        out.push(TypeStep::Submit);
    }
    proof {
        assert(text::views(out@) =~= type_plan(session@, t@, slowly, submit));
    }
    out
}

// ---------------------------------------------------------------------- boxes

/// Asks whether a box is checked.
pub fn checked_state(session: &str, object: &str) -> (r: Command)
    ensures
        r@ == browser::call_command(
            session@,
            object@,
            "function() { return __bmcp.checkedState(this); }"@,
            Seq::empty(),
        ),
{
    call(session, object, "function() { return __bmcp.checkedState(this); }")
}

/// A box that should be checked, or not.
pub struct Checking {
    pub target: String,
    pub checked: bool,
    /// The box was clicked.
    pub clicked: bool,
}

/// What a `Checking` holds.
pub struct CheckingV {
    pub target: Text,
    pub checked: bool,
    pub clicked: bool,
}

impl View for Checking {
    type V = CheckingV;

    open spec fn view(&self) -> CheckingV {
        CheckingV { target: self.target@, checked: self.checked, clicked: self.clicked }
    }
}

/// What follows from the state of a box.
pub enum CheckStep {
    Done,
    Click,
    Fail(String),
}

/// What a `CheckStep` holds.
pub enum CheckStepV {
    Done,
    Click,
    Fail(Text),
}

impl View for CheckStep {
    type V = CheckStepV;

    open spec fn view(&self) -> CheckStepV {
        match self {
            CheckStep::Done => CheckStepV::Done,
            CheckStep::Click => CheckStepV::Click,
            CheckStep::Fail(e) => CheckStepV::Fail(e@),
        }
    }
}

impl CheckingV {
    /// What follows from the state that the box is in: a box in the other state is clicked once; one
    /// that is still in it then is an error.
    pub open spec fn step(self, state: JsonV) -> (CheckStepV, CheckingV) {
        if state.as_bool() == Some(self.checked) {
            (CheckStepV::Done, self)
        } else if !self.clicked {
            (CheckStepV::Click, CheckingV { clicked: true, ..self })
        } else {
            (
                CheckStepV::Fail(
                    "clicking "@ + self.target + " did not "@ + (if self.checked {
                        "check"@
                    } else {
                        "uncheck"@
                    }) + " it"@,
                ),
                self,
            )
        }
    }
}

impl Checking {
    pub fn new(target: &str, checked: bool) -> (r: Checking)
        ensures
            r@ == (CheckingV { target: target@, checked, clicked: false }),
    {
        Checking { target: target.to_string(), checked, clicked: false }
    }

    /// What follows from the state that the box is in.
    pub fn set_checked(&mut self, state: &Json) -> (r: CheckStep)
        ensures
            (r@, final(self)@) == old(self)@.step(state@),
    {
        let right = match state.as_bool() {
            Some(b) => b == self.checked,
            None => false,
        };
        if right {
            return CheckStep::Done;
        }
        if !self.clicked {
            self.clicked = true;
            return CheckStep::Click;
        }
        let mut s = text::concat("clicking ", &self.target);
        s.append(" did not ");
        s.append(if self.checked { "check" } else { "uncheck" });
        s.append(" it");
        CheckStep::Fail(s)
    }
}

/// A box is clicked at most once, and not at all where it is right already; whatever state the click
/// leaves it in, that is the end.
pub proof fn law_box_clicked_once(c: CheckingV, before: JsonV, after: JsonV)
    requires
        !c.clicked,
    ensures
        before.as_bool() == Some(c.checked) ==> c.step(before).0 == CheckStepV::Done,
        c.step(before).0 == CheckStepV::Click ==> {
            let last = c.step(before).1.step(after).0;
            if after.as_bool() == Some(c.checked) {
                last == CheckStepV::Done
            } else {
                last is Fail
            }
        },
{
}

// ---------------------------------------------------------------------- elements in the page's own world

/// Asks for the node of an element.
pub fn describe_node(session: &str, object: &str) -> (r: Command)
    ensures
        r@ == cdp::to_session(
            session@,
            "DOM.describeNode"@,
            JsonV::obj().with("objectId"@, JsonV::Str(object@)),
        ),
{
    Command::session(session, "DOM.describeNode", Json::obj().with("objectId", Json::str(object)))
}

/// Asks for a node as an object of the page's own world.
pub fn resolve_node(session: &str, described: &Json) -> (r: Command)
    ensures
        r@ == cdp::to_session(
            session@,
            "DOM.resolveNode"@,
            JsonV::obj().with("backendNodeId"@, described@.at("node"@).at("backendNodeId"@)),
        ),
{
    Command::session(
        session,
        "DOM.resolveNode",
        Json::obj().with("backendNodeId", described.at("node").at("backendNodeId").clone()),
    )
}

/// The object that a node became.
pub fn resolved(res: &Json) -> (r: Result<String, String>)
    ensures
        match (res@.at("object"@).at("objectId"@).as_text(), r) {
            (Some(t), Ok(s)) => s@ == t,
            (None, Err(e)) => e@ == "could not resolve element in page world"@,
            _ => false,
        },
{
    match res.at("object").at("objectId").as_text() {
        Some(t) => Ok(t),
        None => Err("could not resolve element in page world".to_string()),
    }
}

/// Puts files into a file input.
pub fn set_files(session: &str, node: i64, paths: &Vec<String>) -> (r: Command)
    ensures
        r@ == cdp::to_session(
            session@,
            "DOM.setFileInputFiles"@,
            JsonV::obj().with("files"@, json::str_list(text::views(paths@))).with(
                "backendNodeId"@,
                JsonV::Int(node as int),
            ),
        ),
{
    Command::session(
        session,
        "DOM.setFileInputFiles",
        Json::obj().with("files", Json::strs(paths)).with("backendNodeId", Json::num(node)),
    )
}

/// Typing slowly gives the element the focus and types the text key by key; else the text is filled in at
/// once. Where the text is submitted, that comes last.
pub proof fn law_typing_steps(session: Text, t: Text, submit: bool)
    ensures
        type_plan(session, t, true, false) == seq![
            TypeStepV::Focus,
            TypeStepV::Keys(input::type_commands(session, t)),
        ],
        type_plan(session, t, false, false) == seq![TypeStepV::Fill],
        type_plan(session, t, true, true) == type_plan(session, t, true, false).push(TypeStepV::Submit),
        type_plan(session, t, false, true) == type_plan(session, t, false, false).push(TypeStepV::Submit),
{
    assert(type_plan(session, t, true, false) =~= seq![
        TypeStepV::Focus,
        TypeStepV::Keys(input::type_commands(session, t)),
    ]);
    assert(type_plan(session, t, false, false) =~= seq![TypeStepV::Fill]);
    assert(type_plan(session, t, true, true) =~= type_plan(session, t, true, false).push(TypeStepV::Submit));
    assert(type_plan(session, t, false, true) =~= type_plan(session, t, false, false).push(TypeStepV::Submit));
}

/// A box that is not in the state that is asked for is clicked, and a click that did not help is told.
pub proof fn law_boxes_are_clicked(c: CheckingV, state: JsonV)
    ensures
        c.step(state).0 == CheckStepV::Done <==> state == JsonV::Bool(c.checked),
        state != JsonV::Bool(c.checked) && !c.clicked ==> c.step(state) == (
            CheckStepV::Click,
            CheckingV { clicked: true, ..c },
        ),
        state != JsonV::Bool(c.checked) && c.clicked && c.checked ==> c.step(state).0 == CheckStepV::Fail(
            "clicking "@ + c.target + " did not "@ + "check"@ + " it"@,
        ),
        state != JsonV::Bool(c.checked) && c.clicked && !c.checked ==> c.step(state).0 == CheckStepV::Fail(
            "clicking "@ + c.target + " did not "@ + "uncheck"@ + " it"@,
        ),
{
}

} // verus!
