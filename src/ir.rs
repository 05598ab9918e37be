//! The intermediate representation: events, their action trees, and the
//! whole program, with their mathematical views.
use vstd::prelude::*;

verus! {

/// The kinds of event a handler can be declared for.
pub enum Events {
    DefineFunction(u64, u64),
    WhenWebsiteLoaded,
    WhenButtonPressed(String),
    WhenKeyPressed(String),
    WhenMouseEntersObject(String),
    WhenMouseLeavesObject(String),
    WhenDonationBought(String),
    WhenInputSubmitted(String),
    WhenMessageReceived,
}

pub enum EventsV {
    DefineFunction(u64, u64),
    WhenWebsiteLoaded,
    WhenButtonPressed(Seq<char>),
    WhenKeyPressed(Seq<char>),
    WhenMouseEntersObject(Seq<char>),
    WhenMouseLeavesObject(Seq<char>),
    WhenDonationBought(Seq<char>),
    WhenInputSubmitted(Seq<char>),
    WhenMessageReceived,
}

impl View for Events {
    type V = EventsV;

    open spec fn view(&self) -> EventsV {
        match self {
            Events::DefineFunction(a, b) => EventsV::DefineFunction(*a, *b),
            Events::WhenWebsiteLoaded => EventsV::WhenWebsiteLoaded,
            Events::WhenButtonPressed(s) => EventsV::WhenButtonPressed(s@),
            Events::WhenKeyPressed(s) => EventsV::WhenKeyPressed(s@),
            Events::WhenMouseEntersObject(s) => EventsV::WhenMouseEntersObject(s@),
            Events::WhenMouseLeavesObject(s) => EventsV::WhenMouseLeavesObject(s@),
            Events::WhenDonationBought(s) => EventsV::WhenDonationBought(s@),
            Events::WhenInputSubmitted(s) => EventsV::WhenInputSubmitted(s@),
            Events::WhenMessageReceived => EventsV::WhenMessageReceived,
        }
    }
}

/// One statement of a handler body. Operands are text; a variable reference
/// is written `{name}`. Block variants own their nested body.
pub enum Actions {
    Log(String),
    Warn(String),
    Error(String),
    Wait(String),
    IfEqual(String, String, Vec<Actions>),
    IfNotEqual(String, String, Vec<Actions>),
    IfGreater(String, String, Vec<Actions>),
    IfLower(String, String, Vec<Actions>),
    IfContains(String, String, Vec<Actions>),
    IfNotContains(String, String, Vec<Actions>),
    IfAND(String, String, Vec<Actions>),
    IfOR(String, String, Vec<Actions>),
    IfNOR(String, String, Vec<Actions>),
    IfXOR(String, String, Vec<Actions>),
    RepeatTimes(String, Vec<Actions>),
    RepeatForever(Vec<Actions>),
    Break,
    DeleteVariable(String),
    SetVariable(String, String),
    Add(String, String),
    Subtract(String, String),
    Multiply(String, String),
    Divide(String, String),
    Exponentiation(String, String),
    Modulo(String, String),
    Round(String),
    Floor(String),
    Ceil(String),
    RunMathFunction(String, String),
    RandomIntBetween(String, String, String),
}

/// The mathematical value of an action tree.
pub enum ActionV {
    Log(Seq<char>),
    Warn(Seq<char>),
    Error(Seq<char>),
    Wait(Seq<char>),
    IfEqual(Seq<char>, Seq<char>, Seq<ActionV>),
    IfNotEqual(Seq<char>, Seq<char>, Seq<ActionV>),
    IfGreater(Seq<char>, Seq<char>, Seq<ActionV>),
    IfLower(Seq<char>, Seq<char>, Seq<ActionV>),
    IfContains(Seq<char>, Seq<char>, Seq<ActionV>),
    IfNotContains(Seq<char>, Seq<char>, Seq<ActionV>),
    IfAND(Seq<char>, Seq<char>, Seq<ActionV>),
    IfOR(Seq<char>, Seq<char>, Seq<ActionV>),
    IfNOR(Seq<char>, Seq<char>, Seq<ActionV>),
    IfXOR(Seq<char>, Seq<char>, Seq<ActionV>),
    RepeatTimes(Seq<char>, Seq<ActionV>),
    RepeatForever(Seq<ActionV>),
    Break,
    DeleteVariable(Seq<char>),
    SetVariable(Seq<char>, Seq<char>),
    Add(Seq<char>, Seq<char>),
    Subtract(Seq<char>, Seq<char>),
    Multiply(Seq<char>, Seq<char>),
    Divide(Seq<char>, Seq<char>),
    Exponentiation(Seq<char>, Seq<char>),
    Modulo(Seq<char>, Seq<char>),
    Round(Seq<char>),
    Floor(Seq<char>),
    Ceil(Seq<char>),
    RunMathFunction(Seq<char>, Seq<char>),
    RandomIntBetween(Seq<char>, Seq<char>, Seq<char>),
}

pub open spec fn action_view(a: Actions) -> ActionV
    decreases a, 0nat,
{
    match a {
        Actions::Log(x0) => ActionV::Log(x0@),
        Actions::Warn(x0) => ActionV::Warn(x0@),
        Actions::Error(x0) => ActionV::Error(x0@),
        Actions::Wait(x0) => ActionV::Wait(x0@),
        Actions::IfEqual(x0, x1, x2) => ActionV::IfEqual(x0@, x1@, actions_view(x2@)),
        Actions::IfNotEqual(x0, x1, x2) => ActionV::IfNotEqual(x0@, x1@, actions_view(x2@)),
        Actions::IfGreater(x0, x1, x2) => ActionV::IfGreater(x0@, x1@, actions_view(x2@)),
        Actions::IfLower(x0, x1, x2) => ActionV::IfLower(x0@, x1@, actions_view(x2@)),
        Actions::IfContains(x0, x1, x2) => ActionV::IfContains(x0@, x1@, actions_view(x2@)),
        Actions::IfNotContains(x0, x1, x2) => ActionV::IfNotContains(x0@, x1@, actions_view(x2@)),
        Actions::IfAND(x0, x1, x2) => ActionV::IfAND(x0@, x1@, actions_view(x2@)),
        Actions::IfOR(x0, x1, x2) => ActionV::IfOR(x0@, x1@, actions_view(x2@)),
        Actions::IfNOR(x0, x1, x2) => ActionV::IfNOR(x0@, x1@, actions_view(x2@)),
        Actions::IfXOR(x0, x1, x2) => ActionV::IfXOR(x0@, x1@, actions_view(x2@)),
        Actions::RepeatTimes(x0, x1) => ActionV::RepeatTimes(x0@, actions_view(x1@)),
        Actions::RepeatForever(x0) => ActionV::RepeatForever(actions_view(x0@)),
        Actions::Break => ActionV::Break,
        Actions::DeleteVariable(x0) => ActionV::DeleteVariable(x0@),
        Actions::SetVariable(x0, x1) => ActionV::SetVariable(x0@, x1@),
        Actions::Add(x0, x1) => ActionV::Add(x0@, x1@),
        Actions::Subtract(x0, x1) => ActionV::Subtract(x0@, x1@),
        Actions::Multiply(x0, x1) => ActionV::Multiply(x0@, x1@),
        Actions::Divide(x0, x1) => ActionV::Divide(x0@, x1@),
        Actions::Exponentiation(x0, x1) => ActionV::Exponentiation(x0@, x1@),
        Actions::Modulo(x0, x1) => ActionV::Modulo(x0@, x1@),
        Actions::Round(x0) => ActionV::Round(x0@),
        Actions::Floor(x0) => ActionV::Floor(x0@),
        Actions::Ceil(x0) => ActionV::Ceil(x0@),
        Actions::RunMathFunction(x0, x1) => ActionV::RunMathFunction(x0@, x1@),
        Actions::RandomIntBetween(x0, x1, x2) => ActionV::RandomIntBetween(x0@, x1@, x2@),
    }
}

pub open spec fn actions_view(s: Seq<Actions>) -> Seq<ActionV>
    decreases s, s.len(),
{
    if s.len() == 0 {
        Seq::empty()
    } else {
        actions_view(s.subrange(0, s.len() - 1)).push(action_view(s[s.len() - 1]))
    }
}

impl View for Actions {
    type V = ActionV;

    open spec fn view(&self) -> ActionV {
        action_view(*self)
    }
}

/// One declared handler: its event, its actions, and its (reserved) local
/// variable slots.
pub struct EventNode {
    pub event: Events,
    pub actions: Vec<Actions>,
    pub local_variables: Vec<u64>,
}

pub struct EventNodeV {
    pub event: EventsV,
    pub actions: Seq<ActionV>,
    pub local_variables: Seq<u64>,
}

impl View for EventNode {
    type V = EventNodeV;

    open spec fn view(&self) -> EventNodeV {
        EventNodeV {
            event: self.event@,
            actions: actions_view(self.actions@),
            local_variables: self.local_variables@,
        }
    }
}

/// A whole compiled unit: its handlers in order and its (reserved) global
/// variable slots.
pub struct CompileTimeAppIR {
    pub events: Vec<EventNode>,
    pub globals: Vec<u64>,
}

pub struct ProgramV {
    pub events: Seq<EventNodeV>,
    pub globals: Seq<u64>,
}

impl View for CompileTimeAppIR {
    type V = ProgramV;

    open spec fn view(&self) -> ProgramV {
        ProgramV { events: self.events@.map_values(|e: EventNode| e@), globals: self.globals@ }
    }
}

/// Why a compilation stopped.
#[derive(PartialEq, Eq, Structural, Clone, Copy, Debug)]
pub enum CompileError {
    /// An argument list does not start with `(`.
    ExpectedArguments,
    /// An argument is not a string, a number or a word.
    InvalidArgument,
    /// `object` is not followed by a string or a word.
    ExpectedObjectName,
    /// An argument is followed by something other than `,` or `)`.
    UnexpectedTokenInArguments,
    /// The input ends inside an argument list.
    UnclosedArguments,
    /// A builtin got the wrong number of arguments or lacks its `;`.
    WrongArity,
    /// `break` is not followed by `;`.
    MissingSemicolon,
    /// A statement does not start with a known builtin keyword.
    UnknownBuiltin,
    /// The input ends inside a braced body.
    UnclosedBlock,
    /// `event` is not followed by a word.
    ExpectedEventName,
    /// The event name and argument count match no known event.
    UnknownEvent,
    /// The event's argument list is not followed by `:`.
    MissingColon,
    /// A top-level item does not start with `event`.
    UnknownTopLevel,
    /// The code generator has no mapping for an action.
    UnsupportedAction,
    /// The code generator has no mapping for an event.
    UnsupportedEvent,
}

} // verus!
