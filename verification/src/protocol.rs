//! The order of remote calls that reads or changes a function's environment.
//!
//! Nothing here talks to the remote side. An operation is a [`State`]; the
//! caller carries out the [`Action`] it was handed, reports what came back as
//! an [`Event`], and is handed the next action, until that is
//! [`Action::Finish`]. A change is a read followed by a full replacement: the
//! environment is fetched, the request is merged into what was fetched, and
//! the result is written back whole. Nothing guards the time between the two
//! calls, so a change made elsewhere in between is overwritten.

use crate::config::{env, FunctionConfiguration};
use crate::error::Error;
use crate::mapping::{Env, Text, Variables};
use crate::merge::{merge, Request};
use vstd::prelude::*;

verus! {

/// Where an operation stands.
#[derive(Debug, PartialEq)]
pub enum State {
    /// The function's configuration has been asked for. `request` is the
    /// change to make once it is known, or `None` for a plain read.
    Fetching { function_name: String, request: Option<Request> },
    /// The new environment has been sent.
    Updating,
    /// The operation is over.
    Finished,
}

/// What came back from the remote side.
#[derive(Debug, PartialEq)]
pub enum Event<G, U> {
    /// The outcome of asking for the configuration.
    Fetched(Result<FunctionConfiguration, G>),
    /// The outcome of replacing the environment.
    Updated(Result<FunctionConfiguration, U>),
}

/// What the caller has to do next.
#[derive(Debug, PartialEq)]
pub enum Action<G, U> {
    /// Ask for the configuration of the function.
    GetFunctionConfiguration { function_name: String },
    /// Replace the whole environment of the function with `variables`.
    UpdateFunctionConfiguration { function_name: String, variables: Env },
    /// Stop: this is the outcome of the operation.
    Finish(Result<Env, Error<G, U>>),
    /// The event was not the one the operation waits for, and was dropped.
    Nothing,
}

/// An [`Action`] as the contracts see it.
pub enum ActionView<G, U> {
    GetFunctionConfiguration { function_name: Text },
    UpdateFunctionConfiguration { function_name: Text, variables: Variables },
    Finish(Result<Variables, Error<G, U>>),
    Nothing,
}

impl<G, U> View for Action<G, U> {
    type V = ActionView<G, U>;

    open spec fn view(&self) -> ActionView<G, U> {
        match *self {
            Action::GetFunctionConfiguration { function_name } => {
                ActionView::GetFunctionConfiguration { function_name: function_name@ }
            },
            Action::UpdateFunctionConfiguration { function_name, variables } => {
                ActionView::UpdateFunctionConfiguration {
                    function_name: function_name@,
                    variables: variables@,
                }
            },
            Action::Finish(Ok(variables)) => ActionView::Finish(Ok(variables@)),
            Action::Finish(Err(error)) => ActionView::Finish(Err(error)),
            Action::Nothing => ActionView::Nothing,
        }
    }
}

impl State {
    /// The state after `event`.
    ///
    /// A successful fetch leads on to the update where a change was asked
    /// for; every other outcome of a call that was waited for ends the
    /// operation. An event that was not waited for changes nothing.
    pub open spec fn next<G, U>(self, event: Event<G, U>) -> State {
        match (self, event) {
            (State::Fetching { request: Some(_), .. }, Event::Fetched(Ok(_))) => State::Updating,
            (State::Fetching { .. }, Event::Fetched(_)) => State::Finished,
            (State::Updating, Event::Updated(_)) => State::Finished,
            _ => self,
        }
    }

    /// The action that `event` calls for.
    ///
    /// A failed fetch finishes with [`Error::GetConfig`], a failed update
    /// with [`Error::UpdateConfig`], each carrying the cause as it came. A
    /// successful fetch finishes a read with the variables of what was
    /// fetched, and leads a change on to the replacement of the environment
    /// by what the request makes of them. A successful update finishes with
    /// the variables that the remote side reports back.
    pub open spec fn action<G, U>(self, event: Event<G, U>) -> ActionView<G, U> {
        match (self, event) {
            (
                State::Fetching { function_name, request: Some(request) },
                Event::Fetched(Ok(conf)),
            ) => {
                ActionView::UpdateFunctionConfiguration {
                    function_name: function_name@,
                    variables: request.applied_to(conf.variables()),
                }
            },
            (State::Fetching { request: None, .. }, Event::Fetched(Ok(conf))) => {
                ActionView::Finish(Ok(conf.variables()))
            },
            (State::Fetching { .. }, Event::Fetched(Err(cause))) => {
                ActionView::Finish(Err(Error::GetConfig(cause)))
            },
            (State::Updating, Event::Updated(Ok(conf))) => ActionView::Finish(Ok(conf.variables())),
            (State::Updating, Event::Updated(Err(cause))) => {
                ActionView::Finish(Err(Error::UpdateConfig(cause)))
            },
            _ => ActionView::Nothing,
        }
    }

    /// Takes in what came back from the remote side and says what to do
    /// next.
    pub fn step<G, U>(self, event: Event<G, U>) -> (outcome: (State, Action<G, U>))
        ensures
            outcome.0 == self.next(event),
            outcome.1@ == self.action(event),
    {
        match self {
            State::Fetching { function_name, request } => match event {
                Event::Fetched(Ok(conf)) => {
                    let current = env(conf);
                    match request {
                        Some(request) => {
                            let variables = merge(current, &request);
                            (
                                State::Updating,
                                Action::UpdateFunctionConfiguration { function_name, variables },
                            )
                        },
                        None => (State::Finished, Action::Finish(Ok(current))),
                    }
                },
                Event::Fetched(Err(cause)) => (
                    State::Finished,
                    Action::Finish(Err(Error::from_get(cause))),
                ),
                Event::Updated(_) => (State::Fetching { function_name, request }, Action::Nothing),
            },
            State::Updating => match event {
                Event::Updated(Ok(conf)) => (State::Finished, Action::Finish(Ok(env(conf)))),
                Event::Updated(Err(cause)) => (
                    State::Finished,
                    Action::Finish(Err(Error::from_update(cause))),
                ),
                Event::Fetched(_) => (State::Updating, Action::Nothing),
            },
            State::Finished => (State::Finished, Action::Nothing),
        }
    }
}

/// Starts an operation on `function`: a change where `request` holds one, a
/// plain read where it holds none. The first action is always the fetch.
fn start<G, U>(function: String, request: Option<Request>) -> (begun: (State, Action<G, U>))
    ensures
        begun.0 == (State::Fetching { function_name: function, request }),
        begun.1@ == (ActionView::<G, U>::GetFunctionConfiguration { function_name: function@ }),
{
    let function_name = function.clone();
    (State::Fetching { function_name: function, request }, Action::GetFunctionConfiguration {
        function_name,
    })
}

/// Starts reading the environment of `function`.
pub fn get<G, U>(function: String) -> (begun: (State, Action<G, U>))
    ensures
        begun.0 == (State::Fetching { function_name: function, request: None }),
        begun.1@ == (ActionView::<G, U>::GetFunctionConfiguration { function_name: function@ }),
{
    start(function, None)
}

/// Starts changing the environment of `function` as `request` asks.
pub fn mutate<G, U>(function: String, request: Request) -> (begun: (State, Action<G, U>))
    ensures
        begun.0 == (State::Fetching { function_name: function, request: Some(request) }),
        begun.1@ == (ActionView::<G, U>::GetFunctionConfiguration { function_name: function@ }),
{
    start(function, Some(request))
}

/// Starts setting each name of `vars` to the value beside it in the
/// environment of `function`.
pub fn set<G, U>(function: String, vars: Vec<(String, String)>) -> (begun: (State, Action<G, U>))
    ensures
        begun.0 == (State::Fetching {
            function_name: function,
            request: Some(Request::Assign(vars)),
        }),
        begun.1@ == (ActionView::<G, U>::GetFunctionConfiguration { function_name: function@ }),
{
    mutate(function, Request::Assign(vars))
}

/// Starts unsetting `names` in the environment of `function`.
pub fn unset<G, U>(function: String, names: Vec<String>) -> (begun: (State, Action<G, U>))
    ensures
        begun.0 == (State::Fetching {
            function_name: function,
            request: Some(Request::Remove(names)),
        }),
        begun.1@ == (ActionView::<G, U>::GetFunctionConfiguration { function_name: function@ }),
{
    mutate(function, Request::Remove(names))
}

/// The actions that a run of events calls for, one for each event, when the
/// operation stands at `state` before the first.
pub open spec fn actions<G, U>(state: State, events: Seq<Event<G, U>>) -> Seq<ActionView<G, U>>
    decreases events.len(),
{
    if events.len() == 0 {
        Seq::empty()
    } else {
        seq![state.action(events[0])] + actions(state.next(events[0]), events.drop_first())
    }
}

/// A read is one fetch: it ends with the variables of what was fetched, or
/// with [`Error::GetConfig`] and the cause.
pub proof fn lemma_read_is_one_fetch<G, U>(
    function_name: String,
    fetched: Result<FunctionConfiguration, G>,
)
    ensures
        actions(
            State::Fetching { function_name, request: None },
            seq![Event::<G, U>::Fetched(fetched)],
        ) == seq![
            ActionView::<G, U>::Finish(
                match fetched {
                    Ok(conf) => Ok(conf.variables()),
                    Err(cause) => Err(Error::GetConfig(cause)),
                },
            ),
        ],
{
    let state = State::Fetching { function_name, request: None };
    let events = seq![Event::<G, U>::Fetched(fetched)];
    assert(events.drop_first() =~= Seq::empty());
    assert(actions(state.next(events[0]), events.drop_first()) =~= Seq::empty());
    assert(actions(state, events) =~= seq![state.action(events[0])]);
}

/// A change whose fetch succeeds is that fetch and one update: the update
/// replaces the environment by what the request makes of the variables
/// fetched, and the change ends with the variables that the update reports
/// back, or with [`Error::UpdateConfig`] and the cause.
pub proof fn lemma_change_is_fetch_then_update<G, U>(
    function_name: String,
    request: Request,
    fetched: FunctionConfiguration,
    updated: Result<FunctionConfiguration, U>,
)
    ensures
        actions(
            State::Fetching { function_name, request: Some(request) },
            seq![Event::<G, U>::Fetched(Ok(fetched)), Event::<G, U>::Updated(updated)],
        ) == seq![
            ActionView::<G, U>::UpdateFunctionConfiguration {
                function_name: function_name@,
                variables: request.applied_to(fetched.variables()),
            },
            ActionView::<G, U>::Finish(
                match updated {
                    Ok(conf) => Ok(conf.variables()),
                    Err(cause) => Err(Error::UpdateConfig(cause)),
                },
            ),
        ],
{
    let state = State::Fetching { function_name, request: Some(request) };
    let events = seq![Event::<G, U>::Fetched(Ok(fetched)), Event::<G, U>::Updated(updated)];
    let rest = events.drop_first();
    assert(rest =~= seq![Event::<G, U>::Updated(updated)]);
    assert(rest.drop_first() =~= Seq::empty());
    assert(state.next(events[0]) == State::Updating);
    assert(actions(State::Updating.next(rest[0]), rest.drop_first()) =~= Seq::empty());
    assert(actions(State::Updating, rest) =~= seq![State::Updating.action(rest[0])]);
    assert(actions(state, events) =~= seq![state.action(events[0])] + actions(
        State::Updating,
        rest,
    ));
}

/// Once an operation is over, no event calls for anything.
pub proof fn lemma_finished_stays_quiet<G, U>(events: Seq<Event<G, U>>)
    ensures
        actions(State::Finished, events).len() == events.len(),
        forall|i: int|
            0 <= i < events.len() ==> #[trigger] actions(State::Finished, events)[i]
                == ActionView::<G, U>::Nothing,
    decreases events.len(),
{
    if events.len() > 0 {
        lemma_finished_stays_quiet(events.drop_first());
    }
}

/// When the fetch fails, the operation ends there with
/// [`Error::GetConfig`] and the cause, and the environment is never
/// replaced: whatever is reported afterwards, no action asks for an update.
pub proof fn lemma_failed_fetch_never_updates<G, U>(
    function_name: String,
    request: Option<Request>,
    cause: G,
    later: Seq<Event<G, U>>,
)
    ensures
        ({
            let state = State::Fetching { function_name, request };
            let events = seq![Event::<G, U>::Fetched(Err(cause))] + later;
            &&& actions(state, events).len() == events.len()
            &&& actions(state, events)[0] == ActionView::<G, U>::Finish(
                Err(Error::GetConfig(cause)),
            )
            &&& forall|i: int|
                0 <= i < events.len() ==> !(#[trigger] actions(state, events)[i]
                    is UpdateFunctionConfiguration)
        }),
{
    let state = State::Fetching { function_name, request };
    let events = seq![Event::<G, U>::Fetched(Err(cause))] + later;
    assert(events.drop_first() =~= later);
    assert(state.next(events[0]) == State::Finished);
    lemma_finished_stays_quiet(later);
}

/// An update is asked for only in answer to a successful fetch, by an
/// operation that waits for the fetch and holds a change to make.
pub proof fn lemma_update_only_after_fetch<G, U>(state: State, event: Event<G, U>)
    requires
        state.action(event) is UpdateFunctionConfiguration,
    ensures
        state matches State::Fetching { request: Some(_), .. },
        event matches Event::Fetched(Ok(_)),
        state.next(event) == State::Updating,
{
}

} // verus!
