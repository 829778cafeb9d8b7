//! The service as a whole: a request picks a handler, and the handler runs
//! against a store, one statement at a time, until it answers.

use crate::laws::failures::{law_all_or_nothing, same_tables};
use crate::laws::outcome::{law_outcome, outcome};
use crate::models::category::{
    ChangeCategory, ChangeCategoryView, NewCategory, NewCategoryView,
};
use crate::services::categories::{
    categories_change, categories_create, categories_delete, categories_get, categories_list,
    CategoriesChange, CategoriesChangeView, CategoriesCreate, CategoriesCreateView,
    CategoriesDelete, CategoriesDeleteView, CategoriesGet, CategoriesGetView, CategoriesList,
};
use crate::services::hello::{hello, Hello};
use crate::services::recipes::{
    recipes_change, recipes_create, recipes_delete, recipes_get, recipes_list, ChangeRecipeBody,
    ChangeRecipeBodyView, NewRecipeBody, NewRecipeBodyView, RecipesChange, RecipesChangeView,
    RecipesCreate, RecipesCreateView, RecipesDelete, RecipesDeleteView, RecipesGet,
    RecipesGetView, RecipesList, RecipesListView,
};
use crate::services::response::{Response, ResponseView};
use crate::services::step::{Step, StepView};
use crate::store::memory::{Connection, Store};
use crate::store::model::{Database, Session};
use crate::store::statement::{Reply, ReplyView};
use vstd::prelude::*;

verus! {

/// A request as the router hands it over: the endpoint, with the id from
/// the path and the decoded body where the endpoint takes them.
#[derive(Debug, Clone, PartialEq, Eq)]
#[allow(inconsistent_fields)]
pub enum Request {
    Hello,
    RecipesList,
    RecipesGet { id: i32 },
    RecipesCreate { body: NewRecipeBody },
    RecipesChange { id: i32, body: ChangeRecipeBody },
    RecipesDelete { id: i32 },
    CategoriesList,
    CategoriesGet { id: i32 },
    CategoriesCreate { category: NewCategory },
    CategoriesChange { id: i32, changes: ChangeCategory },
    CategoriesDelete { id: i32 },
}

/// `Request` as a mathematical value.
#[allow(inconsistent_fields)]
pub enum RequestView {
    Hello,
    RecipesList,
    RecipesGet { id: int },
    RecipesCreate { body: NewRecipeBodyView },
    RecipesChange { id: int, body: ChangeRecipeBodyView },
    RecipesDelete { id: int },
    CategoriesList,
    CategoriesGet { id: int },
    CategoriesCreate { category: NewCategoryView },
    CategoriesChange { id: int, changes: ChangeCategoryView },
    CategoriesDelete { id: int },
}

impl View for Request {
    type V = RequestView;

    open spec fn view(&self) -> RequestView {
        match self {
            Request::Hello => RequestView::Hello,
            Request::RecipesList => RequestView::RecipesList,
            Request::RecipesGet { id } => RequestView::RecipesGet { id: *id as int },
            Request::RecipesCreate { body } => RequestView::RecipesCreate { body: body@ },
            Request::RecipesChange { id, body } => RequestView::RecipesChange {
                id: *id as int,
                body: body@,
            },
            Request::RecipesDelete { id } => RequestView::RecipesDelete { id: *id as int },
            Request::CategoriesList => RequestView::CategoriesList,
            Request::CategoriesGet { id } => RequestView::CategoriesGet { id: *id as int },
            Request::CategoriesCreate { category } => RequestView::CategoriesCreate {
                category: category@,
            },
            Request::CategoriesChange { id, changes } => RequestView::CategoriesChange {
                id: *id as int,
                changes: changes@,
            },
            Request::CategoriesDelete { id } => RequestView::CategoriesDelete { id: *id as int },
        }
    }
}

/// The handler of a request in the state it has reached.
#[derive(Debug, Clone, PartialEq, Eq)]
pub enum Handler {
    Hello(Hello),
    RecipesList(RecipesList),
    RecipesGet(RecipesGet),
    RecipesCreate(RecipesCreate),
    RecipesChange(RecipesChange),
    RecipesDelete(RecipesDelete),
    CategoriesList(CategoriesList),
    CategoriesGet(CategoriesGet),
    CategoriesCreate(CategoriesCreate),
    CategoriesChange(CategoriesChange),
    CategoriesDelete(CategoriesDelete),
}

/// `Handler` as a mathematical value.
pub enum HandlerView {
    Hello(Hello),
    RecipesList(RecipesListView),
    RecipesGet(RecipesGetView),
    RecipesCreate(RecipesCreateView),
    RecipesChange(RecipesChangeView),
    RecipesDelete(RecipesDeleteView),
    CategoriesList(CategoriesList),
    CategoriesGet(CategoriesGetView),
    CategoriesCreate(CategoriesCreateView),
    CategoriesChange(CategoriesChangeView),
    CategoriesDelete(CategoriesDeleteView),
}

impl View for Handler {
    type V = HandlerView;

    open spec fn view(&self) -> HandlerView {
        match self {
            Handler::Hello(state) => HandlerView::Hello(state@),
            Handler::RecipesList(state) => HandlerView::RecipesList(state@),
            Handler::RecipesGet(state) => HandlerView::RecipesGet(state@),
            Handler::RecipesCreate(state) => HandlerView::RecipesCreate(state@),
            Handler::RecipesChange(state) => HandlerView::RecipesChange(state@),
            Handler::RecipesDelete(state) => HandlerView::RecipesDelete(state@),
            Handler::CategoriesList(state) => HandlerView::CategoriesList(state@),
            Handler::CategoriesGet(state) => HandlerView::CategoriesGet(state@),
            Handler::CategoriesCreate(state) => HandlerView::CategoriesCreate(state@),
            Handler::CategoriesChange(state) => HandlerView::CategoriesChange(state@),
            Handler::CategoriesDelete(state) => HandlerView::CategoriesDelete(state@),
        }
    }
}

/// The step of one handler as a step of the service.
pub open spec fn lifted<S>(step: StepView<S>, wrap: spec_fn(S) -> HandlerView) -> StepView<
    HandlerView,
> {
    match step {
        StepView::Run { statement, next } => StepView::Run { statement, next: wrap(next) },
        StepView::Respond { response } => StepView::Respond { response },
    }
}

impl HandlerView {
    /// The handler of a request, waiting for its connection.
    pub open spec fn start(request: RequestView) -> HandlerView {
        match request {
            RequestView::Hello => HandlerView::Hello(Hello::Connecting),
            RequestView::RecipesList => HandlerView::RecipesList(RecipesListView::Connecting),
            RequestView::RecipesGet { id } => HandlerView::RecipesGet(
                RecipesGetView::Connecting { id },
            ),
            RequestView::RecipesCreate { body } => HandlerView::RecipesCreate(
                RecipesCreateView::Connecting { body },
            ),
            RequestView::RecipesChange { id, body } => HandlerView::RecipesChange(
                RecipesChangeView::Connecting { id, body },
            ),
            RequestView::RecipesDelete { id } => HandlerView::RecipesDelete(
                RecipesDeleteView::Connecting { id },
            ),
            RequestView::CategoriesList => HandlerView::CategoriesList(CategoriesList::Connecting),
            RequestView::CategoriesGet { id } => HandlerView::CategoriesGet(
                CategoriesGetView::Connecting { id },
            ),
            RequestView::CategoriesCreate { category } => HandlerView::CategoriesCreate(
                CategoriesCreateView::Connecting { category },
            ),
            RequestView::CategoriesChange { id, changes } => HandlerView::CategoriesChange(
                CategoriesChangeView::Connecting { id, changes },
            ),
            RequestView::CategoriesDelete { id } => HandlerView::CategoriesDelete(
                CategoriesDeleteView::Connecting { id },
            ),
        }
    }

    /// The transition of the handler in charge.
    pub open spec fn step(self, reply: ReplyView) -> StepView<HandlerView> {
        match self {
            HandlerView::Hello(state) => lifted(
                state.step(reply),
                |next: Hello| HandlerView::Hello(next),
            ),
            HandlerView::RecipesList(state) => lifted(
                state.step(reply),
                |next: RecipesListView| HandlerView::RecipesList(next),
            ),
            HandlerView::RecipesGet(state) => lifted(
                state.step(reply),
                |next: RecipesGetView| HandlerView::RecipesGet(next),
            ),
            HandlerView::RecipesCreate(state) => lifted(
                state.step(reply),
                |next: RecipesCreateView| HandlerView::RecipesCreate(next),
            ),
            HandlerView::RecipesChange(state) => lifted(
                state.step(reply),
                |next: RecipesChangeView| HandlerView::RecipesChange(next),
            ),
            HandlerView::RecipesDelete(state) => lifted(
                state.step(reply),
                |next: RecipesDeleteView| HandlerView::RecipesDelete(next),
            ),
            HandlerView::CategoriesList(state) => lifted(
                state.step(reply),
                |next: CategoriesList| HandlerView::CategoriesList(next),
            ),
            HandlerView::CategoriesGet(state) => lifted(
                state.step(reply),
                |next: CategoriesGetView| HandlerView::CategoriesGet(next),
            ),
            HandlerView::CategoriesCreate(state) => lifted(
                state.step(reply),
                |next: CategoriesCreateView| HandlerView::CategoriesCreate(next),
            ),
            HandlerView::CategoriesChange(state) => lifted(
                state.step(reply),
                |next: CategoriesChangeView| HandlerView::CategoriesChange(next),
            ),
            HandlerView::CategoriesDelete(state) => lifted(
                state.step(reply),
                |next: CategoriesDeleteView| HandlerView::CategoriesDelete(next),
            ),
        }
    }

    /// A bound on the transitions still to come, the one on `reply`
    /// included, where the store holds `stored` recipes.
    pub open spec fn budget(self, reply: ReplyView, stored: nat) -> nat {
        match self {
            HandlerView::Hello(state) => state.budget(),
            HandlerView::RecipesList(state) => state.budget(reply, stored),
            HandlerView::RecipesGet(state) => state.budget(),
            HandlerView::RecipesCreate(state) => state.budget(),
            HandlerView::RecipesChange(state) => state.budget(),
            HandlerView::RecipesDelete(state) => state.budget(),
            HandlerView::CategoriesList(state) => state.budget(),
            HandlerView::CategoriesGet(state) => state.budget(),
            HandlerView::CategoriesCreate(state) => state.budget(),
            HandlerView::CategoriesChange(state) => state.budget(),
            HandlerView::CategoriesDelete(state) => state.budget(),
        }
    }

    /// The handler run to its end against the store of `session`: each
    /// statement it sends is executed and the reply handed back, until it
    /// answers. The result is the session it leaves and its response.
    pub open spec fn run(self, session: Session, reply: ReplyView) -> (Session, ResponseView)
        decreases self.budget(reply, session.db.recipes.len()),
    {
        match self.step(reply) {
            StepView::Run { statement, next } => {
                proof {
                    lemma_budget_decreases(self, session, reply, false);
                }
                let (after, answer) = session.execute(statement);
                next.run(after, answer)
            },
            StepView::Respond { response } => (session, response),
        }
    }
}

/// Each transition of a creation leaves fewer to come.
proof fn lemma_create_budget(state: RecipesCreateView, reply: ReplyView)
    ensures
        state.step(reply) matches StepView::Run { statement, next } ==> next.budget()
            < state.budget(),
{
}

/// Each transition of a change leaves fewer to come.
proof fn lemma_change_budget(state: RecipesChangeView, reply: ReplyView)
    ensures
        state.step(reply) matches StepView::Run { statement, next } ==> next.budget()
            < state.budget(),
{
}

/// Each transition of a listing leaves fewer to come: there is one per
/// recipe that the store holds.
proof fn lemma_list_budget(state: RecipesListView, session: Session, reply: ReplyView, fails: bool)
    ensures
        state.step(reply) matches StepView::Run { statement, next } ==> next.budget(
            session.attempt(statement, fails).1,
            session.attempt(statement, fails).0.db.recipes.len(),
        ) < state.budget(reply, session.db.recipes.len()),
{
}

/// Each transition that sends a statement leaves fewer transitions to come,
/// whatever the store answers and whether the statement fails or not.
pub proof fn lemma_budget_decreases(
    handler: HandlerView,
    session: Session,
    reply: ReplyView,
    fails: bool,
)
    ensures
        handler.step(reply) matches StepView::Run { statement, next } ==> next.budget(
            session.attempt(statement, fails).1,
            session.attempt(statement, fails).0.db.recipes.len(),
        ) < handler.budget(reply, session.db.recipes.len()),
{
    match handler {
        HandlerView::RecipesList(state) => lemma_list_budget(state, session, reply, fails),
        HandlerView::RecipesCreate(state) => lemma_create_budget(state, reply),
        HandlerView::RecipesChange(state) => lemma_change_budget(state, reply),
        _ => {},
    }
}

/// The run of a request's handler on a fresh connection: the connection as
/// the handler leaves it, and the response.
pub open spec fn answered(db: Database, request: RequestView) -> (Session, ResponseView) {
    HandlerView::start(request).run(Session::open(db), ReplyView::Connected)
}

/// What a request does to a store and how it is answered.
pub open spec fn served(db: Database, request: RequestView) -> (Database, ResponseView) {
    (answered(db, request).0.db, answered(db, request).1)
}

/// True when the next statement is to fail.
pub open spec fn fails_next(failures: Seq<bool>) -> bool {
    failures.len() > 0 && failures[0]
}

/// The failures that are left after the next statement.
pub open spec fn later(failures: Seq<bool>) -> Seq<bool> {
    if failures.len() > 0 {
        failures.drop_first()
    } else {
        failures
    }
}

/// The handler run to its end against a store of which the `i`-th
/// statement from now fails where `failures[i]` says so.
pub open spec fn run_despite(
    handler: HandlerView,
    session: Session,
    reply: ReplyView,
    failures: Seq<bool>,
) -> (Session, ResponseView)
    decreases handler.budget(reply, session.db.recipes.len()),
{
    match handler.step(reply) {
        StepView::Run { statement, next } => {
            proof {
                lemma_budget_decreases(handler, session, reply, fails_next(failures));
            }
            let (after, answer) = session.attempt(statement, fails_next(failures));
            run_despite(next, after, answer, later(failures))
        },
        StepView::Respond { response } => (session, response),
    }
}

/// The run of a request's handler where the pool and the store may fail:
/// without a connection when `connected` is false, and with the failures
/// that `failures` names.
pub open spec fn answered_despite(
    db: Database,
    request: RequestView,
    connected: bool,
    failures: Seq<bool>,
) -> (Session, ResponseView) {
    run_despite(
        HandlerView::start(request),
        Session::open(db),
        if connected {
            ReplyView::Connected
        } else {
            ReplyView::Unavailable
        },
        failures,
    )
}

impl Handler {
    /// The handler of a request, waiting for its connection.
    pub fn start(request: Request) -> (handler: Handler)
        ensures
            handler@ == HandlerView::start(request@),
    {
        match request {
            Request::Hello => Handler::Hello(Hello::Connecting),
            Request::RecipesList => Handler::RecipesList(RecipesList::Connecting),
            Request::RecipesGet { id } => Handler::RecipesGet(RecipesGet::Connecting { id }),
            Request::RecipesCreate { body } => Handler::RecipesCreate(
                RecipesCreate::Connecting { body },
            ),
            Request::RecipesChange { id, body } => Handler::RecipesChange(
                RecipesChange::Connecting { id, body },
            ),
            Request::RecipesDelete { id } => Handler::RecipesDelete(
                RecipesDelete::Connecting { id },
            ),
            Request::CategoriesList => Handler::CategoriesList(CategoriesList::Connecting),
            Request::CategoriesGet { id } => Handler::CategoriesGet(
                CategoriesGet::Connecting { id },
            ),
            Request::CategoriesCreate { category } => Handler::CategoriesCreate(
                CategoriesCreate::Connecting { category },
            ),
            Request::CategoriesChange { id, changes } => Handler::CategoriesChange(
                CategoriesChange::Connecting { id, changes },
            ),
            Request::CategoriesDelete { id } => Handler::CategoriesDelete(
                CategoriesDelete::Connecting { id },
            ),
        }
    }

    /// Hands the reply to the handler in charge and gives its next step.
    /// The first reply a handler gets is the pool's, every later one the
    /// store's reply to the statement of the step before.
    pub fn step(self, reply: Reply) -> (step: Step<Handler>)
        ensures
            step@ == self@.step(reply@),
    {
        match self {
            Handler::Hello(state) => match hello(state, reply) {
                Step::Run { statement, next } => Step::Run {
                    statement,
                    next: Handler::Hello(next),
                },
                Step::Respond { response } => Step::Respond { response },
            },
            Handler::RecipesList(state) => match recipes_list(state, reply) {
                Step::Run { statement, next } => Step::Run {
                    statement,
                    next: Handler::RecipesList(next),
                },
                Step::Respond { response } => Step::Respond { response },
            },
            Handler::RecipesGet(state) => match recipes_get(state, reply) {
                Step::Run { statement, next } => Step::Run {
                    statement,
                    next: Handler::RecipesGet(next),
                },
                Step::Respond { response } => Step::Respond { response },
            },
            Handler::RecipesCreate(state) => match recipes_create(state, reply) {
                Step::Run { statement, next } => Step::Run {
                    statement,
                    next: Handler::RecipesCreate(next),
                },
                Step::Respond { response } => Step::Respond { response },
            },
            Handler::RecipesChange(state) => match recipes_change(state, reply) {
                Step::Run { statement, next } => Step::Run {
                    statement,
                    next: Handler::RecipesChange(next),
                },
                Step::Respond { response } => Step::Respond { response },
            },
            Handler::RecipesDelete(state) => match recipes_delete(state, reply) {
                Step::Run { statement, next } => Step::Run {
                    statement,
                    next: Handler::RecipesDelete(next),
                },
                Step::Respond { response } => Step::Respond { response },
            },
            Handler::CategoriesList(state) => match categories_list(state, reply) {
                Step::Run { statement, next } => Step::Run {
                    statement,
                    next: Handler::CategoriesList(next),
                },
                Step::Respond { response } => Step::Respond { response },
            },
            Handler::CategoriesGet(state) => match categories_get(state, reply) {
                Step::Run { statement, next } => Step::Run {
                    statement,
                    next: Handler::CategoriesGet(next),
                },
                Step::Respond { response } => Step::Respond { response },
            },
            Handler::CategoriesCreate(state) => match categories_create(state, reply) {
                Step::Run { statement, next } => Step::Run {
                    statement,
                    next: Handler::CategoriesCreate(next),
                },
                Step::Respond { response } => Step::Respond { response },
            },
            Handler::CategoriesChange(state) => match categories_change(state, reply) {
                Step::Run { statement, next } => Step::Run {
                    statement,
                    next: Handler::CategoriesChange(next),
                },
                Step::Respond { response } => Step::Respond { response },
            },
            Handler::CategoriesDelete(state) => match categories_delete(state, reply) {
                Step::Run { statement, next } => Step::Run {
                    statement,
                    next: Handler::CategoriesDelete(next),
                },
                Step::Respond { response } => Step::Respond { response },
            },
        }
    }
}

/// Serves one request from a store in memory: opens a connection, asks the
/// request's handler for its steps and runs each statement on the store,
/// until the handler answers.
#[verifier::loop_isolation(false)]
pub fn serve(store: &mut Store, request: Request) -> (response: Response)
    requires
        old(store).wf(),
    ensures
        (final(store)@, response@) == outcome(old(store)@, request@),
        (final(store)@, response@) == served(old(store)@, request@),
        final(store).wf(),
{
    let ghost asked = request@;
    let ghost origin = store@;
    proof {
        law_outcome(origin, asked);
    }
    let mut held = Store::new();
    core::mem::swap(store, &mut held);
    let mut connection = Connection::open(held);
    let mut handler = Handler::start(request);
    let mut reply = Reply::Connected;
    loop
        invariant
            connection.wf(),
            handler@.run(connection@, reply@) == answered(origin, asked),
        decreases handler@.budget(reply@, connection@.db.recipes.len()),
    {
        let ghost before = handler@;
        let ghost answer = reply@;
        proof {
            lemma_budget_decreases(before, connection@, answer, false);
        }
        match handler.step(reply) {
            Step::Respond { response } => {
                assert(before.run(connection@, answer) == (connection@, response@));
                let mut left = connection.close();
                core::mem::swap(store, &mut left);
                return response;
            },
            Step::Run { statement, next } => {
                reply = connection.execute(statement);
                handler = next;
            },
        }
    }
}

/// Serves one request from a store in memory that fails on demand: without
/// a connection when `connected` is false, and with a failure of the
/// `i`-th statement that the handler sends where `failures[i]` is true.
/// Statements beyond the end of `failures` do not fail. An error is only
/// answered with the tables as they were; success only with all the work
/// done.
#[verifier::loop_isolation(false)]
pub fn serve_despite(store: &mut Store, request: Request, connected: bool, failures: &Vec<bool>)
    -> (response: Response)
    requires
        old(store).wf(),
    ensures
        final(store)@ == answered_despite(old(store)@, request@, connected, failures@).0.db,
        response@ == answered_despite(old(store)@, request@, connected, failures@).1,
        response@.status >= 400 ==> same_tables(final(store)@, old(store)@),
        response@.status < 400 ==> (final(store)@, response@) == outcome(old(store)@, request@),
        final(store).wf(),
{
    let ghost asked = request@;
    let ghost origin = store@;
    proof {
        law_all_or_nothing(origin, asked, connected, failures@);
        law_outcome(origin, asked);
    }
    let mut held = Store::new();
    core::mem::swap(store, &mut held);
    let mut connection = Connection::open(held);
    let mut handler = Handler::start(request);
    let mut reply = if connected {
        Reply::Connected
    } else {
        Reply::Unavailable
    };
    let mut sent: usize = 0;
    assert(failures@.skip(0) =~= failures@);
    loop
        invariant
            sent <= failures.len(),
            connection.wf(),
            run_despite(handler@, connection@, reply@, failures@.skip(sent as int))
                == answered_despite(origin, asked, connected, failures@),
        decreases handler@.budget(reply@, connection@.db.recipes.len()),
    {
        let ghost before = handler@;
        let ghost session = connection@;
        let ghost answer = reply@;
        let ghost left = failures@.skip(sent as int);
        match handler.step(reply) {
            Step::Respond { response } => {
                assert(run_despite(before, session, answer, left) == (session, response@));
                let mut back = connection.close();
                core::mem::swap(store, &mut back);
                return response;
            },
            Step::Run { statement, next } => {
                let fails = sent < failures.len() && failures[sent];
                assert(fails == fails_next(left));
                proof {
                    lemma_budget_decreases(before, session, answer, fails);
                }
                reply = connection.attempt(statement, fails);
                handler = next;
                if sent < failures.len() {
                    assert(later(left) =~= failures@.skip(sent + 1));
                    sent = sent + 1;
                } else {
                    assert(later(left) =~= left);
                }
            },
        }
    }
}

} // verus!
