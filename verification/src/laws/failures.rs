//! A store that fails. Any statement may fail for reasons of the store's
//! own; the handlers are to leave the tables as they were whenever they
//! answer with an error, and to have done all their work whenever they
//! answer with success.

use crate::service::{
    answered, answered_despite, fails_next, later, lemma_budget_decreases, run_despite,
    HandlerView, RequestView,
};
use crate::services::categories::{
    CategoriesChangeView, CategoriesCreateView, CategoriesDeleteView,
};
use crate::services::recipes::{RecipesChangeView, RecipesCreateView, RecipesDeleteView};
use crate::services::response::ResponseView;
use crate::services::step::StepView;
use crate::store::model::{Database, Session};
use crate::store::statement::{ReplyView, StatementView};
use crate::store::validity::lemma_execute_valid;
use vstd::prelude::*;

verus! {

/// True when two stores hold the same rows.
pub open spec fn same_tables(a: Database, b: Database) -> bool {
    &&& a.recipes == b.recipes
    &&& a.categories == b.categories
    &&& a.links == b.links
}

/// Nothing was written and no transaction is open.
pub open spec fn untouched(session: Session, origin: Database) -> bool {
    session.saved is None && same_tables(session.db, origin)
}

/// A transaction is open, and undoing it leaves the rows as they were at
/// first.
pub open spec fn revocable(session: Session, origin: Database) -> bool {
    session.saved matches Some(saved) && same_tables(saved, origin)
}

/// What holds of a connection after a statement that opens a transaction:
/// on `Done` it is open, on any other reply nothing has happened.
pub open spec fn opened(session: Session, reply: ReplyView, origin: Database) -> bool {
    if reply is Done {
        revocable(session, origin)
    } else {
        untouched(session, origin)
    }
}

/// What holds of a connection after a statement that ends a transaction
/// for good: on `Done` the work is done, on any other reply it is undone.
pub open spec fn closed(session: Session, reply: ReplyView, origin: Database) -> bool {
    if reply is Done {
        session.saved is None
    } else {
        untouched(session, origin)
    }
}

/// What holds of a connection after the one statement of a request that
/// writes a category: on a category the work is done, on any other reply
/// nothing has happened.
pub open spec fn written(session: Session, reply: ReplyView, origin: Database) -> bool {
    if reply is Category {
        session.saved is None
    } else {
        untouched(session, origin)
    }
}

/// What holds of a handler, of the connection it runs on and of the reply
/// it is about to get, at every point of a run that began on a fresh
/// connection to the store `origin`.
pub open spec fn on_course(
    handler: HandlerView,
    session: Session,
    reply: ReplyView,
    origin: Database,
) -> bool {
    match handler {
        HandlerView::RecipesCreate(state) => match state {
            RecipesCreateView::Connecting { body } => untouched(session, origin),
            RecipesCreateView::Resolving { recipe, lookup } => untouched(session, origin),
            RecipesCreateView::Opening { recipe, ids } => opened(session, reply, origin),
            RecipesCreateView::Inserting { ids } => revocable(session, origin),
            RecipesCreateView::Linking { recipe, ids, done } => revocable(session, origin),
            RecipesCreateView::Committing { recipe } => closed(session, reply, origin),
            RecipesCreateView::Aborting => untouched(session, origin),
        },
        HandlerView::RecipesChange(state) => match state {
            RecipesChangeView::Connecting { id, body } => untouched(session, origin),
            RecipesChangeView::Resolving { id, changes, lookup } => untouched(session, origin),
            RecipesChangeView::Opening { id, changes, ids } => opened(session, reply, origin),
            RecipesChangeView::Updating { ids } => revocable(session, origin),
            RecipesChangeView::Unlinking { recipe, ids } => revocable(session, origin),
            RecipesChangeView::Linking { recipe, ids, done } => revocable(session, origin),
            RecipesChangeView::Loading { recipe } => revocable(session, origin),
            RecipesChangeView::Committing { body } => closed(session, reply, origin),
            RecipesChangeView::Aborting => untouched(session, origin),
        },
        HandlerView::RecipesDelete(state) => match state {
            RecipesDeleteView::Connecting { id } => untouched(session, origin),
            RecipesDeleteView::Opening { id } => opened(session, reply, origin),
            RecipesDeleteView::Unlinking { id } => revocable(session, origin),
            RecipesDeleteView::Deleting => revocable(session, origin),
            RecipesDeleteView::Committing => closed(session, reply, origin),
            RecipesDeleteView::Aborting => untouched(session, origin),
        },
        HandlerView::CategoriesDelete(state) => match state {
            CategoriesDeleteView::Connecting { id } => untouched(session, origin),
            CategoriesDeleteView::Opening { id } => opened(session, reply, origin),
            CategoriesDeleteView::Unlinking { id } => revocable(session, origin),
            CategoriesDeleteView::Deleting => revocable(session, origin),
            CategoriesDeleteView::Committing => closed(session, reply, origin),
            CategoriesDeleteView::Aborting => untouched(session, origin),
        },
        HandlerView::CategoriesCreate(state) => match state {
            CategoriesCreateView::Connecting { category } => untouched(session, origin),
            CategoriesCreateView::Inserting => written(session, reply, origin),
        },
        HandlerView::CategoriesChange(state) => match state {
            CategoriesChangeView::Connecting { id, changes } => untouched(session, origin),
            CategoriesChangeView::Updating => written(session, reply, origin),
        },
        _ => untouched(session, origin),
    }
}

/// What a transition keeps: where it sends a statement, the run is still
/// on course after it, whether the statement fails or not; where it
/// answers, no transaction is open, and an error is only answered with the
/// rows as they were at first.
pub open spec fn kept_on_course(
    handler: HandlerView,
    session: Session,
    reply: ReplyView,
    origin: Database,
) -> bool {
    match handler.step(reply) {
        StepView::Run { statement, next } => forall|fails: bool|
            on_course(
                next,
                (#[trigger] session.attempt(statement, fails)).0,
                session.attempt(statement, fails).1,
                origin,
            ),
        StepView::Respond { response } => {
            &&& session.saved is None
            &&& response.status >= 400 ==> same_tables(session.db, origin)
        },
    }
}

/// The creation of a recipe stays on course.
proof fn lemma_create_on_course(
    state: RecipesCreateView,
    session: Session,
    reply: ReplyView,
    origin: Database,
)
    requires
        on_course(HandlerView::RecipesCreate(state), session, reply, origin),
    ensures
        kept_on_course(HandlerView::RecipesCreate(state), session, reply, origin),
{
}

/// The change of a recipe stays on course.
proof fn lemma_change_on_course(
    state: RecipesChangeView,
    session: Session,
    reply: ReplyView,
    origin: Database,
)
    requires
        on_course(HandlerView::RecipesChange(state), session, reply, origin),
    ensures
        kept_on_course(HandlerView::RecipesChange(state), session, reply, origin),
{
}

/// The deletion of a recipe stays on course.
proof fn lemma_delete_on_course(
    state: RecipesDeleteView,
    session: Session,
    reply: ReplyView,
    origin: Database,
)
    requires
        on_course(HandlerView::RecipesDelete(state), session, reply, origin),
    ensures
        kept_on_course(HandlerView::RecipesDelete(state), session, reply, origin),
{
}

/// The requests that write categories stay on course.
proof fn lemma_categories_on_course(
    handler: HandlerView,
    session: Session,
    reply: ReplyView,
    origin: Database,
)
    requires
        handler is CategoriesDelete || handler is CategoriesCreate || handler is CategoriesChange,
        on_course(handler, session, reply, origin),
    ensures
        kept_on_course(handler, session, reply, origin),
{
}

/// The requests that only read stay on course.
proof fn lemma_reads_on_course(
    handler: HandlerView,
    session: Session,
    reply: ReplyView,
    origin: Database,
)
    requires
        handler is Hello || handler is RecipesList || handler is RecipesGet
            || handler is CategoriesList || handler is CategoriesGet,
        on_course(handler, session, reply, origin),
    ensures
        kept_on_course(handler, session, reply, origin),
{
}

/// Every transition keeps a run on course.
pub proof fn lemma_on_course(
    handler: HandlerView,
    session: Session,
    reply: ReplyView,
    origin: Database,
)
    requires
        on_course(handler, session, reply, origin),
    ensures
        kept_on_course(handler, session, reply, origin),
{
    match handler {
        HandlerView::RecipesCreate(state) => lemma_create_on_course(state, session, reply, origin),
        HandlerView::RecipesChange(state) => lemma_change_on_course(state, session, reply, origin),
        HandlerView::RecipesDelete(state) => lemma_delete_on_course(state, session, reply, origin),
        HandlerView::CategoriesDelete(_) => lemma_categories_on_course(
            handler,
            session,
            reply,
            origin,
        ),
        HandlerView::CategoriesCreate(_) => lemma_categories_on_course(
            handler,
            session,
            reply,
            origin,
        ),
        HandlerView::CategoriesChange(_) => lemma_categories_on_course(
            handler,
            session,
            reply,
            origin,
        ),
        _ => lemma_reads_on_course(handler, session, reply, origin),
    }
}

/// A statement that may fail leaves a valid store valid, and with it what
/// a rollback would leave.
pub proof fn lemma_attempt_valid(session: Session, statement: StatementView, fails: bool)
    requires
        session.valid(),
    ensures
        session.attempt(statement, fails).0.valid(),
{
    lemma_execute_valid(session, statement);
}

/// A run that is on course ends on course: with a valid store, no
/// transaction open, and the rows as they were at first if it ends in an
/// error.
proof fn lemma_run_on_course(
    handler: HandlerView,
    session: Session,
    reply: ReplyView,
    failures: Seq<bool>,
    origin: Database,
)
    requires
        session.valid(),
        on_course(handler, session, reply, origin),
    ensures
        run_despite(handler, session, reply, failures).0.valid(),
        run_despite(handler, session, reply, failures).0.saved is None,
        run_despite(handler, session, reply, failures).1.status >= 400 ==> same_tables(
            run_despite(handler, session, reply, failures).0.db,
            origin,
        ),
    decreases handler.budget(reply, session.db.recipes.len()),
{
    lemma_on_course(handler, session, reply, origin);
    match handler.step(reply) {
        StepView::Run { statement, next } => {
            let fails = fails_next(failures);
            let (after, answer) = session.attempt(statement, fails);
            lemma_budget_decreases(handler, session, reply, fails);
            lemma_attempt_valid(session, statement, fails);
            lemma_run_on_course(next, after, answer, later(failures), origin);
        },
        StepView::Respond { response } => {},
    }
}

/// After a failure the answer is an error: no handler answers with success
/// once a statement has failed.
proof fn lemma_failure_is_answered(handler: HandlerView, session: Session, failures: Seq<bool>)
    ensures
        run_despite(handler, session, ReplyView::Failed, failures).1.status >= 400,
{
    reveal_with_fuel(run_despite, 2);
}

/// A run that ends in success met no failure, and so is the run against a
/// store that does not fail.
proof fn lemma_success_is_whole(
    handler: HandlerView,
    session: Session,
    reply: ReplyView,
    failures: Seq<bool>,
)
    ensures
        run_despite(handler, session, reply, failures).1.status < 400 ==> run_despite(
            handler,
            session,
            reply,
            failures,
        ) == handler.run(session, reply),
    decreases handler.budget(reply, session.db.recipes.len()),
{
    match handler.step(reply) {
        StepView::Run { statement, next } => {
            let fails = fails_next(failures);
            let (after, answer) = session.attempt(statement, fails);
            lemma_budget_decreases(handler, session, reply, fails);
            if fails {
                lemma_failure_is_answered(next, after, later(failures));
            } else {
                lemma_success_is_whole(next, after, answer, later(failures));
            }
        },
        StepView::Respond { response } => {},
    }
}

/// All or nothing. Whatever fails, the pool or any statement at any point,
/// a request leaves a valid store valid and no transaction open. If it is
/// answered with an error, the tables are as they were before it; if it is
/// answered with success, it has done all that it does when nothing fails,
/// and answers the same.
pub proof fn law_all_or_nothing(
    db: Database,
    request: RequestView,
    connected: bool,
    failures: Seq<bool>,
)
    requires
        db.valid(),
    ensures
        ({
            let (session, response) = answered_despite(db, request, connected, failures);
            &&& session.db.valid()
            &&& session.saved is None
            &&& response.status >= 400 ==> same_tables(session.db, db)
            &&& response.status < 400 ==> (session, response) == answered(db, request)
        }),
{
    let handler = HandlerView::start(request);
    let session = Session::open(db);
    let reply = if connected {
        ReplyView::Connected
    } else {
        ReplyView::Unavailable
    };
    lemma_run_on_course(handler, session, reply, failures, db);
    if connected {
        lemma_success_is_whole(handler, session, reply, failures);
    } else {
        reveal_with_fuel(run_despite, 2);
    }
}

/// Where nothing fails, the run is the run against a store that does not
/// fail.
proof fn lemma_without_failures(
    handler: HandlerView,
    session: Session,
    reply: ReplyView,
    failures: Seq<bool>,
)
    requires
        forall|i: int| 0 <= i < failures.len() ==> !failures[i],
    ensures
        run_despite(handler, session, reply, failures) == handler.run(session, reply),
    decreases handler.budget(reply, session.db.recipes.len()),
{
    match handler.step(reply) {
        StepView::Run { statement, next } => {
            lemma_budget_decreases(handler, session, reply, false);
            let (after, answer) = session.execute(statement);
            assert forall|i: int| 0 <= i < later(failures).len() implies !later(failures)[i] by {
                assert(later(failures)[i] == failures[i + 1]);
            }
            lemma_without_failures(next, after, answer, later(failures));
        },
        StepView::Respond { response } => {},
    }
}

/// Where nothing fails, a store that may fail is a store that does not.
pub proof fn law_nothing_fails(db: Database, request: RequestView, failures: Seq<bool>)
    requires
        forall|i: int| 0 <= i < failures.len() ==> !failures[i],
    ensures
        answered_despite(db, request, true, failures) == answered(db, request),
{
    lemma_without_failures(
        HandlerView::start(request),
        Session::open(db),
        ReplyView::Connected,
        failures,
    );
}

} // verus!
