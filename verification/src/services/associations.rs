//! The categories of a recipe are named in a request and stored by `id`.
//! Before anything is written, every name is looked up; one that does not
//! exist stops the request.

use crate::store::statement::{Reply, ReplyView, Statement, StatementView};
use vstd::prelude::*;

verus! {

/// The names still to look up and the ids found so far: `found[i]` is the
/// id of the category `names[i]`.
#[derive(Debug, Clone, PartialEq, Eq)]
pub struct Lookup {
    pub names: Vec<String>,
    pub found: Vec<i32>,
}

/// `Lookup` as a mathematical value.
pub struct LookupView {
    pub names: Seq<Seq<char>>,
    pub found: Seq<int>,
}

/// Ids read as mathematical integers.
pub open spec fn widen(ids: Seq<i32>) -> Seq<int> {
    ids.map_values(|id: i32| id as int)
}

impl View for Lookup {
    type V = LookupView;

    open spec fn view(&self) -> LookupView {
        LookupView { names: self.names.deep_view(), found: widen(self.found@) }
    }
}

/// Where a lookup stands.
#[derive(Debug, Clone, PartialEq, Eq)]
pub enum Looked {
    /// The statement that looks up the next name, and the lookup that
    /// awaits its reply.
    Pending { statement: Statement, lookup: Lookup },
    /// Every name exists; these are their ids, in the order of the names.
    Resolved { ids: Vec<i32> },
    /// The name just looked up does not exist.
    Unknown,
    /// The store failed.
    Failed,
}

/// `Looked` as a mathematical value.
pub enum LookedView {
    Pending { statement: StatementView, lookup: LookupView },
    Resolved { ids: Seq<int> },
    Unknown,
    Failed,
}

impl View for Looked {
    type V = LookedView;

    open spec fn view(&self) -> LookedView {
        match self {
            Looked::Pending { statement, lookup } => LookedView::Pending {
                statement: statement@,
                lookup: lookup@,
            },
            Looked::Resolved { ids } => LookedView::Resolved { ids: widen(ids@) },
            Looked::Unknown => LookedView::Unknown,
            Looked::Failed => LookedView::Failed,
        }
    }
}

/// How many replies a lookup may still take, counted so that each reply
/// makes it smaller.
pub open spec fn lookup_budget(lookup: LookupView) -> nat {
    if lookup.found.len() < lookup.names.len() {
        (2 * lookup.names.len() - lookup.found.len()) as nat
    } else {
        lookup.found.len() + 1
    }
}

impl LookupView {
    /// A lookup of `names` with nothing found yet.
    pub open spec fn begin(names: Seq<Seq<char>>) -> LookedView {
        (LookupView { names, found: Seq::empty() }).advance()
    }

    /// Asks for the first name without an id, or ends when there is none.
    pub open spec fn advance(self) -> LookedView {
        if self.found.len() < self.names.len() {
            LookedView::Pending {
                statement: StatementView::FindCategoryByName {
                    name: self.names[self.found.len() as int],
                },
                lookup: self,
            }
        } else {
            LookedView::Resolved { ids: self.found }
        }
    }

    /// Takes the reply for the name asked last: a category gives its id and
    /// the lookup goes on, a missing row ends it as unknown, and any other
    /// reply as failed.
    pub open spec fn resume(self, reply: ReplyView) -> LookedView {
        match reply {
            ReplyView::Category(category) => (LookupView {
                names: self.names,
                found: self.found.push(category.id),
            }).advance(),
            ReplyView::Missing => LookedView::Unknown,
            _ => LookedView::Failed,
        }
    }
}

impl Lookup {
    /// A lookup of `names` with nothing found yet.
    pub fn begin(names: Vec<String>) -> (looked: Looked)
        ensures
            looked@ == LookupView::begin(names.deep_view()),
    {
        let found: Vec<i32> = Vec::new();
        assert(widen(found@) =~= Seq::<int>::empty());
        (Lookup { names, found }).advance()
    }

    /// Asks for the first name without an id, or ends when there is none.
    pub fn advance(self) -> (looked: Looked)
        ensures
            looked@ == self@.advance(),
    {
        let asked = self.found.len();
        if asked < self.names.len() {
            let name = self.names[asked].clone();
            Looked::Pending { statement: Statement::FindCategoryByName { name }, lookup: self }
        } else {
            Looked::Resolved { ids: self.found }
        }
    }

    /// Takes the reply for the name asked last.
    pub fn resume(self, reply: Reply) -> (looked: Looked)
        ensures
            looked@ == self@.resume(reply@),
    {
        match reply {
            Reply::Category(category) => {
                let mut found = self.found;
                found.push(category.id);
                assert(widen(found@) =~= widen(self.found@).push(category.id as int));
                (Lookup { names: self.names, found }).advance()
            },
            Reply::Missing => Looked::Unknown,
            _ => Looked::Failed,
        }
    }
}

} // verus!
