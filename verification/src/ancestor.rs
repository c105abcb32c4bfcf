//! The search for the nearest view above a window that belongs to another
//! window of this library.
use crate::values::NIL;
use vstd::prelude::*;

verus! {

/// A question about the native view tree. Every answer is an address, nil
/// where there is no such object.
#[derive(Clone, Copy, Debug, PartialEq, Eq, Structural)]
pub enum ViewQuery {
    /// The view that contains this view.
    Superview(usize),
    /// The class of this view.
    ClassOf(usize),
    /// The instance variable for window state that this class declares.
    StateIvar(usize),
    /// The window state that this view stores in that variable.
    StateOf(usize),
}

/// What the search does next.
#[derive(Clone, Copy, Debug, PartialEq, Eq, Structural)]
pub enum SearchStep {
    /// Asks this question; its answer resumes the search.
    Ask(ViewQuery),
    /// Ends: this state belongs to the nearest view that stores one.
    Found(usize),
    /// Ends: no view above stores a state.
    NotFound,
}

/// A search that waits for an answer.
#[derive(Clone, Copy, Debug, PartialEq, Eq, Structural)]
pub struct AncestorSearch {
    /// The view that the search has climbed to.
    pub current: usize,
    /// The question whose answer is due.
    pub awaiting: ViewQuery,
}

/// A search from `view`, whose superview is asked for first.
pub open spec fn search_from(view: usize) -> AncestorSearch {
    AncestorSearch { current: view, awaiting: ViewQuery::Superview(view) }
}

/// The search after it has asked `query`, together with that question.
pub open spec fn search_asks(
    search: AncestorSearch,
    query: ViewQuery,
) -> (AncestorSearch, SearchStep) {
    (AncestorSearch { awaiting: query, ..search }, SearchStep::Ask(query))
}

/// How the search goes on once `reply` answers the question it has asked: it
/// climbs past every view whose class is unknown, whose class does not declare
/// the state variable, or which stores no state in it.
pub open spec fn search_next(
    search: AncestorSearch,
    reply: usize,
) -> (AncestorSearch, SearchStep) {
    match search.awaiting {
        ViewQuery::Superview(_) => if reply == NIL {
            (search, SearchStep::NotFound)
        } else {
            search_asks(
                AncestorSearch { current: reply, ..search },
                ViewQuery::ClassOf(reply),
            )
        },
        ViewQuery::ClassOf(_) => if reply == NIL {
            search_asks(search, ViewQuery::Superview(search.current))
        } else {
            search_asks(search, ViewQuery::StateIvar(reply))
        },
        ViewQuery::StateIvar(_) => if reply == NIL {
            search_asks(search, ViewQuery::Superview(search.current))
        } else {
            search_asks(search, ViewQuery::StateOf(search.current))
        },
        ViewQuery::StateOf(_) => if reply == NIL {
            search_asks(search, ViewQuery::Superview(search.current))
        } else {
            (search, SearchStep::Found(reply))
        },
    }
}

impl AncestorSearch {
    /// Starts a search above `view`. The question to ask first is `awaiting`.
    pub fn find_baseview_ancestor(view: usize) -> (search: AncestorSearch)
        ensures
            search == search_from(view),
    {
        AncestorSearch { current: view, awaiting: ViewQuery::Superview(view) }
    }

    fn ask(&mut self, query: ViewQuery) -> (step: SearchStep)
        ensures
            (*final(self), step) == search_asks(*old(self), query),
    {
        self.awaiting = query;
        SearchStep::Ask(query)
    }

    /// Resumes the search with the answer to the question it has asked.
    pub fn answer(&mut self, reply: usize) -> (step: SearchStep)
        ensures
            (*final(self), step) == search_next(*old(self), reply),
    {
        let current: usize = self.current;
        match self.awaiting {
            ViewQuery::Superview(_) => {
                if reply == NIL {
                    SearchStep::NotFound
                } else {
                    self.current = reply;
                    self.ask(ViewQuery::ClassOf(reply))
                }
            },
            ViewQuery::ClassOf(_) => {
                if reply == NIL {
                    self.ask(ViewQuery::Superview(current))
                } else {
                    self.ask(ViewQuery::StateIvar(reply))
                }
            },
            ViewQuery::StateIvar(_) => {
                if reply == NIL {
                    self.ask(ViewQuery::Superview(current))
                } else {
                    self.ask(ViewQuery::StateOf(current))
                }
            },
            ViewQuery::StateOf(_) => {
                if reply == NIL {
                    self.ask(ViewQuery::Superview(current))
                } else {
                    SearchStep::Found(reply)
                }
            },
        }
    }
}

/// The native view tree, as far as the search looks at it.
pub struct ViewTree {
    pub superview: spec_fn(usize) -> usize,
    pub class_of: spec_fn(usize) -> usize,
    pub state_ivar: spec_fn(usize) -> usize,
    pub state_of: spec_fn(usize) -> usize,
}

impl ViewTree {
    /// The answer to a question about this tree.
    pub open spec fn answer(self, query: ViewQuery) -> usize {
        match query {
            ViewQuery::Superview(view) => (self.superview)(view),
            ViewQuery::ClassOf(view) => (self.class_of)(view),
            ViewQuery::StateIvar(class) => (self.state_ivar)(class),
            ViewQuery::StateOf(view) => (self.state_of)(view),
        }
    }

    /// Whether `view` stores the state of a window.
    pub open spec fn hosts(self, view: usize) -> bool {
        &&& (self.class_of)(view) != NIL
        &&& (self.state_ivar)((self.class_of)(view)) != NIL
        &&& (self.state_of)(view) != NIL
    }

    /// The view that is `hops` levels above `view`.
    pub open spec fn above(self, view: usize, hops: nat) -> usize
        decreases hops,
    {
        if hops == 0 {
            view
        } else {
            self.above((self.superview)(view), (hops - 1) as nat)
        }
    }

    /// Whether the first `hops` levels above `view` exist and store no state.
    pub open spec fn barren(self, view: usize, hops: nat) -> bool {
        forall|i: nat|
            1 <= i <= hops ==> #[trigger] self.above(view, i) != NIL && !self.hosts(
                self.above(view, i),
            )
    }

    /// Whether the nearest view above `view` that stores a state is `hops`
    /// levels up.
    pub open spec fn nearest_at(self, view: usize, hops: nat) -> bool {
        &&& hops >= 1
        &&& self.barren(view, (hops - 1) as nat)
        &&& self.above(view, hops) != NIL
        &&& self.hosts(self.above(view, hops))
    }

    /// Whether the levels above `view` end at level `hops`, and none of them
    /// stores a state.
    pub open spec fn ends_at(self, view: usize, hops: nat) -> bool {
        &&& hops >= 1
        &&& self.barren(view, (hops - 1) as nat)
        &&& self.above(view, hops) == NIL
    }
}

/// What a search ends with on a tree that does not change meanwhile: the state
/// that it finds, if any. `None` where it is still going after `turns` answers.
pub open spec fn search_outcome(tree: ViewTree, search: AncestorSearch, turns: nat) -> Option<
    Option<usize>,
>
    decreases turns,
{
    if turns == 0 {
        None
    } else {
        let (search, step) = search_next(search, tree.answer(search.awaiting));
        match step {
            SearchStep::Ask(_) => search_outcome(tree, search, (turns - 1) as nat),
            SearchStep::Found(state) => Some(Some(state)),
            SearchStep::NotFound => Some(None),
        }
    }
}

/// The levels above the superview of `view` are those above `view`, one lower.
proof fn lemma_barren_shifts(tree: ViewTree, view: usize, hops: nat)
    requires
        hops >= 1,
        tree.barren(view, hops),
    ensures
        tree.barren((tree.superview)(view), (hops - 1) as nat),
{
    let up = (tree.superview)(view);
    assert forall|i: nat| 1 <= i <= hops - 1 implies #[trigger] tree.above(up, i) != NIL
        && !tree.hosts(tree.above(up, i)) by {
        assert(tree.above(view, i + 1) == tree.above(up, i));
    }
}

/// A search that reaches an existing view without state goes on from there as
/// if it had started at that view, after four answers at the most.
proof fn lemma_search_climbs(tree: ViewTree, view: usize, turns: nat)
    requires
        (tree.superview)(view) != NIL,
        !tree.hosts((tree.superview)(view)),
        turns >= 4,
    ensures
        exists|left: nat|
            turns - 4 <= left < turns && #[trigger] search_outcome(
                tree,
                search_from((tree.superview)(view)),
                left,
            ) == search_outcome(tree, search_from(view), turns),
{
    let up = (tree.superview)(view);
    reveal_with_fuel(search_outcome, 5);
    let left: nat = if (tree.class_of)(up) == NIL {
        (turns - 2) as nat
    } else if (tree.state_ivar)((tree.class_of)(up)) == NIL {
        (turns - 3) as nat
    } else {
        (turns - 4) as nat
    };
    assert(search_outcome(tree, search_from(up), left) == search_outcome(
        tree,
        search_from(view),
        turns,
    ));
}

/// Where some view above `view` stores a state, the search finds the state of
/// the nearest one, after at most four answers for each level.
pub proof fn search_finds_the_nearest(tree: ViewTree, view: usize, hops: nat, turns: nat)
    requires
        tree.nearest_at(view, hops),
        turns >= 4 * hops,
    ensures
        search_outcome(tree, search_from(view), turns) == Some(
            Some((tree.state_of)(tree.above(view, hops))),
        ),
    decreases hops,
{
    let up = (tree.superview)(view);
    assert(tree.above(view, hops) == tree.above(up, (hops - 1) as nat));
    if hops == 1 {
        reveal_with_fuel(search_outcome, 5);
    } else {
        assert(tree.above(view, 1) == up) by {
            reveal_with_fuel(ViewTree::above, 2);
        }
        lemma_search_climbs(tree, view, turns);
        let left = choose|left: nat|
            turns - 4 <= left < turns && #[trigger] search_outcome(tree, search_from(up), left)
                == search_outcome(tree, search_from(view), turns);
        lemma_barren_shifts(tree, view, (hops - 1) as nat);
        search_finds_the_nearest(tree, up, (hops - 1) as nat, left);
    }
}

/// Where no view above `view` stores a state, the search reports that there is
/// none, after at most four answers for each level.
pub proof fn search_reports_none(tree: ViewTree, view: usize, hops: nat, turns: nat)
    requires
        tree.ends_at(view, hops),
        turns >= 4 * hops,
    ensures
        search_outcome(tree, search_from(view), turns) == Some(None::<usize>),
    decreases hops,
{
    let up = (tree.superview)(view);
    assert(tree.above(view, hops) == tree.above(up, (hops - 1) as nat));
    if hops > 1 {
        assert(tree.above(view, 1) == up) by {
            reveal_with_fuel(ViewTree::above, 2);
        }
        lemma_search_climbs(tree, view, turns);
        let left = choose|left: nat|
            turns - 4 <= left < turns && #[trigger] search_outcome(tree, search_from(up), left)
                == search_outcome(tree, search_from(view), turns);
        lemma_barren_shifts(tree, view, (hops - 1) as nat);
        search_reports_none(tree, up, (hops - 1) as nat, left);
    }
}

/// The search asks about what it has found, and nothing else: the class of the
/// view that it has just climbed to, the state variable of that class, the state
/// of that view, and then the view above it. A state is read only from a view
/// whose class is known to declare the variable.
pub proof fn the_search_asks_about_where_it_is(search: AncestorSearch, reply: usize)
    ensures
        search_from(search.current).awaiting == ViewQuery::Superview(search.current),
        search_from(search.current).current == search.current,
        ({
            let (next, step) = search_next(search, reply);
            &&& step matches SearchStep::Ask(query) ==> next.awaiting == query && match query {
                ViewQuery::Superview(view) => view == search.current && next.current == view
                    && !(search.awaiting is Superview) && reply == 0,
                ViewQuery::ClassOf(view) => search.awaiting is Superview && reply != 0 && view
                    == reply && next.current == view,
                ViewQuery::StateIvar(class) => search.awaiting is ClassOf && reply != 0 && class
                    == reply && next.current == search.current,
                ViewQuery::StateOf(view) => search.awaiting is StateIvar && reply != 0 && view
                    == search.current && next.current == view,
            }
            &&& step is NotFound <==> search.awaiting is Superview && reply == 0
            &&& step is Found <==> search.awaiting is StateOf && reply != 0
            &&& step matches SearchStep::Found(state) ==> state == reply
        }),
{
}

} // verus!
