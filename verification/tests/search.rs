use baseview::ancestor::{AncestorSearch, SearchStep, ViewQuery};

/// A view tree in which the superview of view `n` is `n + 1`, up to view 9.
struct Tree {
    classless: Vec<usize>,
    stateless_classes: Vec<usize>,
    states: Vec<(usize, usize)>,
}

impl Tree {
    fn answer(&self, query: ViewQuery) -> usize {
        match query {
            ViewQuery::Superview(view) => {
                if view < 9 {
                    view + 1
                } else {
                    0
                }
            }
            ViewQuery::ClassOf(view) => {
                if self.classless.contains(&view) {
                    0
                } else {
                    view + 100
                }
            }
            ViewQuery::StateIvar(class) => {
                if self.stateless_classes.contains(&class) {
                    0
                } else {
                    class + 1000
                }
            }
            ViewQuery::StateOf(view) => {
                for (owner, state) in &self.states {
                    if *owner == view {
                        return *state;
                    }
                }
                0
            }
        }
    }

    fn search(&self, view: usize) -> (Option<usize>, Vec<ViewQuery>) {
        let mut search = AncestorSearch::find_baseview_ancestor(view);
        let mut asked = vec![search.awaiting];
        let mut reply = self.answer(search.awaiting);
        loop {
            match search.answer(reply) {
                SearchStep::Ask(query) => {
                    asked.push(query);
                    reply = self.answer(query);
                }
                SearchStep::Found(state) => return (Some(state), asked),
                SearchStep::NotFound => return (None, asked),
            }
        }
    }
}

#[test]
fn search_takes_the_nearest_state() {
    let tree = Tree {
        classless: vec![2],
        stateless_classes: vec![103],
        states: vec![(5, 77), (7, 88)],
    };
    let (found, asked) = tree.search(1);
    assert_eq!(found, Some(77));
    assert_eq!(
        asked,
        vec![
            ViewQuery::Superview(1),
            ViewQuery::ClassOf(2),
            ViewQuery::Superview(2),
            ViewQuery::ClassOf(3),
            ViewQuery::StateIvar(103),
            ViewQuery::Superview(3),
            ViewQuery::ClassOf(4),
            ViewQuery::StateIvar(104),
            ViewQuery::StateOf(4),
            ViewQuery::Superview(4),
            ViewQuery::ClassOf(5),
            ViewQuery::StateIvar(105),
            ViewQuery::StateOf(5),
        ]
    );
}

#[test]
fn search_skips_the_starting_view() {
    let tree = Tree { classless: vec![], stateless_classes: vec![], states: vec![(5, 77), (7, 88)] };
    assert_eq!(tree.search(5).0, Some(88));
}

#[test]
fn search_reports_that_there_is_none() {
    let tree = Tree { classless: vec![8], stateless_classes: vec![109], states: vec![(3, 77)] };
    let (found, asked) = tree.search(7);
    assert_eq!(found, None);
    assert_eq!(asked.len(), 6);
}

#[test]
fn search_from_a_view_without_superview_asks_once() {
    let tree = Tree { classless: vec![], stateless_classes: vec![], states: vec![] };
    assert_eq!(tree.search(9), (None, vec![ViewQuery::Superview(9)]));
}
