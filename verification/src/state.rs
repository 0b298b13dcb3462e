//! The actor's state as a mathematical value, the changes it can undergo, and
//! what holds of every state that the actor can reach.

use crate::error::{not_loaded, PdfServiceErrorView};
use vstd::prelude::*;

verus! {

/// An open document: the engine's handle to it, and the summary that was
/// computed when it was opened.
#[derive(Debug, Clone, PartialEq, Eq)]
pub struct Loaded<P, M> {
    pub parser: P,
    pub pdf: M,
}

/// The state of the actor as a mathematical value.
pub struct ActorState<E, P, M> {
    /// The engine, for as long as the actor runs.
    pub engine: Option<E>,
    /// The open documents by key.
    pub docs: Map<Seq<char>, Loaded<P, M>>,
    /// The keys of the open documents, in the order in which they were first
    /// opened.
    pub ids: Seq<Seq<char>>,
}

/// The keys of `ids` other than `id`, in their order.
pub open spec fn without(ids: Seq<Seq<char>>, id: Seq<char>) -> Seq<Seq<char>> {
    ids.filter(|other: Seq<char>| other != id)
}

impl<E, P, M> ActorState<E, P, M> {
    /// Whether the actor still takes jobs: it does for as long as it holds
    /// the engine.
    pub open spec fn running(self) -> bool {
        self.engine is Some
    }

    /// The keys are listed once each, they are exactly the keys of the open
    /// documents, and a stopped actor holds no document.
    pub open spec fn wf(self) -> bool {
        &&& self.ids.no_duplicates()
        &&& forall|id: Seq<char>| self.docs.contains_key(id) <==> self.ids.contains(id)
        &&& !self.running() ==> self.ids.len() == 0
    }

    /// The state of an actor that has just started with `engine`.
    pub open spec fn start(engine: E) -> Self {
        ActorState { engine: Some(engine), docs: Map::empty(), ids: Seq::empty() }
    }

    /// Whether a document is open under `id`.
    pub open spec fn has(self, id: Seq<char>) -> bool {
        self.docs.contains_key(id)
    }

    /// The state after a document was opened under `id`: it takes the place
    /// of a document that was open under the same key.
    pub open spec fn register(self, id: Seq<char>, parser: P, pdf: M) -> Self {
        ActorState {
            engine: self.engine,
            docs: self.docs.insert(id, Loaded { parser, pdf }),
            ids: if self.has(id) {
                self.ids
            } else {
                self.ids.push(id)
            },
        }
    }

    /// The state after the document under `id`, if there is one, was closed.
    pub open spec fn remove(self, id: Seq<char>) -> Self {
        ActorState { engine: self.engine, docs: self.docs.remove(id), ids: without(self.ids, id) }
    }

    /// The state after shutdown: every document is closed, the engine is
    /// released, and no job is taken any more.
    pub open spec fn stop(self) -> Self {
        ActorState { engine: None, docs: Map::empty(), ids: Seq::empty() }
    }

    /// What an operation that needs the document under `id` is given: the
    /// document, or the reason why there is none.
    pub open spec fn lookup(self, id: Seq<char>) -> Result<Loaded<P, M>, PdfServiceErrorView> {
        if !self.running() {
            Err(PdfServiceErrorView::ActorStopped)
        } else if self.has(id) {
            Ok(self.docs[id])
        } else {
            Err(PdfServiceErrorView::ParseError(not_loaded(id)))
        }
    }
}

/// One change that the actor can be asked to make.
pub enum Change<P, M> {
    /// A document was opened under `id`.
    Register { id: Seq<char>, parser: P, pdf: M },
    /// The document under `id` is closed.
    Remove { id: Seq<char> },
    /// The actor shuts down.
    Stop,
}

impl<E, P, M> ActorState<E, P, M> {
    /// The state after one change. A stopped actor takes none.
    pub open spec fn apply(self, change: Change<P, M>) -> Self {
        if !self.running() {
            self
        } else {
            match change {
                Change::Register { id, parser, pdf } => self.register(id, parser, pdf),
                Change::Remove { id } => self.remove(id),
                Change::Stop => self.stop(),
            }
        }
    }

    /// The state after a series of changes, made one after the other in the
    /// order given.
    pub open spec fn run(self, changes: Seq<Change<P, M>>) -> Self
        decreases changes.len(),
    {
        if changes.len() == 0 {
            self
        } else {
            self.run(changes.drop_last()).apply(changes.last())
        }
    }
}

/// Every change leaves a well-formed state well-formed.
pub proof fn lemma_apply_keeps_wf<E, P, M>(state: ActorState<E, P, M>, change: Change<P, M>)
    requires
        state.wf(),
    ensures
        state.apply(change).wf(),
{
    let next = state.apply(change);
    if state.running() {
        match change {
            Change::Register { id, parser, pdf } => {
                if !state.has(id) {
                    lemma_push_unique(state.ids, id);
                }
            },
            Change::Remove { id } => {
                lemma_without(state.ids, id);
            },
            Change::Stop => {},
        }
        assert forall|other: Seq<char>|
            next.docs.contains_key(other) <==> next.ids.contains(other) by {
            assert(state.docs.contains_key(other) <==> state.ids.contains(other));
        }
    }
}

/// Changes made in two series one after the other are the changes of the
/// joined series: each change acts on the state that the changes before it
/// have left.
pub proof fn lemma_run_in_order<E, P, M>(
    state: ActorState<E, P, M>,
    first: Seq<Change<P, M>>,
    then: Seq<Change<P, M>>,
)
    ensures
        state.run(first + then) == state.run(first).run(then),
    decreases then.len(),
{
    if then.len() == 0 {
        assert(first + then =~= first);
    } else {
        lemma_run_in_order(state, first, then.drop_last());
        assert((first + then).drop_last() =~= first + then.drop_last());
        assert((first + then).last() == then.last());
    }
}

/// The state that an actor started with `engine` is in after `changes`.
pub open spec fn reached<E, P, M>(engine: E, changes: Seq<Change<P, M>>) -> ActorState<E, P, M> {
    ActorState::start(engine).run(changes)
}

/// Whatever changes the actor has made since its start, its keys are listed
/// once each and are exactly the keys of the open documents.
pub proof fn lemma_listed_keys_are_the_open_keys<E, P, M>(engine: E, changes: Seq<Change<P, M>>)
    ensures
        reached(engine, changes).wf(),
        reached(engine, changes).ids.to_set() == reached(engine, changes).docs.dom(),
    decreases changes.len(),
{
    let start = ActorState::<E, P, M>::start(engine);
    if changes.len() == 0 {
        assert forall|id: Seq<char>| start.docs.contains_key(id) <==> start.ids.contains(id) by {}
    } else {
        lemma_listed_keys_are_the_open_keys(engine, changes.drop_last());
        lemma_apply_keeps_wf(start.run(changes.drop_last()), changes.last());
    }
    let now = reached(engine, changes);
    assert forall|id: Seq<char>| now.ids.to_set().contains(id) <==> now.docs.dom().contains(
        id,
    ) by {
        assert(now.docs.contains_key(id) <==> now.ids.contains(id));
    }
    assert(now.ids.to_set() =~= now.docs.dom());
}

/// The actor runs until it is told to shut down, and nothing else stops it;
/// for as long as it runs, it holds the engine with which it started.
pub proof fn lemma_runs_until_shutdown<E, P, M>(engine: E, changes: Seq<Change<P, M>>)
    ensures
        reached(engine, changes).running() <==> forall|i: int|
            0 <= i < changes.len() ==> !(#[trigger] changes[i] is Stop),
        reached(engine, changes).running() ==> reached(engine, changes).engine == Some(engine),
    decreases changes.len(),
{
    if changes.len() > 0 {
        let earlier = changes.drop_last();
        lemma_runs_until_shutdown(engine, earlier);
        if reached(engine, changes).running() {
            assert forall|i: int| 0 <= i < changes.len() implies !(#[trigger] changes[i]
                is Stop) by {
                if i < earlier.len() {
                    assert(earlier[i] == changes[i]);
                }
            }
        }
        if forall|i: int| 0 <= i < changes.len() ==> !(#[trigger] changes[i] is Stop) {
            assert forall|i: int| 0 <= i < earlier.len() implies !(#[trigger] earlier[i]
                is Stop) by {
                assert(earlier[i] == changes[i]);
            }
            assert(!(changes[changes.len() - 1] is Stop));
        }
    }
}

/// No document is open under a key before one is opened under it; one is
/// open once it was opened; none is open once it was closed.
pub proof fn lemma_open_until_closed<E, P, M>(
    engine: E,
    state: ActorState<E, P, M>,
    id: Seq<char>,
    parser: P,
    pdf: M,
)
    ensures
        !ActorState::<E, P, M>::start(engine).has(id),
        state.register(id, parser, pdf).has(id),
        !state.remove(id).has(id),
        !state.register(id, parser, pdf).remove(id).has(id),
{
}

/// A document opened under a key that is in use takes the place of the
/// earlier one: the state is as if only the later one had been opened, and
/// an operation on the key is given the later handle and the later summary.
pub proof fn lemma_reopen_replaces<E, P, M>(
    state: ActorState<E, P, M>,
    id: Seq<char>,
    first: Loaded<P, M>,
    second: Loaded<P, M>,
)
    ensures
        state.register(id, first.parser, first.pdf).register(id, second.parser, second.pdf)
            == state.register(id, second.parser, second.pdf),
        state.running() ==> state.register(id, first.parser, first.pdf).register(
            id,
            second.parser,
            second.pdf,
        ).lookup(id) == Ok::<_, PdfServiceErrorView>(second),
{
    let once = state.register(id, second.parser, second.pdf);
    let twice = state.register(id, first.parser, first.pdf).register(
        id,
        second.parser,
        second.pdf,
    );
    assert(twice.docs =~= once.docs);
    assert(twice.ids == once.ids);
}

/// Closing a key under which nothing is open changes nothing.
pub proof fn lemma_remove_absent_is_noop<E, P, M>(state: ActorState<E, P, M>, id: Seq<char>)
    requires
        state.wf(),
        !state.has(id),
    ensures
        state.remove(id) == state,
{
    lemma_without(state.ids, id);
    assert(state.docs.remove(id) =~= state.docs);
}

/// While the actor runs, an operation on a key that was closed is told that
/// the document is not loaded.
pub proof fn lemma_removed_is_not_loaded<E, P, M>(state: ActorState<E, P, M>, id: Seq<char>)
    requires
        state.running(),
    ensures
        state.remove(id).lookup(id) == Err::<Loaded<P, M>, _>(
            PdfServiceErrorView::ParseError(not_loaded(id)),
        ),
{
}

/// Whether `change` opens a document under `id`.
pub open spec fn opens<P, M>(change: Change<P, M>, id: Seq<char>) -> bool {
    change matches Change::Register { id: opened, .. } && opened == id
}

/// While the actor runs, an operation on a key under which no document was
/// ever opened is told that the document is not loaded, and nothing is open
/// under that key.
pub proof fn lemma_never_opened_is_not_loaded<E, P, M>(
    engine: E,
    changes: Seq<Change<P, M>>,
    id: Seq<char>,
)
    requires
        forall|i: int| 0 <= i < changes.len() ==> !opens(#[trigger] changes[i], id),
    ensures
        !reached(engine, changes).has(id),
        reached(engine, changes).running() ==> reached(engine, changes).lookup(id) == Err::<
            Loaded<P, M>,
            _,
        >(PdfServiceErrorView::ParseError(not_loaded(id))),
    decreases changes.len(),
{
    if changes.len() > 0 {
        let earlier = changes.drop_last();
        assert forall|i: int| 0 <= i < earlier.len() implies !opens(#[trigger] earlier[i], id) by {
            assert(earlier[i] == changes[i]);
        }
        lemma_never_opened_is_not_loaded(engine, earlier, id);
        assert(!opens(changes[changes.len() - 1], id));
    }
}

/// A stopped actor holds neither the engine nor a document, tells every
/// operation that it has stopped, and takes no further change: shutting it
/// down again leaves it as it is.
pub proof fn lemma_stopped_stays_stopped<E, P, M>(
    state: ActorState<E, P, M>,
    changes: Seq<Change<P, M>>,
    id: Seq<char>,
)
    ensures
        !state.stop().running(),
        !state.stop().has(id),
        state.stop().lookup(id) == Err::<Loaded<P, M>, _>(PdfServiceErrorView::ActorStopped),
        state.stop().run(changes) == state.stop(),
        state.stop().stop() == state.stop(),
    decreases changes.len(),
{
    if changes.len() > 0 {
        lemma_stopped_stays_stopped(state, changes.drop_last(), id);
    }
}

/// Once the actor was told to shut down, whatever it is asked afterwards, it
/// is in the state that the shutdown left: the changes before the shutdown
/// have been made, and none after it.
pub proof fn lemma_shutdown_ends_the_run<E, P, M>(
    engine: E,
    before: Seq<Change<P, M>>,
    after: Seq<Change<P, M>>,
    id: Seq<char>,
)
    ensures
        reached(engine, before.push(Change::Stop) + after) == reached(engine, before).stop(),
        !reached(engine, before.push(Change::Stop) + after).running(),
        reached(engine, before.push(Change::Stop) + after).lookup(id) == Err::<Loaded<P, M>, _>(
            PdfServiceErrorView::ActorStopped,
        ),
{
    let start = ActorState::<E, P, M>::start(engine);
    let then = start.run(before);
    lemma_run_in_order(start, before.push(Change::Stop), after);
    assert(before.push(Change::Stop).drop_last() =~= before);
    assert(start.run(before.push(Change::Stop)) == then.apply(Change::Stop));
    if !then.running() {
        lemma_listed_keys_are_the_open_keys(engine, before);
        assert(then.ids =~= Seq::<Seq<char>>::empty());
        assert forall|other: Seq<char>| !then.docs.contains_key(other) by {
            assert(!then.ids.contains(other));
        }
        assert(then.docs =~= Map::<Seq<char>, Loaded<P, M>>::empty());
        assert(then == then.stop());
    }
    lemma_stopped_stays_stopped(then, after, id);
}

/// A sequence without duplicates, extended by an element that it lacks, has
/// no duplicates and holds that element besides its own.
pub(crate) proof fn lemma_push_unique(ids: Seq<Seq<char>>, id: Seq<char>)
    requires
        ids.no_duplicates(),
        !ids.contains(id),
    ensures
        ids.push(id).no_duplicates(),
        forall|other: Seq<char>|
            ids.push(id).contains(other) <==> (ids.contains(other) || other == id),
{
    let more = ids.push(id);
    assert forall|other: Seq<char>| more.contains(other) <==> (ids.contains(other) || other
        == id) by {
        if ids.contains(other) {
            let i = choose|i: int| 0 <= i < ids.len() && ids[i] == other;
            assert(more[i] == other);
        }
        if other == id {
            assert(more[ids.len() as int] == other);
        }
    }
    assert forall|i: int, j: int|
        0 <= i < more.len() && 0 <= j < more.len() && i != j implies more[i] != more[j] by {
        if i == ids.len() {
            assert(ids[j] == more[j]);
        } else if j == ids.len() {
            assert(ids[i] == more[i]);
        }
    }
}

/// Taking a key out of keys without duplicates leaves keys without
/// duplicates: exactly the other keys, and all of them where the key was
/// not among them.
pub(crate) proof fn lemma_without(ids: Seq<Seq<char>>, id: Seq<char>)
    requires
        ids.no_duplicates(),
    ensures
        without(ids, id).no_duplicates(),
        forall|other: Seq<char>|
            without(ids, id).contains(other) <==> (ids.contains(other) && other != id),
        !ids.contains(id) ==> without(ids, id) == ids,
    decreases ids.len(),
{
    reveal(Seq::filter);
    let rest = without(ids, id);
    if ids.len() > 0 {
        let front = ids.drop_last();
        let last = ids.last();
        lemma_without(front, id);
        let kept = without(front, id);
        assert(rest == if last != id {
            kept.push(last)
        } else {
            kept
        });
        assert forall|other: Seq<char>| front.contains(other) implies ids.contains(other) by {
            let k = choose|k: int| 0 <= k < front.len() && front[k] == other;
            assert(ids[k] == other);
        }
        assert forall|other: Seq<char>| ids.contains(other) implies front.contains(other) || other
            == last by {
            let k = choose|k: int| 0 <= k < ids.len() && ids[k] == other;
            if k < front.len() {
                assert(front[k] == other);
            }
        }
        assert(ids.contains(last)) by {
            assert(ids[ids.len() - 1] == last);
        }
        assert(!front.contains(last)) by {
            if front.contains(last) {
                let k = choose|k: int| 0 <= k < front.len() && front[k] == last;
                assert(ids[k] == ids[ids.len() - 1]);
            }
        }
        if last != id {
            lemma_push_unique(kept, last);
        }
        assert forall|other: Seq<char>| rest.contains(other) <==> (ids.contains(other) && other
            != id) by {
            assert(kept.contains(other) <==> (front.contains(other) && other != id));
        }
        if !ids.contains(id) {
            assert(rest =~= ids);
        }
    }
}

/// In keys without duplicates, the keys without the one at `i` are the keys
/// with the place `i` taken out.
pub(crate) proof fn lemma_without_at(ids: Seq<Seq<char>>, i: int)
    requires
        ids.no_duplicates(),
        0 <= i < ids.len(),
    ensures
        without(ids, ids[i]) == ids.remove(i),
    decreases ids.len(),
{
    reveal(Seq::filter);
    let id = ids[i];
    let front = ids.drop_last();
    if i == ids.len() - 1 {
        assert(!front.contains(id)) by {
            if front.contains(id) {
                let k = choose|k: int| 0 <= k < front.len() && front[k] == id;
                assert(ids[k] == ids[i]);
            }
        }
        lemma_without(front, id);
        assert(ids.remove(i) =~= front);
    } else {
        lemma_without_at(front, i);
        assert(ids.last() != id);
        assert(ids.remove(i) =~= front.remove(i).push(ids.last()));
    }
}

} // verus!
