//! The actor that owns the engine and every open document.
//!
//! The engine behind the documents tolerates one caller at a time, so all
//! work on it is routed through a single actor. This module holds what that
//! actor decides: which documents are open, under which key, what an
//! operation on a key is given, and when the actor stops and lets go of the
//! engine. Every operation takes the actor by exclusive or shared reference
//! and runs to its end, so no two of them overlap.

use crate::error::{PdfParseError, PdfServiceError, PdfServiceErrorView};
use crate::state::{
    lemma_push_unique, lemma_without, lemma_without_at, without, ActorState, Loaded,
};
use vstd::hash_map::StringHashMap;
use vstd::prelude::*;

verus! {

/// The open documents with their keys.
#[verifier::reject_recursive_types(P)]
#[verifier::reject_recursive_types(M)]
struct Registry<P, M> {
    docs: StringHashMap<Loaded<P, M>>,
    ids: Vec<String>,
}

impl<P, M> Registry<P, M> {
    /// The keys in the order in which they were first opened.
    spec fn keys(&self) -> Seq<Seq<char>> {
        self.ids.deep_view()
    }

    /// The keys are listed once each and are exactly the keys of the open
    /// documents.
    spec fn wf(&self) -> bool {
        &&& self.keys().no_duplicates()
        &&& forall|id: Seq<char>| self.docs@.contains_key(id) <==> self.keys().contains(id)
    }

    fn new() -> (registry: Self)
        ensures
            registry.wf(),
            registry.docs@ == Map::<Seq<char>, Loaded<P, M>>::empty(),
            registry.keys() == Seq::<Seq<char>>::empty(),
    {
        let registry = Registry { docs: StringHashMap::new(), ids: Vec::new() };
        assert(registry.keys() =~= Seq::<Seq<char>>::empty());
        registry
    }

    fn insert(&mut self, book_id: String, parser: P, pdf: M)
        requires
            old(self).wf(),
        ensures
            final(self).wf(),
            final(self).docs@ == old(self).docs@.insert(book_id@, Loaded { parser, pdf }),
            final(self).keys() == if old(self).docs@.contains_key(book_id@) {
                old(self).keys()
            } else {
                old(self).keys().push(book_id@)
            },
    {
        let ghost before = self.keys();
        if !self.docs.contains_key(book_id.as_str()) {
            self.ids.push(book_id.clone());
            proof {
                assert(self.keys() =~= before.push(book_id@));
                lemma_push_unique(before, book_id@);
            }
        }
        self.docs.insert(book_id, Loaded { parser, pdf });
        proof {
            let after = self.keys();
            assert forall|id: Seq<char>| self.docs@.contains_key(id) <==> after.contains(id) by {
                assert(old(self).docs@.contains_key(id) <==> before.contains(id));
            }
        }
    }

    fn remove(&mut self, book_id: &str)
        requires
            old(self).wf(),
        ensures
            final(self).wf(),
            final(self).docs@ == old(self).docs@.remove(book_id@),
            final(self).keys() == without(old(self).keys(), book_id@),
    {
        let ghost before = self.keys();
        let wanted = book_id.to_owned();
        let mut i: usize = 0;
        while i < self.ids.len()
            invariant
                0 <= i <= self.ids.len(),
                self.keys() == before,
                self.docs == old(self).docs,
                old(self).wf(),
                before == old(self).keys(),
                wanted@ == book_id@,
                forall|j: int| 0 <= j < i ==> before[j] != book_id@,
            decreases self.ids.len() - i,
        {
            if self.ids[i] == wanted {
                self.ids.remove(i);
                self.docs.remove(book_id);
                proof {
                    assert(self.keys() =~= before.remove(i as int));
                    lemma_without_at(before, i as int);
                    lemma_without(before, book_id@);
                    let after = self.keys();
                    assert forall|id: Seq<char>| self.docs@.contains_key(id) <==> after.contains(
                        id,
                    ) by {
                        assert(old(self).docs@.contains_key(id) <==> before.contains(id));
                    }
                }
                return;
            }
            i += 1;
        }
        proof {
            assert(!before.contains(book_id@));
            lemma_without(before, book_id@);
            assert(self.docs@ =~= old(self).docs@.remove(book_id@));
        }
    }

    fn ids(&self) -> (ids: Vec<String>)
        ensures
            ids.deep_view() == self.keys(),
    {
        let mut ids: Vec<String> = Vec::new();
        let mut i: usize = 0;
        while i < self.ids.len()
            invariant
                0 <= i <= self.ids.len(),
                ids.len() == i,
                forall|j: int| 0 <= j < i ==> ids[j]@ == self.ids[j]@,
            decreases self.ids.len() - i,
        {
            ids.push(self.ids[i].clone());
            i += 1;
        }
        ids
    }
}

/// The owner of the engine and of the open documents.
///
/// `E` is the engine, `P` the engine's handle to an open document and `M`
/// the summary kept beside it. All three are stored and handed back
/// untouched. The actor holds the engine from its start to its shutdown, and
/// it holds documents only while it holds the engine.
#[verifier::reject_recursive_types(E)]
#[verifier::reject_recursive_types(P)]
#[verifier::reject_recursive_types(M)]
pub struct PdfActor<E, P, M> {
    engine: Option<E>,
    registry: Registry<P, M>,
}

impl<E, P, M> View for PdfActor<E, P, M> {
    type V = ActorState<E, P, M>;

    closed spec fn view(&self) -> ActorState<E, P, M> {
        ActorState { engine: self.engine, docs: self.registry.docs@, ids: self.registry.keys() }
    }
}

impl<E, P, M> PdfActor<E, P, M> {
    #[verifier::type_invariant]
    spec fn inv(&self) -> bool {
        self@.wf()
    }

    /// An actor that runs with `engine` and holds no document.
    pub fn new(engine: E) -> (actor: Self)
        ensures
            actor@ == ActorState::<E, P, M>::start(engine),
            actor@.wf(),
    {
        PdfActor { engine: Some(engine), registry: Registry::new() }
    }

    /// Whether the actor still takes jobs.
    pub fn is_running(&self) -> (running: bool)
        ensures
            running == self@.running(),
            self@.wf(),
    {
        proof {
            use_type_invariant(self);
        }
        self.engine.is_some()
    }

    /// The engine, for opening a document.
    pub fn engine(&self) -> (engine: Result<&E, PdfServiceError>)
        ensures
            self@.wf(),
            match engine {
                Ok(engine) => self@.engine == Some(*engine),
                Err(e) => !self@.running() && e@ == PdfServiceErrorView::ActorStopped,
            },
    {
        proof {
            use_type_invariant(self);
        }
        match &self.engine {
            Some(engine) => Ok(engine),
            None => Err(PdfServiceError::ActorStopped),
        }
    }

    /// Keeps a document that was just opened under `book_id`, in place of
    /// the one that was open under that key, if any. A stopped actor keeps
    /// nothing.
    pub fn register(&mut self, book_id: String, parser: P, pdf: M) -> (done: Result<
        (),
        PdfServiceError,
    >)
        ensures
            final(self)@.wf(),
            match done {
                Ok(_) => old(self)@.running() && final(self)@ == old(self)@.register(
                    book_id@,
                    parser,
                    pdf,
                ),
                Err(e) => !old(self)@.running() && final(self)@ == old(self)@ && e@
                    == PdfServiceErrorView::ActorStopped,
            },
    {
        proof {
            use_type_invariant(&*self);
        }
        if self.engine.is_none() {
            return Err(PdfServiceError::ActorStopped);
        }
        let mut registry = Registry::new();
        std::mem::swap(&mut registry, &mut self.registry);
        registry.insert(book_id, parser, pdf);
        self.registry = registry;
        Ok(())
    }

    /// The document that is open under `book_id`, for an operation on it.
    pub fn document(&self, book_id: &str) -> (found: Result<&Loaded<P, M>, PdfServiceError>)
        ensures
            self@.wf(),
            match found {
                Ok(document) => self@.lookup(book_id@) == Ok::<_, PdfServiceErrorView>(*document),
                Err(e) => self@.lookup(book_id@) == Err::<Loaded<P, M>, _>(e@),
            },
    {
        proof {
            use_type_invariant(self);
        }
        if self.engine.is_none() {
            return Err(PdfServiceError::ActorStopped);
        }
        match self.registry.docs.get(book_id) {
            Some(document) => Ok(document),
            None => Err(PdfServiceError::ParseError(PdfParseError::not_loaded(book_id))),
        }
    }

    /// Whether a document is open under `book_id`.
    pub fn has_pdf(&self, book_id: &str) -> (found: Result<bool, PdfServiceError>)
        ensures
            self@.wf(),
            match found {
                Ok(open) => self@.running() && open == self@.has(book_id@),
                Err(e) => !self@.running() && e@ == PdfServiceErrorView::ActorStopped,
            },
    {
        proof {
            use_type_invariant(self);
        }
        if self.engine.is_none() {
            return Err(PdfServiceError::ActorStopped);
        }
        Ok(self.registry.docs.contains_key(book_id))
    }

    /// Closes the document under `book_id`. Where none is open under that
    /// key, nothing changes.
    pub fn remove_pdf(&mut self, book_id: &str) -> (done: Result<(), PdfServiceError>)
        ensures
            final(self)@.wf(),
            match done {
                Ok(_) => old(self)@.running() && final(self)@ == old(self)@.remove(book_id@),
                Err(e) => !old(self)@.running() && final(self)@ == old(self)@ && e@
                    == PdfServiceErrorView::ActorStopped,
            },
    {
        proof {
            use_type_invariant(&*self);
        }
        if self.engine.is_none() {
            return Err(PdfServiceError::ActorStopped);
        }
        let mut registry = Registry::new();
        std::mem::swap(&mut registry, &mut self.registry);
        registry.remove(book_id);
        self.registry = registry;
        Ok(())
    }

    /// The keys of the open documents, in the order in which they were first
    /// opened.
    pub fn list_pdfs(&self) -> (listed: Result<Vec<String>, PdfServiceError>)
        ensures
            self@.wf(),
            match listed {
                Ok(ids) => self@.running() && ids.deep_view() == self@.ids,
                Err(e) => !self@.running() && e@ == PdfServiceErrorView::ActorStopped,
            },
    {
        proof {
            use_type_invariant(self);
        }
        if self.engine.is_none() {
            return Err(PdfServiceError::ActorStopped);
        }
        Ok(self.registry.ids())
    }

    /// Stops the actor: closes every document, then releases the engine. A
    /// stopped actor stays as it is.
    pub fn shutdown(&mut self) -> (done: Result<(), PdfServiceError>)
        ensures
            final(self)@.wf(),
            match done {
                Ok(_) => old(self)@.running() && final(self)@ == old(self)@.stop(),
                Err(e) => !old(self)@.running() && final(self)@ == old(self)@ && e@
                    == PdfServiceErrorView::ActorStopped,
            },
    {
        proof {
            use_type_invariant(&*self);
        }
        if self.engine.is_none() {
            return Err(PdfServiceError::ActorStopped);
        }
        self.registry = Registry::new();
        self.engine = None;
        Ok(())
    }
}

} // verus!
