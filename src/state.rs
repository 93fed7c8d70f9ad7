//! The state table, the per-state ordered transition lists, and the walker.
use vstd::prelude::*;

use crate::error::TableError;
use crate::transition::{Transition, TransitionView, valid_guard, guard_error};

verus! {

/// The name of the Unicode `White_Space` property, as `char::is_whitespace`
/// decides it.
pub uninterp spec fn white_space(c: char) -> bool;

/// Relies on `char::is_whitespace`: whether `c` has the Unicode `White_Space`
/// property, which depends on `c` alone.
#[verifier::external_body]
fn is_whitespace(c: char) -> (r: bool)
    ensures
        r == white_space(c),
{
    c.is_whitespace()
}

/// A state of the automaton. `emit_token` is `Some(k)` for an accepting state
/// that completes a token of kind `k`, `None` otherwise.
#[derive(Clone, Copy, Debug, PartialEq, Eq, Structural)]
pub struct State {
    pub emit_token: Option<usize>,
}

/// The target of the first transition in `ts` that accepts `ch`.
pub open spec fn first_match(ts: Seq<TransitionView>, ch: char) -> Option<usize>
    decreases ts.len(),
{
    if ts.len() == 0 {
        None
    } else if ts[0].accepts(ch) {
        Some(ts[0].next_state)
    } else {
        first_match(ts.drop_first(), ch)
    }
}

/// The mathematical content of a [`LexerStates`]: the states in creation
/// order, and for each state its outgoing transitions in insertion order.
pub ghost struct LexerModel {
    pub states: Seq<State>,
    pub edges: Seq<Seq<TransitionView>>,
}

impl LexerModel {
    pub open spec fn empty() -> LexerModel {
        LexerModel { states: Seq::empty(), edges: Seq::empty() }
    }

    /// One transition list per state; every guard valid; every target an
    /// existing state.
    pub open spec fn wf(self) -> bool {
        &&& self.edges.len() == self.states.len()
        &&& forall|i: int, j: int|
            0 <= i < self.edges.len() && 0 <= j < self.edges[i].len() ==> {
                &&& (#[trigger] self.edges[i][j]).wf()
                &&& self.edges[i][j].next_state < self.states.len()
            }
    }

    pub open spec fn add_state(self, emit_token: Option<usize>) -> LexerModel {
        LexerModel {
            states: self.states.push(State { emit_token }),
            edges: self.edges.push(Seq::empty()),
        }
    }

    pub open spec fn state_at(self, id: int) -> Result<State, TableError> {
        if 0 <= id < self.states.len() {
            Ok(self.states[id])
        } else {
            Err(TableError::IndexError)
        }
    }

    /// What `add_transition` rejects, checked in this order: unknown states,
    /// then the guard.
    pub open spec fn transition_error(
        self,
        from: usize,
        min: char,
        max: char,
        ex: Option<char>,
        next: usize,
    ) -> Option<TableError> {
        if from >= self.states.len() || next >= self.states.len() {
            Some(TableError::InvalidState)
        } else if !valid_guard(min, max, ex) {
            Some(guard_error(min, max, ex))
        } else {
            None
        }
    }

    pub open spec fn push_edge(self, from: usize, t: TransitionView) -> LexerModel {
        LexerModel {
            states: self.states,
            edges: self.edges.update(from as int, self.edges[from as int].push(t)),
        }
    }

    /// The target of the first transition out of `from` that accepts `ch`;
    /// `None` for a state that this table does not know.
    pub open spec fn match_one(self, from: usize, ch: char) -> Option<usize> {
        if from < self.edges.len() {
            first_match(self.edges[from as int], ch)
        } else {
            None
        }
    }

    /// One step, where `is_space` says whether `ch` is whitespace: the root
    /// keeps whitespace, otherwise the first matching transition decides;
    /// `None` when nothing matches.
    pub open spec fn step_states(self, from: usize, ch: char, is_space: bool) -> Option<usize> {
        if from == 0 && is_space {
            Some(0)
        } else {
            self.match_one(from, ch)
        }
    }

    /// One step that never fails: an unmatched character restarts at the
    /// root, or stays put while no root exists.
    pub open spec fn step(self, from: usize, ch: char, is_space: bool) -> usize {
        match self.step_states(from, ch, is_space) {
            Some(n) => n,
            None => if self.states.len() > 0 {
                0
            } else {
                from
            },
        }
    }

    pub open spec fn walk_states(self, from: usize, ch: char) -> Option<usize> {
        self.step_states(from, ch, white_space(ch))
    }

    pub open spec fn walk(self, from: usize, ch: char) -> usize {
        self.step(from, ch, white_space(ch))
    }
}

/// The automaton: an append-only state table and, for each state, the ordered
/// list of its outgoing transitions. States are named by their index.
pub struct LexerStates {
    states: Vec<State>,
    transitions: Vec<Vec<Transition>>,
}

impl View for LexerStates {
    type V = LexerModel;

    closed spec fn view(&self) -> LexerModel {
        LexerModel {
            states: self.states@,
            edges: self.transitions@.map_values(|v: Vec<Transition>| v@.map_values(|t: Transition| t@)),
        }
    }
}

impl LexerStates {
    pub open spec fn wf(&self) -> bool {
        self@.wf()
    }

    /// An automaton with no states.
    pub fn new() -> (r: LexerStates)
        ensures
            r@ == LexerModel::empty(),
            r.wf(),
    {
        let r = LexerStates { states: Vec::new(), transitions: Vec::new() };
        assert(r@.edges =~= Seq::empty());
        r
    }

    /// Appends a state and returns its identifier, the number of states
    /// created before it.
    pub fn add_state(&mut self, token: Option<usize>) -> (r: usize)
        requires
            old(self).wf(),
        ensures
            r == old(self)@.states.len(),
            final(self)@ == old(self)@.add_state(token),
            final(self).wf(),
    {
        let idx = self.states.len();
        self.states.push(State { emit_token: token });
        self.transitions.push(Vec::new());
        proof {
            let ghost old_edges = old(self)@.edges;
            assert(self@.edges[idx as int] =~= Seq::<TransitionView>::empty());
            assert(self@.edges =~= old_edges.push(Seq::empty()));
        }
        idx
    }

    /// Appends the transition `[min, max] \ {ex} -> next` to the list of
    /// `from_state`, behind those already there. Nothing changes on an error.
    pub fn add_transition(
        &mut self,
        from_state: usize,
        min: char,
        max: char,
        ex: Option<char>,
        next: usize,
    ) -> (r: Result<(), TableError>)
        requires
            old(self).wf(),
        ensures
            final(self).wf(),
            match old(self)@.transition_error(from_state, min, max, ex, next) {
                Some(e) => r == Err::<(), TableError>(e) && final(self)@ == old(self)@,
                None => r is Ok && final(self)@ == old(self)@.push_edge(
                    from_state,
                    TransitionView { min, max, exception: ex, next_state: next },
                ),
            },
    {
        if from_state >= self.states.len() || next >= self.states.len() {
            return Err(TableError::InvalidState);
        }
        let t = match Transition::new(min, max, ex, next) {
            Ok(t) => t,
            Err(e) => return Err(e),
        };
        let ghost old_model = self@;
        let ghost tv = t@;
        self.transitions[from_state].push(t);
        proof {
            let ghost expect = old_model.push_edge(from_state, tv);
            assert(self@.edges[from_state as int] =~= expect.edges[from_state as int]);
            assert(self@.edges =~= expect.edges);
            assert forall|i: int, j: int|
                0 <= i < self@.edges.len() && 0 <= j < self@.edges[i].len() implies {
                    &&& (#[trigger] self@.edges[i][j]).wf()
                    &&& self@.edges[i][j].next_state < self@.states.len()
                } by {
                if i != from_state || j < old_model.edges[i].len() {
                    assert(self@.edges[i][j] == old_model.edges[i][j]);
                }
            }
        }
        Ok(())
    }

    /// The data of state `id`; `IndexError` when no such state was created.
    pub fn get(&self, id: usize) -> (r: Result<State, TableError>)
        ensures
            r == self@.state_at(id as int),
    {
        if id < self.states.len() {
            Ok(self.states[id])
        } else {
            Err(TableError::IndexError)
        }
    }

    /// The number of states created.
    pub fn num_states(&self) -> (r: usize)
        ensures
            r == self@.states.len(),
    {
        self.states.len()
    }

    /// The target of the first transition out of `from` that accepts `ch`, in
    /// insertion order.
    pub fn match_one(&self, from: usize, ch: char) -> (r: Option<usize>)
        ensures
            r == self@.match_one(from, ch),
    {
        if from >= self.transitions.len() {
            return None;
        }
        let list = &self.transitions[from];
        let ghost ts = self@.edges[from as int];
        assert(ts == list@.map_values(|t: Transition| t@));
        assert(ts.skip(0) =~= ts);
        let mut i: usize = 0;
        while i < list.len()
            invariant
                0 <= i <= list.len(),
                from < self@.edges.len(),
                ts == self@.edges[from as int],
                ts == list@.map_values(|t: Transition| t@),
                first_match(ts, ch) == first_match(ts.skip(i as int), ch),
            decreases list.len() - i,
        {
            assert(ts[i as int] == list@[i as int]@);
            assert(ts.skip(i as int)[0] == ts[i as int]);
            assert(ts.skip(i as int).drop_first() =~= ts.skip(i + 1));
            if let Some(n) = list[i].check(ch) {
                return Some(n);
            }
            i += 1;
        }
        assert(ts.skip(i as int).len() == 0);
        None
    }

    /// One step from `from_state` on `ch`, where `ch_is_whitespace` says
    /// whether `ch` is whitespace: the root keeps whitespace, otherwise the
    /// first matching transition decides; `None` when nothing matches.
    pub fn step_states(&self, from_state: usize, ch: char, ch_is_whitespace: bool) -> (r: Option<
        usize,
    >)
        ensures
            r == self@.step_states(from_state, ch, ch_is_whitespace),
    {
        if from_state == 0 && ch_is_whitespace {
            return Some(0);
        }
        self.match_one(from_state, ch)
    }

    /// As [`LexerStates::step_states`], but where nothing matches the walk
    /// restarts at the root (or stays put while the table has no root).
    pub fn step(&self, from_state: usize, ch: char, ch_is_whitespace: bool) -> (r: usize)
        ensures
            r == self@.step(from_state, ch, ch_is_whitespace),
    {
        match self.step_states(from_state, ch, ch_is_whitespace) {
            Some(n) => n,
            None => if self.states.len() > 0 {
                0
            } else {
                from_state
            },
        }
    }

    /// One step from `from_state` on `ch`: the root keeps whitespace, otherwise
    /// the first matching transition decides; `None` when nothing matches.
    pub fn walk_states(&self, from_state: usize, ch: char) -> (r: Option<usize>)
        ensures
            r == self@.walk_states(from_state, ch),
    {
        self.step_states(from_state, ch, is_whitespace(ch))
    }

    /// One step that never fails: where nothing matches, the walk restarts at
    /// the root (or stays put while the table has no root).
    pub fn walk(&self, from_state: usize, ch: char) -> (r: usize)
        ensures
            r == self@.walk(from_state, ch),
    {
        self.step(from_state, ch, is_whitespace(ch))
    }
}

impl Default for LexerStates {
    fn default() -> (r: LexerStates)
        ensures
            r@ == LexerModel::empty(),
            r.wf(),
    {
        Self::new()
    }
}

/// Appending a transition never changes a match found before it, and where
/// there was none, the appended transition matches exactly when it accepts.
pub proof fn lemma_first_match_push(ts: Seq<TransitionView>, t: TransitionView, ch: char)
    ensures
        first_match(ts.push(t), ch) == (match first_match(ts, ch) {
            Some(n) => Some(n),
            None => if t.accepts(ch) {
                Some(t.next_state)
            } else {
                None
            },
        }),
    decreases ts.len(),
{
    if ts.len() > 0 {
        assert(ts.push(t)[0] == ts[0]);
        assert(ts.push(t).drop_first() =~= ts.drop_first().push(t));
        lemma_first_match_push(ts.drop_first(), t, ch);
    } else {
        assert(ts.push(t)[0] == t);
        assert(ts.push(t).drop_first() =~= Seq::<TransitionView>::empty());
        assert(first_match(Seq::<TransitionView>::empty(), ch) is None);
    }
}

/// A match is the target of some transition of the list that accepts `ch`.
pub proof fn lemma_first_match_is_a_target(ts: Seq<TransitionView>, ch: char)
    ensures
        first_match(ts, ch) matches Some(n) ==> exists|j: int|
            0 <= j < ts.len() && (#[trigger] ts[j]).accepts(ch) && ts[j].next_state == n,
    decreases ts.len(),
{
    if ts.len() > 0 && !ts[0].accepts(ch) {
        lemma_first_match_is_a_target(ts.drop_first(), ch);
        if let Some(n) = first_match(ts, ch) {
            let j = choose|j: int|
                0 <= j < ts.drop_first().len() && (#[trigger] ts.drop_first()[j]).accepts(ch)
                    && ts.drop_first()[j].next_state == n;
            assert(ts[j + 1] == ts.drop_first()[j]);
        }
    }
}

/// `add_state(k)` hands out the next identifier in creation order, starting at
/// 0; the new state reads back with `emit_token == k`; states created earlier
/// read back unchanged, through later states and transitions alike.
pub proof fn lemma_add_state_then_get(
    a: LexerModel,
    k: Option<usize>,
    id: int,
    from: usize,
    t: TransitionView,
)
    requires
        a.wf(),
    ensures
        LexerModel::empty().states.len() == 0,
        a.add_state(k).states.len() == a.states.len() + 1,
        a.add_state(k).state_at(a.states.len() as int) == Ok::<State, TableError>(
            State { emit_token: k },
        ),
        0 <= id < a.states.len() ==> a.add_state(k).state_at(id) == a.state_at(id),
        from < a.states.len() ==> a.push_edge(from, t).state_at(id) == a.state_at(id),
        a.add_state(k).wf(),
{
    let b = a.add_state(k);
    assert forall|i: int, j: int|
        0 <= i < b.edges.len() && 0 <= j < b.edges[i].len() implies {
            &&& (#[trigger] b.edges[i][j]).wf()
            &&& b.edges[i][j].next_state < b.states.len()
        } by {
        assert(i < a.edges.len());
        assert(b.edges[i] == a.edges[i]);
    }
}

/// `add_transition` succeeds exactly when both states exist, `min <= max`, and
/// the exception, if any, lies strictly between `min` and `max`; a failure
/// names the first rule broken.
pub proof fn lemma_add_transition_error_iff(
    a: LexerModel,
    from: usize,
    min: char,
    max: char,
    ex: Option<char>,
    next: usize,
)
    ensures
        a.transition_error(from, min, max, ex, next) is None <==> {
            &&& from < a.states.len()
            &&& next < a.states.len()
            &&& min <= max
            &&& ex matches Some(e) ==> min < e && e < max
        },
        a.transition_error(from, min, max, ex, next) == Some(TableError::InvalidState) <==> (from
            >= a.states.len() || next >= a.states.len()),
        a.transition_error(from, min, max, ex, next) == Some(TableError::InvalidRange) <==> (from
            < a.states.len() && next < a.states.len() && min > max),
        a.transition_error(from, min, max, ex, next) == Some(TableError::InvalidException) <==> (
        from < a.states.len() && next < a.states.len() && min <= max && (ex matches Some(e) && !(
        min < e && e < max))),
{
}

/// Of two transitions appended to the same state, in order, that both accept
/// `ch`, the first one decides, provided no earlier transition of that state
/// accepted `ch`.
pub proof fn lemma_first_inserted_wins(
    a: LexerModel,
    from: usize,
    t1: TransitionView,
    t2: TransitionView,
    ch: char,
)
    requires
        a.wf(),
        from < a.states.len(),
        a.match_one(from, ch) is None,
        t1.accepts(ch),
        t2.accepts(ch),
    ensures
        a.push_edge(from, t1).push_edge(from, t2).match_one(from, ch) == Some(t1.next_state),
{
    let ts = a.edges[from as int];
    lemma_first_match_push(ts, t1, ch);
    lemma_first_match_push(ts.push(t1), t2, ch);
}

/// The root keeps every whitespace character, whatever transitions leave it.
pub proof fn lemma_root_absorbs_whitespace(a: LexerModel, ch: char)
    requires
        white_space(ch),
    ensures
        a.walk_states(0, ch) == Some(0usize),
        a.walk(0, ch) == 0,
{
}

/// Once the root exists, a character that no transition of `from` accepts
/// sends the walk back to the root.
pub proof fn lemma_unmatched_restarts_at_root(a: LexerModel, from: usize, ch: char)
    requires
        a.states.len() > 0,
        a.match_one(from, ch) is None,
        from != 0 || !white_space(ch),
    ensures
        a.walk_states(from, ch) is None,
        a.walk(from, ch) == 0,
{
}

/// In a well-formed table a walk from an existing state stays on existing
/// states.
pub proof fn lemma_walk_stays_in_table(a: LexerModel, from: usize, ch: char)
    requires
        a.wf(),
        from < a.states.len(),
    ensures
        a.walk(from, ch) < a.states.len(),
{
    lemma_first_match_is_a_target(a.edges[from as int], ch);
}

} // verus!
