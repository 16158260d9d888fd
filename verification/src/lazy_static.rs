//! The decisions of a value that is initialized on first use. The value, its
//! initializer and the atomic byte that holds its stage live with the caller;
//! the library decides what each observed stage calls for.
use vstd::prelude::*;

verus! {

/// The stages of the value, as stored in its atomic byte.
pub struct InitStage;

#[allow(non_upper_case_globals)]
impl InitStage {
    pub const Uninit: u8 = 0;
    pub const Initing: u8 = 1;
    pub const Inited: u8 = 2;
}

/// What `deref` does next.
#[derive(Clone, Copy, PartialEq, Eq, Debug)]
pub enum DerefStep {
    /// Run the initializer, store the value, mark it initialized, read it.
    Initialize,
    /// Another caller is running the initializer: spin and try again.
    Wait,
    /// The value is there: read it.
    Read,
}

/// What `deref` does when its compare-exchange returned `exchange`.
pub open spec fn deref_decision(exchange: Result<u8, u8>) -> DerefStep {
    match exchange {
        Ok(_) => DerefStep::Initialize,
        Err(stage) => if stage == InitStage::Initing {
            DerefStep::Wait
        } else {
            DerefStep::Read
        },
    }
}

/// What `deref` does after its compare-exchange from `Uninit` to `Initing`,
/// which returned `exchange`: the caller that made the exchange runs the
/// initializer, a caller that found `Initing` waits, a caller that found
/// `Inited` reads the value. No other stage can be found.
pub fn deref_step(exchange: Result<u8, u8>) -> (r: DerefStep)
    requires
        exchange is Ok || exchange == Err::<u8, u8>(InitStage::Initing) || exchange == Err::<
            u8,
            u8,
        >(InitStage::Inited),
    ensures
        r == deref_decision(exchange),
{
    match exchange {
        Ok(_) => DerefStep::Initialize,
        Err(stage) => {
            if stage == InitStage::Initing {
                DerefStep::Wait
            } else {
                DerefStep::Read
            }
        },
    }
}

/// Whether dropping the cell in `stage` must drop the value: only an
/// initialized value exists. `stage` must be one of the three stages.
pub fn drop_needs_value_drop(stage: u8) -> (r: bool)
    requires
        stage <= InitStage::Inited,
    ensures
        r == (stage == InitStage::Inited),
{
    stage == InitStage::Inited
}

/// What happens to the stage byte of one value, in the order it happens:
/// a `deref` makes its compare-exchange from `Uninit` to `Initing`, or the
/// caller that initialized the value stores `Inited` once the value is
/// written.
#[derive(Clone, Copy, PartialEq, Eq, Debug)]
pub enum StageEvent {
    Exchange,
    Publish,
}

/// What a compare-exchange from `Uninit` to `Initing` returns when the stage
/// is `stage`: `Ok` with the old stage where it was `Uninit` (and the new
/// stage is stored), `Err` with the stage otherwise.
pub open spec fn exchange_result(stage: u8) -> Result<u8, u8> {
    if stage == InitStage::Uninit {
        Ok(stage)
    } else {
        Err(stage)
    }
}

/// The stage after `events`, starting from `Uninit`.
pub open spec fn stage_after(events: Seq<StageEvent>) -> u8
    decreases events.len(),
{
    if events.len() == 0 {
        InitStage::Uninit
    } else {
        let before = stage_after(events.drop_last());
        match events.last() {
            StageEvent::Exchange => if before == InitStage::Uninit {
                InitStage::Initing
            } else {
                before
            },
            StageEvent::Publish => InitStage::Inited,
        }
    }
}

/// What the `deref` whose compare-exchange is `events[i]` decides.
pub open spec fn decision_at(events: Seq<StageEvent>, i: int) -> DerefStep {
    deref_decision(exchange_result(stage_after(events.take(i))))
}

/// Only the caller that initialized the value publishes it: `Inited` is
/// stored only while the stage is `Initing`.
pub open spec fn publishes_after_initializing(events: Seq<StageEvent>) -> bool {
    forall|i: int|
        0 <= i < events.len() && events[i] == StageEvent::Publish ==> stage_after(events.take(i))
            == InitStage::Initing
}

/// How many of the `deref`s in `events` run the initializer.
pub open spec fn initializations(events: Seq<StageEvent>) -> nat
    decreases events.len(),
{
    if events.len() == 0 {
        0
    } else {
        initializations(events.drop_last()) + if events.last() == StageEvent::Exchange
            && stage_after(events.drop_last()) == InitStage::Uninit {
            1nat
        } else {
            0nat
        }
    }
}

/// Once the stage has left `Uninit` it never comes back, and it is `Inited`
/// only after a publish.
proof fn lemma_stage_history(events: Seq<StageEvent>)
    ensures
        initializations(events) >= 1 ==> stage_after(events) != InitStage::Uninit,
        initializations(events) <= 1,
        stage_after(events) == InitStage::Uninit || stage_after(events) == InitStage::Initing
            || stage_after(events) == InitStage::Inited,
        stage_after(events) == InitStage::Inited ==> exists|j: int|
            0 <= j < events.len() && events[j] == StageEvent::Publish,
    decreases events.len(),
{
    if events.len() > 0 {
        let prefix = events.drop_last();
        lemma_stage_history(prefix);
        if stage_after(prefix) == InitStage::Inited {
            let j = choose|j: int| 0 <= j < prefix.len() && prefix[j] == StageEvent::Publish;
            assert(events[j] == StageEvent::Publish);
        }
        if events.last() == StageEvent::Publish {
            assert(events[events.len() - 1] == StageEvent::Publish);
        }
    }
}

/// Where only the initializing caller publishes, the value has been
/// initialized exactly when a `deref` has been made, and it has been
/// initialized by the time the stage leaves `Uninit`.
proof fn lemma_published_history(events: Seq<StageEvent>)
    requires
        publishes_after_initializing(events),
    ensures
        stage_after(events) != InitStage::Uninit ==> initializations(events) == 1,
        stage_after(events) == InitStage::Uninit <==> !events.contains(StageEvent::Exchange),
    decreases events.len(),
{
    if events.len() > 0 {
        let prefix = events.drop_last();
        assert forall|i: int|
            0 <= i < prefix.len() && prefix[i] == StageEvent::Publish implies stage_after(
                prefix.take(i),
            ) == InitStage::Initing by {
            assert(prefix.take(i) =~= events.take(i));
            assert(events[i] == StageEvent::Publish);
        }
        lemma_published_history(prefix);
        lemma_stage_history(prefix);
        assert(events.take(events.len() - 1) =~= prefix);
        if events.last() == StageEvent::Exchange {
            assert(events[events.len() - 1] == StageEvent::Exchange);
        } else {
            assert(events[events.len() - 1] == StageEvent::Publish);
        }
        if prefix.contains(StageEvent::Exchange) {
            let k = choose|k: int| 0 <= k < prefix.len() && prefix[k] == StageEvent::Exchange;
            assert(events[k] == StageEvent::Exchange);
        }
        if events.contains(StageEvent::Exchange) && events.last() != StageEvent::Exchange {
            let k = choose|k: int| 0 <= k < events.len() && events[k] == StageEvent::Exchange;
            assert(k < events.len() - 1);
            assert(prefix[k] == StageEvent::Exchange);
        }
    }
}

/// The initializer runs at most once: over any sequence of compare-exchanges
/// and publishes, at most one `deref` decides to initialize.
pub proof fn lemma_initializer_runs_at_most_once(events: Seq<StageEvent>)
    ensures
        initializations(events) <= 1,
        forall|i: int, j: int|
            0 <= i < j < events.len() && events[i] == StageEvent::Exchange && events[j]
                == StageEvent::Exchange && decision_at(events, i) == DerefStep::Initialize
                ==> decision_at(events, j) != DerefStep::Initialize,
{
    lemma_stage_history(events);
    assert forall|i: int, j: int|
        0 <= i < j < events.len() && events[i] == StageEvent::Exchange && events[j]
            == StageEvent::Exchange && decision_at(events, i) == DerefStep::Initialize
            implies decision_at(events, j) != DerefStep::Initialize by {
        let upto = events.take(i + 1);
        assert(upto.drop_last() =~= events.take(i));
        assert(upto.last() == StageEvent::Exchange);
        lemma_stage_history(events.take(i));
        assert(initializations(upto) >= 1);
        lemma_stays_initialized(events, i + 1, j);
    }
}

/// Once the value has been initialized, the stage stays away from `Uninit`.
proof fn lemma_stays_initialized(events: Seq<StageEvent>, from: int, to: int)
    requires
        0 <= from <= to <= events.len(),
        stage_after(events.take(from)) != InitStage::Uninit,
    ensures
        stage_after(events.take(to)) != InitStage::Uninit,
    decreases to - from,
{
    if from < to {
        lemma_stays_initialized(events, from, to - 1);
        assert(events.take(to).drop_last() =~= events.take(to - 1));
    }
}

/// Where only the initializing caller publishes: the first `deref` runs the
/// initializer, and a `deref` reads the value only after the value has been
/// published by that one initialization, so every read sees the same value.
pub proof fn lemma_reads_follow_the_one_initialization(events: Seq<StageEvent>)
    requires
        publishes_after_initializing(events),
    ensures
        events.contains(StageEvent::Exchange) <==> initializations(events) == 1,
        forall|i: int|
            0 <= i < events.len() && events[i] == StageEvent::Exchange && !events.take(i).contains(
                StageEvent::Exchange,
            ) ==> decision_at(events, i) == DerefStep::Initialize,
        forall|i: int|
            0 <= i < events.len() && events[i] == StageEvent::Exchange && decision_at(events, i)
                == DerefStep::Read ==> initializations(events.take(i)) == 1 && exists|j: int|
                0 <= j < i && events[j] == StageEvent::Publish,
{
    lemma_published_history(events);
    lemma_stage_history(events);
    assert forall|i: int|
        0 <= i < events.len() && events[i] == StageEvent::Exchange && !events.take(i).contains(
            StageEvent::Exchange,
        ) implies decision_at(events, i) == DerefStep::Initialize by {
        lemma_prefix_publishes(events, i);
        lemma_published_history(events.take(i));
    }
    assert forall|i: int|
        0 <= i < events.len() && events[i] == StageEvent::Exchange && decision_at(events, i)
            == DerefStep::Read implies initializations(events.take(i)) == 1 && exists|j: int|
            0 <= j < i && events[j] == StageEvent::Publish by {
        let prefix = events.take(i);
        lemma_prefix_publishes(events, i);
        lemma_published_history(prefix);
        lemma_stage_history(prefix);
        let j = choose|j: int| 0 <= j < prefix.len() && prefix[j] == StageEvent::Publish;
        assert(events[j] == StageEvent::Publish);
    }
}

/// A prefix of a trace in which only the initializer publishes is one too.
proof fn lemma_prefix_publishes(events: Seq<StageEvent>, n: int)
    requires
        0 <= n <= events.len(),
        publishes_after_initializing(events),
    ensures
        publishes_after_initializing(events.take(n)),
{
    assert forall|i: int|
        0 <= i < events.take(n).len() && events.take(n)[i] == StageEvent::Publish implies stage_after(
            events.take(n).take(i),
        ) == InitStage::Initing by {
        assert(events.take(n).take(i) =~= events.take(i));
        assert(events[i] == StageEvent::Publish);
    }
}

} // verus!
