use vstd::prelude::*;
use crate::error::HookResult;

verus! {

/// The answer of a hook call for plugins consulted in registration order:
/// the first answer that is not a decline, or a decline when all declined.
pub open spec fn first_decisive<T>(outcomes: Seq<HookResult<T>>) -> HookResult<T>
    decreases outcomes.len(),
{
    if outcomes.len() == 0 {
        HookResult::NotApplicable
    } else if outcomes[0] is NotApplicable {
        first_decisive(outcomes.drop_first())
    } else {
        outcomes[0]
    }
}

/// Whether the dispatcher stops after a plugin gave this answer: it stops on
/// a failure or a handled input, and goes on to the next plugin on a decline.
pub fn stops_dispatch<T>(outcome: &HookResult<T>) -> (r: bool)
    ensures
        r == !(outcome is NotApplicable),
{
    match outcome {
        HookResult::NotApplicable => false,
        _ => true,
    }
}

/// Finds, among the answers of the plugins in registration order, the one
/// that decides the hook call: the first that is not a decline. `None` when
/// every plugin declined.
pub fn dispatch<T>(outcomes: &Vec<HookResult<T>>) -> (r: Option<usize>)
    ensures
        r is None ==> first_decisive(outcomes@) is NotApplicable,
        r is None ==> forall|j: int| 0 <= j < outcomes@.len() ==> outcomes@[j] is NotApplicable,
        r matches Some(i) ==> i < outcomes@.len() && first_decisive(outcomes@) == outcomes@[i as int],
        r matches Some(i) ==> !(outcomes@[i as int] is NotApplicable),
        r matches Some(i) ==> forall|j: int| 0 <= j < i ==> outcomes@[j] is NotApplicable,
{
    let ghost all = outcomes@;
    let n = outcomes.len();
    let mut i: usize = 0;
    assert(all.subrange(0, n as int) =~= all);
    while i < n
        invariant
            outcomes@ == all,
            n == all.len(),
            i <= n,
            first_decisive(all) == first_decisive(all.subrange(i as int, n as int)),
            forall|j: int| 0 <= j < i ==> all[j] is NotApplicable,
        decreases n - i,
    {
        assert(all.subrange(i as int, n as int).drop_first() =~= all.subrange(i + 1, n as int));
        if stops_dispatch(&outcomes[i]) {
            assert(all.subrange(i as int, n as int)[0] == all[i as int]);
            return Some(i);
        }
        i = i + 1;
    }
    assert(all.subrange(n as int, n as int) =~= Seq::<HookResult<T>>::empty());
    None
}

/// Calls the hook of each of `n` plugins in registration order, through
/// `call(i)` for the plugin at `i`, and stops at the first answer that is not
/// a decline. Gives that answer, or a decline when every plugin declined,
/// with the number of plugins that were called: no plugin after the deciding
/// one is called.
pub fn dispatch_in_order<T, F: Fn(usize) -> HookResult<T>>(n: usize, call: F) -> (r: (
    HookResult<T>,
    usize,
))
    requires
        forall|i: usize| i < n ==> call.requires((i,)),
    ensures
        r.1 <= n,
        r.0 is NotApplicable ==> r.1 == n,
        exists|answers: Seq<HookResult<T>>|
            {
                &&& answers.len() == r.1
                &&& forall|j: int| 0 <= j < r.1 ==> call.ensures((j as usize,), #[trigger] answers[j])
                &&& forall|j: int| 0 <= j < r.1 - 1 ==> (#[trigger] answers[j]) is NotApplicable
                &&& r.1 > 0 ==> answers[r.1 - 1] == r.0
                &&& first_decisive(answers) == r.0
            },
{
    let ghost mut answers: Seq<HookResult<T>> = Seq::empty();
    let mut i: usize = 0;
    while i < n
        invariant
            i <= n,
            answers.len() == i,
            forall|k: usize| k < n ==> call.requires((k,)),
            forall|j: int| 0 <= j < i ==> call.ensures((j as usize,), #[trigger] answers[j]),
            forall|j: int| 0 <= j < i ==> (#[trigger] answers[j]) is NotApplicable,
        decreases n - i,
    {
        let answer = call(i);
        proof {
            answers = answers.push(answer);
        }
        if stops_dispatch(&answer) {
            proof {
                lemma_first_decisive_after_declines(answers.drop_last(), answer, Seq::empty());
                assert(answers.drop_last() + seq![answer] + Seq::<HookResult<T>>::empty() =~= answers);
            }
            return (answer, i + 1);
        }
        i = i + 1;
    }
    proof {
        lemma_all_declined(answers);
    }
    (HookResult::NotApplicable, n)
}

/// When every plugin declines, the hook call is declined.
pub proof fn lemma_all_declined<T>(outcomes: Seq<HookResult<T>>)
    requires
        forall|i: int| 0 <= i < outcomes.len() ==> (#[trigger] outcomes[i]) is NotApplicable,
    ensures
        first_decisive(outcomes) is NotApplicable,
    decreases outcomes.len(),
{
    if outcomes.len() > 0 {
        assert forall|i: int| 0 <= i < outcomes.drop_first().len() implies (#[trigger] outcomes.drop_first()[i]) is NotApplicable by {
            assert(outcomes.drop_first()[i] == outcomes[i + 1]);
        }
        lemma_all_declined(outcomes.drop_first());
    }
}

/// After any run of declines, the first answer that is not a decline, a
/// failure or a handled input, decides the call whatever later plugins answer.
pub proof fn lemma_first_decisive_after_declines<T>(
    declined: Seq<HookResult<T>>,
    answer: HookResult<T>,
    later: Seq<HookResult<T>>,
)
    requires
        forall|i: int| 0 <= i < declined.len() ==> (#[trigger] declined[i]) is NotApplicable,
        !(answer is NotApplicable),
    ensures
        first_decisive(declined + seq![answer] + later) == answer,
    decreases declined.len(),
{
    let all = declined + seq![answer] + later;
    if declined.len() > 0 {
        assert(all.drop_first() =~= declined.drop_first() + seq![answer] + later);
        assert(all[0] == declined[0]);
        assert forall|i: int| 0 <= i < declined.drop_first().len() implies (#[trigger] declined.drop_first()[i]) is NotApplicable by {
            assert(declined.drop_first()[i] == declined[i + 1]);
        }
        lemma_first_decisive_after_declines(declined.drop_first(), answer, later);
    } else {
        assert(all[0] == answer);
    }
}

/// Once a plugin handles the input, plugins registered after it have no say:
/// after any run of declines, a handled answer decides the call whatever
/// the later plugins would answer.
pub proof fn lemma_first_handler_wins<T>(
    declined: Seq<HookResult<T>>,
    value: T,
    later: Seq<HookResult<T>>,
)
    requires
        forall|i: int| 0 <= i < declined.len() ==> declined[i] is NotApplicable,
    ensures
        first_decisive(declined + seq![HookResult::Handled(value)] + later) == HookResult::Handled(
            value,
        ),
    decreases declined.len(),
{
    let all = declined + seq![HookResult::Handled(value)] + later;
    if declined.len() > 0 {
        assert(all.drop_first() =~= declined.drop_first() + seq![HookResult::Handled(value)]
            + later);
        lemma_first_handler_wins(declined.drop_first(), value, later);
    } else {
        assert(all[0] == HookResult::<T>::Handled(value));
    }
}

/// A plugin that declines does not change the answer of the call: the call
/// answers as if that plugin were not registered.
pub proof fn lemma_decline_is_silent<T>(
    before: Seq<HookResult<T>>,
    after: Seq<HookResult<T>>,
)
    ensures
        first_decisive(before + seq![HookResult::NotApplicable] + after) == first_decisive(
            before + after,
        ),
    decreases before.len(),
{
    let with = before + seq![HookResult::NotApplicable] + after;
    let without = before + after;
    if before.len() > 0 {
        assert(with.drop_first() =~= before.drop_first() + seq![HookResult::NotApplicable] + after);
        assert(without.drop_first() =~= before.drop_first() + after);
        lemma_decline_is_silent(before.drop_first(), after);
    } else {
        assert(with.drop_first() =~= after);
        assert(without =~= after);
    }
}

} // verus!
