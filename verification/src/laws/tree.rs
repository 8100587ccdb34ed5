//! The specs of a document, said of its suites, executions and attempts.

use vstd::prelude::*;
use crate::document::{
    all_specs, error_message, failing, failures_of, first_failed, first_unexpected,
    lemma_failing_add, lemma_failing_push, own_specs, Located, PlaywrightAttempt,
    PlaywrightExecution, PlaywrightSpec, PlaywrightSuite,
};
use crate::results::FailureView;

verus! {

/// The specs of suites are those of the first suites and then those of the others.
pub proof fn law_specs_of_suites(a: Seq<PlaywrightSuite>, b: Seq<PlaywrightSuite>)
    ensures
        all_specs(seq![]) == Seq::<Located>::empty(),
        all_specs(a + b) == all_specs(a) + all_specs(b),
    decreases b.len(),
{
    if b.len() == 0 {
        assert(a + b == a);
        assert(all_specs(a) + all_specs(b) == all_specs(a));
    } else {
        let short = b.drop_last();
        let own = own_specs(b.last());
        let nested = all_specs(b.last().suites@);
        law_specs_of_suites(a, short);
        assert((a + b).drop_last() == a + short);
        assert((a + b).last() == b.last());
        assert(all_specs(a) + all_specs(short) + own + nested == all_specs(a) + (all_specs(short)
            + own + nested));
    }
}

/// The specs of one suite are its own, in order and under its file, or its title
/// where it names no file, and then those of the suites in it.
pub proof fn law_specs_of_a_suite(suite: PlaywrightSuite)
    ensures
        all_specs(seq![suite]).len() == suite.specs@.len() + all_specs(suite.suites@).len(),
        forall|i: int|
            0 <= i < suite.specs@.len() ==> (#[trigger] all_specs(seq![suite])[i]).spec
                == suite.specs@[i],
        forall|i: int|
            0 <= i < suite.specs@.len() ==> (#[trigger] all_specs(seq![suite])[i]).file == (
            match suite.file {
                Some(file) => file@,
                None => suite.title@,
            }),
        all_specs(seq![suite]).skip(suite.specs@.len() as int) == all_specs(suite.suites@),
{
    let one = seq![suite];
    let own = own_specs(suite);
    let nested = all_specs(suite.suites@);
    assert(one.drop_last() == Seq::<PlaywrightSuite>::empty());
    assert(all_specs(one.drop_last()) == Seq::<Located>::empty());
    assert(one.last() == suite);
    assert(all_specs(one) == own + nested);
}

/// Each spec that failed is among the failing ones, in order, and no other.
pub proof fn law_failing(a: Seq<Located>, b: Seq<Located>, l: Located)
    ensures
        failing(seq![]) == Seq::<Located>::empty(),
        failing(a + b) == failing(a) + failing(b),
        failing(seq![l]) == if l.spec.ok {
            seq![]
        } else {
            seq![l]
        },
{
    lemma_failing_add(a, b);
    lemma_no_failures();
    lemma_failing_push(seq![], l);
    assert(Seq::<Located>::empty().push(l) == seq![l]);
}

proof fn lemma_no_failures()
    ensures
        failing(seq![]) == Seq::<Located>::empty(),
{
    reveal_with_fuel(Seq::filter, 1);
}

/// The execution at `i` is unexpected, and none before it is.
pub open spec fn is_first_unexpected(tests: Seq<PlaywrightExecution>, i: int) -> bool {
    &&& 0 <= i < tests.len()
    &&& tests[i].status@ == "unexpected"@
    &&& forall|k: int| 0 <= k < i ==> (#[trigger] tests[k]).status@ != "unexpected"@
}

/// No execution is unexpected.
pub open spec fn none_unexpected(tests: Seq<PlaywrightExecution>) -> bool {
    forall|k: int| 0 <= k < tests.len() ==> (#[trigger] tests[k]).status@ != "unexpected"@
}

/// The attempt at `i` failed or ran out of time, and none before it did.
pub open spec fn is_first_failed(results: Seq<PlaywrightAttempt>, i: int) -> bool {
    &&& 0 <= i < results.len()
    &&& results[i].status@ == "failed"@ || results[i].status@ == "timedOut"@
    &&& forall|k: int|
        0 <= k < i ==> (#[trigger] results[k]).status@ != "failed"@ && results[k].status@
            != "timedOut"@
}

/// No attempt failed or ran out of time.
pub open spec fn none_failed(results: Seq<PlaywrightAttempt>) -> bool {
    forall|k: int|
        0 <= k < results.len() ==> (#[trigger] results[k]).status@ != "failed"@
            && results[k].status@ != "timedOut"@
}

/// The first unexpected execution is found, and none where there is none.
pub proof fn law_first_unexpected(tests: Seq<PlaywrightExecution>, i: int)
    ensures
        is_first_unexpected(tests, i) ==> first_unexpected(tests) == Some(tests[i]),
        none_unexpected(tests) ==> first_unexpected(tests) is None,
    decreases tests.len(),
{
    if tests.len() > 0 && tests[0].status@ != "unexpected"@ {
        let rest = tests.skip(1);
        law_first_unexpected(rest, i - 1);
        assert forall|k: int| 0 <= k < rest.len() implies #[trigger] rest[k] == tests[k + 1] by {}
        if is_first_unexpected(tests, i) {
            assert(rest[i - 1] == tests[i]);
            assert(is_first_unexpected(rest, i - 1));
        }
        if none_unexpected(tests) {
            assert(none_unexpected(rest));
        }
    } else if tests.len() > 0 {
        if is_first_unexpected(tests, i) && i > 0 {
            assert(tests[0].status@ != "unexpected"@);
        }
        assert(!none_unexpected(tests)) by {
            assert(tests[0].status@ == "unexpected"@);
        }
    }
}

/// The first failed attempt is found, and none where there is none.
pub proof fn law_first_failed(results: Seq<PlaywrightAttempt>, i: int)
    ensures
        is_first_failed(results, i) ==> first_failed(results) == Some(results[i]),
        none_failed(results) ==> first_failed(results) is None,
    decreases results.len(),
{
    if results.len() > 0 && results[0].status@ != "failed"@ && results[0].status@ != "timedOut"@ {
        let rest = results.skip(1);
        law_first_failed(rest, i - 1);
        assert forall|k: int| 0 <= k < rest.len() implies #[trigger] rest[k] == results[k
            + 1] by {}
        if is_first_failed(results, i) {
            assert(rest[i - 1] == results[i]);
            assert(is_first_failed(rest, i - 1));
        }
        if none_failed(results) {
            assert(none_failed(rest));
        }
    } else if results.len() > 0 {
        if is_first_failed(results, i) && i > 0 {
            assert(results[0].status@ != "failed"@);
        }
        assert(!none_failed(results)) by {
            assert(results[0].status@ == "failed"@ || results[0].status@ == "timedOut"@);
        }
    }
}

/// The message of a failed spec is that of the first error of its first failed
/// attempt in its first unexpected execution.
pub proof fn law_error_message(spec: PlaywrightSpec, i: int, j: int)
    requires
        is_first_unexpected(spec.tests@, i),
        is_first_failed(spec.tests@[i].results@, j),
        spec.tests@[i].results@[j].errors@.len() > 0,
    ensures
        error_message(spec) == spec.tests@[i].results@[j].errors@[0].message@,
{
    law_first_unexpected(spec.tests@, i);
    law_first_failed(spec.tests@[i].results@, j);
}

/// Without such an error, the message says that the test failed.
pub proof fn law_default_error_message(spec: PlaywrightSpec, i: int, j: int)
    requires
        none_unexpected(spec.tests@) || (is_first_unexpected(spec.tests@, i) && (none_failed(
            spec.tests@[i].results@,
        ) || (is_first_failed(spec.tests@[i].results@, j)
            && spec.tests@[i].results@[j].errors@.len() == 0))),
    ensures
        error_message(spec) == "Test failed"@,
{
    law_first_unexpected(spec.tests@, i);
    law_first_failed(spec.tests@[i].results@, j);
}

/// Each failed spec is reported once, in order, with its title, its file and its
/// message, and without a stack; a spec that passed is not reported.
pub proof fn law_failures(a: Seq<Located>, b: Seq<Located>, l: Located)
    ensures
        failures_of(a + b) == failures_of(a) + failures_of(b),
        l.spec.ok ==> failures_of(seq![l]) == Seq::<FailureView>::empty(),
        !l.spec.ok ==> {
            &&& failures_of(seq![l]).len() == 1
            &&& failures_of(seq![l])[0].test_name == l.spec.title@
            &&& failures_of(seq![l])[0].file_path == l.file
            &&& failures_of(seq![l])[0].error_message == error_message(l.spec)
            &&& failures_of(seq![l])[0].stack_trace is None
        },
{
    law_failing(a, b, l);
}

} // verus!
