//! What a check and an evaluation come to over the answers that they were given:
//! one for each reference, also where a resolver would answer otherwise when asked
//! again. A context store answers by the reference and the limits alone.
use vstd::prelude::*;

use crate::context::FieldRefView;
use crate::evaluate::{
    agree, answered, evaluation_of, may_answer, run, EvalView, ValueSource,
};
use crate::expr::{ExprValueView, ExprView, ExpressionLimits};
use crate::expression::{
    agrees, all_typed, checked_rule, checked_value, may_reply, replied, rule_check_of,
    value_check_of, DiagView, ProgramView, SchemaSource, TypeReply,
};
use crate::outcome::{ExpressionSchemaResolver, ExpressionValueResolver, OutcomeView};
use crate::project::{store_schema, store_value};
use crate::store::{ContextStore, StoreView};

verus! {

/// The types that a store gives.
pub open spec fn store_schemas(store: StoreView, limits: ExpressionLimits) -> SchemaSource {
    |reference: FieldRefView, faults: nat| store_schema(store, reference, limits)
}

/// The values that a store gives.
pub open spec fn store_values(store: StoreView, limits: ExpressionLimits) -> ValueSource {
    |reference: FieldRefView| store_value(store, reference, limits)
}

proof fn lemma_store_agrees(store: &ContextStore, limits: ExpressionLimits, record: Seq<TypeReply>)
    requires
        replied(store, limits, record),
    ensures
        agrees(store_schemas(store@, limits), record),
{
    reveal(agrees);
    let schemas = store_schemas(store@, limits);
    assert forall|i: int| 0 <= i < record.len() implies schemas(
        (#[trigger] record[i]).reference,
        record[i].faults,
    ) == record[i].found by {
        assert(may_reply(store, limits, record[i].reference, record[i].found));
    }
}

/// A check over a store is that over the types that the store gives.
pub proof fn law_store_check(
    store: &ContextStore,
    limits: ExpressionLimits,
    e: ExprView,
    outcome: Result<ProgramView, Seq<DiagView>>,
)
    ensures
        rule_check_of(store, limits, e, outcome) ==> outcome == checked_rule(
            store_schemas(store@, limits),
            limits,
            e,
        ),
        value_check_of(store, limits, e, outcome) ==> outcome == checked_value(
            store_schemas(store@, limits),
            limits,
            e,
        ),
{
    if rule_check_of(store, limits, e, outcome) {
        let record = choose|record: Seq<TypeReply>| #[trigger]
            replied(store, limits, record) && forall|schemas: SchemaSource| #[trigger]
                agrees(schemas, record) ==> checked_rule(schemas, limits, e) == outcome;
        lemma_store_agrees(store, limits, record);
    }
    if value_check_of(store, limits, e, outcome) {
        let record = choose|record: Seq<TypeReply>| #[trigger]
            replied(store, limits, record) && forall|schemas: SchemaSource| #[trigger]
                agrees(schemas, record) ==> checked_value(schemas, limits, e) == outcome;
        lemma_store_agrees(store, limits, record);
    }
}

/// An evaluation over a store is the run over the values that the store gives.
pub proof fn law_store_evaluation(
    program: ProgramView,
    store: &ContextStore,
    used: EvalView,
    outcome: OutcomeView,
)
    requires
        evaluation_of(program, store, used, outcome),
    ensures
        run(program, store_values(store@, program.limits)) == (used, outcome),
{
    reveal(agree);
    let limits = program.limits;
    let record = choose|record: Seq<(FieldRefView, OutcomeView)>| #[trigger]
        answered(store, limits, record) && forall|answers: ValueSource| #[trigger]
            agree(answers, record) ==> run(program, answers) == (used, outcome);
    let answers = store_values(store@, limits);
    assert forall|i: int| 0 <= i < record.len() implies answers((#[trigger] record[i]).0)
        == record[i].1 by {
        assert(may_answer(store, limits, record[i].0, record[i].1));
    }
    assert(agree(answers, record));
}

// ---------------------------------------------------------------------------
// One answer for each reference
// ---------------------------------------------------------------------------
/// The types of a record. A reference that is not in it has none.
pub open spec fn types_in(record: Seq<TypeReply>) -> SchemaSource {
    |reference: FieldRefView, faults: nat|
        if exists|i: int|
            0 <= i < record.len() && (#[trigger] record[i]).reference == reference {
            record[choose|i: int|
                0 <= i < record.len() && (#[trigger] record[i]).reference == reference].found
        } else {
            Err(Seq::<char>::empty())
        }
}

/// The values of a record. A reference that is not in it has the value null.
pub open spec fn values_in(record: Seq<(FieldRefView, OutcomeView)>) -> ValueSource {
    |reference: FieldRefView|
        if exists|i: int| 0 <= i < record.len() && (#[trigger] record[i]).0 == reference {
            record[choose|i: int|
                0 <= i < record.len() && (#[trigger] record[i]).0 == reference].1
        } else {
            OutcomeView::Value(ExprValueView::Null)
        }
}

/// A record of one type for each reference, which the resolver may give.
pub open spec fn typed_once<R: ExpressionSchemaResolver>(
    resolver: &R,
    limits: ExpressionLimits,
    record: Seq<TypeReply>,
) -> bool {
    &&& all_typed(record)
    &&& forall|i: int|
        0 <= i < record.len() ==> may_reply(
            resolver,
            limits,
            (#[trigger] record[i]).reference,
            record[i].found,
        )
    &&& forall|i: int, j: int|
        0 <= i < j < record.len() ==> (#[trigger] record[i]).reference != (
        #[trigger] record[j]).reference
}

proof fn lemma_types_in<R: ExpressionSchemaResolver>(
    resolver: &R,
    limits: ExpressionLimits,
    record: Seq<TypeReply>,
)
    requires
        replied(resolver, limits, record),
        all_typed(record),
    ensures
        typed_once(resolver, limits, record),
        agrees(types_in(record), record),
{
    reveal(agrees);
    let schemas = types_in(record);
    assert forall|i: int| 0 <= i < record.len() implies schemas(
        (#[trigger] record[i]).reference,
        record[i].faults,
    ) == record[i].found by {
        let reference = record[i].reference;
        let j = choose|j: int|
            0 <= j < record.len() && (#[trigger] record[j]).reference == reference;
        assert(record[j].reference == reference);
        assert(j == i);
    }
}

/// A check that passes takes one snapshot of each context reference: there is one
/// type for each reference, which the resolver may give, and the checked program is
/// that over those types. That holds also of a resolver whose answers change.
pub proof fn law_check_snapshot<R: ExpressionSchemaResolver>(
    resolver: &R,
    limits: ExpressionLimits,
    e: ExprView,
    program: ProgramView,
)
    ensures
        rule_check_of(resolver, limits, e, Ok(program)) ==> exists|record: Seq<TypeReply>|
            #[trigger]
            typed_once(resolver, limits, record) && checked_rule(types_in(record), limits, e)
                == Ok::<ProgramView, Seq<DiagView>>(program),
        value_check_of(resolver, limits, e, Ok(program)) ==> exists|record: Seq<TypeReply>|
            #[trigger]
            typed_once(resolver, limits, record) && checked_value(types_in(record), limits, e)
                == Ok::<ProgramView, Seq<DiagView>>(program),
{
    let outcome: Result<ProgramView, Seq<DiagView>> = Ok(program);
    if rule_check_of(resolver, limits, e, outcome) {
        let record = choose|record: Seq<TypeReply>| #[trigger]
            replied(resolver, limits, record) && (outcome is Ok ==> all_typed(record)) && forall|
                schemas: SchemaSource,
            | #[trigger] agrees(schemas, record) ==> checked_rule(schemas, limits, e) == outcome;
        lemma_types_in(resolver, limits, record);
    }
    if value_check_of(resolver, limits, e, outcome) {
        let record = choose|record: Seq<TypeReply>| #[trigger]
            replied(resolver, limits, record) && (outcome is Ok ==> all_typed(record)) && forall|
                schemas: SchemaSource,
            | #[trigger] agrees(schemas, record) ==> checked_value(schemas, limits, e) == outcome;
        lemma_types_in(resolver, limits, record);
    }
}

/// The answers of a record, with a reference told apart by how many faults had been
/// found when it was asked about.
pub open spec fn replies_in(record: Seq<TypeReply>) -> SchemaSource {
    |reference: FieldRefView, faults: nat|
        if exists|i: int|
            0 <= i < record.len() && (#[trigger] record[i]).reference == reference
                && record[i].faults == faults {
            record[choose|i: int|
                0 <= i < record.len() && (#[trigger] record[i]).reference == reference
                    && record[i].faults == faults].found
        } else {
            Err(Seq::<char>::empty())
        }
}

/// A check, passed or not, is that over the answers which the resolver gave: a
/// reference that was given a type is not asked about again.
pub proof fn law_check_replies<R: ExpressionSchemaResolver>(
    resolver: &R,
    limits: ExpressionLimits,
    e: ExprView,
    outcome: Result<ProgramView, Seq<DiagView>>,
)
    ensures
        rule_check_of(resolver, limits, e, outcome) ==> exists|record: Seq<TypeReply>| #[trigger]
            replied(resolver, limits, record) && checked_rule(replies_in(record), limits, e)
                == outcome,
        value_check_of(resolver, limits, e, outcome) ==> exists|record: Seq<TypeReply>| #[trigger]
            replied(resolver, limits, record) && checked_value(replies_in(record), limits, e)
                == outcome,
{
    if rule_check_of(resolver, limits, e, outcome) {
        let record = choose|record: Seq<TypeReply>| #[trigger]
            replied(resolver, limits, record) && (outcome is Ok ==> all_typed(record)) && forall|
                schemas: SchemaSource,
            | #[trigger] agrees(schemas, record) ==> checked_rule(schemas, limits, e) == outcome;
        lemma_replies_in(resolver, limits, record);
    }
    if value_check_of(resolver, limits, e, outcome) {
        let record = choose|record: Seq<TypeReply>| #[trigger]
            replied(resolver, limits, record) && (outcome is Ok ==> all_typed(record)) && forall|
                schemas: SchemaSource,
            | #[trigger] agrees(schemas, record) ==> checked_value(schemas, limits, e) == outcome;
        lemma_replies_in(resolver, limits, record);
    }
}

proof fn lemma_replies_in<R: ExpressionSchemaResolver>(
    resolver: &R,
    limits: ExpressionLimits,
    record: Seq<TypeReply>,
)
    requires
        replied(resolver, limits, record),
    ensures
        agrees(replies_in(record), record),
{
    reveal(agrees);
    let schemas = replies_in(record);
    assert forall|i: int| 0 <= i < record.len() implies schemas(
        (#[trigger] record[i]).reference,
        record[i].faults,
    ) == record[i].found by {
        let reference = record[i].reference;
        let faults = record[i].faults;
        let j = choose|j: int|
            0 <= j < record.len() && (#[trigger] record[j]).reference == reference
                && record[j].faults == faults;
        assert(record[j].reference == reference && record[j].faults == faults);
        assert(j == i);
    }
}

/// An evaluation takes one snapshot of each context reference: there is one value for
/// each reference, which the resolver may give, and the evaluation is the run over
/// those values. That holds also of a resolver whose answers change.
pub proof fn law_evaluation_snapshot<R: ExpressionValueResolver>(
    program: ProgramView,
    resolver: &R,
    used: EvalView,
    outcome: OutcomeView,
)
    requires
        evaluation_of(program, resolver, used, outcome),
    ensures
        exists|record: Seq<(FieldRefView, OutcomeView)>| #[trigger]
            answered(resolver, program.limits, record) && run(program, values_in(record)) == (
                used,
                outcome,
            ),
{
    reveal(agree);
    let record = choose|record: Seq<(FieldRefView, OutcomeView)>| #[trigger]
        answered(resolver, program.limits, record) && forall|answers: ValueSource| #[trigger]
            agree(answers, record) ==> run(program, answers) == (used, outcome);
    let answers = values_in(record);
    assert forall|i: int| 0 <= i < record.len() implies answers((#[trigger] record[i]).0)
        == record[i].1 by {
        let reference = record[i].0;
        let j = choose|j: int| 0 <= j < record.len() && (#[trigger] record[j]).0 == reference;
        assert(record[j].0 == reference);
        assert(j == i);
    }
    assert(agree(answers, record));
}

} // verus!
