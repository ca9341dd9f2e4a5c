use std::cell::Cell;
use std::collections::BTreeMap;

use ppduster::context::{ContextScope, FieldRef};
use ppduster::expr::{
    CollectionQuantifier, ComparisonOperator, ExpressionLimits, ExpressionType,
    ExpressionTypeKind, ExpressionV1, ExpressionValue, ReferenceV1,
};
use ppduster::expression::{
    check_rule, check_value_expression, CheckedExpressionV1, ExpressionDiagnostic,
    ExpressionDiagnosticCode,
};
use ppduster::json::{Float, Number, Value};
use ppduster::outcome::{
    EvaluationError, EvaluationErrorKind, EvaluationValue, ExpressionSchemaResolver,
    ExpressionValueResolver, RuleEvaluation, SchemaResolutionError,
};
use ppduster::schema::{ContextType, FieldSchema, ObjectSchema, SemanticFormat, Sensitivity};
use ppduster::store::{ContextProvenance, ContextStore, ContextValue};
use ppduster::text_map::TextMap;

fn converted(value: serde_json::Value) -> Value {
    match value {
        serde_json::Value::Null => Value::Null,
        serde_json::Value::Bool(value) => Value::Bool(value),
        serde_json::Value::Number(number) => Value::Number(match number.as_u64() {
            Some(value) => Number::PosInt(value),
            None => match number.as_i64() {
                Some(value) => Number::NegInt(value),
                None => Number::Float(Float {
                    bits: number.as_f64().expect("a finite number").to_bits(),
                    text: number.to_string(),
                }),
            },
        }),
        serde_json::Value::String(value) => Value::String(value),
        serde_json::Value::Array(items) => {
            Value::Array(items.into_iter().map(converted).collect())
        }
        serde_json::Value::Object(members) => {
            let mut map = TextMap::new();
            for (name, value) in members {
                map.insert(name, converted(value));
            }
            Value::Object(map)
        }
    }
}

fn json(text: &str) -> Value {
    converted(serde_json::from_str(text).expect("valid JSON"))
}

fn map<V, const N: usize>(entries: [(String, V); N]) -> TextMap<V> {
    let mut map = TextMap::new();
    for (name, value) in entries {
        map.insert(name, value);
    }
    map
}

#[derive(Default)]
struct TestActivation {
    types: BTreeMap<FieldRef, ExpressionType>,
    values: BTreeMap<FieldRef, EvaluationValue>,
}

impl TestActivation {
    fn typed(mut self, field: FieldRef, value_type: ExpressionType) -> Self {
        self.types.insert(field, value_type);
        self
    }

    fn valued(mut self, field: FieldRef, value: EvaluationValue) -> Self {
        self.values.insert(field, value);
        self
    }
}

impl ExpressionSchemaResolver for TestActivation {
    fn resolve(&self, reference: &FieldRef) -> Result<ExpressionType, SchemaResolutionError> {
        self.types.get(reference).cloned().ok_or_else(|| {
            SchemaResolutionError::new(&format!("unknown test reference {reference:?}"))
        })
    }
}

impl ExpressionValueResolver for TestActivation {
    fn resolve(&self, reference: &FieldRef) -> EvaluationValue {
        self.values
            .get(reference)
            .cloned()
            .unwrap_or_else(|| EvaluationValue::missing("test value was not supplied"))
    }
}

fn repository(id: i64, name: &str) -> ExpressionValue {
    ExpressionValue::Object(map([
        ("id".into(), ExpressionValue::Int(id)),
        ("name".into(), ExpressionValue::String(name.into())),
    ]))
}

struct ChangingSchema {
    calls: Cell<usize>,
}

impl ExpressionSchemaResolver for ChangingSchema {
    fn resolve(&self, _reference: &FieldRef) -> Result<ExpressionType, SchemaResolutionError> {
        let call = self.calls.get();
        self.calls.set(call + 1);
        Ok(if call == 0 {
            ExpressionType::required(ExpressionTypeKind::Bool)
        } else {
            ExpressionType::required(ExpressionTypeKind::String)
        })
    }
}

struct ChangingValue {
    calls: Cell<usize>,
}

impl ExpressionValueResolver for ChangingValue {
    fn resolve(&self, _reference: &FieldRef) -> EvaluationValue {
        let call = self.calls.get();
        self.calls.set(call + 1);
        EvaluationValue::value(ExpressionValue::Bool(call == 0))
    }
}

struct BoundedActivation {
    schema_limit: Cell<usize>,
    value_limit: Cell<usize>,
}

impl ExpressionSchemaResolver for BoundedActivation {
    fn resolve(
        &self,
        _reference: &FieldRef,
    ) -> Result<ExpressionType, SchemaResolutionError> {
        panic!("checker should call resolve_schema_bounded")
    }

    fn resolve_schema_bounded(
        &self,
        _reference: &FieldRef,
        limits: ExpressionLimits,
    ) -> Result<ExpressionType, SchemaResolutionError> {
        self.schema_limit.set(limits.max_depth);
        Ok(ExpressionType::bool())
    }
}

impl ExpressionValueResolver for BoundedActivation {
    fn resolve(&self, _reference: &FieldRef) -> EvaluationValue {
        panic!("evaluator should call resolve_value_bounded")
    }

    fn resolve_value_bounded(
        &self,
        _reference: &FieldRef,
        limits: ExpressionLimits,
    ) -> EvaluationValue {
        self.value_limit.set(limits.max_depth);
        EvaluationValue::value(ExpressionValue::Bool(true))
    }
}

fn field(name: &str) -> FieldRef {
    FieldRef::step("source").field(name)
}

fn context_ref(field: FieldRef) -> ExpressionV1 {
    ExpressionV1::Ref {
        reference: ReferenceV1::Context { field },
    }
}

fn local_ref(binding: &str, path: &[&str]) -> ExpressionV1 {
    ExpressionV1::Ref {
        reference: ReferenceV1::Local {
            binding: binding.into(),
            path: path.iter().map(|segment| (*segment).into()).collect(),
        },
    }
}

fn literal(value: ExpressionValue) -> ExpressionV1 {
    ExpressionV1::Literal { value }
}

fn bool_literal(value: bool) -> ExpressionV1 {
    literal(ExpressionValue::Bool(value))
}

fn string_literal(value: &str) -> ExpressionV1 {
    literal(ExpressionValue::String(value.into()))
}

fn int_literal(value: i64) -> ExpressionV1 {
    literal(ExpressionValue::Int(value))
}

fn compare(
    operator: ComparisonOperator,
    left: ExpressionV1,
    right: ExpressionV1,
) -> ExpressionV1 {
    ExpressionV1::Compare {
        operator,
        left: Box::new(left),
        right: Box::new(right),
    }
}

fn checked_rule(expression: ExpressionV1, activation: &TestActivation) -> CheckedExpressionV1 {
    check_rule(expression, activation, ExpressionLimits::default()).unwrap()
}

fn assert_limit(diagnostics: &[ExpressionDiagnostic]) {
    assert!(diagnostics
        .iter()
        .any(|diagnostic| diagnostic.code == ExpressionDiagnosticCode::LimitExceeded));
}

#[test]
fn checker_reports_unknown_references_bad_roots_and_bad_operands() {
    let activation = TestActivation::default();
    let diagnostics = check_rule(
        context_ref(field("missing")),
        &activation,
        ExpressionLimits::default(),
    )
    .unwrap_err();
    assert_eq!(
        diagnostics[0].code,
        ExpressionDiagnosticCode::UnknownReference
    );

    let diagnostics = check_rule(
        string_literal("not a rule"),
        &activation,
        ExpressionLimits::default(),
    )
    .unwrap_err();
    assert!(diagnostics
        .iter()
        .any(|diagnostic| diagnostic.code == ExpressionDiagnosticCode::ExpectedBoolean));

    let diagnostics = check_rule(
        compare(
            ComparisonOperator::Equal,
            string_literal("1"),
            int_literal(1),
        ),
        &activation,
        ExpressionLimits::default(),
    )
    .unwrap_err();
    assert!(diagnostics
        .iter()
        .any(|diagnostic| diagnostic.code == ExpressionDiagnosticCode::TypeMismatch));

    let diagnostics = check_rule(
        ExpressionV1::IsEmpty {
            expression: Box::new(int_literal(1)),
        },
        &activation,
        ExpressionLimits::default(),
    )
    .unwrap_err();
    assert!(diagnostics
        .iter()
        .any(|diagnostic| diagnostic.code == ExpressionDiagnosticCode::TypeMismatch));
}

#[test]
fn checker_enforces_structural_string_regex_and_quantifier_limits() {
    let activation = TestActivation::default();

    let limits = ExpressionLimits {
        max_nodes: 2,
        ..ExpressionLimits::default()
    };
    assert_limit(
        &check_rule(
            ExpressionV1::All {
                expressions: vec![bool_literal(true), bool_literal(true)],
            },
            &activation,
            limits,
        )
        .unwrap_err(),
    );

    let limits = ExpressionLimits {
        max_depth: 2,
        ..ExpressionLimits::default()
    };
    assert_limit(
        &check_rule(
            ExpressionV1::Not {
                expression: Box::new(ExpressionV1::Not {
                    expression: Box::new(bool_literal(true)),
                }),
            },
            &activation,
            limits,
        )
        .unwrap_err(),
    );

    let limits = ExpressionLimits {
        max_string_bytes: 3,
        ..ExpressionLimits::default()
    };
    assert_limit(
        &check_value_expression(string_literal("four"), &activation, limits).unwrap_err(),
    );

    let diagnostics = check_rule(
        ExpressionV1::Matches {
            value: Box::new(string_literal("value")),
            pattern: "[".into(),
        },
        &activation,
        ExpressionLimits::default(),
    )
    .unwrap_err();
    assert!(diagnostics
        .iter()
        .any(|diagnostic| diagnostic.code == ExpressionDiagnosticCode::InvalidRegex));

    let limits = ExpressionLimits {
        max_regex_pattern_bytes: 2,
        ..ExpressionLimits::default()
    };
    assert_limit(
        &check_rule(
            ExpressionV1::Matches {
                value: Box::new(string_literal("value")),
                pattern: "long".into(),
            },
            &activation,
            limits,
        )
        .unwrap_err(),
    );

    let limits = ExpressionLimits {
        max_quantifier_depth: 0,
        ..ExpressionLimits::default()
    };
    assert_limit(
        &check_rule(
            ExpressionV1::Quantifier {
                quantifier: CollectionQuantifier::Any,
                collection: Box::new(literal(ExpressionValue::List(vec![]))),
                binding: "item".into(),
                predicate: Box::new(bool_literal(true)),
            },
            &activation,
            limits,
        )
        .unwrap_err(),
    );
}

#[test]
fn logical_operators_have_identity_short_circuit_and_deferred_semantics() {
    let activation = TestActivation::default();
    assert_eq!(
        checked_rule(
            ExpressionV1::All {
                expressions: vec![],
            },
            &activation,
        )
        .evaluate_rule(&activation),
        RuleEvaluation::True
    );
    assert_eq!(
        checked_rule(
            ExpressionV1::Any {
                expressions: vec![],
            },
            &activation,
        )
        .evaluate_rule(&activation),
        RuleEvaluation::False
    );
    assert_eq!(
        checked_rule(
            ExpressionV1::Not {
                expression: Box::new(bool_literal(false)),
            },
            &activation,
        )
        .evaluate_rule(&activation),
        RuleEvaluation::True
    );

    let missing = field("missing");
    let unknown = field("unknown");
    let failed = field("failed");
    let activation = TestActivation::default()
        .typed(
            missing.clone(),
            ExpressionType::optional(ExpressionTypeKind::Bool),
        )
        .typed(
            unknown.clone(),
            ExpressionType::optional(ExpressionTypeKind::Bool),
        )
        .typed(
            failed.clone(),
            ExpressionType::optional(ExpressionTypeKind::Bool),
        )
        .valued(missing.clone(), EvaluationValue::missing("absent"))
        .valued(unknown.clone(), EvaluationValue::unknown("not ready"))
        .valued(
            failed.clone(),
            EvaluationValue::error(EvaluationErrorKind::Internal, "failed"),
        );

    let all = ExpressionV1::All {
        expressions: vec![context_ref(missing.clone()), bool_literal(false)],
    };
    assert_eq!(
        checked_rule(all, &activation).evaluate_rule(&activation),
        RuleEvaluation::False
    );

    let any = ExpressionV1::Any {
        expressions: vec![context_ref(failed.clone()), bool_literal(true)],
    };
    assert_eq!(
        checked_rule(any, &activation).evaluate_rule(&activation),
        RuleEvaluation::True
    );

    let deferred = ExpressionV1::Any {
        expressions: vec![
            context_ref(missing),
            context_ref(unknown),
            context_ref(failed),
            bool_literal(false),
        ],
    };
    assert!(matches!(
        checked_rule(deferred, &activation).evaluate_rule(&activation),
        RuleEvaluation::Error(EvaluationError {
            kind: EvaluationErrorKind::Internal,
            ..
        })
    ));
}

#[test]
fn missing_null_unknown_and_error_are_never_collapsed() {
    let missing = field("missing");
    let nullable = field("nullable");
    let unknown = field("unknown");
    let failed = field("failed");
    let required = field("required");
    let activation = TestActivation::default()
        .typed(
            missing.clone(),
            ExpressionType::optional(ExpressionTypeKind::Bool),
        )
        .typed(
            nullable.clone(),
            ExpressionType::nullable(ExpressionTypeKind::Bool),
        )
        .typed(
            unknown.clone(),
            ExpressionType::optional(ExpressionTypeKind::Bool),
        )
        .typed(
            failed.clone(),
            ExpressionType::optional(ExpressionTypeKind::Bool),
        )
        .typed(
            required.clone(),
            ExpressionType::required(ExpressionTypeKind::Bool),
        )
        .valued(missing.clone(), EvaluationValue::missing("absent"))
        .valued(
            nullable.clone(),
            EvaluationValue::value(ExpressionValue::Null),
        )
        .valued(
            unknown.clone(),
            EvaluationValue::unknown("upstream not run"),
        )
        .valued(
            failed.clone(),
            EvaluationValue::error(EvaluationErrorKind::Internal, "boom"),
        )
        .valued(
            required.clone(),
            EvaluationValue::missing("broken contract"),
        );

    assert!(matches!(
        checked_rule(context_ref(missing.clone()), &activation).evaluate_rule(&activation),
        RuleEvaluation::Missing(_)
    ));
    assert_eq!(
        checked_rule(context_ref(nullable.clone()), &activation).evaluate_rule(&activation),
        RuleEvaluation::Null
    );
    assert!(matches!(
        checked_rule(context_ref(unknown), &activation).evaluate_rule(&activation),
        RuleEvaluation::Unknown(_)
    ));
    assert!(matches!(
        checked_rule(context_ref(failed), &activation).evaluate_rule(&activation),
        RuleEvaluation::Error(EvaluationError {
            kind: EvaluationErrorKind::Internal,
            ..
        })
    ));
    assert!(matches!(
        checked_rule(context_ref(required), &activation).evaluate_rule(&activation),
        RuleEvaluation::Error(EvaluationError {
            kind: EvaluationErrorKind::ContractViolation,
            ..
        })
    ));

    let exists_missing = ExpressionV1::Exists {
        reference: ReferenceV1::Context {
            field: missing.clone(),
        },
    };
    assert_eq!(
        checked_rule(exists_missing, &activation).evaluate_rule(&activation),
        RuleEvaluation::False
    );
    let exists_null = ExpressionV1::Exists {
        reference: ReferenceV1::Context {
            field: nullable.clone(),
        },
    };
    assert_eq!(
        checked_rule(exists_null, &activation).evaluate_rule(&activation),
        RuleEvaluation::True
    );
    let is_null = ExpressionV1::IsNull {
        expression: Box::new(context_ref(nullable)),
    };
    assert_eq!(
        checked_rule(is_null, &activation).evaluate_rule(&activation),
        RuleEvaluation::True
    );
    let missing_is_null = ExpressionV1::IsNull {
        expression: Box::new(context_ref(missing)),
    };
    assert!(matches!(
        checked_rule(missing_is_null, &activation).evaluate_rule(&activation),
        RuleEvaluation::Missing(_)
    ));
}

#[test]
fn strings_regex_and_empty_predicates_are_unicode_safe() {
    let activation = TestActivation::default();
    let expression = ExpressionV1::All {
        expressions: vec![
            ExpressionV1::Contains {
                value: Box::new(string_literal("привет, мир")),
                needle: Box::new(string_literal("мир")),
            },
            ExpressionV1::StartsWith {
                value: Box::new(string_literal("репозиторий")),
                prefix: Box::new(string_literal("репо")),
            },
            ExpressionV1::EndsWith {
                value: Box::new(string_literal("日本語")),
                suffix: Box::new(string_literal("語")),
            },
            ExpressionV1::Matches {
                value: Box::new(string_literal("Привет42")),
                pattern: r"^Привет\d+$".into(),
            },
            ExpressionV1::IsEmpty {
                expression: Box::new(string_literal("")),
            },
            ExpressionV1::IsEmpty {
                expression: Box::new(literal(ExpressionValue::List(vec![]))),
            },
            ExpressionV1::IsEmpty {
                expression: Box::new(literal(ExpressionValue::Object(TextMap::new()))),
            },
        ],
    };
    assert_eq!(
        checked_rule(expression, &activation).evaluate_rule(&activation),
        RuleEvaluation::True
    );

    let input = field("input");
    let activation = TestActivation::default()
        .typed(
            input.clone(),
            ExpressionType::required(ExpressionTypeKind::String),
        )
        .valued(
            input.clone(),
            EvaluationValue::value(ExpressionValue::String("1234".into())),
        );
    let limits = ExpressionLimits {
        max_regex_input_bytes: 3,
        ..ExpressionLimits::default()
    };
    let checked = check_rule(
        ExpressionV1::Matches {
            value: Box::new(context_ref(input)),
            pattern: r"\d+".into(),
        },
        &activation,
        limits,
    )
    .unwrap();
    assert!(matches!(
        checked.evaluate_rule(&activation),
        RuleEvaluation::Error(EvaluationError {
            kind: EvaluationErrorKind::LimitExceeded,
            ..
        })
    ));
}

#[test]
fn comparisons_and_membership_are_typed_and_bounded() {
    let activation = TestActivation::default();
    let expression = ExpressionV1::All {
        expressions: vec![
            compare(
                ComparisonOperator::LessThan,
                int_literal(1),
                literal(ExpressionValue::Float(2.0f64.to_bits())),
            ),
            compare(
                ComparisonOperator::GreaterThanOrEqual,
                string_literal("beta"),
                string_literal("alpha"),
            ),
            compare(
                ComparisonOperator::Equal,
                literal(ExpressionValue::Null),
                literal(ExpressionValue::Null),
            ),
            ExpressionV1::In {
                needle: Box::new(int_literal(2)),
                collection: Box::new(literal(ExpressionValue::List(vec![
                    ExpressionValue::Int(1),
                    ExpressionValue::Int(2),
                    ExpressionValue::Int(3),
                ]))),
            },
        ],
    };
    assert_eq!(
        checked_rule(expression, &activation).evaluate_rule(&activation),
        RuleEvaluation::True
    );

    let checked = checked_rule(
        compare(
            ComparisonOperator::Equal,
            literal(ExpressionValue::Int(9_007_199_254_740_993)),
            literal(ExpressionValue::Float(9_007_199_254_740_992.0f64.to_bits())),
        ),
        &activation,
    );
    assert!(matches!(
        checked.evaluate_rule(&activation),
        RuleEvaluation::Error(EvaluationError {
            kind: EvaluationErrorKind::InvalidOperand,
            ..
        })
    ));

    let limits = ExpressionLimits {
        max_collection_visits: 1,
        ..ExpressionLimits::default()
    };
    let checked = check_rule(
        ExpressionV1::In {
            needle: Box::new(int_literal(3)),
            collection: Box::new(literal(ExpressionValue::List(vec![
                ExpressionValue::Int(1),
                ExpressionValue::Int(2),
            ]))),
        },
        &activation,
        limits,
    )
    .unwrap();
    assert!(matches!(
        checked.evaluate_rule(&activation),
        RuleEvaluation::Error(EvaluationError {
            kind: EvaluationErrorKind::LimitExceeded,
            ..
        })
    ));
}

#[test]
fn quantifiers_bind_typed_items_and_preserve_empty_and_deferred_results() {
    let repositories = literal(ExpressionValue::List(vec![
        repository(1, "alpha"),
        repository(2, "beta"),
    ]));
    let any = ExpressionV1::Quantifier {
        quantifier: CollectionQuantifier::Any,
        collection: Box::new(repositories.clone()),
        binding: "repository".into(),
        predicate: Box::new(compare(
            ComparisonOperator::Equal,
            local_ref("repository", &["id"]),
            int_literal(2),
        )),
    };
    let all = ExpressionV1::Quantifier {
        quantifier: CollectionQuantifier::All,
        collection: Box::new(repositories.clone()),
        binding: "repository".into(),
        predicate: Box::new(ExpressionV1::Contains {
            value: Box::new(local_ref("repository", &["name"])),
            needle: Box::new(string_literal("a")),
        }),
    };
    let none = ExpressionV1::Quantifier {
        quantifier: CollectionQuantifier::NoneOf,
        collection: Box::new(repositories),
        binding: "repository".into(),
        predicate: Box::new(compare(
            ComparisonOperator::Equal,
            local_ref("repository", &["id"]),
            int_literal(3),
        )),
    };
    let activation = TestActivation::default();
    assert_eq!(
        checked_rule(any, &activation).evaluate_rule(&activation),
        RuleEvaluation::True
    );
    assert_eq!(
        checked_rule(all, &activation).evaluate_rule(&activation),
        RuleEvaluation::True
    );
    assert_eq!(
        checked_rule(none, &activation).evaluate_rule(&activation),
        RuleEvaluation::True
    );

    for (quantifier, expected) in [
        (CollectionQuantifier::Any, RuleEvaluation::False),
        (CollectionQuantifier::All, RuleEvaluation::True),
        (CollectionQuantifier::NoneOf, RuleEvaluation::True),
    ] {
        let expression = ExpressionV1::Quantifier {
            quantifier,
            collection: Box::new(literal(ExpressionValue::List(vec![]))),
            binding: "item".into(),
            predicate: Box::new(bool_literal(true)),
        };
        assert_eq!(
            checked_rule(expression, &activation).evaluate_rule(&activation),
            expected
        );
    }

    let items = field("items");
    let item_type = ExpressionType::required(ExpressionTypeKind::Object(map([(
        "enabled".into(),
        ExpressionType::optional(ExpressionTypeKind::Bool),
    )])));
    let activation = TestActivation::default()
        .typed(items.clone(), ExpressionType::list(item_type))
        .valued(
            items.clone(),
            EvaluationValue::value(ExpressionValue::List(vec![ExpressionValue::Object(
                TextMap::new(),
            )])),
        );
    let deferred = ExpressionV1::Quantifier {
        quantifier: CollectionQuantifier::Any,
        collection: Box::new(context_ref(items)),
        binding: "item".into(),
        predicate: Box::new(local_ref("item", &["enabled"])),
    };
    assert!(matches!(
        checked_rule(deferred, &activation).evaluate_rule(&activation),
        RuleEvaluation::Missing(_)
    ));
}

#[test]
fn checker_rejects_invalid_quantifier_bindings_and_local_fields() {
    let activation = TestActivation::default();
    let nested = ExpressionV1::Quantifier {
        quantifier: CollectionQuantifier::Any,
        collection: Box::new(literal(ExpressionValue::List(vec![ExpressionValue::List(
            vec![ExpressionValue::Int(1)],
        )]))),
        binding: "item".into(),
        predicate: Box::new(ExpressionV1::Quantifier {
            quantifier: CollectionQuantifier::Any,
            collection: Box::new(local_ref("item", &[])),
            binding: "item".into(),
            predicate: Box::new(bool_literal(true)),
        }),
    };
    let diagnostics = check_rule(nested, &activation, ExpressionLimits::default()).unwrap_err();
    assert!(diagnostics
        .iter()
        .any(|diagnostic| diagnostic.code == ExpressionDiagnosticCode::InvalidBinding));

    let bad_field = ExpressionV1::Quantifier {
        quantifier: CollectionQuantifier::Any,
        collection: Box::new(literal(ExpressionValue::List(vec![
            ExpressionValue::Object(map([(
                "known".into(),
                ExpressionValue::Bool(true),
            )])),
        ]))),
        binding: "item".into(),
        predicate: Box::new(local_ref("item", &["unknown"])),
    };
    let diagnostics =
        check_rule(bad_field, &activation, ExpressionLimits::default()).unwrap_err();
    assert!(diagnostics
        .iter()
        .any(|diagnostic| diagnostic.code == ExpressionDiagnosticCode::UnknownField));
}

#[test]
fn runtime_validates_schema_contracts_and_operation_budget() {
    let flag = field("flag");
    let activation = TestActivation::default()
        .typed(
            flag.clone(),
            ExpressionType::required(ExpressionTypeKind::Bool),
        )
        .valued(
            flag.clone(),
            EvaluationValue::value(ExpressionValue::String("not bool".into())),
        );
    assert!(matches!(
        checked_rule(context_ref(flag), &activation).evaluate_rule(&activation),
        RuleEvaluation::Error(EvaluationError {
            kind: EvaluationErrorKind::ContractViolation,
            ..
        })
    ));

    let limits = ExpressionLimits {
        max_operations: 1,
        ..ExpressionLimits::default()
    };
    let checked = check_rule(
        ExpressionV1::Not {
            expression: Box::new(bool_literal(false)),
        },
        &TestActivation::default(),
        limits,
    )
    .unwrap();
    assert!(matches!(
        checked.evaluate_rule(&TestActivation::default()),
        RuleEvaluation::Error(EvaluationError {
            kind: EvaluationErrorKind::LimitExceeded,
            ..
        })
    ));

    let values = field("values");
    let activation = TestActivation::default()
        .typed(
            values.clone(),
            ExpressionType::list(ExpressionType::required(ExpressionTypeKind::String)),
        )
        .valued(
            values.clone(),
            EvaluationValue::value(ExpressionValue::List(vec![ExpressionValue::Int(1)])),
        );
    let checked = check_value_expression(
        context_ref(values),
        &activation,
        ExpressionLimits::default(),
    )
    .unwrap();
    assert!(matches!(
        checked.evaluate(&activation),
        EvaluationValue::Error(EvaluationError {
            kind: EvaluationErrorKind::ContractViolation,
            ..
        })
    ));
}

#[test]
fn reference_visitors_support_template_step_id_rewrites() {
    let first = FieldRef::step("fetch").field("ready");
    let second = FieldRef::loop_item("loop").field("enabled");
    let expression = ExpressionV1::All {
        expressions: vec![
            context_ref(first),
            ExpressionV1::Exists {
                reference: ReferenceV1::Context { field: second },
            },
            ExpressionV1::Quantifier {
                quantifier: CollectionQuantifier::Any,
                collection: Box::new(literal(ExpressionValue::List(vec![
                    ExpressionValue::Bool(true),
                ]))),
                binding: "local".into(),
                predicate: Box::new(local_ref("local", &[])),
            },
        ],
    };

    let before = expression.visit_context_references();
    assert_eq!(before.len(), 2);

    let expression = expression.visit_context_references_mut(&|field: &FieldRef| {
        let scope = match &field.scope {
            ContextScope::Step { step_id } => ContextScope::Step {
                step_id: format!("template/{step_id}"),
            },
            ContextScope::LoopItem { step_id } => ContextScope::LoopItem {
                step_id: format!("template/{step_id}"),
            },
            ContextScope::Scenario => ContextScope::Scenario,
        };
        FieldRef {
            scope,
            segments: field.clone().segments,
        }
    });

    let after = expression.visit_context_references();
    assert_eq!(
        after
            .iter()
            .map(|field| match &field.scope {
                ContextScope::Step { step_id } | ContextScope::LoopItem { step_id } => {
                    step_id.as_str()
                }
                ContextScope::Scenario => "scenario",
            })
            .collect::<Vec<_>>(),
        vec!["template/fetch", "template/loop"]
    );
}

#[test]
fn context_store_adapter_supports_roots_optional_fields_and_blocks_secrets() {
    let schema = ObjectSchema::new("test.context@1")
        .with_field("ready", FieldSchema::required(ContextType::Boolean))
        .with_field(
            "url",
            FieldSchema::required(ContextType::string(SemanticFormat::GitUrl)),
        )
        .with_field("note", FieldSchema::optional(ContextType::plain_string()))
        .with_field(
            "token",
            FieldSchema::optional(ContextType::plain_string()).sensitive(Sensitivity::Secret),
        );
    let mut store = ContextStore::default();
    store.insert(
        ContextScope::Step {
            step_id: "source".into(),
        },
        ContextValue::new(
            json(
                r#"{
                    "ready": true,
                    "url": "https://github.com/example/repository.git",
                    "token": "secret"
                }"#,
            ),
            ContextProvenance::step("source"),
        )
        .with_schema(schema),
    );

    let ready = field("ready");
    let checked = check_rule(context_ref(ready), &store, ExpressionLimits::default()).unwrap();
    assert_eq!(checked.evaluate_rule(&store), RuleEvaluation::True);

    let optional = field("note");
    let checked = check_rule(
        ExpressionV1::Exists {
            reference: ReferenceV1::Context { field: optional },
        },
        &store,
        ExpressionLimits::default(),
    )
    .unwrap();
    assert_eq!(checked.evaluate_rule(&store), RuleEvaluation::False);

    let secret_diagnostics = check_value_expression(
        context_ref(field("token")),
        &store,
        ExpressionLimits::default(),
    )
    .unwrap_err();
    assert_eq!(
        secret_diagnostics[0].code,
        ExpressionDiagnosticCode::UnknownReference
    );

    let root_diagnostics = check_value_expression(
        context_ref(FieldRef::step("source")),
        &store,
        ExpressionLimits::default(),
    )
    .unwrap_err();
    assert_eq!(
        root_diagnostics[0].code,
        ExpressionDiagnosticCode::UnknownReference
    );

    assert!(matches!(
        ExpressionValueResolver::resolve(&store, &FieldRef::step("not-created").field("x")),
        EvaluationValue::Unknown(_)
    ));

    let public_schema = ObjectSchema::new("test.public-context@1")
        .with_field("ready", FieldSchema::required(ContextType::Boolean));
    let mut public_store = ContextStore::default();
    public_store.insert(
        ContextScope::Step {
            step_id: "public".into(),
        },
        ContextValue::new(json(r#"{"ready": true}"#), ContextProvenance::step("public"))
            .with_schema(public_schema),
    );
    let root = FieldRef::step("public");
    let checked = check_value_expression(
        context_ref(root),
        &public_store,
        ExpressionLimits::default(),
    )
    .unwrap();
    assert!(matches!(
        checked.evaluate(&public_store),
        EvaluationValue::Value(ExpressionValue::Object(_))
    ));
}

#[test]
fn checker_and_evaluator_snapshot_each_context_reference_once() {
    let repeated = field("repeated");
    let expression = ExpressionV1::All {
        expressions: vec![context_ref(repeated.clone()), context_ref(repeated)],
    };
    let schema = ChangingSchema {
        calls: Cell::new(0),
    };
    let checked = check_rule(expression, &schema, ExpressionLimits::default()).unwrap();
    assert_eq!(schema.calls.get(), 1);

    let values = ChangingValue {
        calls: Cell::new(0),
    };
    assert_eq!(checked.evaluate_rule(&values), RuleEvaluation::True);
    assert_eq!(values.calls.get(), 1);
}

#[test]
fn checker_bounds_context_schema_projection_before_recursive_clone() {
    let mut nested = ContextType::Boolean;
    for _ in 0..64 {
        nested = ContextType::array(nested);
    }
    let mut deep_store = ContextStore::default();
    deep_store.insert(
        ContextScope::Scenario,
        ContextValue::new(json(r#"[]"#), ContextProvenance::step("deep-schema")).with_type(nested),
    );
    let limits = ExpressionLimits {
        max_depth: 4,
        ..ExpressionLimits::default()
    };
    let diagnostics =
        check_value_expression(context_ref(FieldRef::scenario()), &deep_store, limits)
            .unwrap_err();
    assert_limit(&diagnostics);

    let mut wide = ObjectSchema::new("wide-schema");
    for index in 0..32 {
        wide = wide.with_field(
            &format!("field_{index}"),
            FieldSchema::optional(ContextType::Boolean),
        );
    }
    let mut wide_store = ContextStore::default();
    wide_store.insert(
        ContextScope::Scenario,
        ContextValue::new(json(r#"{}"#), ContextProvenance::step("wide-schema")).with_schema(wide),
    );
    let limits = ExpressionLimits {
        max_collection_visits: 4,
        ..ExpressionLimits::default()
    };
    let diagnostics =
        check_value_expression(context_ref(FieldRef::scenario()), &wide_store, limits)
            .unwrap_err();
    assert_limit(&diagnostics);

    let names = ObjectSchema::new("string-budget")
        .with_field("aaaa", FieldSchema::optional(ContextType::Boolean))
        .with_field("bbbb", FieldSchema::optional(ContextType::Boolean))
        .with_field("cccc", FieldSchema::optional(ContextType::Boolean));
    let mut names_store = ContextStore::default();
    names_store.insert(
        ContextScope::Scenario,
        ContextValue::new(json(r#"{}"#), ContextProvenance::step("string-budget"))
            .with_schema(names),
    );
    let limits = ExpressionLimits {
        max_string_bytes: 8,
        ..ExpressionLimits::default()
    };
    let diagnostics =
        check_value_expression(context_ref(FieldRef::scenario()), &names_store, limits)
            .unwrap_err();
    assert_limit(&diagnostics);
}

#[test]
fn evaluator_bounds_json_conversion_before_recursive_clone() {
    let mut deep = json(r#"true"#);
    for _ in 0..64 {
        deep = Value::Array(vec![deep]);
    }
    let mut deep_store = ContextStore::default();
    deep_store.insert(
        ContextScope::Scenario,
        ContextValue::new(deep, ContextProvenance::step("deep-value"))
            .with_type(ContextType::Any),
    );
    let limits = ExpressionLimits {
        max_depth: 4,
        ..ExpressionLimits::default()
    };
    let checked =
        check_value_expression(context_ref(FieldRef::scenario()), &deep_store, limits).unwrap();
    assert!(matches!(
        checked.evaluate(&deep_store),
        EvaluationValue::Error(EvaluationError {
            kind: EvaluationErrorKind::LimitExceeded,
            ..
        })
    ));

    let mut wide_store = ContextStore::default();
    wide_store.insert(
        ContextScope::Scenario,
        ContextValue::new(
            Value::Array(
                (0..32)
                    .map(|value| Value::Number(Number::PosInt(value)))
                    .collect(),
            ),
            ContextProvenance::step("wide-value"),
        )
        .with_type(ContextType::array(ContextType::Integer)),
    );
    let limits = ExpressionLimits {
        max_collection_visits: 4,
        ..ExpressionLimits::default()
    };
    let checked =
        check_value_expression(context_ref(FieldRef::scenario()), &wide_store, limits).unwrap();
    assert!(matches!(
        checked.evaluate(&wide_store),
        EvaluationValue::Error(EvaluationError {
            kind: EvaluationErrorKind::LimitExceeded,
            ..
        })
    ));

    let mut strings_store = ContextStore::default();
    strings_store.insert(
        ContextScope::Scenario,
        ContextValue::new(
            json(r#"["aaaa", "bbbb", "cccc"]"#),
            ContextProvenance::step("string-value"),
        )
        .with_type(ContextType::array(ContextType::plain_string())),
    );
    let limits = ExpressionLimits {
        max_string_bytes: 8,
        ..ExpressionLimits::default()
    };
    let checked =
        check_value_expression(context_ref(FieldRef::scenario()), &strings_store, limits)
            .unwrap();
    assert!(matches!(
        checked.evaluate(&strings_store),
        EvaluationValue::Error(EvaluationError {
            kind: EvaluationErrorKind::LimitExceeded,
            ..
        })
    ));
}

#[test]
fn bounded_context_adapters_keep_normal_github_arrays_valid_and_block_nested_secrets() {
    let repository = ContextType::object(
        ObjectSchema::new("repository")
            .with_field("name", FieldSchema::required(ContextType::plain_string()))
            .with_field("private", FieldSchema::required(ContextType::Boolean)),
    );
    let schema = ObjectSchema::new("github")
        .with_field(
            "repositories",
            FieldSchema::required(ContextType::array(repository)),
        )
        .with_field(
            "credentials",
            FieldSchema::optional(ContextType::object(
                ObjectSchema::new("credentials").with_field(
                    "token",
                    FieldSchema::required(ContextType::plain_string()).sensitive(Sensitivity::Secret),
                ),
            )),
        );
    let mut store = ContextStore::default();
    store.insert(
        ContextScope::Scenario,
        ContextValue::new(
            json(
                r#"{
                    "repositories": [
                        { "name": "api", "private": true },
                        { "name": "web", "private": false }
                    ]
                }"#,
            ),
            ContextProvenance::step("github"),
        )
        .with_schema(schema),
    );

    let repositories = FieldRef::scenario().field("repositories");
    let checked = check_value_expression(
        context_ref(repositories),
        &store,
        ExpressionLimits::default(),
    )
    .unwrap();
    assert!(matches!(
        checked.evaluate(&store),
        EvaluationValue::Value(ExpressionValue::List(values)) if values.len() == 2
    ));

    let diagnostics = check_value_expression(
        context_ref(FieldRef::scenario()),
        &store,
        ExpressionLimits::default(),
    )
    .unwrap_err();
    assert_eq!(
        diagnostics[0].code,
        ExpressionDiagnosticCode::UnknownReference
    );
    assert!(diagnostics[0].message.contains("secret context field"));
}

#[test]
fn checked_limits_are_forwarded_to_bounded_resolver_methods() {
    let activation = BoundedActivation {
        schema_limit: Cell::new(0),
        value_limit: Cell::new(0),
    };
    let limits = ExpressionLimits {
        max_depth: 7,
        ..ExpressionLimits::default()
    };
    let checked = check_rule(context_ref(field("bounded")), &activation, limits).unwrap();
    assert_eq!(activation.schema_limit.get(), 7);
    assert_eq!(checked.evaluate_rule(&activation), RuleEvaluation::True);
    assert_eq!(activation.value_limit.get(), 7);
}

#[test]
fn arbitrary_runtime_values_are_deeply_bounded() {
    let anything = field("anything");
    let activation = TestActivation::default()
        .typed(
            anything.clone(),
            ExpressionType::required(ExpressionTypeKind::Any),
        )
        .valued(
            anything.clone(),
            EvaluationValue::value(ExpressionValue::List(vec![ExpressionValue::List(vec![
                ExpressionValue::List(vec![ExpressionValue::Int(1)]),
            ])])),
        );
    let limits = ExpressionLimits {
        max_depth: 2,
        ..ExpressionLimits::default()
    };
    let checked = check_value_expression(context_ref(anything), &activation, limits).unwrap();
    assert!(matches!(
        checked.evaluate(&activation),
        EvaluationValue::Error(EvaluationError {
            kind: EvaluationErrorKind::LimitExceeded,
            ..
        })
    ));

    let object = field("object");
    let activation = TestActivation::default()
        .typed(object.clone(), ExpressionType::object(TextMap::new()))
        .valued(
            object.clone(),
            EvaluationValue::value(ExpressionValue::Object(map([(
                "extra".into(),
                ExpressionValue::List(vec![ExpressionValue::Int(1)]),
            )]))),
        );
    let limits = ExpressionLimits {
        max_collection_visits: 1,
        ..ExpressionLimits::default()
    };
    let checked = check_value_expression(context_ref(object), &activation, limits).unwrap();
    assert!(matches!(
        checked.evaluate(&activation),
        EvaluationValue::Error(EvaluationError {
            kind: EvaluationErrorKind::LimitExceeded,
            ..
        })
    ));
}

#[test]
fn gravest_issue_is_kept_and_decisive_operands_settle() {
    let missing = field("missing");
    let unknown = field("unknown");
    let activation = TestActivation::default()
        .typed(
            missing.clone(),
            ExpressionType::optional(ExpressionTypeKind::Bool),
        )
        .typed(
            unknown.clone(),
            ExpressionType::optional(ExpressionTypeKind::Bool),
        )
        .valued(missing.clone(), EvaluationValue::missing("absent"))
        .valued(unknown.clone(), EvaluationValue::unknown("not ready"));
    let both = ExpressionV1::All {
        expressions: vec![context_ref(missing.clone()), context_ref(unknown.clone())],
    };
    assert!(matches!(
        checked_rule(both, &activation).evaluate_rule(&activation),
        RuleEvaluation::Unknown(ref issue) if issue.message == "not ready"
    ));
    let settled = ExpressionV1::All {
        expressions: vec![
            context_ref(missing),
            context_ref(unknown),
            bool_literal(false),
        ],
    };
    assert_eq!(
        checked_rule(settled, &activation).evaluate_rule(&activation),
        RuleEvaluation::False
    );
}

#[test]
fn evaluation_counts_its_work() {
    let activation = TestActivation::default();
    let expression = ExpressionV1::In {
        needle: Box::new(int_literal(2)),
        collection: Box::new(literal(ExpressionValue::List(vec![
            ExpressionValue::Int(1),
            ExpressionValue::Int(2),
            ExpressionValue::Int(3),
        ]))),
    };
    let evaluation = checked_rule(expression, &activation).evaluate_with_stats(&activation);
    assert_eq!(
        evaluation.outcome,
        EvaluationValue::value(ExpressionValue::Bool(true))
    );
    assert_eq!(evaluation.operations, 3);
    assert_eq!(evaluation.collection_visits, 2);
}

#[test]
fn numbers_compare_exactly_across_their_kinds() {
    let activation = TestActivation::default();
    let cases = [
        (ExpressionValue::Int(-1), ExpressionValue::UInt(u64::MAX)),
        (
            ExpressionValue::Float((-0.5f64).to_bits()),
            ExpressionValue::Int(0),
        ),
        (
            ExpressionValue::UInt(3),
            ExpressionValue::Float(3.5f64.to_bits()),
        ),
        (
            ExpressionValue::Float((-2.0f64).to_bits()),
            ExpressionValue::Float((-1.0f64).to_bits()),
        ),
    ];
    for (left, right) in cases {
        let rule = compare(ComparisonOperator::LessThan, literal(left), literal(right));
        assert_eq!(
            checked_rule(rule, &activation).evaluate_rule(&activation),
            RuleEvaluation::True
        );
    }
    let zeros = compare(
        ComparisonOperator::Equal,
        literal(ExpressionValue::Float(0.0f64.to_bits())),
        literal(ExpressionValue::Float((-0.0f64).to_bits())),
    );
    assert_eq!(
        checked_rule(zeros, &activation).evaluate_rule(&activation),
        RuleEvaluation::True
    );
}

#[test]
fn regular_expressions_decide_matches() {
    let activation = TestActivation::default();
    for (input, expected) in [
        ("release-12", RuleEvaluation::True),
        ("release-x", RuleEvaluation::False),
        ("^release-[0-9]+$", RuleEvaluation::False),
    ] {
        let rule = ExpressionV1::Matches {
            value: Box::new(string_literal(input)),
            pattern: "^release-[0-9]+$".into(),
        };
        assert_eq!(
            checked_rule(rule, &activation).evaluate_rule(&activation),
            expected
        );
    }
    let limits = ExpressionLimits {
        max_regex_compiled_bytes: 10,
        ..ExpressionLimits::default()
    };
    let diagnostics = check_rule(
        ExpressionV1::Matches {
            value: Box::new(string_literal("a")),
            pattern: "[a-z]{100}".into(),
        },
        &activation,
        limits,
    )
    .unwrap_err();
    assert_eq!(diagnostics[0].code, ExpressionDiagnosticCode::InvalidRegex);
}

struct LateSchema {
    calls: Cell<usize>,
}

impl ExpressionSchemaResolver for LateSchema {
    fn resolve(&self, _reference: &FieldRef) -> Result<ExpressionType, SchemaResolutionError> {
        let call = self.calls.get();
        self.calls.set(call + 1);
        if call == 0 {
            Err(SchemaResolutionError::new("not yet known"))
        } else {
            Ok(ExpressionType::bool())
        }
    }
}

#[test]
fn a_reference_without_a_type_is_asked_again_and_a_type_is_kept() {
    let repeated = field("repeated");
    let schema = LateSchema {
        calls: Cell::new(0),
    };
    let diagnostics = check_rule(
        ExpressionV1::All {
            expressions: vec![
                context_ref(repeated.clone()),
                context_ref(repeated.clone()),
                context_ref(repeated),
            ],
        },
        &schema,
        ExpressionLimits::default(),
    )
    .unwrap_err();
    assert_eq!(schema.calls.get(), 2);
    assert_eq!(diagnostics.len(), 1);
    assert_eq!(
        diagnostics[0].code,
        ExpressionDiagnosticCode::UnknownReference
    );
    assert_eq!(diagnostics[0].message, "not yet known");
}

#[test]
fn bounded_resolution_falls_back_to_plain_resolution() {
    let activation = TestActivation::default()
        .typed(field("flag"), ExpressionType::bool())
        .valued(
            field("flag"),
            EvaluationValue::value(ExpressionValue::Bool(true)),
        );
    let limits = ExpressionLimits::default();
    assert_eq!(
        activation.resolve_schema_bounded(&field("flag"), limits),
        Ok(ExpressionType::bool())
    );
    assert!(activation
        .resolve_schema_bounded(&field("other"), limits)
        .is_err());
    assert_eq!(
        activation.resolve_value_bounded(&field("flag"), limits),
        EvaluationValue::value(ExpressionValue::Bool(true))
    );
    assert!(matches!(
        activation.resolve_value_bounded(&field("other"), limits),
        EvaluationValue::Missing(_)
    ));
}
