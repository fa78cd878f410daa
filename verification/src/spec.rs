//! Mutation specs: documents that describe an intended change, compiled into mutation plans.
use crate::text::{concat, trim, trimmed};
use vstd::prelude::*;

verus! {

/// How far a mutation may reach.
#[derive(Clone, Debug)]
pub enum MutationTarget {
    WorkspaceRoot,
    Crate { name: String },
    Paths { allow: Vec<String> },
}

/// Risk of a mutation.
#[derive(Clone, Copy, Debug, PartialEq, Eq, Structural)]
pub enum RiskLevel {
    Low,
    Medium,
    High,
}

/// An intended mutation.
#[derive(Clone, Debug)]
pub struct MutationIntent {
    pub id: String,
    pub intent: String,
    pub target: MutationTarget,
    pub expected_effect: String,
    pub risk: RiskLevel,
    pub signals: Vec<String>,
    pub spec_id: Option<String>,
}

/// One key/value constraint of a spec.
#[derive(Clone, Debug)]
pub struct SpecConstraint {
    pub key: String,
    pub value: String,
}

/// The mutation a spec asks for.
#[derive(Clone, Debug)]
pub struct SpecMutation {
    pub strategy: String,
}

/// A spec document.
#[derive(Clone, Debug)]
pub struct SpecDocument {
    pub id: String,
    pub version: String,
    pub intent: String,
    pub signals: Vec<String>,
    pub constraints: Vec<SpecConstraint>,
    pub mutation: SpecMutation,
    pub validation: Vec<String>,
}

/// A compiled spec: the mutation intent and the validation profile to run.
#[derive(Clone, Debug)]
pub struct CompiledMutationPlan {
    pub mutation_intent: MutationIntent,
    pub validation_profile: String,
}

/// Why a spec did not compile.
#[derive(Clone, Debug)]
pub enum SpecCompileError {
    Parse(String),
    Invalid(String),
}

/// The texts of `items` joined with `sep` between them.
pub open spec fn joined(items: Seq<Seq<char>>, sep: Seq<char>) -> Seq<char>
    decreases items.len(),
{
    if items.len() == 0 {
        Seq::empty()
    } else if items.len() == 1 {
        items[0]
    } else {
        joined(items.drop_last(), sep) + sep + items.last()
    }
}

/// Views of strings.
pub open spec fn views(v: Seq<String>) -> Seq<Seq<char>> {
    v.map_values(|s: String| s@)
}

/// `slice::join` on strings.
pub fn join_strings(items: &Vec<String>, sep: &str) -> (r: String)
    ensures
        r@ == joined(views(items@), sep@),
{
    let mut out = String::new();
    let mut i: usize = 0;
    while i < items.len()
        invariant
            i <= items@.len(),
            out@ == joined(views(items@.take(i as int)), sep@),
        decreases items@.len() - i,
    {
        proof {
            assert(views(items@.take(i + 1)).drop_last() =~= views(items@.take(i as int)));
            assert(views(items@.take(i + 1)).last() == items@[i as int]@);
        }
        if i == 0 {
            out = items[0].clone();
            proof {
                assert(views(items@.take(1)).len() == 1);
            }
        } else {
            let a = concat(out.as_str(), sep);
            out = concat(a.as_str(), items[i].as_str());
        }
        i = i + 1;
    }
    proof {
        assert(items@.take(i as int) =~= items@);
    }
    out
}

/// Copy of a list of strings.
pub fn clone_strings(v: &Vec<String>) -> (r: Vec<String>)
    ensures
        r@ == v@,
{
    let mut out: Vec<String> = Vec::new();
    let mut i: usize = 0;
    while i < v.len()
        invariant
            i <= v@.len(),
            out@ == v@.take(i as int),
        decreases v@.len() - i,
    {
        out.push(v[i].clone());
        proof {
            assert(out@ =~= v@.take(i + 1));
        }
        i = i + 1;
    }
    proof {
        assert(v@.take(i as int) =~= v@);
    }
    out
}

/// `r` is an invalid-spec error with message `m`.
pub open spec fn invalid_with<T>(r: Result<T, SpecCompileError>, m: Seq<char>) -> bool {
    r matches Err(SpecCompileError::Invalid(x)) && x@ == m
}

/// Turns specs into mutation plans.
pub struct SpecCompiler;

impl SpecCompiler {
    /// Compiles a spec: id, intent and mutation strategy must not be blank. The plan's
    /// intent is `spec-<id>` on the whole workspace at low risk, expecting the strategy;
    /// its validation profile is the validations joined by commas, or `spec-default`.
    pub fn compile(doc: &SpecDocument) -> (r: Result<CompiledMutationPlan, SpecCompileError>)
        ensures
            trimmed(doc.id@).len() == 0 ==> invalid_with(r, "spec id cannot be empty"@),
            trimmed(doc.id@).len() > 0 && trimmed(doc.intent@).len() == 0 ==> invalid_with(r, "spec intent cannot be empty"@),
            trimmed(doc.id@).len() > 0 && trimmed(doc.intent@).len() > 0 && trimmed(doc.mutation.strategy@).len() == 0
                ==> invalid_with(r, "spec mutation strategy cannot be empty"@),
            r is Ok <==> trimmed(doc.id@).len() > 0 && trimmed(doc.intent@).len() > 0 && trimmed(doc.mutation.strategy@).len() > 0,
            r matches Ok(plan) ==> {
                let i = plan.mutation_intent;
                &&& i.id@ == "spec-"@ + doc.id@
                &&& i.intent@ == doc.intent@
                &&& i.target is WorkspaceRoot
                &&& i.expected_effect@ == doc.mutation.strategy@
                &&& i.risk == RiskLevel::Low
                &&& i.signals@ == doc.signals@
                &&& i.spec_id matches Some(s) && s@ == doc.id@
                &&& plan.validation_profile@ == if doc.validation@.len() == 0 {
                    "spec-default"@
                } else {
                    joined(views(doc.validation@), ","@)
                }
            },
    {
        if trim(doc.id.as_str()).unicode_len() == 0 {
            return Err(SpecCompileError::Invalid("spec id cannot be empty".to_owned()));
        }
        if trim(doc.intent.as_str()).unicode_len() == 0 {
            return Err(SpecCompileError::Invalid("spec intent cannot be empty".to_owned()));
        }
        if trim(doc.mutation.strategy.as_str()).unicode_len() == 0 {
            return Err(SpecCompileError::Invalid("spec mutation strategy cannot be empty".to_owned()));
        }
        let validation_profile = if doc.validation.len() == 0 {
            "spec-default".to_owned()
        } else {
            join_strings(&doc.validation, ",")
        };
        Ok(
            CompiledMutationPlan {
                mutation_intent: MutationIntent {
                    id: concat("spec-", doc.id.as_str()),
                    intent: doc.intent.clone(),
                    target: MutationTarget::WorkspaceRoot,
                    expected_effect: doc.mutation.strategy.clone(),
                    risk: RiskLevel::Low,
                    signals: clone_strings(&doc.signals),
                    spec_id: Some(doc.id.clone()),
                },
                validation_profile,
            },
        )
    }
}

} // verus!
