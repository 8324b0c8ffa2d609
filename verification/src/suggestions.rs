//! Suggestions drawn from the measures of a text.

use crate::metrics::{CodeMetrics, COMPLEXITY_LIMIT};
use crate::text::{decimal, push_decimal};
use vstd::prelude::*;
use vstd::string::*;

verus! {

/// How urgent a suggestion is.
#[derive(Clone, Copy, Debug, PartialEq, Eq, Structural)]
pub enum Priority {
    Low,
    Medium,
    High,
}

/// One proposal to improve a text.
#[derive(Debug)]
pub struct OptimizationSuggestion {
    pub title: String,
    pub description: String,
    pub priority: Priority,
    /// The improvement to expect, in percent.
    pub estimated_improvement: u32,
}

/// The mathematical content of a suggestion.
pub struct SuggestionModel {
    pub title: Seq<char>,
    pub description: Seq<char>,
    pub priority: Priority,
    pub estimated_improvement: int,
}

impl View for OptimizationSuggestion {
    type V = SuggestionModel;

    open spec fn view(&self) -> SuggestionModel {
        SuggestionModel {
            title: self.title@,
            description: self.description@,
            priority: self.priority,
            estimated_improvement: self.estimated_improvement as int,
        }
    }
}

/// The views of a sequence of suggestions.
pub open spec fn suggestion_models(v: Seq<OptimizationSuggestion>) -> Seq<SuggestionModel> {
    Seq::new(v.len(), |i: int| v[i]@)
}

/// The suggestion to split a function that is too complex.
pub open spec fn split_suggestion() -> SuggestionModel {
    SuggestionModel {
        title: "함수 분리 권장"@,
        description: "순환 복잡도가 높습니다. 함수를 더 작은 단위로 분리하세요."@,
        priority: Priority::High,
        estimated_improvement: 20,
    }
}

/// The suggestion to remove `count` duplicate patterns.
pub open spec fn duplication_suggestion(count: nat) -> SuggestionModel {
    SuggestionModel {
        title: "중복 코드 제거"@,
        description: decimal(count) + "개의 중복 패턴이 발견되었습니다."@,
        priority: Priority::Medium,
        estimated_improvement: 15,
    }
}

/// The suggestion to tune loops or to memoize.
pub open spec fn performance_suggestion() -> SuggestionModel {
    SuggestionModel {
        title: "성능 최적화 가능"@,
        description: "루프 최적화 또는 메모이제이션을 고려하세요."@,
        priority: Priority::Medium,
        estimated_improvement: 25,
    }
}

/// The suggestions for a text of the given complexity, duplicate count and
/// performance finding: each of the three is made on its own ground, and they
/// come in this order.
pub open spec fn suggestions_for(complexity: int, duplicates: Option<nat>, slow: bool) -> Seq<
    SuggestionModel,
> {
    let split = if complexity > COMPLEXITY_LIMIT {
        seq![split_suggestion()]
    } else {
        Seq::empty()
    };
    let dedup = match duplicates {
        Some(count) => seq![duplication_suggestion(count)],
        None => Seq::empty(),
    };
    let tune = if slow {
        seq![performance_suggestion()]
    } else {
        Seq::empty()
    };
    split + dedup + tune
}

/// Draws the suggestions from what the analysers found.
pub fn suggest(metrics: &CodeMetrics, duplicates: Option<u128>, slow: bool) -> (r: Vec<
    OptimizationSuggestion,
>)
    ensures
        suggestion_models(r@) == suggestions_for(
            metrics.complexity as int,
            match duplicates {
                Some(count) => Some(count as nat),
                None => None,
            },
            slow,
        ),
{
    let mut out: Vec<OptimizationSuggestion> = Vec::new();
    if metrics.is_too_complex() {
        out.push(
            OptimizationSuggestion {
                title: "함수 분리 권장".to_owned(),
                description: "순환 복잡도가 높습니다. 함수를 더 작은 단위로 분리하세요.".to_owned(),
                priority: Priority::High,
                estimated_improvement: 20,
            },
        );
    }
    if let Some(count) = duplicates {
        let mut description = String::new();
        push_decimal(&mut description, count);
        description.append("개의 중복 패턴이 발견되었습니다.");
        out.push(
            OptimizationSuggestion {
                title: "중복 코드 제거".to_owned(),
                description,
                priority: Priority::Medium,
                estimated_improvement: 15,
            },
        );
    }
    if slow {
        out.push(
            OptimizationSuggestion {
                title: "성능 최적화 가능".to_owned(),
                description: "루프 최적화 또는 메모이제이션을 고려하세요.".to_owned(),
                priority: Priority::Medium,
                estimated_improvement: 25,
            },
        );
    }
    out
}

} // verus!
