//! Analysis of code changes between two revisions of a repository: line-level
//! diffs, syntax-based complexity metrics and review suggestions, together with
//! the state of a review session over GitHub pull requests.

pub mod diff;
pub mod engine;
pub mod github;
pub mod model;
pub mod ordering;
pub mod parsing;
pub mod presentation;
pub mod session;
pub mod suggestions;
pub mod syntax;
pub mod text;
pub mod token;

pub use engine::{AnalysisConfig, CodeAnalysisEngine};
pub use github::{PullRequest, PullRequestHead};
pub use model::{ChangeType, CodeChange, ComplexityMetrics, LineChange, LineContext};
pub use session::{AnalysisTab, Session};
pub use suggestions::{AiRecommendationResponse, CodeSuggestion};
