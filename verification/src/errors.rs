//! Error taxonomy of the pipeline.
//!
//! Every stage fails fast: the first error aborts the whole run. Each
//! error names the offending path, token or figure, so the operator sees
//! what to fix. Message formatting is left to the embedding program; the
//! library keeps the data structural.

use vstd::prelude::*;

verus! {

/// The leaf kinds a document field can be asked for, and the kinds a
/// document value can actually have.
#[derive(Clone, Copy, PartialEq, Eq, Structural, Debug)]
pub enum FieldKind {
    /// A text value.
    Text,
    /// A 32-bit signed integer value.
    Integer,
    /// A decimal (floating-point in the document's own terms) value.
    Num,
    /// A nested object of keyed fields.
    Object,
}

/// A missing or mistyped field of the input document.
#[derive(Clone, PartialEq, Eq, Debug)]
pub enum ConfigError {
    /// The walk down `path` stopped at `path[key_index]`: either the key
    /// was absent, or the value reached before it was not an object.
    MissingKey { path: Vec<String>, key_index: usize },
    /// The value at `path` exists but has kind `actual`, which cannot be
    /// coerced to `expected`.
    TypeMismatch { path: Vec<String>, expected: FieldKind, actual: FieldKind },
}

/// Spec-level shape of a `ConfigError`, over sequences of characters.
pub enum ConfigErrorSpec {
    MissingKey { path: Seq<Seq<char>>, key_index: int },
    TypeMismatch { path: Seq<Seq<char>>, expected: FieldKind, actual: FieldKind },
}

impl View for ConfigError {
    type V = ConfigErrorSpec;

    open spec fn view(&self) -> ConfigErrorSpec {
        match self {
            ConfigError::MissingKey { path, key_index } => ConfigErrorSpec::MissingKey {
                path: path.deep_view(),
                key_index: *key_index as int,
            },
            ConfigError::TypeMismatch { path, expected, actual } => ConfigErrorSpec::TypeMismatch {
                path: path.deep_view(),
                expected: *expected,
                actual: *actual,
            },
        }
    }
}

/// A sizing-specification token that the grammar does not recognize.
#[derive(Clone, PartialEq, Eq, Debug)]
pub struct GrammarError {
    /// The offending token, with surrounding whitespace removed.
    pub token: String,
    /// Zero-based position of the token among the comma-separated parts
    /// of the specification string.
    pub position: usize,
}

/// Spec-level shape of a `GrammarError`.
pub struct GrammarErrorSpec {
    pub token: Seq<char>,
    pub position: int,
}

impl View for GrammarError {
    type V = GrammarErrorSpec;

    open spec fn view(&self) -> GrammarErrorSpec {
        GrammarErrorSpec { token: self.token@, position: self.position as int }
    }
}

/// A cross-field inconsistency in the extracted configuration.
#[derive(Clone, Copy, PartialEq, Eq, Structural, Debug)]
pub enum ValidationError {
    /// A river card is given while the turn card is empty.
    IllegalBoardProgression,
    /// The flop, mandatory once any board card is revealed, is empty.
    EmptyFlop,
}

/// The engine's byte figure does not fit the divided budget.
#[derive(Clone, Copy, PartialEq, Eq, Structural, Debug)]
pub struct ResourceError {
    /// Bytes the engine estimates it needs.
    pub required: u64,
    /// Bytes the host reported as available, before headroom division.
    pub available: u64,
    /// The budget actually compared against: `available / divisor`.
    pub budget: u64,
}

/// Any failure of the compilation and gating pipeline.
#[derive(Clone, PartialEq, Eq, Debug)]
pub enum PipelineError {
    Config(ConfigError),
    Grammar(GrammarError),
    Validation(ValidationError),
    Resource(ResourceError),
}

/// Spec-level shape of a `PipelineError`.
pub enum PipelineErrorSpec {
    Config(ConfigErrorSpec),
    Grammar(GrammarErrorSpec),
    Validation(ValidationError),
    Resource(ResourceError),
}

impl View for PipelineError {
    type V = PipelineErrorSpec;

    open spec fn view(&self) -> PipelineErrorSpec {
        match self {
            PipelineError::Config(e) => PipelineErrorSpec::Config(e@),
            PipelineError::Grammar(e) => PipelineErrorSpec::Grammar(e@),
            PipelineError::Validation(e) => PipelineErrorSpec::Validation(*e),
            PipelineError::Resource(e) => PipelineErrorSpec::Resource(*e),
        }
    }
}

} // verus!
