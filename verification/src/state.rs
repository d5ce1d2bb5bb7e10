//! The options that steer a compilation.

use vstd::prelude::*;

verus! {

/// How much a stage of the compiler reports about its work.
#[derive(Debug, Clone, Copy, PartialEq, Eq)]
pub enum VerbosityLevel {
    Silent,
    Trace,
    Debug,
}

/// Defines various verbosity levels for individual stages of the compiler.
#[derive(Debug, Clone)]
pub struct VerbosityLevels {
    /// The level of verbosity when turning input into a token list.
    pub lex_verbosity_level: VerbosityLevel,
    /// The level of verbosity when selecting, combining, and massaging tokens
    /// into a syntax tree.
    pub parse_verbosity_level: VerbosityLevel,
    /// The level of verbosity for actions executed directly on the parse tree
    /// (such as simplifications or compile-time execution).
    pub parse_execute_verbosity_level: VerbosityLevel,
    /// The level of verbosity when turning a parse tree into a specific output
    /// (code generation, translation to another language, or otherwise).
    pub generate_verbosity_level: VerbosityLevel,
}

/// The options of one compilation, as far as the stages of the compiler read
/// them. Where the input comes from and where the output goes is the
/// caller's business.
#[derive(Debug, Clone)]
pub struct CompilationConfiguration {
    pub verbosity_level: VerbosityLevel,
    pub verbosity_levels: VerbosityLevels,
    pub print_tokens: bool,
    pub print_ast: bool,
}

impl VerbosityLevel {
    /// The name of the level as a reader sees it.
    pub open spec fn label_view(self) -> Seq<char> {
        match self {
            VerbosityLevel::Silent => "silent"@,
            VerbosityLevel::Trace => "trace"@,
            VerbosityLevel::Debug => "debug"@,
        }
    }

    /// The number that stands for the level: 0 for silent, 1 for trace and
    /// 2 for debug.
    pub open spec fn rank(self) -> int {
        match self {
            VerbosityLevel::Silent => 0,
            VerbosityLevel::Trace => 1,
            VerbosityLevel::Debug => 2,
        }
    }

    /// The name of the level as a reader sees it.
    pub fn label(&self) -> (text: &'static str)
        ensures
            text@ == self.label_view(),
    {
        match self {
            VerbosityLevel::Silent => "silent",
            VerbosityLevel::Trace => "trace",
            VerbosityLevel::Debug => "debug",
        }
    }

    /// The number that stands for the level.
    pub fn level(&self) -> (n: u32)
        ensures
            n == self.rank(),
    {
        match self {
            VerbosityLevel::Silent => 0,
            VerbosityLevel::Trace => 1,
            VerbosityLevel::Debug => 2,
        }
    }
}

impl VerbosityLevels {
    /// All stages at the same level.
    pub fn uniform(level: VerbosityLevel) -> (levels: VerbosityLevels)
        ensures
            levels.lex_verbosity_level == level,
            levels.parse_verbosity_level == level,
            levels.parse_execute_verbosity_level == level,
            levels.generate_verbosity_level == level,
    {
        VerbosityLevels {
            lex_verbosity_level: level,
            parse_verbosity_level: level,
            parse_execute_verbosity_level: level,
            generate_verbosity_level: level,
        }
    }
}

impl Default for CompilationConfiguration {
    /// Every stage silent, and tokens and tree printed.
    fn default() -> (config: CompilationConfiguration)
        ensures
            config.verbosity_level == VerbosityLevel::Silent,
            config.verbosity_levels.lex_verbosity_level == VerbosityLevel::Silent,
            config.verbosity_levels.parse_verbosity_level == VerbosityLevel::Silent,
            config.verbosity_levels.parse_execute_verbosity_level == VerbosityLevel::Silent,
            config.verbosity_levels.generate_verbosity_level == VerbosityLevel::Silent,
            config.print_tokens,
            config.print_ast,
    {
        CompilationConfiguration {
            verbosity_level: VerbosityLevel::Silent,
            verbosity_levels: VerbosityLevels::uniform(VerbosityLevel::Silent),
            print_tokens: true,
            print_ast: true,
        }
    }
}

} // verus!
