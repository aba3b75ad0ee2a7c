//! Prompt contexts and the three-tier choice between repository, overlay,
//! user-global and embedded prompt sources.
use vstd::prelude::*;

use crate::text::{concat3, opt_view, string_of, trim, trim_str, word_is};

verus! {

/// Operating context that adjusts the agent's behaviour and priorities.
#[derive(Debug, Clone, PartialEq, Eq)]
pub enum ContextMode {
    /// Active development: write code first, explain after.
    Dev,
    /// Code review: thorough analysis, severity-based reporting.
    Review,
    /// Research: explore and understand before acting.
    Research,
    /// Custom context loaded from a file or string.
    Custom(String),
}

pub const DEV_CONTEXT: &'static str = "# Development Mode\n\nYou are working in active development. Write the code first, keep changes small and focused, run the relevant tests, and explain what you changed afterwards.\n";

pub const REVIEW_CONTEXT: &'static str = "# Code Review Mode\n\nYou are reviewing code. Read thoroughly before judging, report findings ordered by severity with file and line references, and do not modify files.\n";

pub const RESEARCH_CONTEXT: &'static str = "# Research Mode\n\nYou are exploring and building understanding. Investigate the codebase and its history before acting, state what you found and how confident you are, and do not change files unless asked.\n";

pub open spec fn embedded_text(mode: ContextMode) -> Seq<char> {
    match mode {
        ContextMode::Dev => DEV_CONTEXT@,
        ContextMode::Review => REVIEW_CONTEXT@,
        ContextMode::Research => RESEARCH_CONTEXT@,
        ContextMode::Custom(c) => c@,
    }
}

pub open spec fn context_file(mode: ContextMode) -> Option<Seq<char>> {
    match mode {
        ContextMode::Dev => Some("dev"@),
        ContextMode::Review => Some("review"@),
        ContextMode::Research => Some("research"@),
        ContextMode::Custom(_) => None,
    }
}

pub open spec fn context_name(mode: ContextMode) -> Seq<char> {
    match mode {
        ContextMode::Dev => "dev"@,
        ContextMode::Review => "review"@,
        ContextMode::Research => "research"@,
        ContextMode::Custom(_) => "custom"@,
    }
}

/// The mode a lower-cased name selects.
pub open spec fn mode_of(lowered: Seq<char>) -> Option<ContextMode> {
    if lowered == "dev"@ || lowered == "development"@ {
        Some(ContextMode::Dev)
    } else if lowered == "review"@ || lowered == "code-review"@ {
        Some(ContextMode::Review)
    } else if lowered == "research"@ || lowered == "explore"@ {
        Some(ContextMode::Research)
    } else {
        None
    }
}

impl ContextMode {
    /// The embedded default content of a built-in context; a custom
    /// context's own text.
    pub fn embedded_content(&self) -> (r: &str)
        ensures
            r@ == embedded_text(*self),
    {
        match self {
            ContextMode::Dev => DEV_CONTEXT,
            ContextMode::Review => REVIEW_CONTEXT,
            ContextMode::Research => RESEARCH_CONTEXT,
            ContextMode::Custom(content) => content.as_str(),
        }
    }

    /// The override file name of a built-in context.
    pub fn filename(&self) -> (r: Option<&str>)
        ensures
            match r {
                Some(f) => context_file(*self) == Some(f@),
                None => context_file(*self) is None,
            },
    {
        match self {
            ContextMode::Dev => Some("dev"),
            ContextMode::Review => Some("review"),
            ContextMode::Research => Some("research"),
            ContextMode::Custom(_) => None,
        }
    }

    /// The context's display name.
    pub fn display_name(&self) -> (r: &'static str)
        ensures
            r@ == context_name(*self),
    {
        match self {
            ContextMode::Dev => "dev",
            ContextMode::Review => "review",
            ContextMode::Research => "research",
            ContextMode::Custom(_) => "custom",
        }
    }

    /// The content to inject: a non-blank repository override, else (when
    /// the repository has no file) a non-blank overlay override, else a
    /// non-blank user-global override, else the embedded content. Custom
    /// contexts ignore every override.
    pub fn select_content(
        &self,
        repository: Option<String>,
        overlay: Option<String>,
        user: Option<String>,
    ) -> (r: String)
        ensures
            r@ == if context_file(*self) is Some {
                three_tier(opt_view(repository), opt_view(overlay), opt_view(user), embedded_text(*self))
            } else {
                embedded_text(*self)
            },
    {
        let embedded = self.embedded_content();
        if self.filename().is_some() {
            three_tier_content(repository, overlay, user, embedded)
        } else {
            String::from_str(embedded)
        }
    }
}

/// `str::to_lowercase`: the Unicode lower-case mapping of a string.
pub uninterp spec fn unicode_lower(s: Seq<char>) -> Seq<char>;

/// `str::to_lowercase`, which maps every character to its Unicode lower
/// case and depends on the text alone.
#[verifier::external_body]
fn to_lowercase(s: &str) -> (r: String)
    ensures
        r@ == unicode_lower(s@),
{
    s.to_lowercase()
}

/// Parses an already lower-cased context name.
pub fn context_mode_from_lowered(lowered: &str) -> (r: Result<ContextMode, String>)
    ensures
        match mode_of(lowered@) {
            Some(m) => r == Ok::<ContextMode, String>(m),
            None => r matches Err(e) && e@ == "unknown context '"@ + lowered@
                + "', expected: dev, review, research"@,
        },
{
    let v = crate::text::chars_of(lowered);
    if word_is(&v, "dev") || word_is(&v, "development") {
        Ok(ContextMode::Dev)
    } else if word_is(&v, "review") || word_is(&v, "code-review") {
        Ok(ContextMode::Review)
    } else if word_is(&v, "research") || word_is(&v, "explore") {
        Ok(ContextMode::Research)
    } else {
        Err(concat3("unknown context '", lowered, "', expected: dev, review, research"))
    }
}

/// Parses a context name, ignoring case.
pub fn parse_context_mode(s: &str) -> (r: Result<ContextMode, String>)
    ensures
        match mode_of(unicode_lower(s@)) {
            Some(m) => r == Ok::<ContextMode, String>(m),
            None => r matches Err(e) && e@ == "unknown context '"@ + unicode_lower(s@)
                + "', expected: dev, review, research"@,
        },
{
    let lowered = to_lowercase(s);
    context_mode_from_lowered(lowered.as_str())
}

impl std::str::FromStr for ContextMode {
    type Err = String;

    fn from_str(s: &str) -> Result<Self, Self::Err> {
        parse_context_mode(s)
    }
}

pub open spec fn non_blank(o: Option<Seq<char>>) -> bool {
    o matches Some(c) && trim(c).len() > 0
}

/// Repository (a blank repository file blocks the overlay), then overlay,
/// then user-global, then the embedded default; only non-blank sources
/// count.
pub open spec fn three_tier(
    repository: Option<Seq<char>>,
    overlay: Option<Seq<char>>,
    user: Option<Seq<char>>,
    embedded: Seq<char>,
) -> Seq<char> {
    if non_blank(repository) {
        repository->0
    } else if repository is None && non_blank(overlay) {
        overlay->0
    } else if non_blank(user) {
        user->0
    } else {
        embedded
    }
}

fn is_non_blank(o: &Option<String>) -> (r: bool)
    ensures
        r == non_blank(opt_view(*o)),
{
    match o {
        Some(c) => trim_str(c.as_str()).len() > 0,
        None => false,
    }
}

/// Chooses prompt text by the three-tier order (see `three_tier`).
pub fn three_tier_content(
    repository: Option<String>,
    overlay: Option<String>,
    user: Option<String>,
    embedded: &str,
) -> (r: String)
    ensures
        r@ == three_tier(opt_view(repository), opt_view(overlay), opt_view(user), embedded@),
{
    if is_non_blank(&repository) {
        return match repository {
            Some(c) => c,
            None => String::new(),
        };
    }
    if repository.is_none() && is_non_blank(&overlay) {
        return match overlay {
            Some(c) => c,
            None => String::new(),
        };
    }
    if is_non_blank(&user) {
        return match user {
            Some(c) => c,
            None => String::new(),
        };
    }
    String::from_str(embedded)
}

} // verus!
