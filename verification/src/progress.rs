//! Progress display settings.
use vstd::prelude::*;

verus! {

/// Look of a progress bar.
#[derive(Debug, Clone)]
pub enum ProgressStyleConfig {
    Default,
    Detailed,
    Minimal,
    Custom(String),
}

/// The bar template that a style stands for.
pub open spec fn style_template(style: ProgressStyleConfig) -> Seq<char> {
    match style {
        ProgressStyleConfig::Default => "[{elapsed_precise}] {bar:16.cyan/blue} {pos}/{len} {msg}"@,
        ProgressStyleConfig::Detailed =>
            "[{elapsed_precise}] {bar:16.cyan/blue} {pos}/{len} ({percent}%) {msg} ETA: {eta}"@,
        ProgressStyleConfig::Minimal => "{bar:16.cyan/blue} {pos}/{len}"@,
        ProgressStyleConfig::Custom(t) => t@,
    }
}

impl ProgressStyleConfig {
    /// The bar template of this style; every style draws its bar with `=>-`.
    pub fn template(&self) -> (r: String)
        ensures
            r@ == style_template(*self),
    {
        match self {
            ProgressStyleConfig::Default => String::from_str(
                "[{elapsed_precise}] {bar:16.cyan/blue} {pos}/{len} {msg}",
            ),
            ProgressStyleConfig::Detailed => String::from_str(
                "[{elapsed_precise}] {bar:16.cyan/blue} {pos}/{len} ({percent}%) {msg} ETA: {eta}",
            ),
            ProgressStyleConfig::Minimal => String::from_str("{bar:16.cyan/blue} {pos}/{len}"),
            ProgressStyleConfig::Custom(t) => String::from_str(t.as_str()),
        }
    }
}

/// Which progress bars are drawn, and how.
#[derive(Debug, Clone)]
pub struct ProgressConfig {
    pub enabled: bool,
    pub show_overall: bool,
    pub show_individual: bool,
    pub overall_style: ProgressStyleConfig,
    pub individual_style: ProgressStyleConfig,
}

/// The default settings: every bar shown, the overall bar in the default
/// style, the per-task bars minimal.
pub open spec fn default_progress_config() -> ProgressConfig {
    ProgressConfig {
        enabled: true,
        show_overall: true,
        show_individual: true,
        overall_style: ProgressStyleConfig::Default,
        individual_style: ProgressStyleConfig::Minimal,
    }
}

impl Default for ProgressConfig {
    fn default() -> (r: Self)
        ensures
            r == default_progress_config(),
    {
        ProgressConfig {
            enabled: true,
            show_overall: true,
            show_individual: true,
            overall_style: ProgressStyleConfig::Default,
            individual_style: ProgressStyleConfig::Minimal,
        }
    }
}

impl ProgressConfig {
    /// The default settings: everything shown, overall bar in the default
    /// style, per-task bars minimal.
    pub fn new() -> (r: Self)
        ensures
            r == default_progress_config(),
    {
        Self::default()
    }

    /// Set the `enabled` field.
    pub fn with_enabled(self, value: bool) -> (r: Self)
        ensures
            r == (ProgressConfig { enabled: value, ..self }),
    {
        ProgressConfig { enabled: value, ..self }
    }

    /// Set the `show_overall` field.
    pub fn with_show_overall(self, value: bool) -> (r: Self)
        ensures
            r == (ProgressConfig { show_overall: value, ..self }),
    {
        ProgressConfig { show_overall: value, ..self }
    }

    /// Set the `show_individual` field.
    pub fn with_show_individual(self, value: bool) -> (r: Self)
        ensures
            r == (ProgressConfig { show_individual: value, ..self }),
    {
        ProgressConfig { show_individual: value, ..self }
    }

    /// Set the `overall_style` field.
    pub fn with_overall_style(self, value: ProgressStyleConfig) -> (r: Self)
        ensures
            r == (ProgressConfig { overall_style: value, ..self }),
    {
        ProgressConfig { overall_style: value, ..self }
    }

    /// Set the `individual_style` field.
    pub fn with_individual_style(self, value: ProgressStyleConfig) -> (r: Self)
        ensures
            r == (ProgressConfig { individual_style: value, ..self }),
    {
        ProgressConfig { individual_style: value, ..self }
    }

    /// Whether the overall bar is drawn.
    pub fn shows_overall_bar(&self) -> (r: bool)
        ensures
            r == (self.enabled && self.show_overall),
    {
        self.enabled && self.show_overall
    }

    /// Whether a bar is drawn for each task.
    pub fn shows_task_bars(&self) -> (r: bool)
        ensures
            r == (self.enabled && self.show_individual),
    {
        self.enabled && self.show_individual
    }
}

/// Text a finished task's bar ends with.
pub open spec fn task_outcome_text(success: bool, message: Seq<char>) -> Seq<char> {
    if success {
        "Done: "@ + message
    } else {
        "Failed: "@ + message
    }
}

/// The closing message of a task's bar.
pub fn task_outcome_message(success: bool, message: &str) -> (r: String)
    ensures
        r@ == task_outcome_text(success, message@),
{
    if success {
        String::from_str("Done: ").concat(message)
    } else {
        String::from_str("Failed: ").concat(message)
    }
}

} // verus!
