//! Progress reporting with a null implementation: bars that accept every update and
//! show nothing, so that reporting never steers the engine.
use vstd::prelude::*;
use vstd::string::*;

use crate::text::{nat_text, push_char, push_nat};

verus! {

/// `indicatif::style::TemplateError`, the error of a progress-bar template, carried
/// opaque in the signature of `ProgressStyle::template`.
#[verifier::external_type_specification]
#[verifier::external_body]
pub struct ExTemplateError(indicatif::style::TemplateError);

/// A progress bar that shows nothing.
#[derive(Debug, Clone)]
pub struct ProgressBar {}

impl ProgressBar {
    /// A bar for `len` units of work.
    pub fn new(_len: u64) -> (r: ProgressBar) {
        ProgressBar {}
    }

    /// A bar that is never drawn.
    pub fn hidden() -> (r: ProgressBar) {
        ProgressBar {}
    }

    pub fn set_style(&self, _style: ProgressStyle) -> (r: &ProgressBar)
        ensures
            r == self,
    {
        self
    }

    pub fn set_message(&self, _msg: &str) {
    }

    pub fn inc(&self, _delta: u64) {
    }

    pub fn set_position(&self, _pos: u64) {
    }

    pub fn finish_with_message(&self, _msg: &str) {
    }

    pub fn finish(&self) {
    }

    pub fn finish_and_clear(&self) {
    }
}

/// A group of progress bars that shows nothing.
#[derive(Debug, Clone)]
pub struct MultiProgress {}

impl MultiProgress {
    pub fn new() -> (r: MultiProgress) {
        MultiProgress {}
    }

    /// Adds a bar to the group and hands it back.
    pub fn add(&self, pb: ProgressBar) -> (r: ProgressBar)
        ensures
            r == pb,
    {
        pb
    }

    pub fn clear(&self) {
    }
}

/// The look of a progress bar.
#[derive(Debug, Clone, Copy)]
pub struct ProgressStyle;

impl ProgressStyle {
    pub fn default_bar() -> (r: ProgressStyle) {
        ProgressStyle
    }

    /// Sets the template; a bar that shows nothing accepts any template.
    pub fn template(self, _template: &str) -> (r: Result<ProgressStyle, indicatif::style::TemplateError>)
        ensures
            r is Ok,
    {
        Ok(self)
    }

    pub fn progress_chars(self, _chars: &str) -> (r: ProgressStyle) {
        self
    }
}

/// A bar for `len` units of work, in the default style.
pub fn get_progress_bar(len: u64) -> (r: Result<ProgressBar, indicatif::style::TemplateError>)
    ensures
        r is Ok,
{
    let pb = ProgressBar::new(len);
    let style = ProgressStyle::default_bar().template("[{bar:40.cyan/blue}] {pos}/{len} ({eta}) - {msg}")?;
    pb.set_style(style.progress_chars("#>-"));
    Ok(pb)
}

/// A count written with at least two digits.
pub open spec fn two_digits(n: nat) -> Seq<char> {
    if n < 10 {
        seq!['0'] + nat_text(n)
    } else {
        nat_text(n)
    }
}

/// `mm:ss` for a number of seconds, the minutes growing past two digits when needed.
pub open spec fn minutes_seconds(total: nat) -> Seq<char> {
    two_digits(total / 60) + seq![':'] + two_digits(total % 60)
}

/// Writes `total` seconds as `mm:ss`.
pub fn minutes_seconds_text(total: u64) -> (r: String)
    ensures
        r@ == minutes_seconds(total as nat),
{
    let minutes = total / 60;
    let seconds = total % 60;
    let mut r = String::new();
    if minutes < 10 {
        push_char(&mut r, '0');
    }
    push_nat(&mut r, minutes);
    push_char(&mut r, ':');
    if seconds < 10 {
        push_char(&mut r, '0');
    }
    push_nat(&mut r, seconds);
    r
}

/// Relies on `Duration::as_secs`: the whole seconds of a duration.
#[verifier::external_body]
fn whole_seconds(elapsed: &std::time::Duration) -> (r: u64) {
    elapsed.as_secs()
}

/// An elapsed time as `mm:ss`.
pub fn format_minutes_seconds(elapsed: std::time::Duration) -> (r: String)
    ensures
        exists|total: nat| r@ == minutes_seconds(total),
{
    minutes_seconds_text(whole_seconds(&elapsed))
}

} // verus!
