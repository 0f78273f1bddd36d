//! Output formatting utilities for versioneer

use vstd::prelude::*;
use crate::text::{chars_of, push_str, string_from};
use console::{style, Emoji};
use std::io::IsTerminal;

verus! {

/// Relies on `std::io::IsTerminal` for stdout: whether output goes to a terminal.
#[verifier::external_body]
fn stdout_is_terminal() -> (r: bool) {
    std::io::stdout().is_terminal()
}

/// Relies on `Display` for `console::Emoji`: it writes `full` where the
/// terminal takes emoji, `fallback` otherwise.
#[verifier::external_body]
fn emoji(full: &'static str, fallback: &'static str) -> (r: String)
    ensures
        r@ == full@ || r@ == fallback@,
{
    Emoji(full, fallback).to_string()
}

/// `msg` between whatever escape codes a styling writes around it.
pub open spec fn decorates(r: Seq<char>, msg: Seq<char>) -> bool {
    exists|pre: Seq<char>, post: Seq<char>| r == pre + msg + post
}

/// Relies on `Display` for `console::StyledObject` (`style(msg).green()`):
/// escape codes where colors are on, then `msg`, then a reset.
#[verifier::external_body]
fn green(msg: &str) -> (r: String)
    ensures
        decorates(r@, msg@),
{
    style(msg).green().to_string()
}

/// Relies on `Display` for `console::StyledObject` (`style(msg).red()`).
#[verifier::external_body]
fn red(msg: &str) -> (r: String)
    ensures
        decorates(r@, msg@),
{
    style(msg).red().to_string()
}

/// Relies on `Display` for `console::StyledObject` (`style(msg).yellow()`).
#[verifier::external_body]
fn yellow(msg: &str) -> (r: String)
    ensures
        decorates(r@, msg@),
{
    style(msg).yellow().to_string()
}

/// Relies on `Display` for `console::StyledObject` (`style(msg).cyan().bold()`).
#[verifier::external_body]
fn cyan_bold(msg: &str) -> (r: String)
    ensures
        decorates(r@, msg@),
{
    style(msg).cyan().bold().to_string()
}

/// Relies on `Display` for `console::StyledObject` (`style(msg).green().bold()`).
#[verifier::external_body]
fn green_bold(msg: &str) -> (r: String)
    ensures
        decorates(r@, msg@),
{
    style(msg).green().bold().to_string()
}

/// Relies on `Display` for `console::StyledObject` (`style(msg).red().bold()`).
#[verifier::external_body]
fn red_bold(msg: &str) -> (r: String)
    ensures
        decorates(r@, msg@),
{
    style(msg).red().bold().to_string()
}

/// Output formatter that strips colors and emojis for non-TTY output
pub struct OutputFormatter {
    /// Whether output is going to a TTY
    pub is_tty: bool,
}

/// `mark` (one of the two), a space, then the styled `msg`.
pub open spec fn marked(r: Seq<char>, full: Seq<char>, fallback: Seq<char>, msg: Seq<char>) -> bool {
    exists|e: Seq<char>, styled: Seq<char>|
        (e == full || e == fallback) && decorates(styled, msg) && r == e + " "@ + styled
}

fn join2(a: &str, b: &str) -> (r: String)
    ensures
        r@ == a@ + b@,
{
    let mut v: Vec<char> = chars_of(a);
    push_str(&mut v, b);
    string_from(v.as_slice())
}

fn copy(a: &str) -> (r: String)
    ensures
        r@ == a@,
{
    string_from(chars_of(a).as_slice())
}

fn join(a: &str, b: &str, c: &str) -> (r: String)
    ensures
        r@ == a@ + b@ + c@,
{
    let mut v: Vec<char> = chars_of(a);
    push_str(&mut v, b);
    push_str(&mut v, c);
    string_from(v.as_slice())
}

impl OutputFormatter {
    /// Create a new output formatter for stdout
    pub fn new() -> (r: OutputFormatter) {
        OutputFormatter { is_tty: stdout_is_terminal() }
    }

    /// Format a success message with checkmark
    pub fn success(&self, msg: &str) -> (r: String)
        ensures
            !self.is_tty ==> r@ == "✓ "@ + msg@,
            self.is_tty ==> marked(r@, "✨"@, "✓"@, msg@),
    {
        if self.is_tty {
            join(emoji("✨", "✓").as_str(), " ", green(msg).as_str())
        } else {
            join2("✓ ", msg)
        }
    }

    /// Format an error message with X mark
    pub fn error(&self, msg: &str) -> (r: String)
        ensures
            !self.is_tty ==> r@ == "✗ "@ + msg@,
            self.is_tty ==> marked(r@, "❌"@, "✗"@, msg@),
    {
        if self.is_tty {
            join(emoji("❌", "✗").as_str(), " ", red(msg).as_str())
        } else {
            join2("✗ ", msg)
        }
    }

    /// Format a warning message
    pub fn warning(&self, msg: &str) -> (r: String)
        ensures
            !self.is_tty ==> r@ == "! "@ + msg@,
            self.is_tty ==> marked(r@, "⚠️"@, "!"@, msg@),
    {
        if self.is_tty {
            join(emoji("⚠️", "!").as_str(), " ", yellow(msg).as_str())
        } else {
            join2("! ", msg)
        }
    }

    /// Format a version display
    pub fn version(&self, version: &str) -> (r: String)
        ensures
            !self.is_tty ==> r@ == "Current version: "@ + version@,
            self.is_tty ==> exists|e: Seq<char>, styled: Seq<char>|
                (e == "📦"@ || e == ""@) && decorates(styled, version@) && r@ == e
                    + " Current version: "@ + styled,
    {
        if self.is_tty {
            join(emoji("📦", "").as_str(), " Current version: ", cyan_bold(version).as_str())
        } else {
            join2("Current version: ", version)
        }
    }

    /// Format build systems header
    pub fn build_systems_header(&self) -> (r: String)
        ensures
            !self.is_tty ==> r@ == "Detected build systems:"@,
            self.is_tty ==> exists|e: Seq<char>|
                (e == "🔍"@ || e == ""@) && r@ == e + " Detected build systems:"@,
    {
        if self.is_tty {
            join2(emoji("🔍", "").as_str(), " Detected build systems:")
        } else {
            copy("Detected build systems:")
        }
    }

    /// Format a sync status symbol
    pub fn sync_status(&self, in_sync: bool) -> (r: String)
        ensures
            !self.is_tty ==> r@ == (if in_sync {
                "✓"@
            } else {
                "✗"@
            }),
            self.is_tty ==> decorates(
                r@,
                if in_sync {
                    "✓"@
                } else {
                    "✗"@
                },
            ),
    {
        if self.is_tty {
            if in_sync {
                green_bold("✓")
            } else {
                red_bold("✗")
            }
        } else if in_sync {
            copy("✓")
        } else {
            copy("✗")
        }
    }
}

impl Default for OutputFormatter {
    fn default() -> (r: OutputFormatter) {
        OutputFormatter::new()
    }
}

} // verus!
