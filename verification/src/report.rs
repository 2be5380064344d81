//! How a decision is shown: its names, its line of text and its exit code.

use vstd::prelude::*;
use vstd::string::StringExecFns;
use crate::model::{RuleEffect, ValidationResult};

verus! {

/// The lower-case name of an effect.
pub open spec fn effect_name(effect: RuleEffect) -> Seq<char> {
    match effect {
        RuleEffect::Permit => "permit"@,
        RuleEffect::Deny => "deny"@,
    }
}

/// The upper-case label of an effect.
pub open spec fn effect_label(effect: RuleEffect) -> Seq<char> {
    match effect {
        RuleEffect::Permit => "PERMIT"@,
        RuleEffect::Deny => "DENY"@,
    }
}

/// What is appended to a decision that is to be logged.
pub open spec fn log_mark(should_log: bool) -> Seq<char> {
    if should_log {
        " [LOGGED]"@
    } else {
        Seq::empty()
    }
}

/// The exit code of a decision: 0 for a permit, 1 for a deny.
pub open spec fn exit_code_of(effect: RuleEffect) -> i32 {
    match effect {
        RuleEffect::Permit => 0i32,
        RuleEffect::Deny => 1i32,
    }
}

/// The lower-case name of an effect.
pub fn decision_name(effect: RuleEffect) -> (r: &'static str)
    ensures
        r@ == effect_name(effect),
{
    match effect {
        RuleEffect::Permit => "permit",
        RuleEffect::Deny => "deny",
    }
}

/// The upper-case label of an effect.
pub fn decision_label(effect: RuleEffect) -> (r: &'static str)
    ensures
        r@ == effect_label(effect),
{
    match effect {
        RuleEffect::Permit => "PERMIT",
        RuleEffect::Deny => "DENY",
    }
}

/// What is appended to a decision that is to be logged.
pub fn log_indicator(should_log: bool) -> (r: &'static str)
    ensures
        r@ == log_mark(should_log),
{
    if should_log {
        " [LOGGED]"
    } else {
        proof {
            reveal_strlit("");
            assert(""@ =~= Seq::<char>::empty());
        }
        ""
    }
}

/// The line that shows a decision: the label of its effect, and the mark
/// where it is to be logged.
pub fn decision_line(result: &ValidationResult) -> (r: String)
    ensures
        r@ == effect_label(result.effect) + log_mark(result.should_log),
{
    String::from_str(decision_label(result.effect)).concat(log_indicator(result.should_log))
}

/// The exit code of a decision: 0 for a permit, 1 for a deny.
pub fn exit_code(effect: RuleEffect) -> (r: i32)
    ensures
        r == exit_code_of(effect),
{
    match effect {
        RuleEffect::Permit => 0,
        RuleEffect::Deny => 1,
    }
}

} // verus!
