//! Whether a rule matches a request.
//!
//! A rule matches when each of its guards accepts the request: the operation,
//! the context, and then module, RPC and path for a data rule, or the command
//! for a command rule. Each guard is a predicate of its own.

use vstd::prelude::*;
use crate::context::RequestContext;
use crate::model::{
    AccessRequest, NacmCommandRule, NacmConfig, NacmRule, Operation, OperationSet, RequestView,
};
use crate::text::{
    drop_last_chars, ends_with, has_prefix, has_suffix, same_text, slice_of, starts_with, text_of,
    trim, trimmed, without_last,
};

verus! {

/// The operation guard: an empty set covers every operation, any other set
/// covers its members.
pub open spec fn operation_accepted(covered: Set<Operation>, operation: Operation) -> bool {
    covered == Set::<Operation>::empty() || covered.contains(operation)
}

/// The context guard: a rule without a pattern accepts every request; with a
/// pattern, the request's context must match it, and a request without a
/// context is accepted by the pattern `"*"` alone.
pub open spec fn context_accepted(
    pattern: Option<Seq<char>>,
    context: Option<RequestContext>,
) -> bool {
    match pattern {
        None => true,
        Some(p) => match context {
            Some(c) => c.spec_matches(p),
            None => p == "*"@,
        },
    }
}

/// The module guard: a rule that names a module accepts the requests for that
/// module.
pub open spec fn module_accepted(
    rule_module: Option<Seq<char>>,
    module: Option<Seq<char>>,
) -> bool {
    match rule_module {
        None => true,
        Some(m) => module == Some(m),
    }
}

/// The RPC guard: `"*"` accepts every request, with an RPC or without; any
/// other name accepts the requests for that RPC.
pub open spec fn rpc_accepted(rule_rpc: Option<Seq<char>>, rpc: Option<Seq<char>>) -> bool {
    match rule_rpc {
        None => true,
        Some(r) => r == "*"@ || rpc == Some(r),
    }
}

/// A rule's path against a requested path: a path that ends in `"/*"`
/// accepts what begins with the part before those two characters, any other
/// path accepts itself.
pub open spec fn path_pattern_matches(pattern: Seq<char>, path: Seq<char>) -> bool {
    if ends_with(pattern, "/*"@) {
        starts_with(path, without_last(pattern, 2))
    } else {
        pattern == path
    }
}

/// The path guard: `"/"` accepts every request, with a path or without; any
/// other path must match the request's path.
pub open spec fn path_accepted(rule_path: Option<Seq<char>>, path: Option<Seq<char>>) -> bool {
    match rule_path {
        None => true,
        Some(p) => p == "/"@ || match path {
            Some(q) => path_pattern_matches(p, q),
            None => false,
        },
    }
}

/// A command pattern against a command: `"*"` accepts everything, a pattern
/// accepts itself, and a pattern that ends in `*` accepts what begins with
/// the pattern once the `*` and the white space around the rest are removed.
pub open spec fn command_pattern_matches(pattern: Seq<char>, command: Seq<char>) -> bool {
    pattern == "*"@ || pattern == command || (ends_with(pattern, "*"@) && starts_with(
        command,
        trimmed(without_last(pattern, 1)),
    ))
}

/// The command guard: a rule with a command pattern accepts the requests
/// whose command matches it; a request without a command is accepted by the
/// pattern `"*"` alone.
pub open spec fn command_accepted(
    rule_command: Option<Seq<char>>,
    command: Option<Seq<char>>,
) -> bool {
    match rule_command {
        None => true,
        Some(p) => match command {
            Some(c) => command_pattern_matches(p, c),
            None => p == "*"@,
        },
    }
}

impl NacmRule {
    /// The rule matches the request: every guard accepts it.
    pub open spec fn spec_matches(&self, req: RequestView) -> bool {
        &&& operation_accepted(self.access_operations@, req.operation)
        &&& context_accepted(text_of(self.context), req.context)
        &&& module_accepted(text_of(self.module_name), req.module_name)
        &&& rpc_accepted(text_of(self.rpc_name), req.rpc_name)
        &&& path_accepted(text_of(self.path), req.path)
    }
}

impl NacmCommandRule {
    /// The rule matches the request: every guard accepts it.
    pub open spec fn spec_matches(&self, req: RequestView) -> bool {
        &&& operation_accepted(self.access_operations@, req.operation)
        &&& context_accepted(text_of(self.context), req.context)
        &&& command_accepted(text_of(self.command), req.command)
    }
}

/// Whether the set of operations of a rule covers `operation`.
pub fn operation_matches(covered: &OperationSet, operation: &Operation) -> (r: bool)
    ensures
        r == operation_accepted(covered@, *operation),
{
    covered.is_empty() || covered.contains(operation)
}

/// Whether the context pattern of a rule accepts the context of a request.
pub fn context_matches(pattern: &Option<String>, context: Option<&RequestContext>) -> (r: bool)
    ensures
        r == context_accepted(
            text_of(*pattern),
            match context {
                Some(c) => Some(*c),
                None => None,
            },
        ),
{
    match pattern {
        None => true,
        Some(p) => match context {
            Some(c) => c.matches(p.as_str()),
            None => same_text(p.as_str(), "*"),
        },
    }
}

/// Whether the module of a rule accepts the module of a request.
pub fn module_matches(rule_module: &Option<String>, module: Option<&str>) -> (r: bool)
    ensures
        r == module_accepted(text_of(*rule_module), slice_of(module)),
{
    match rule_module {
        None => true,
        Some(m) => match module {
            Some(q) => same_text(m.as_str(), q),
            None => false,
        },
    }
}

/// Whether the RPC of a rule accepts the RPC of a request.
pub fn rpc_matches(rule_rpc: &Option<String>, rpc: Option<&str>) -> (r: bool)
    ensures
        r == rpc_accepted(text_of(*rule_rpc), slice_of(rpc)),
{
    match rule_rpc {
        None => true,
        Some(r) => {
            if same_text(r.as_str(), "*") {
                true
            } else {
                match rpc {
                    Some(q) => same_text(r.as_str(), q),
                    None => false,
                }
            }
        },
    }
}

/// Whether the path of a rule accepts the path of a request.
pub fn path_matches(rule_path: &Option<String>, path: Option<&str>) -> (r: bool)
    ensures
        r == path_accepted(text_of(*rule_path), slice_of(path)),
{
    match rule_path {
        None => true,
        Some(p) => {
            let pattern = p.as_str();
            if same_text(pattern, "/") {
                true
            } else {
                match path {
                    Some(q) => {
                        if has_suffix(pattern, "/*") {
                            proof {
                                reveal_strlit("/*");
                            }
                            has_prefix(q, drop_last_chars(pattern, 2))
                        } else {
                            same_text(pattern, q)
                        }
                    },
                    None => false,
                }
            }
        },
    }
}

impl NacmConfig {
    /// Whether the command pattern of a rule accepts a command.
    pub fn command_matches(&self, pattern: &str, command: &str) -> (r: bool)
        ensures
            r == command_pattern_matches(pattern@, command@),
    {
        if same_text(pattern, "*") {
            return true;
        }
        if same_text(pattern, command) {
            return true;
        }
        if has_suffix(pattern, "*") {
            proof {
                reveal_strlit("*");
            }
            let prefix = trim(drop_last_chars(pattern, 1));
            return has_prefix(command, prefix);
        }
        false
    }

    /// Whether a command rule matches a request.
    pub fn command_rule_matches(&self, cmd_rule: &NacmCommandRule, req: &AccessRequest) -> (r: bool)
        ensures
            r == cmd_rule.spec_matches(req@),
    {
        if !operation_matches(&cmd_rule.access_operations, &req.operation) {
            return false;
        }
        if !context_matches(&cmd_rule.context, req.context) {
            return false;
        }
        match &cmd_rule.command {
            None => true,
            Some(p) => match req.command {
                Some(c) => self.command_matches(p.as_str(), c),
                None => same_text(p.as_str(), "*"),
            },
        }
    }

    /// Whether a data rule matches a request.
    pub fn rule_matches(&self, rule: &NacmRule, req: &AccessRequest) -> (r: bool)
        ensures
            r == rule.spec_matches(req@),
    {
        if !operation_matches(&rule.access_operations, &req.operation) {
            return false;
        }
        if !context_matches(&rule.context, req.context) {
            return false;
        }
        if !module_matches(&rule.module_name, req.module_name) {
            return false;
        }
        if !rpc_matches(&rule.rpc_name, req.rpc_name) {
            return false;
        }
        path_matches(&rule.path, req.path)
    }
}

} // verus!
