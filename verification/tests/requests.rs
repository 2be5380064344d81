use nacm_validator::report::{decision_label, decision_line, decision_name, exit_code, log_indicator};
use nacm_validator::request::JsonRequest;
use nacm_validator::{
    GroupMap, NacmCommandRule, NacmConfig, NacmGroup, NacmRule, NacmRuleList, Operation,
    OperationSet, RequestContext, RuleEffect, ValidationResult,
};

fn policy() -> NacmConfig {
    let mut groups = GroupMap::new();
    groups.insert(
        "admin".to_string(),
        NacmGroup { name: "admin".to_string(), users: vec!["alice".to_string()], gid: None },
    );
    let mut exec_only = OperationSet::new();
    exec_only.insert(Operation::Exec);
    let rule = NacmRule {
        name: "any-rpc".to_string(),
        module_name: None,
        rpc_name: Some("*".to_string()),
        path: None,
        access_operations: exec_only,
        effect: RuleEffect::Permit,
        order: 0,
        context: Some("netconf".to_string()),
        log_if_permit: true,
        log_if_deny: false,
    };
    let command = NacmCommandRule {
        name: "show".to_string(),
        context: Some("cli".to_string()),
        command: Some("show *".to_string()),
        access_operations: OperationSet::new(),
        effect: RuleEffect::Permit,
        order: 0,
        log_if_permit: false,
        log_if_deny: false,
        comment: None,
    };
    NacmConfig {
        enable_nacm: true,
        read_default: RuleEffect::Deny,
        write_default: RuleEffect::Deny,
        exec_default: RuleEffect::Deny,
        cmd_read_default: RuleEffect::Deny,
        cmd_exec_default: RuleEffect::Deny,
        log_if_default_permit: false,
        log_if_default_deny: true,
        groups,
        rule_lists: vec![NacmRuleList {
            name: "admin".to_string(),
            groups: vec!["admin".to_string()],
            rules: vec![rule],
            command_rules: vec![command],
        }],
    }
}

fn record(user: &str, operation: &str) -> JsonRequest {
    JsonRequest {
        user: user.to_string(),
        module: None,
        rpc: None,
        operation: operation.to_string(),
        path: None,
        context: None,
        command: None,
    }
}

#[test]
fn an_answer_repeats_the_request_and_adds_the_decision() {
    let mut request = record("alice", "EXEC");
    request.rpc = Some("edit-config".to_string());
    request.context = Some("NetConf".to_string());
    request.module = Some("m".to_string());
    request.path = Some("/p".to_string());
    let answer = policy().answer(request).unwrap();
    assert_eq!(answer.decision, "permit");
    assert_eq!(answer.should_log, true);
    assert_eq!(answer.config_loaded, true);
    assert_eq!(answer.user, "alice");
    assert_eq!(answer.operation, "EXEC");
    assert_eq!(answer.rpc.as_deref(), Some("edit-config"));
    assert_eq!(answer.context.as_deref(), Some("NetConf"));
    assert_eq!(answer.module.as_deref(), Some("m"));
    assert_eq!(answer.path.as_deref(), Some("/p"));
    assert_eq!(answer.command, None);
}

#[test]
fn an_answer_may_be_a_deny_by_default() {
    let mut request = record("bob", "exec");
    request.rpc = Some("edit-config".to_string());
    request.context = Some("netconf".to_string());
    let answer = policy().answer(request).unwrap();
    assert_eq!(answer.decision, "deny");
    assert_eq!(answer.should_log, true);
    let answer = policy().answer(record("alice", "read")).unwrap();
    assert_eq!(answer.decision, "deny");
    assert_eq!(answer.context, None);
}

#[test]
fn a_record_with_a_command_is_decided_by_command_rules() {
    let mut request = record("alice", "read");
    request.context = Some("CLI".to_string());
    request.command = Some("show status".to_string());
    let answer = policy().answer(request).unwrap();
    assert_eq!(answer.decision, "permit");
    assert_eq!(answer.should_log, false);
    assert_eq!(answer.command.as_deref(), Some("show status"));
    let mut request = record("alice", "read");
    request.context = Some("webui".to_string());
    request.command = Some("show status".to_string());
    let answer = policy().answer(request).unwrap();
    assert_eq!(answer.decision, "deny");
    assert_eq!(answer.should_log, true);
}

#[test]
fn an_unknown_operation_is_refused_first() {
    let mut request = record("alice", "execute");
    request.context = Some("telnet".to_string());
    assert_eq!(
        policy().answer(request).err(),
        Some("Invalid operation 'execute': Unknown operation: execute".to_string())
    );
}

#[test]
fn an_unknown_context_is_refused() {
    let mut request = record("alice", "read");
    request.context = Some("telnet".to_string());
    assert_eq!(
        policy().answer(request).err(),
        Some("Invalid context 'telnet': must be 'netconf', 'cli', or 'webui'".to_string())
    );
    let mut request = record("alice", "read");
    request.context = Some(" cli".to_string());
    assert_eq!(
        policy().answer(request).err(),
        Some("Invalid context ' cli': must be 'netconf', 'cli', or 'webui'".to_string())
    );
}

#[test]
fn contexts_are_read_without_regard_to_case() {
    assert_eq!(RequestContext::parse("netconf"), Some(RequestContext::NETCONF));
    assert_eq!(RequestContext::parse("NETCONF"), Some(RequestContext::NETCONF));
    assert_eq!(RequestContext::parse("Cli"), Some(RequestContext::CLI));
    assert_eq!(RequestContext::parse("WebUI"), Some(RequestContext::WebUI));
    assert_eq!(RequestContext::parse("web-ui"), None);
    assert_eq!(RequestContext::parse(""), None);
    assert_eq!(RequestContext::parse("cli "), None);
    assert_eq!(RequestContext::from_token("cli"), Some(RequestContext::CLI));
    assert_eq!(RequestContext::from_token("CLI"), None);
}

#[test]
fn decisions_are_shown_by_name_label_and_code() {
    assert_eq!(decision_name(RuleEffect::Permit), "permit");
    assert_eq!(decision_name(RuleEffect::Deny), "deny");
    assert_eq!(decision_label(RuleEffect::Permit), "PERMIT");
    assert_eq!(decision_label(RuleEffect::Deny), "DENY");
    assert_eq!(log_indicator(true), " [LOGGED]");
    assert_eq!(log_indicator(false), "");
    assert_eq!(exit_code(RuleEffect::Permit), 0);
    assert_eq!(exit_code(RuleEffect::Deny), 1);
    assert_eq!(decision_line(&ValidationResult { effect: RuleEffect::Permit, should_log: true }), "PERMIT [LOGGED]");
    assert_eq!(decision_line(&ValidationResult { effect: RuleEffect::Permit, should_log: false }), "PERMIT");
    assert_eq!(decision_line(&ValidationResult { effect: RuleEffect::Deny, should_log: true }), "DENY [LOGGED]");
    assert_eq!(decision_line(&ValidationResult { effect: RuleEffect::Deny, should_log: false }), "DENY");
}
