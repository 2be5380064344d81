use nacm_validator::matcher::{
    context_matches, module_matches, operation_matches, path_matches, rpc_matches,
};
use nacm_validator::{
    AccessRequest, GroupMap, NacmCommandRule, NacmConfig, NacmRule, Operation, OperationSet,
    RequestContext, RuleEffect,
};

fn empty_config() -> NacmConfig {
    NacmConfig {
        enable_nacm: true,
        read_default: RuleEffect::Deny,
        write_default: RuleEffect::Deny,
        exec_default: RuleEffect::Deny,
        cmd_read_default: RuleEffect::Permit,
        cmd_exec_default: RuleEffect::Permit,
        log_if_default_permit: false,
        log_if_default_deny: false,
        groups: GroupMap::new(),
        rule_lists: vec![],
    }
}

fn plain_rule() -> NacmRule {
    NacmRule {
        name: "r".to_string(),
        module_name: None,
        rpc_name: None,
        path: None,
        access_operations: OperationSet::new(),
        effect: RuleEffect::Permit,
        order: 0,
        context: None,
        log_if_permit: false,
        log_if_deny: false,
    }
}

fn plain_command_rule() -> NacmCommandRule {
    NacmCommandRule {
        name: "c".to_string(),
        context: None,
        command: None,
        access_operations: OperationSet::new(),
        effect: RuleEffect::Permit,
        order: 0,
        log_if_permit: false,
        log_if_deny: false,
        comment: None,
    }
}

fn plain_request<'a>(operation: Operation) -> AccessRequest<'a> {
    AccessRequest {
        user: "u",
        module_name: None,
        rpc_name: None,
        operation,
        path: None,
        context: None,
        command: None,
    }
}

#[test]
fn context_pattern_star_matches_every_context() {
    assert!(RequestContext::NETCONF.matches("*"));
    assert!(RequestContext::CLI.matches("*"));
    assert!(RequestContext::WebUI.matches("*"));
    assert!(RequestContext::Other("snmp".to_string()).matches("*"));
}

#[test]
fn context_names_match_without_regard_to_case() {
    assert!(RequestContext::NETCONF.matches("netconf"));
    assert!(RequestContext::NETCONF.matches("NETCONF"));
    assert!(RequestContext::NETCONF.matches("NetConf"));
    assert!(RequestContext::CLI.matches("cli"));
    assert!(RequestContext::CLI.matches("CLI"));
    assert!(RequestContext::WebUI.matches("webui"));
    assert!(RequestContext::WebUI.matches("WebUI"));
    assert!(RequestContext::Other("SNMP".to_string()).matches("snmp"));
    assert!(RequestContext::Other("snmp".to_string()).matches("SnMp"));
}

#[test]
fn context_names_do_not_match_other_names() {
    assert!(!RequestContext::NETCONF.matches("cli"));
    assert!(!RequestContext::CLI.matches("netconf"));
    assert!(!RequestContext::CLI.matches("cli "));
    assert!(!RequestContext::CLI.matches(""));
    assert!(!RequestContext::CLI.matches("cl"));
    assert!(!RequestContext::CLI.matches("**"));
    assert!(!RequestContext::WebUI.matches("web-ui"));
    assert!(!RequestContext::Other("snmp".to_string()).matches("snmpd"));
    assert!(!RequestContext::Other("cli".to_string()).matches("netconf"));
    assert!(RequestContext::Other("cli".to_string()).matches("CLI"));
}

#[test]
fn context_case_folding_is_ascii_only() {
    assert!(!RequestContext::Other("\u{e9}".to_string()).matches("\u{c9}"));
    assert!(RequestContext::Other("caf\u{e9}".to_string()).matches("CAF\u{e9}"));
    assert!(!RequestContext::Other("k".to_string()).matches("\u{212a}"));
    assert!(!RequestContext::Other("@".to_string()).matches("`"));
    assert!(!RequestContext::Other("[".to_string()).matches("{"));
}

#[test]
fn request_contexts_compare_by_variant_and_name() {
    assert!(RequestContext::CLI == RequestContext::CLI);
    assert!(RequestContext::CLI != RequestContext::NETCONF);
    assert!(RequestContext::Other("a".to_string()) == RequestContext::Other("a".to_string()));
    assert!(RequestContext::Other("a".to_string()) != RequestContext::Other("A".to_string()));
    assert!(RequestContext::Other("cli".to_string()) != RequestContext::CLI);
}

#[test]
fn operation_guard_treats_the_empty_set_as_all() {
    let empty = OperationSet::new();
    for op in [Operation::Read, Operation::Create, Operation::Update, Operation::Delete, Operation::Exec] {
        assert!(operation_matches(&empty, &op));
    }
    let mut some = OperationSet::new();
    some.insert(Operation::Read);
    some.insert(Operation::Exec);
    assert!(operation_matches(&some, &Operation::Read));
    assert!(operation_matches(&some, &Operation::Exec));
    assert!(!operation_matches(&some, &Operation::Create));
    assert!(!operation_matches(&some, &Operation::Update));
    assert!(!operation_matches(&some, &Operation::Delete));
}

#[test]
fn context_guard_tolerates_a_missing_context_for_star_only() {
    let cli = RequestContext::CLI;
    assert!(context_matches(&None, None));
    assert!(context_matches(&None, Some(&cli)));
    assert!(context_matches(&Some("*".to_string()), None));
    assert!(!context_matches(&Some("cli".to_string()), None));
    assert!(context_matches(&Some("cli".to_string()), Some(&cli)));
    assert!(context_matches(&Some("*".to_string()), Some(&cli)));
    assert!(!context_matches(&Some("webui".to_string()), Some(&cli)));
}

#[test]
fn module_guard_needs_the_same_module() {
    assert!(module_matches(&None, None));
    assert!(module_matches(&None, Some("ietf-interfaces")));
    assert!(module_matches(&Some("ietf-interfaces".to_string()), Some("ietf-interfaces")));
    assert!(!module_matches(&Some("ietf-interfaces".to_string()), Some("ietf-system")));
    assert!(!module_matches(&Some("ietf-interfaces".to_string()), Some("IETF-INTERFACES")));
    assert!(!module_matches(&Some("ietf-interfaces".to_string()), None));
    assert!(!module_matches(&Some("*".to_string()), Some("ietf-interfaces")));
}

#[test]
fn rpc_guard_star_matches_any_rpc_or_none() {
    assert!(rpc_matches(&None, None));
    assert!(rpc_matches(&None, Some("edit-config")));
    assert!(rpc_matches(&Some("*".to_string()), None));
    assert!(rpc_matches(&Some("*".to_string()), Some("edit-config")));
    assert!(rpc_matches(&Some("edit-config".to_string()), Some("edit-config")));
    assert!(!rpc_matches(&Some("edit-config".to_string()), Some("get-config")));
    assert!(!rpc_matches(&Some("edit-config".to_string()), None));
}

#[test]
fn path_wildcard_matches_by_prefix() {
    let rule = Some("/interfaces/*".to_string());
    assert!(path_matches(&rule, Some("/interfaces/eth0")));
    assert!(!path_matches(&rule, Some("/other/eth0")));
    assert!(path_matches(&rule, Some("/interfaces")));
    assert!(path_matches(&rule, Some("/interfaces/")));
    assert!(path_matches(&rule, Some("/interfaces-extra/x")));
    assert!(!path_matches(&rule, Some("/interface")));
    assert!(!path_matches(&rule, Some("")));
    assert!(!path_matches(&rule, None));
}

#[test]
fn path_root_matches_everything() {
    let root = Some("/".to_string());
    assert!(path_matches(&root, None));
    assert!(path_matches(&root, Some("/anything")));
    assert!(path_matches(&root, Some("")));
    assert!(path_matches(&None, None));
    assert!(path_matches(&None, Some("/x")));
}

#[test]
fn path_without_wildcard_must_be_equal() {
    let rule = Some("/interfaces".to_string());
    assert!(path_matches(&rule, Some("/interfaces")));
    assert!(!path_matches(&rule, Some("/interfaces/eth0")));
    assert!(!path_matches(&rule, Some("/interface")));
    assert!(!path_matches(&rule, None));
    let star = Some("/*".to_string());
    assert!(path_matches(&star, Some("/x")));
    assert!(path_matches(&star, Some("anything")));
    assert!(!path_matches(&star, None));
    let inner = Some("/a/*/b".to_string());
    assert!(path_matches(&inner, Some("/a/*/b")));
    assert!(!path_matches(&inner, Some("/a/x/b")));
}

#[test]
fn path_wildcard_counts_characters_not_bytes() {
    let rule = Some("/\u{e9}t\u{e9}/*".to_string());
    assert!(path_matches(&rule, Some("/\u{e9}t\u{e9}/x")));
    assert!(path_matches(&rule, Some("/\u{e9}t\u{e9}")));
    assert!(!path_matches(&rule, Some("/\u{e9}t")));
}

#[test]
fn command_wildcard_matches_by_trimmed_prefix() {
    let cfg = empty_config();
    assert!(cfg.command_matches("show *", "show status"));
    assert!(cfg.command_matches("show *", "show interfaces"));
    assert!(!cfg.command_matches("show *", "reboot"));
    assert!(cfg.command_matches("show *", "show"));
    assert!(cfg.command_matches("show *", "showroom"));
    assert!(!cfg.command_matches("show *", "sho"));
    assert!(cfg.command_matches("show*", "show status"));
    assert!(cfg.command_matches("  show \t*", "show status"));
    assert!(!cfg.command_matches("  show \t*", "  show status"));
}

#[test]
fn command_star_and_equality() {
    let cfg = empty_config();
    assert!(cfg.command_matches("*", "anything at all"));
    assert!(cfg.command_matches("*", ""));
    assert!(cfg.command_matches("reboot", "reboot"));
    assert!(!cfg.command_matches("reboot", "reboot now"));
    assert!(!cfg.command_matches("reboot", "Reboot"));
    assert!(cfg.command_matches("show * status", "show * status"));
    assert!(!cfg.command_matches("show * status", "show x status"));
    assert!(cfg.command_matches(" *", "anything"));
    assert!(cfg.command_matches("**", "*"));
    assert!(!cfg.command_matches("**", "x"));
    assert!(cfg.command_matches("", ""));
    assert!(!cfg.command_matches("", "x"));
}

#[test]
fn data_rule_needs_every_guard() {
    let cfg = empty_config();
    let netconf = RequestContext::NETCONF;
    let mut rule = plain_rule();
    rule.module_name = Some("ietf-interfaces".to_string());
    rule.rpc_name = Some("get".to_string());
    rule.path = Some("/interfaces/*".to_string());
    rule.context = Some("netconf".to_string());
    rule.access_operations.insert(Operation::Read);
    let mut req = plain_request(Operation::Read);
    req.module_name = Some("ietf-interfaces");
    req.rpc_name = Some("get");
    req.path = Some("/interfaces/eth0");
    req.context = Some(&netconf);
    assert!(cfg.rule_matches(&rule, &req));

    let mut wrong = plain_request(Operation::Update);
    wrong.module_name = req.module_name;
    wrong.rpc_name = req.rpc_name;
    wrong.path = req.path;
    wrong.context = req.context;
    assert!(!cfg.rule_matches(&rule, &wrong));

    req.module_name = Some("other");
    assert!(!cfg.rule_matches(&rule, &req));
    req.module_name = Some("ietf-interfaces");
    req.rpc_name = Some("set");
    assert!(!cfg.rule_matches(&rule, &req));
    req.rpc_name = Some("get");
    req.path = Some("/system");
    assert!(!cfg.rule_matches(&rule, &req));
    req.path = Some("/interfaces/eth0");
    let cli = RequestContext::CLI;
    req.context = Some(&cli);
    assert!(!cfg.rule_matches(&rule, &req));
    req.context = None;
    assert!(!cfg.rule_matches(&rule, &req));
    req.context = Some(&netconf);
    assert!(cfg.rule_matches(&rule, &req));
}

#[test]
fn a_rule_without_constraints_matches_everything() {
    let cfg = empty_config();
    let rule = plain_rule();
    for op in [Operation::Read, Operation::Create, Operation::Update, Operation::Delete, Operation::Exec] {
        let mut req = plain_request(op);
        assert!(cfg.rule_matches(&rule, &req));
        req.module_name = Some("m");
        req.rpc_name = Some("r");
        req.path = Some("/p");
        assert!(cfg.rule_matches(&rule, &req));
    }
}

#[test]
fn command_rule_needs_every_guard() {
    let cfg = empty_config();
    let cli = RequestContext::CLI;
    let webui = RequestContext::WebUI;
    let mut rule = plain_command_rule();
    rule.context = Some("cli".to_string());
    rule.command = Some("show *".to_string());
    rule.access_operations.insert(Operation::Read);
    rule.access_operations.insert(Operation::Exec);
    let mut req = plain_request(Operation::Read);
    req.context = Some(&cli);
    req.command = Some("show status");
    assert!(cfg.command_rule_matches(&rule, &req));
    req.context = Some(&webui);
    assert!(!cfg.command_rule_matches(&rule, &req));
    req.context = Some(&cli);
    req.command = Some("reboot");
    assert!(!cfg.command_rule_matches(&rule, &req));
    req.command = None;
    assert!(!cfg.command_rule_matches(&rule, &req));
    rule.command = Some("*".to_string());
    assert!(cfg.command_rule_matches(&rule, &req));
    rule.command = None;
    assert!(cfg.command_rule_matches(&rule, &req));
    let mut update = plain_request(Operation::Update);
    update.context = Some(&cli);
    update.command = Some("show status");
    assert!(!cfg.command_rule_matches(&rule, &update));
}
