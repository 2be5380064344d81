use nacm_validator::{
    AccessRequest, GroupMap, NacmCommandRule, NacmConfig, NacmGroup, NacmRule, NacmRuleList,
    Operation, OperationSet, RequestContext, RuleEffect, ValidationResult,
};

fn ops(list: &[Operation]) -> OperationSet {
    let mut set = OperationSet::new();
    for op in list {
        set.insert(*op);
    }
    set
}

fn data_rule(name: &str, order: u32, effect: RuleEffect) -> NacmRule {
    NacmRule {
        name: name.to_string(),
        module_name: None,
        rpc_name: None,
        path: None,
        access_operations: OperationSet::new(),
        effect,
        order,
        context: None,
        log_if_permit: false,
        log_if_deny: false,
    }
}

fn command_rule(name: &str, order: u32, effect: RuleEffect, command: &str) -> NacmCommandRule {
    NacmCommandRule {
        name: name.to_string(),
        context: None,
        command: Some(command.to_string()),
        access_operations: ops(&[Operation::Read, Operation::Exec]),
        effect,
        order,
        log_if_permit: false,
        log_if_deny: false,
        comment: None,
    }
}

fn list(name: &str, groups: &[&str], rules: Vec<NacmRule>, command_rules: Vec<NacmCommandRule>) -> NacmRuleList {
    NacmRuleList {
        name: name.to_string(),
        groups: groups.iter().map(|g| g.to_string()).collect(),
        rules,
        command_rules,
    }
}

fn group(name: &str, users: &[&str]) -> NacmGroup {
    NacmGroup { name: name.to_string(), users: users.iter().map(|u| u.to_string()).collect(), gid: None }
}

fn config(groups: Vec<NacmGroup>, rule_lists: Vec<NacmRuleList>) -> NacmConfig {
    let mut map = GroupMap::new();
    for g in groups {
        map.insert(g.name.clone(), g);
    }
    NacmConfig {
        enable_nacm: true,
        read_default: RuleEffect::Deny,
        write_default: RuleEffect::Deny,
        exec_default: RuleEffect::Deny,
        cmd_read_default: RuleEffect::Permit,
        cmd_exec_default: RuleEffect::Permit,
        log_if_default_permit: false,
        log_if_default_deny: false,
        groups: map,
        rule_lists,
    }
}

fn request<'a>(user: &'a str, operation: Operation) -> AccessRequest<'a> {
    AccessRequest {
        user,
        module_name: None,
        rpc_name: None,
        operation,
        path: None,
        context: None,
        command: None,
    }
}

fn scenario_snapshot() -> NacmConfig {
    let mut rule = data_rule("any-rpc", 0, RuleEffect::Permit);
    rule.rpc_name = Some("*".to_string());
    rule.access_operations = ops(&[Operation::Exec]);
    config(vec![group("admin", &["alice"])], vec![list("admin", &["admin"], vec![rule], vec![])])
}

#[test]
fn disabled_policy_permits_without_logging() {
    let mut deny_all = data_rule("deny-all", 0, RuleEffect::Deny);
    deny_all.log_if_deny = true;
    let mut cfg = config(vec![], vec![list("all", &["*"], vec![deny_all], vec![])]);
    cfg.log_if_default_permit = true;
    cfg.log_if_default_deny = true;
    cfg.enable_nacm = false;
    let all = [Operation::Read, Operation::Create, Operation::Update, Operation::Delete, Operation::Exec];
    for op in all {
        let data = request("anyone", op);
        assert_eq!(cfg.validate(&data), ValidationResult { effect: RuleEffect::Permit, should_log: false });
        let mut command = request("anyone", op);
        command.command = Some("reboot");
        assert_eq!(cfg.validate(&command), ValidationResult { effect: RuleEffect::Permit, should_log: false });
    }
    cfg.enable_nacm = true;
    assert_eq!(cfg.validate(&request("anyone", Operation::Read)).effect, RuleEffect::Deny);
}

#[test]
fn data_defaults_follow_the_operation_class() {
    let mut cfg = config(vec![], vec![]);
    cfg.read_default = RuleEffect::Permit;
    cfg.write_default = RuleEffect::Deny;
    cfg.exec_default = RuleEffect::Permit;
    cfg.log_if_default_permit = true;
    cfg.log_if_default_deny = false;
    let permit_logged = ValidationResult { effect: RuleEffect::Permit, should_log: true };
    let deny_silent = ValidationResult { effect: RuleEffect::Deny, should_log: false };
    assert_eq!(cfg.validate(&request("u", Operation::Read)), permit_logged);
    assert_eq!(cfg.validate(&request("u", Operation::Create)), deny_silent);
    assert_eq!(cfg.validate(&request("u", Operation::Update)), deny_silent);
    assert_eq!(cfg.validate(&request("u", Operation::Delete)), deny_silent);
    assert_eq!(cfg.validate(&request("u", Operation::Exec)), permit_logged);
    cfg.write_default = RuleEffect::Permit;
    cfg.read_default = RuleEffect::Deny;
    cfg.log_if_default_deny = true;
    cfg.log_if_default_permit = false;
    assert_eq!(cfg.validate(&request("u", Operation::Read)), ValidationResult { effect: RuleEffect::Deny, should_log: true });
    assert_eq!(cfg.validate(&request("u", Operation::Delete)), ValidationResult { effect: RuleEffect::Permit, should_log: false });
}

#[test]
fn command_defaults_use_exec_for_all_but_read() {
    let mut cfg = config(vec![], vec![]);
    cfg.cmd_read_default = RuleEffect::Permit;
    cfg.cmd_exec_default = RuleEffect::Deny;
    cfg.read_default = RuleEffect::Deny;
    cfg.write_default = RuleEffect::Permit;
    cfg.exec_default = RuleEffect::Permit;
    cfg.log_if_default_deny = true;
    let mut read = request("u", Operation::Read);
    read.command = Some("show version");
    assert_eq!(cfg.validate(&read), ValidationResult { effect: RuleEffect::Permit, should_log: false });
    for op in [Operation::Create, Operation::Update, Operation::Delete, Operation::Exec] {
        let mut req = request("u", op);
        req.command = Some("show version");
        assert_eq!(cfg.validate(&req), ValidationResult { effect: RuleEffect::Deny, should_log: true });
    }
}

#[test]
fn lower_order_wins_whatever_the_arrangement() {
    let deny = data_rule("deny", 5, RuleEffect::Deny);
    let permit = data_rule("permit", 10, RuleEffect::Permit);
    let same_list_deny_first = config(vec![], vec![list("l", &["*"], vec![deny.clone(), permit.clone()], vec![])]);
    let same_list_permit_first = config(vec![], vec![list("l", &["*"], vec![permit.clone(), deny.clone()], vec![])]);
    let two_lists = config(
        vec![],
        vec![
            list("first", &["*"], vec![permit.clone()], vec![]),
            list("second", &["*"], vec![deny.clone()], vec![]),
        ],
    );
    let two_lists_swapped = config(
        vec![],
        vec![
            list("first", &["*"], vec![deny.clone()], vec![]),
            list("second", &["*"], vec![permit.clone()], vec![]),
        ],
    );
    for cfg in [same_list_deny_first, same_list_permit_first, two_lists, two_lists_swapped] {
        assert_eq!(cfg.validate(&request("u", Operation::Read)).effect, RuleEffect::Deny);
    }
}

#[test]
fn lower_order_wins_among_command_rules() {
    let deny = command_rule("deny", 5, RuleEffect::Deny, "reboot");
    let permit = command_rule("permit", 10, RuleEffect::Permit, "*");
    let cfg = config(
        vec![],
        vec![
            list("first", &["*"], vec![], vec![permit.clone()]),
            list("second", &["*"], vec![], vec![deny.clone()]),
        ],
    );
    let mut req = request("u", Operation::Exec);
    req.command = Some("reboot");
    assert_eq!(cfg.validate(&req).effect, RuleEffect::Deny);
    req.command = Some("uptime");
    assert_eq!(cfg.validate(&req).effect, RuleEffect::Permit);
}

#[test]
fn equal_orders_are_decided_by_place() {
    let deny = data_rule("deny", 7, RuleEffect::Deny);
    let permit = data_rule("permit", 7, RuleEffect::Permit);
    let deny_first = config(vec![], vec![list("l", &["*"], vec![deny.clone(), permit.clone()], vec![])]);
    let permit_first = config(
        vec![],
        vec![list("a", &["*"], vec![permit.clone()], vec![]), list("b", &["*"], vec![deny.clone()], vec![])],
    );
    assert_eq!(deny_first.validate(&request("u", Operation::Read)).effect, RuleEffect::Deny);
    assert_eq!(permit_first.validate(&request("u", Operation::Read)).effect, RuleEffect::Permit);
}

#[test]
fn rules_that_do_not_match_take_no_part() {
    let mut deny = data_rule("deny-writes", 1, RuleEffect::Deny);
    deny.access_operations = ops(&[Operation::Create, Operation::Update, Operation::Delete]);
    let permit = data_rule("permit", 10, RuleEffect::Permit);
    let cfg = config(vec![], vec![list("l", &["*"], vec![deny, permit], vec![])]);
    assert_eq!(cfg.validate(&request("u", Operation::Read)).effect, RuleEffect::Permit);
    assert_eq!(cfg.validate(&request("u", Operation::Update)).effect, RuleEffect::Deny);
}

#[test]
fn wildcard_group_applies_to_every_user() {
    let permit = data_rule("permit", 0, RuleEffect::Permit);
    let cfg = config(
        vec![group("admin", &["alice"])],
        vec![list("everyone", &["*"], vec![permit], vec![])],
    );
    for user in ["alice", "bob", "", "*"] {
        assert_eq!(cfg.validate(&request(user, Operation::Read)).effect, RuleEffect::Permit);
    }
    let permit = data_rule("permit", 0, RuleEffect::Permit);
    let mixed = config(vec![], vec![list("mixed", &["nobody", "*"], vec![permit], vec![])]);
    assert_eq!(mixed.validate(&request("bob", Operation::Read)).effect, RuleEffect::Permit);
}

#[test]
fn lists_of_other_groups_do_not_apply() {
    let permit = data_rule("permit", 0, RuleEffect::Permit);
    let cfg = config(
        vec![group("admin", &["alice"]), group("oper", &["bob", "carol"])],
        vec![list("admins", &["admin"], vec![permit], vec![])],
    );
    assert_eq!(cfg.validate(&request("alice", Operation::Read)).effect, RuleEffect::Permit);
    assert_eq!(cfg.validate(&request("bob", Operation::Read)).effect, RuleEffect::Deny);
    assert_eq!(cfg.validate(&request("carol", Operation::Read)).effect, RuleEffect::Deny);
    assert_eq!(cfg.validate(&request("admin", Operation::Read)).effect, RuleEffect::Deny);
}

#[test]
fn group_key_counts_not_the_group_name_field() {
    let mut map = GroupMap::new();
    map.insert("key".to_string(), group("other-name", &["alice"]));
    let permit = data_rule("permit", 0, RuleEffect::Permit);
    let mut cfg = config(vec![], vec![list("l", &["key"], vec![permit], vec![])]);
    cfg.groups = map;
    assert_eq!(cfg.validate(&request("alice", Operation::Read)).effect, RuleEffect::Permit);
    let permit = data_rule("permit", 0, RuleEffect::Permit);
    cfg.rule_lists = vec![list("l", &["other-name"], vec![permit], vec![])];
    assert_eq!(cfg.validate(&request("alice", Operation::Read)).effect, RuleEffect::Deny);
}

#[test]
fn logging_follows_the_effect_of_the_deciding_rule() {
    let mut permit = data_rule("permit", 0, RuleEffect::Permit);
    permit.log_if_permit = true;
    permit.log_if_deny = false;
    let cfg = config(vec![], vec![list("l", &["*"], vec![permit], vec![])]);
    assert_eq!(cfg.validate(&request("u", Operation::Read)), ValidationResult { effect: RuleEffect::Permit, should_log: true });

    let mut permit = data_rule("permit", 0, RuleEffect::Permit);
    permit.log_if_permit = false;
    permit.log_if_deny = true;
    let cfg = config(vec![], vec![list("l", &["*"], vec![permit], vec![])]);
    assert_eq!(cfg.validate(&request("u", Operation::Read)), ValidationResult { effect: RuleEffect::Permit, should_log: false });

    let mut deny = data_rule("deny", 0, RuleEffect::Deny);
    deny.log_if_permit = true;
    deny.log_if_deny = false;
    let cfg = config(vec![], vec![list("l", &["*"], vec![deny], vec![])]);
    assert_eq!(cfg.validate(&request("u", Operation::Read)), ValidationResult { effect: RuleEffect::Deny, should_log: false });

    let mut deny = data_rule("deny", 0, RuleEffect::Deny);
    deny.log_if_deny = true;
    let cfg = config(vec![], vec![list("l", &["*"], vec![deny], vec![])]);
    assert_eq!(cfg.validate(&request("u", Operation::Read)), ValidationResult { effect: RuleEffect::Deny, should_log: true });
}

#[test]
fn rule_outcome_is_effect_and_its_flag() {
    let mut permit = data_rule("permit", 0, RuleEffect::Permit);
    permit.log_if_permit = true;
    assert_eq!(permit.decide(), ValidationResult { effect: RuleEffect::Permit, should_log: true });
    let mut deny = command_rule("deny", 0, RuleEffect::Deny, "x");
    deny.log_if_permit = true;
    assert_eq!(deny.decide(), ValidationResult { effect: RuleEffect::Deny, should_log: false });
    deny.log_if_deny = true;
    assert_eq!(deny.decide(), ValidationResult { effect: RuleEffect::Deny, should_log: true });
}

#[test]
fn scenario_admin_may_run_any_rpc() {
    let cfg = scenario_snapshot();
    let mut req = request("alice", Operation::Exec);
    req.rpc_name = Some("edit-config");
    assert_eq!(cfg.validate(&req), ValidationResult { effect: RuleEffect::Permit, should_log: false });
}

#[test]
fn scenario_user_without_group_gets_the_exec_default() {
    let cfg = scenario_snapshot();
    let mut req = request("bob", Operation::Exec);
    req.rpc_name = Some("edit-config");
    assert_eq!(cfg.validate(&req), ValidationResult { effect: RuleEffect::Deny, should_log: false });
}

#[test]
fn scenario_operator_may_show_status() {
    let mut rule = command_rule("cli-show-status", 0, RuleEffect::Permit, "show status");
    rule.context = Some("cli".to_string());
    rule.log_if_permit = true;
    let cfg = config(
        vec![group("operators", &["oper"])],
        vec![list("operators", &["operators"], vec![], vec![rule])],
    );
    let context = RequestContext::CLI;
    let mut req = request("oper", Operation::Read);
    req.context = Some(&context);
    req.command = Some("show status");
    assert_eq!(cfg.validate(&req), ValidationResult { effect: RuleEffect::Permit, should_log: true });
}

#[test]
fn a_command_request_ignores_data_rules() {
    let deny = data_rule("deny", 0, RuleEffect::Deny);
    let cfg = config(vec![], vec![list("l", &["*"], vec![deny], vec![])]);
    let mut req = request("u", Operation::Read);
    req.command = Some("show status");
    assert_eq!(cfg.validate(&req).effect, RuleEffect::Permit);
    let permit = command_rule("permit", 0, RuleEffect::Permit, "*");
    let cfg = config(vec![], vec![list("l", &["*"], vec![], vec![permit])]);
    assert_eq!(cfg.validate(&request("u", Operation::Read)).effect, RuleEffect::Deny);
}

#[test]
fn helpers_agree_with_validate() {
    let cfg = scenario_snapshot();
    let mut req = request("alice", Operation::Exec);
    req.rpc_name = Some("edit-config");
    let groups = cfg.resolve_groups("alice");
    assert_eq!(groups, vec!["admin"]);
    assert_eq!(cfg.resolve_groups("bob"), Vec::<&str>::new());
    assert!(cfg.rule_lists[0].applies_to(&groups));
    assert!(!cfg.rule_lists[0].applies_to(&[]));
    assert_eq!(cfg.validate_data_request(&req, &groups).effect, RuleEffect::Permit);
    assert_eq!(cfg.validate_data_request(&req, &[]).effect, RuleEffect::Deny);
    assert_eq!(cfg.validate_command_request(&req, &groups).effect, RuleEffect::Permit);
}
