//! From a configuration document to a policy snapshot.
//!
//! The document holds the configuration as it is written down: effects and
//! operations as text, rules without an order. The conversion reads the
//! texts, gives every rule its order and gathers the groups by name.

use vstd::prelude::*;
use crate::groups::GroupMap;
use crate::model::{
    NacmCommandRule, NacmConfig, NacmGroup, NacmRule, NacmRuleList, RuleEffect,
};
use crate::parse::{
    command_operations, data_operations, effect_of_text, parse_command_operations,
    parse_data_operations, unknown_effect_message,
};
use crate::text::{copy_text, copy_texts, text_of, texts_of};

verus! {

/// A group as the document declares it.
#[derive(Debug, Clone)]
pub struct XmlGroup {
    /// The group's name.
    pub name: String,
    /// The names of the users in the group.
    pub user_names: Vec<String>,
    /// A numeric identifier of the group.
    pub gid: Option<i32>,
}

/// The groups of a document.
#[derive(Debug, Clone)]
pub struct XmlGroups {
    /// The groups, in the order they were declared.
    pub group: Vec<XmlGroup>,
}

/// A data rule as the document declares it.
#[derive(Debug, Clone)]
pub struct XmlRule {
    /// The rule's name.
    pub name: String,
    /// The module the rule is about.
    pub module_name: Option<String>,
    /// The RPC the rule is about.
    pub rpc_name: Option<String>,
    /// The data path the rule is about.
    pub path: Option<String>,
    /// The operations the rule covers: `*`, or names parted by white space.
    pub access_operations: Option<String>,
    /// The rule's effect: `permit` or `deny`.
    pub action: String,
    /// The pattern the request's context must match.
    pub context: Option<String>,
    /// Whether the document asks for a permit by this rule to be logged.
    pub log_if_permit: bool,
    /// Whether the document asks for a deny by this rule to be logged.
    pub log_if_deny: bool,
}

/// A command rule as the document declares it.
#[derive(Debug, Clone)]
pub struct XmlCommandRule {
    /// The rule's name.
    pub name: String,
    /// The pattern the request's context must match.
    pub context: Option<String>,
    /// The pattern the requested command must match.
    pub command: Option<String>,
    /// The operations the rule covers: `*`, or names parted by white space.
    pub access_operations: Option<String>,
    /// The rule's effect: `permit` or `deny`.
    pub action: String,
    /// Whether the document asks for a permit by this rule to be logged.
    pub log_if_permit: bool,
    /// Whether the document asks for a deny by this rule to be logged.
    pub log_if_deny: bool,
    /// A free-form description.
    pub comment: Option<String>,
}

/// A rule list as the document declares it.
#[derive(Debug, Clone)]
pub struct XmlRuleList {
    /// The list's name.
    pub name: String,
    /// The one group the list applies to.
    pub group: String,
    /// The data rules, in the order they were declared.
    pub rule: Vec<XmlRule>,
    /// The command rules, in the order they were declared.
    pub cmdrule: Vec<XmlCommandRule>,
}

/// The access-control part of a document.
#[derive(Debug, Clone)]
pub struct XmlNacm {
    /// The switch of the policy.
    pub enable_nacm: bool,
    /// The default for read requests on data, as text.
    pub read_default: String,
    /// The default for write requests on data, as text.
    pub write_default: String,
    /// The default for exec requests on data, as text.
    pub exec_default: String,
    /// The default for read requests on commands, as text, if declared.
    pub cmd_read_default: Option<String>,
    /// The default for other requests on commands, as text, if declared.
    pub cmd_exec_default: Option<String>,
    /// Whether the document asks for a permit by default to be logged.
    pub log_if_default_permit: bool,
    /// Whether the document asks for a deny by default to be logged.
    pub log_if_default_deny: bool,
    /// The groups.
    pub groups: XmlGroups,
    /// The rule lists, in the order they were declared.
    pub rule_lists: Vec<XmlRuleList>,
}

/// A configuration document.
#[derive(Debug, Clone)]
pub struct XmlConfig {
    /// The access-control part.
    pub nacm: XmlNacm,
}

/// The order of the rule at place `place` of the list at place `list`: a
/// thousand for each list before it and one for each rule before it in its
/// list, cut to 32 bits.
pub open spec fn rule_order(list: int, place: int) -> u32 {
    ((list * 1000 + place) % 0x1_0000_0000) as u32
}

/// Every text of `texts` names an effect.
pub open spec fn all_known(texts: Seq<Seq<char>>) -> bool {
    forall|n: int| 0 <= n < texts.len() ==> effect_of_text(#[trigger] texts[n]) is Some
}

/// The text at place `n` is the first of `texts` that names no effect.
pub open spec fn first_unknown(texts: Seq<Seq<char>>, n: int) -> bool {
    &&& 0 <= n < texts.len()
    &&& effect_of_text(texts[n]) is None
    &&& forall|m: int| 0 <= m < n ==> effect_of_text(#[trigger] texts[m]) is Some
}

/// The effect of an optional default: permit where the document declares
/// none, else the effect its text names.
pub open spec fn effect_or_permit(text: Option<String>) -> Option<RuleEffect> {
    match text {
        Some(s) => effect_of_text(s@),
        None => Some(RuleEffect::Permit),
    }
}

/// The text of an optional default, as a list of one or none.
pub open spec fn declared(text: Option<String>) -> Seq<Seq<char>> {
    match text {
        Some(s) => seq![s@],
        None => Seq::empty(),
    }
}

/// The group at place `n` is the last of `groups` with its name.
pub open spec fn last_of_its_name(groups: Seq<XmlGroup>, n: int) -> bool {
    &&& 0 <= n < groups.len()
    &&& forall|m: int| n < m < groups.len() ==> (#[trigger] groups[m]).name@ != groups[n].name@
}

/// `map` holds the groups of `groups` by name: a name is a key where a group
/// has it, and stands for the last group that has it.
pub open spec fn groups_convert_to(groups: Seq<XmlGroup>, map: Map<Seq<char>, NacmGroup>) -> bool {
    &&& forall|k: Seq<char>|
        map.contains_key(k) <==> exists|n: int|
            0 <= n < groups.len() && (#[trigger] groups[n]).name@ == k
    &&& forall|n: int|
        last_of_its_name(groups, n) ==> (#[trigger] groups[n]).converts_to(&map[groups[n].name@])
}

impl XmlGroup {
    /// `group` holds what the document declares of this group.
    pub open spec fn converts_to(&self, group: &NacmGroup) -> bool {
        &&& group.name@ == self.name@
        &&& texts_of(group.users@) == texts_of(self.user_names@)
        &&& group.gid == self.gid
    }

    /// The group of the policy that this declaration stands for.
    pub fn convert(&self) -> (r: NacmGroup)
        ensures
            self.converts_to(&r),
    {
        NacmGroup { name: self.name.clone(), users: copy_texts(&self.user_names), gid: self.gid }
    }
}

impl XmlRule {
    /// `rule` holds what the document declares of this rule, with the order
    /// `order`.
    pub open spec fn converts_to(&self, order: u32, rule: &NacmRule) -> bool {
        &&& rule.name@ == self.name@
        &&& text_of(rule.module_name) == text_of(self.module_name)
        &&& text_of(rule.rpc_name) == text_of(self.rpc_name)
        &&& text_of(rule.path) == text_of(self.path)
        &&& rule.access_operations@ == data_operations(self.access_operations)
        &&& Some(rule.effect) == effect_of_text(self.action@)
        &&& rule.order == order
        &&& text_of(rule.context) == text_of(self.context)
        &&& rule.log_if_permit == self.log_if_permit
        &&& rule.log_if_deny == self.log_if_deny
    }

    /// The rule of the policy that this declaration stands for, or the
    /// message for an effect that is not known.
    pub fn convert(&self, order: u32) -> (r: Result<NacmRule, String>)
        ensures
            match r {
                Ok(rule) => self.converts_to(order, &rule),
                Err(message) => effect_of_text(self.action@) is None && message@
                    == unknown_effect_message(self.action@),
            },
    {
        let access_operations = parse_data_operations(&self.access_operations);
        let effect = match RuleEffect::parse(self.action.as_str()) {
            Ok(effect) => effect,
            Err(message) => {
                return Err(message);
            },
        };
        Ok(
            NacmRule {
                name: self.name.clone(),
                module_name: copy_text(&self.module_name),
                rpc_name: copy_text(&self.rpc_name),
                path: copy_text(&self.path),
                access_operations,
                effect,
                order,
                context: copy_text(&self.context),
                log_if_permit: self.log_if_permit,
                log_if_deny: self.log_if_deny,
            },
        )
    }
}

impl XmlCommandRule {
    /// `rule` holds what the document declares of this rule, with the order
    /// `order`.
    pub open spec fn converts_to(&self, order: u32, rule: &NacmCommandRule) -> bool {
        &&& rule.name@ == self.name@
        &&& text_of(rule.context) == text_of(self.context)
        &&& text_of(rule.command) == text_of(self.command)
        &&& rule.access_operations@ == command_operations(self.access_operations)
        &&& Some(rule.effect) == effect_of_text(self.action@)
        &&& rule.order == order
        &&& rule.log_if_permit == self.log_if_permit
        &&& rule.log_if_deny == self.log_if_deny
        &&& text_of(rule.comment) == text_of(self.comment)
    }

    /// The command rule of the policy that this declaration stands for, or
    /// the message for an effect that is not known.
    pub fn convert(&self, order: u32) -> (r: Result<NacmCommandRule, String>)
        ensures
            match r {
                Ok(rule) => self.converts_to(order, &rule),
                Err(message) => effect_of_text(self.action@) is None && message@
                    == unknown_effect_message(self.action@),
            },
    {
        let access_operations = parse_command_operations(&self.access_operations);
        let effect = match RuleEffect::parse(self.action.as_str()) {
            Ok(effect) => effect,
            Err(message) => {
                return Err(message);
            },
        };
        Ok(
            NacmCommandRule {
                name: self.name.clone(),
                context: copy_text(&self.context),
                command: copy_text(&self.command),
                access_operations,
                effect,
                order,
                log_if_permit: self.log_if_permit,
                log_if_deny: self.log_if_deny,
                comment: copy_text(&self.comment),
            },
        )
    }
}

impl XmlRuleList {
    /// The texts of the list that must name an effect, in the order they are
    /// read: those of the data rules, then those of the command rules.
    pub open spec fn effect_texts(&self) -> Seq<Seq<char>> {
        Seq::new(self.rule@.len(), |j: int| self.rule@[j].action@) + Seq::new(
            self.cmdrule@.len(),
            |j: int| self.cmdrule@[j].action@,
        )
    }

    /// `list` holds what the document declares of this list, which stands at
    /// place `index`: its one group, and its rules in their order, each with
    /// the order of its place.
    pub open spec fn converts_to(&self, index: int, list: &NacmRuleList) -> bool {
        &&& list.name@ == self.name@
        &&& list.groups@.len() == 1
        &&& list.groups@[0]@ == self.group@
        &&& list.rules@.len() == self.rule@.len()
        &&& forall|j: int|
            0 <= j < self.rule@.len() ==> (#[trigger] self.rule@[j]).converts_to(
                rule_order(index, j),
                &list.rules@[j],
            )
        &&& list.command_rules@.len() == self.cmdrule@.len()
        &&& forall|j: int|
            0 <= j < self.cmdrule@.len() ==> (#[trigger] self.cmdrule@[j]).converts_to(
                rule_order(index, j),
                &list.command_rules@[j],
            )
    }

    /// The rule list of the policy that this declaration stands for, or the
    /// message for the first effect that is not known.
    pub fn convert(&self, index: usize) -> (r: Result<NacmRuleList, String>)
        ensures
            match r {
                Ok(list) => all_known(self.effect_texts()) && self.converts_to(index as int, &list),
                Err(message) => exists|n: int|
                    first_unknown(self.effect_texts(), n) && message@ == unknown_effect_message(
                        #[trigger] self.effect_texts()[n],
                    ),
            },
    {
        let ghost texts = self.effect_texts();
        let mut rules: Vec<NacmRule> = Vec::new();
        let mut j: usize = 0;
        while j < self.rule.len()
            invariant
                texts == self.effect_texts(),
                j <= self.rule@.len(),
                rules@.len() == j,
                forall|k: int|
                    0 <= k < j ==> (#[trigger] self.rule@[k]).converts_to(
                        rule_order(index as int, k),
                        &rules@[k],
                    ),
            decreases self.rule@.len() - j,
        {
            match self.rule[j].convert(order_of(index, j)) {
                Ok(rule) => {
                    rules.push(rule);
                },
                Err(message) => {
                    proof {
                        assert(texts[j as int] == self.rule@[j as int].action@);
                        assert forall|m: int| 0 <= m < j implies effect_of_text(
                            #[trigger] texts[m],
                        ) is Some by {
                            assert(self.rule@[m].converts_to(rule_order(index as int, m), &rules@[m]));
                        }
                        assert(first_unknown(texts, j as int));
                    }
                    return Err(message);
                },
            }
            j += 1;
        }
        let mut command_rules: Vec<NacmCommandRule> = Vec::new();
        let mut j: usize = 0;
        while j < self.cmdrule.len()
            invariant
                texts == self.effect_texts(),
                rules@.len() == self.rule@.len(),
                forall|k: int|
                    0 <= k < self.rule@.len() ==> (#[trigger] self.rule@[k]).converts_to(
                        rule_order(index as int, k),
                        &rules@[k],
                    ),
                j <= self.cmdrule@.len(),
                command_rules@.len() == j,
                forall|k: int|
                    0 <= k < j ==> (#[trigger] self.cmdrule@[k]).converts_to(
                        rule_order(index as int, k),
                        &command_rules@[k],
                    ),
            decreases self.cmdrule@.len() - j,
        {
            match self.cmdrule[j].convert(order_of(index, j)) {
                Ok(rule) => {
                    command_rules.push(rule);
                },
                Err(message) => {
                    proof {
                        let n = self.rule@.len() + j;
                        assert(texts[n] == self.cmdrule@[j as int].action@);
                        assert forall|m: int| 0 <= m < n implies effect_of_text(
                            #[trigger] texts[m],
                        ) is Some by {
                            if m < self.rule@.len() {
                                assert(self.rule@[m].converts_to(
                                    rule_order(index as int, m),
                                    &rules@[m],
                                ));
                            } else {
                                let k = m - self.rule@.len();
                                assert(texts[m] == self.cmdrule@[k].action@);
                                assert(self.cmdrule@[k].converts_to(
                                    rule_order(index as int, k),
                                    &command_rules@[k],
                                ));
                            }
                        }
                        assert(first_unknown(texts, n));
                    }
                    return Err(message);
                },
            }
            j += 1;
        }
        proof {
            assert forall|m: int| 0 <= m < texts.len() implies effect_of_text(
                #[trigger] texts[m],
            ) is Some by {
                if m < self.rule@.len() {
                    assert(self.rule@[m].converts_to(rule_order(index as int, m), &rules@[m]));
                } else {
                    let k = m - self.rule@.len();
                    assert(texts[m] == self.cmdrule@[k].action@);
                    assert(self.cmdrule@[k].converts_to(
                        rule_order(index as int, k),
                        &command_rules@[k],
                    ));
                }
            }
        }
        let mut groups: Vec<String> = Vec::new();
        groups.push(self.group.clone());
        Ok(NacmRuleList { name: self.name.clone(), groups, rules, command_rules })
    }
}

impl XmlConfig {
    /// The texts of the defaults that the document declares, in the order
    /// they are read.
    pub open spec fn default_texts(&self) -> Seq<Seq<char>> {
        seq![self.nacm.read_default@, self.nacm.write_default@, self.nacm.exec_default@]
            + declared(self.nacm.cmd_read_default) + declared(self.nacm.cmd_exec_default)
    }

    /// Every effect text of the first `i` rule lists names an effect.
    pub open spec fn lists_known_before(&self, i: int) -> bool {
        forall|k: int|
            0 <= k < i ==> all_known((#[trigger] self.nacm.rule_lists@[k]).effect_texts())
    }

    /// Every effect text of the document names an effect.
    pub open spec fn effects_known(&self) -> bool {
        self.lists_known_before(self.nacm.rule_lists@.len() as int) && all_known(
            self.default_texts(),
        )
    }

    /// The text at place `n` of the rule list at place `i` is the first of
    /// the rule lists that names no effect.
    pub open spec fn first_unknown_in_lists(&self, i: int, n: int) -> bool {
        &&& 0 <= i < self.nacm.rule_lists@.len()
        &&& self.lists_known_before(i)
        &&& first_unknown(self.nacm.rule_lists@[i].effect_texts(), n)
    }

    /// The rule lists name effects throughout, and the text at place `n` of
    /// the defaults is the first of them that names none.
    pub open spec fn first_unknown_in_defaults(&self, n: int) -> bool {
        &&& self.lists_known_before(self.nacm.rule_lists@.len() as int)
        &&& first_unknown(self.default_texts(), n)
    }

    /// `text` is the first text of the document that should name an effect
    /// and names none: the rule lists are read first, in their order, then
    /// the defaults.
    pub open spec fn first_unknown_effect(&self, text: Seq<char>) -> bool {
        ||| exists|i: int, n: int| #[trigger]
            self.first_unknown_in_lists(i, n) && self.nacm.rule_lists@[i].effect_texts()[n] == text
        ||| exists|n: int| #[trigger]
            self.first_unknown_in_defaults(n) && self.default_texts()[n] == text
    }

    /// `config` is the policy that the document declares.
    pub open spec fn converts_to(&self, config: &NacmConfig) -> bool {
        &&& config.enable_nacm == self.nacm.enable_nacm
        &&& Some(config.read_default) == effect_of_text(self.nacm.read_default@)
        &&& Some(config.write_default) == effect_of_text(self.nacm.write_default@)
        &&& Some(config.exec_default) == effect_of_text(self.nacm.exec_default@)
        &&& Some(config.cmd_read_default) == effect_or_permit(self.nacm.cmd_read_default)
        &&& Some(config.cmd_exec_default) == effect_or_permit(self.nacm.cmd_exec_default)
        &&& config.log_if_default_permit == self.nacm.log_if_default_permit
        &&& config.log_if_default_deny == self.nacm.log_if_default_deny
        &&& groups_convert_to(self.nacm.groups.group@, config.groups@)
        &&& config.rule_lists@.len() == self.nacm.rule_lists@.len()
        &&& forall|i: int|
            0 <= i < self.nacm.rule_lists@.len() ==> (#[trigger] self.nacm.rule_lists@[i]).converts_to(
                i,
                &config.rule_lists@[i],
            )
    }
}

/// The order of the rule at place `place` of the list at place `list`.
fn order_of(list: usize, place: usize) -> (r: u32)
    ensures
        r == rule_order(list as int, place as int),
{
    let wide: u128 = (list as u128) * 1000 + (place as u128);
    (wide % 0x1_0000_0000) as u32
}

/// The effect of an optional default.
fn parse_or_permit(text: &Option<String>) -> (r: Result<RuleEffect, String>)
    ensures
        match r {
            Ok(effect) => effect_or_permit(*text) == Some(effect),
            Err(message) => *text matches Some(s) && effect_of_text(s@) is None && message@
                == unknown_effect_message(s@),
        },
{
    match text {
        Some(s) => RuleEffect::parse(s.as_str()),
        None => Ok(RuleEffect::Permit),
    }
}

/// The groups of a document, by name.
fn convert_groups(groups: &Vec<XmlGroup>) -> (r: GroupMap)
    ensures
        groups_convert_to(groups@, r@),
{
    let mut map = GroupMap::new();
    let mut i: usize = 0;
    assert(groups@.take(0) =~= Seq::<XmlGroup>::empty());
    while i < groups.len()
        invariant
            i <= groups@.len(),
            groups_convert_to(groups@.take(i as int), map@),
        decreases groups@.len() - i,
    {
        let ghost before = groups@.take(i as int);
        let ghost after = groups@.take(i + 1);
        let ghost prior = map@;
        let group = groups[i].convert();
        map.insert(groups[i].name.clone(), group);
        proof {
            let name = groups@[i as int].name@;
            assert(after[i as int] == groups@[i as int]);
            assert forall|k: Seq<char>| map@.contains_key(k) <==> exists|n: int|
                0 <= n < after.len() && (#[trigger] after[n]).name@ == k by {
                if map@.contains_key(k) && k != name {
                    assert(prior.contains_key(k));
                    let n = choose|n: int| 0 <= n < before.len() && (#[trigger] before[n]).name@ == k;
                    assert(after[n] == before[n]);
                }
                if exists|n: int| 0 <= n < after.len() && (#[trigger] after[n]).name@ == k {
                    let n = choose|n: int| 0 <= n < after.len() && (#[trigger] after[n]).name@ == k;
                    if n < i {
                        assert(before[n] == after[n]);
                        assert(prior.contains_key(k));
                    }
                }
            }
            assert forall|n: int| last_of_its_name(after, n) implies (#[trigger] after[n]).converts_to(
                &map@[after[n].name@],
            ) by {
                if n < i {
                    assert(after[n].name@ != after[i as int].name@);
                    assert(before[n] == after[n]);
                    assert(last_of_its_name(before, n)) by {
                        assert forall|m: int| n < m < before.len() implies (
                        #[trigger] before[m]).name@ != before[n].name@ by {
                            assert(before[m] == after[m]);
                        }
                    }
                }
            }
        }
        i += 1;
    }
    assert(groups@.take(i as int) =~= groups@);
    map
}

impl NacmConfig {
    /// The policy that a document declares, or the message for the first
    /// effect that is not known.
    pub fn from_document(doc: &XmlConfig) -> (r: Result<NacmConfig, String>)
        ensures
            r is Ok <==> doc.effects_known(),
            match r {
                Ok(config) => doc.converts_to(&config),
                Err(message) => exists|text: Seq<char>|
                    doc.first_unknown_effect(text) && message@ == #[trigger] unknown_effect_message(
                        text,
                    ),
            },
    {
        let groups = convert_groups(&doc.nacm.groups.group);
        let mut rule_lists: Vec<NacmRuleList> = Vec::new();
        let mut i: usize = 0;
        while i < doc.nacm.rule_lists.len()
            invariant
                i <= doc.nacm.rule_lists@.len(),
                rule_lists@.len() == i,
                doc.lists_known_before(i as int),
                forall|k: int|
                    0 <= k < i ==> (#[trigger] doc.nacm.rule_lists@[k]).converts_to(
                        k,
                        &rule_lists@[k],
                    ),
            decreases doc.nacm.rule_lists@.len() - i,
        {
            match doc.nacm.rule_lists[i].convert(i) {
                Ok(list) => {
                    rule_lists.push(list);
                },
                Err(message) => {
                    proof {
                        let texts = doc.nacm.rule_lists@[i as int].effect_texts();
                        let n = choose|n: int|
                            first_unknown(texts, n) && message@ == unknown_effect_message(
                                #[trigger] texts[n],
                            );
                        assert(doc.first_unknown_in_lists(i as int, n));
                        assert(doc.first_unknown_effect(texts[n]));
                        assert(!all_known(texts));
                    }
                    return Err(message);
                },
            }
            i += 1;
        }
        let ghost texts = doc.default_texts();
        let ghost shift: int = if doc.nacm.cmd_read_default is Some { 1 } else { 0 };
        let read_default = match RuleEffect::parse(doc.nacm.read_default.as_str()) {
            Ok(effect) => effect,
            Err(message) => {
                proof {
                    assert(doc.first_unknown_in_defaults(0));
                    assert(doc.first_unknown_effect(texts[0]));
                }
                return Err(message);
            },
        };
        let write_default = match RuleEffect::parse(doc.nacm.write_default.as_str()) {
            Ok(effect) => effect,
            Err(message) => {
                proof {
                    assert(doc.first_unknown_in_defaults(1));
                    assert(doc.first_unknown_effect(texts[1]));
                }
                return Err(message);
            },
        };
        let exec_default = match RuleEffect::parse(doc.nacm.exec_default.as_str()) {
            Ok(effect) => effect,
            Err(message) => {
                proof {
                    assert(doc.first_unknown_in_defaults(2));
                    assert(doc.first_unknown_effect(texts[2]));
                }
                return Err(message);
            },
        };
        let cmd_read_default = match parse_or_permit(&doc.nacm.cmd_read_default) {
            Ok(effect) => effect,
            Err(message) => {
                proof {
                    assert(doc.first_unknown_in_defaults(3));
                    assert(doc.first_unknown_effect(texts[3]));
                }
                return Err(message);
            },
        };
        let cmd_exec_default = match parse_or_permit(&doc.nacm.cmd_exec_default) {
            Ok(effect) => effect,
            Err(message) => {
                proof {
                    assert(doc.first_unknown_in_defaults(3 + shift));
                    assert(doc.first_unknown_effect(texts[3 + shift]));
                }
                return Err(message);
            },
        };
        proof {
            assert forall|n: int| 0 <= n < texts.len() implies effect_of_text(
                #[trigger] texts[n],
            ) is Some by {
                if n == 3 && shift == 1 {
                    assert(texts[n] == doc.nacm.cmd_read_default->0@);
                } else if n >= 3 {
                    assert(texts[n] == doc.nacm.cmd_exec_default->0@);
                }
            }
        }
        Ok(
            NacmConfig {
                enable_nacm: doc.nacm.enable_nacm,
                read_default,
                write_default,
                exec_default,
                cmd_read_default,
                cmd_exec_default,
                log_if_default_permit: doc.nacm.log_if_default_permit,
                log_if_default_deny: doc.nacm.log_if_default_deny,
                groups,
                rule_lists,
            },
        )
    }
}

} // verus!
