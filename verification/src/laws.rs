//! What holds of every decision, and of every policy that a document
//! declares.

use vstd::prelude::*;
use crate::engine::{lies_before, takes_precedence};
use crate::loader::{all_known, first_unknown, rule_order, XmlConfig};
use crate::matcher::operation_accepted;
use crate::model::{
    NacmCommandRule, NacmConfig, NacmRule, NacmRuleList, Operation, RequestView, RuleEffect,
    ValidationResult,
};
use crate::parse::{command_operations, data_operations};

verus! {

/// The order that a rule gets from its place grows with the place, as long
/// as no list holds more than a thousand rules and the orders fit in 32
/// bits: a rule that stands before another has the lower order.
pub proof fn lemma_rule_order_increases(i: int, j: int, k: int, l: int)
    requires
        0 <= i,
        0 <= j < 1000,
        0 <= l,
        lies_before(i, j, k, l),
        k * 1000 + l < 0x1_0000_0000,
    ensures
        rule_order(i, j) < rule_order(k, l),
{
}

/// A data rule whose configuration names no operations covers every
/// operation; a command rule whose configuration names none covers read and
/// exec, and no other.
pub proof fn lemma_operations_where_none_are_named(operation: Operation)
    ensures
        operation_accepted(data_operations(None), operation),
        operation_accepted(command_operations(None), operation) <==> operation == Operation::Read
            || operation == Operation::Exec,
{
    assert(command_operations(None).contains(Operation::Read));
}

/// At most one text is the first of a list that names no effect.
pub proof fn lemma_first_unknown_unique(texts: Seq<Seq<char>>, m: int, n: int)
    requires
        first_unknown(texts, m),
        first_unknown(texts, n),
    ensures
        m == n,
{
}

impl NacmRule {
    /// A rule decides what its effect says, and the decision is logged as the
    /// flag for that effect says; the flag for the other effect plays no part.
    pub proof fn lemma_logging_follows_effect(&self)
        ensures
            self.outcome().effect == self.effect,
            self.effect == RuleEffect::Permit ==> self.outcome().should_log == self.log_if_permit,
            self.effect == RuleEffect::Deny ==> self.outcome().should_log == self.log_if_deny,
    {
    }
}

impl NacmCommandRule {
    /// A command rule decides what its effect says, and the decision is
    /// logged as the flag for that effect says; the flag for the other effect
    /// plays no part.
    pub proof fn lemma_logging_follows_effect(&self)
        ensures
            self.outcome().effect == self.effect,
            self.effect == RuleEffect::Permit ==> self.outcome().should_log == self.log_if_permit,
            self.effect == RuleEffect::Deny ==> self.outcome().should_log == self.log_if_deny,
    {
    }
}

impl NacmRuleList {
    /// A rule list that names `"*"` among its groups applies to every user,
    /// whatever groups the user belongs to.
    pub proof fn lemma_wildcard_applies_to_all(&self, k: int, groups: Set<Seq<char>>)
        requires
            0 <= k < self.groups@.len(),
            self.groups@[k]@ == "*"@,
        ensures
            self.spec_applies_to(groups),
    {
    }
}

impl NacmConfig {
    /// While the policy is switched off, every request is permitted and no
    /// decision is logged.
    pub proof fn lemma_disabled_policy_permits(&self, req: RequestView)
        requires
            !self.enable_nacm,
        ensures
            self.decision(req) == (ValidationResult {
                effect: RuleEffect::Permit,
                should_log: false,
            }),
    {
    }

    /// A request on data that no rule matches, in the lists that apply to its
    /// user, gets the default of its operation's class: the read default for
    /// a read, the write default for a create, an update or a delete, the
    /// exec default for an exec. The decision is logged as the flag for
    /// defaults of that effect says.
    pub proof fn lemma_data_default_when_nothing_matches(&self, req: RequestView)
        requires
            self.enable_nacm,
            req.command is None,
            forall|i: int, j: int|
                !self.data_candidate(req, self.groups.spec_groups_of(req.user), i, j),
        ensures
            req.operation == Operation::Read ==> self.decision(req).effect == self.read_default,
            req.operation == Operation::Create || req.operation == Operation::Update
                || req.operation == Operation::Delete ==> self.decision(req).effect
                == self.write_default,
            req.operation == Operation::Exec ==> self.decision(req).effect == self.exec_default,
            self.decision(req).effect == RuleEffect::Permit ==> self.decision(req).should_log
                == self.log_if_default_permit,
            self.decision(req).effect == RuleEffect::Deny ==> self.decision(req).should_log
                == self.log_if_default_deny,
    {
        let groups = self.groups.spec_groups_of(req.user);
        assert forall|i: int, j: int| !self.data_decider(req, groups, i, j) by {
            assert(!self.data_candidate(req, groups, i, j));
        }
    }

    /// A request on a command that no command rule matches, in the lists that
    /// apply to its user, gets the command read default for a read and the
    /// command exec default for every other operation. The decision is logged
    /// as the flag for defaults of that effect says.
    pub proof fn lemma_command_default_when_nothing_matches(&self, req: RequestView)
        requires
            self.enable_nacm,
            req.command is Some,
            forall|i: int, j: int|
                !self.command_candidate(req, self.groups.spec_groups_of(req.user), i, j),
        ensures
            req.operation == Operation::Read ==> self.decision(req).effect
                == self.cmd_read_default,
            req.operation != Operation::Read ==> self.decision(req).effect
                == self.cmd_exec_default,
            self.decision(req).effect == RuleEffect::Permit ==> self.decision(req).should_log
                == self.log_if_default_permit,
            self.decision(req).effect == RuleEffect::Deny ==> self.decision(req).should_log
                == self.log_if_default_deny,
    {
        let groups = self.groups.spec_groups_of(req.user);
        assert forall|i: int, j: int| !self.command_decider(req, groups, i, j) by {
            assert(!self.command_candidate(req, groups, i, j));
        }
    }

    /// The candidate that takes precedence among the data rules before the
    /// place `(i, j)`, if there is a candidate there.
    proof fn lemma_data_best_before(
        &self,
        req: RequestView,
        groups: Set<Seq<char>>,
        i: int,
        j: int,
    ) -> (b: Option<(int, int)>)
        requires
            0 <= i <= self.rule_lists@.len(),
            i < self.rule_lists@.len() ==> 0 <= j <= self.rule_lists@[i].rules@.len(),
            i == self.rule_lists@.len() ==> j == 0,
        ensures
            b is None ==> forall|k: int, l: int| #[trigger]
                self.data_candidate(req, groups, k, l) ==> !lies_before(k, l, i, j),
            b matches Some(p) ==> {
                &&& self.data_candidate(req, groups, p.0, p.1)
                &&& lies_before(p.0, p.1, i, j)
                &&& forall|k: int, l: int| #[trigger]
                    self.data_candidate(req, groups, k, l) && lies_before(k, l, i, j)
                        ==> takes_precedence(
                        self.rule_lists@[p.0].rules@[p.1].order,
                        p.0,
                        p.1,
                        self.rule_lists@[k].rules@[l].order,
                        k,
                        l,
                    )
            },
        decreases i, j,
    {
        if j > 0 {
            let prior = self.lemma_data_best_before(req, groups, i, j - 1);
            if self.data_candidate(req, groups, i, j - 1) {
                match prior {
                    Some(p) => {
                        if self.rule_lists@[i].rules@[j - 1].order
                            < self.rule_lists@[p.0].rules@[p.1].order {
                            Some((i, j - 1))
                        } else {
                            prior
                        }
                    },
                    None => Some((i, j - 1)),
                }
            } else {
                prior
            }
        } else if i > 0 {
            self.lemma_data_best_before(req, groups, i - 1, self.rule_lists@[i - 1].rules@.len() as int)
        } else {
            None
        }
    }

    /// The candidate that takes precedence among the command rules before the
    /// place `(i, j)`, if there is a candidate there.
    proof fn lemma_command_best_before(
        &self,
        req: RequestView,
        groups: Set<Seq<char>>,
        i: int,
        j: int,
    ) -> (b: Option<(int, int)>)
        requires
            0 <= i <= self.rule_lists@.len(),
            i < self.rule_lists@.len() ==> 0 <= j <= self.rule_lists@[i].command_rules@.len(),
            i == self.rule_lists@.len() ==> j == 0,
        ensures
            b is None ==> forall|k: int, l: int| #[trigger]
                self.command_candidate(req, groups, k, l) ==> !lies_before(k, l, i, j),
            b matches Some(p) ==> {
                &&& self.command_candidate(req, groups, p.0, p.1)
                &&& lies_before(p.0, p.1, i, j)
                &&& forall|k: int, l: int| #[trigger]
                    self.command_candidate(req, groups, k, l) && lies_before(k, l, i, j)
                        ==> takes_precedence(
                        self.rule_lists@[p.0].command_rules@[p.1].order,
                        p.0,
                        p.1,
                        self.rule_lists@[k].command_rules@[l].order,
                        k,
                        l,
                    )
            },
        decreases i, j,
    {
        if j > 0 {
            let prior = self.lemma_command_best_before(req, groups, i, j - 1);
            if self.command_candidate(req, groups, i, j - 1) {
                match prior {
                    Some(p) => {
                        if self.rule_lists@[i].command_rules@[j - 1].order
                            < self.rule_lists@[p.0].command_rules@[p.1].order {
                            Some((i, j - 1))
                        } else {
                            prior
                        }
                    },
                    None => Some((i, j - 1)),
                }
            } else {
                prior
            }
        } else if i > 0 {
            self.lemma_command_best_before(
                req,
                groups,
                i - 1,
                self.rule_lists@[i - 1].command_rules@.len() as int,
            )
        } else {
            None
        }
    }

    /// Where a data rule matches a request, in a list that applies to its
    /// user, the request is decided by such a rule, and by one whose order is
    /// no higher than that of any other: the lowest order wins, wherever in
    /// the rule lists the rules stand.
    pub proof fn lemma_data_lowest_order_decides(&self, req: RequestView, k: int, l: int)
        requires
            self.enable_nacm,
            req.command is None,
            self.data_candidate(req, self.groups.spec_groups_of(req.user), k, l),
        ensures
            exists|i: int, j: int|
                {
                    &&& #[trigger] self.data_decider(
                        req,
                        self.groups.spec_groups_of(req.user),
                        i,
                        j,
                    )
                    &&& self.rule_lists@[i].rules@[j].order <= self.rule_lists@[k].rules@[l].order
                    &&& self.decision(req) == self.rule_lists@[i].rules@[j].outcome()
                },
    {
        let groups = self.groups.spec_groups_of(req.user);
        let best = self.lemma_data_best_before(req, groups, self.rule_lists@.len() as int, 0);
        assert(lies_before(k, l, self.rule_lists@.len() as int, 0));
        let p = best->0;
        assert(self.data_decider(req, groups, p.0, p.1));
        let (ci, cj) = choose|i: int, j: int| self.data_decider(req, groups, i, j);
        self.lemma_data_decider_unique(req, groups, p.0, p.1, ci, cj);
    }

    /// Where a command rule matches a request, in a list that applies to its
    /// user, the request is decided by such a rule, and by one whose order is
    /// no higher than that of any other.
    pub proof fn lemma_command_lowest_order_decides(&self, req: RequestView, k: int, l: int)
        requires
            self.enable_nacm,
            req.command is Some,
            self.command_candidate(req, self.groups.spec_groups_of(req.user), k, l),
        ensures
            exists|i: int, j: int|
                {
                    &&& #[trigger] self.command_decider(
                        req,
                        self.groups.spec_groups_of(req.user),
                        i,
                        j,
                    )
                    &&& self.rule_lists@[i].command_rules@[j].order
                        <= self.rule_lists@[k].command_rules@[l].order
                    &&& self.decision(req) == self.rule_lists@[i].command_rules@[j].outcome()
                },
    {
        let groups = self.groups.spec_groups_of(req.user);
        let best = self.lemma_command_best_before(req, groups, self.rule_lists@.len() as int, 0);
        assert(lies_before(k, l, self.rule_lists@.len() as int, 0));
        let p = best->0;
        assert(self.command_decider(req, groups, p.0, p.1));
        let (ci, cj) = choose|i: int, j: int| self.command_decider(req, groups, i, j);
        self.lemma_command_decider_unique(req, groups, p.0, p.1, ci, cj);
    }

    /// A matching data rule whose order is lower than that of every other
    /// matching data rule decides the request.
    pub proof fn lemma_data_strictly_lowest_wins(&self, req: RequestView, i: int, j: int)
        requires
            self.enable_nacm,
            req.command is None,
            self.data_candidate(req, self.groups.spec_groups_of(req.user), i, j),
            forall|k: int, l: int| #[trigger]
                self.data_candidate(req, self.groups.spec_groups_of(req.user), k, l) && (k != i
                    || l != j) ==> self.rule_lists@[i].rules@[j].order
                    < self.rule_lists@[k].rules@[l].order,
        ensures
            self.decision(req) == self.rule_lists@[i].rules@[j].outcome(),
    {
        let groups = self.groups.spec_groups_of(req.user);
        assert(self.data_decider(req, groups, i, j));
        let (ci, cj) = choose|i: int, j: int| self.data_decider(req, groups, i, j);
        self.lemma_data_decider_unique(req, groups, i, j, ci, cj);
    }

    /// A matching command rule whose order is lower than that of every other
    /// matching command rule decides the request.
    pub proof fn lemma_command_strictly_lowest_wins(&self, req: RequestView, i: int, j: int)
        requires
            self.enable_nacm,
            req.command is Some,
            self.command_candidate(req, self.groups.spec_groups_of(req.user), i, j),
            forall|k: int, l: int| #[trigger]
                self.command_candidate(req, self.groups.spec_groups_of(req.user), k, l) && (k
                    != i || l != j) ==> self.rule_lists@[i].command_rules@[j].order
                    < self.rule_lists@[k].command_rules@[l].order,
        ensures
            self.decision(req) == self.rule_lists@[i].command_rules@[j].outcome(),
    {
        let groups = self.groups.spec_groups_of(req.user);
        assert(self.command_decider(req, groups, i, j));
        let (ci, cj) = choose|i: int, j: int| self.command_decider(req, groups, i, j);
        self.lemma_command_decider_unique(req, groups, i, j, ci, cj);
    }

    /// Every data rule has the order of its place, no list holds more than
    /// a thousand of them, and the orders fit in 32 bits.
    pub open spec fn data_orders_by_place(&self) -> bool {
        &&& self.rule_lists@.len() * 1000 <= 0x1_0000_0000
        &&& forall|i: int|
            0 <= i < self.rule_lists@.len() ==> (#[trigger] self.rule_lists@[i]).rules@.len() <= 1000
        &&& forall|i: int, j: int|
            0 <= i < self.rule_lists@.len() && 0 <= j < self.rule_lists@[i].rules@.len() ==> (
            #[trigger] self.rule_lists@[i].rules@[j]).order == rule_order(i, j)
    }

    /// Every command rule has the order of its place, no list holds more
    /// than a thousand of them, and the orders fit in 32 bits.
    pub open spec fn command_orders_by_place(&self) -> bool {
        &&& self.rule_lists@.len() * 1000 <= 0x1_0000_0000
        &&& forall|i: int|
            0 <= i < self.rule_lists@.len() ==> (
            #[trigger] self.rule_lists@[i]).command_rules@.len() <= 1000
        &&& forall|i: int, j: int|
            0 <= i < self.rule_lists@.len() && 0 <= j < self.rule_lists@[i].command_rules@.len()
                ==> (#[trigger] self.rule_lists@[i].command_rules@[j]).order == rule_order(i, j)
    }

    /// Where the data rules have the orders of their places, the first rule
    /// that matches decides: first by the place of its list, then by its
    /// place in the list.
    pub proof fn lemma_first_data_match_decides(&self, req: RequestView, i: int, j: int)
        requires
            self.enable_nacm,
            req.command is None,
            self.data_orders_by_place(),
            self.data_candidate(req, self.groups.spec_groups_of(req.user), i, j),
            forall|k: int, l: int| #[trigger]
                self.data_candidate(req, self.groups.spec_groups_of(req.user), k, l)
                    ==> !lies_before(k, l, i, j),
        ensures
            self.decision(req) == self.rule_lists@[i].rules@[j].outcome(),
    {
        let groups = self.groups.spec_groups_of(req.user);
        assert forall|k: int, l: int| #[trigger]
            self.data_candidate(req, groups, k, l) implies takes_precedence(
            self.rule_lists@[i].rules@[j].order,
            i,
            j,
            self.rule_lists@[k].rules@[l].order,
            k,
            l,
        ) by {
            assert(self.rule_lists@[i].rules@.len() <= 1000);
            assert(self.rule_lists@[k].rules@.len() <= 1000);
            assert(self.rule_lists@[i].rules@[j].order == rule_order(i, j));
            assert(self.rule_lists@[k].rules@[l].order == rule_order(k, l));
            if lies_before(i, j, k, l) {
                lemma_rule_order_increases(i, j, k, l);
            }
        }
        assert(self.data_decider(req, groups, i, j));
        let (ci, cj) = choose|i: int, j: int| self.data_decider(req, groups, i, j);
        self.lemma_data_decider_unique(req, groups, i, j, ci, cj);
    }

    /// Where the command rules have the orders of their places, the first
    /// command rule that matches decides: first by the place of its list,
    /// then by its place in the list.
    pub proof fn lemma_first_command_match_decides(&self, req: RequestView, i: int, j: int)
        requires
            self.enable_nacm,
            req.command is Some,
            self.command_orders_by_place(),
            self.command_candidate(req, self.groups.spec_groups_of(req.user), i, j),
            forall|k: int, l: int| #[trigger]
                self.command_candidate(req, self.groups.spec_groups_of(req.user), k, l)
                    ==> !lies_before(k, l, i, j),
        ensures
            self.decision(req) == self.rule_lists@[i].command_rules@[j].outcome(),
    {
        let groups = self.groups.spec_groups_of(req.user);
        assert forall|k: int, l: int| #[trigger]
            self.command_candidate(req, groups, k, l) implies takes_precedence(
            self.rule_lists@[i].command_rules@[j].order,
            i,
            j,
            self.rule_lists@[k].command_rules@[l].order,
            k,
            l,
        ) by {
            assert(self.rule_lists@[i].command_rules@.len() <= 1000);
            assert(self.rule_lists@[k].command_rules@.len() <= 1000);
            assert(self.rule_lists@[i].command_rules@[j].order == rule_order(i, j));
            assert(self.rule_lists@[k].command_rules@[l].order == rule_order(k, l));
            if lies_before(i, j, k, l) {
                lemma_rule_order_increases(i, j, k, l);
            }
        }
        assert(self.command_decider(req, groups, i, j));
        let (ci, cj) = choose|i: int, j: int| self.command_decider(req, groups, i, j);
        self.lemma_command_decider_unique(req, groups, i, j, ci, cj);
    }
}

impl XmlConfig {
    /// A document reports at most one text as its first unknown effect.
    pub proof fn lemma_first_unknown_effect_unique(&self, a: Seq<char>, b: Seq<char>)
        requires
            self.first_unknown_effect(a),
            self.first_unknown_effect(b),
        ensures
            a == b,
    {
        let lists = self.nacm.rule_lists@;
        let defaults = self.default_texts();
        if exists|i: int, n: int| #[trigger]
            self.first_unknown_in_lists(i, n) && lists[i].effect_texts()[n] == a {
            let (i, n) = choose|i: int, n: int| #[trigger]
                self.first_unknown_in_lists(i, n) && lists[i].effect_texts()[n] == a;
            assert(!all_known(lists[i].effect_texts()));
            self.lemma_first_unknown_is_in_list(b, i, n);
        } else {
            let m = choose|n: int| #[trigger]
                self.first_unknown_in_defaults(n) && defaults[n] == a;
            if exists|i: int, n: int| #[trigger]
                self.first_unknown_in_lists(i, n) && lists[i].effect_texts()[n] == b {
                let (i, n) = choose|i: int, n: int| #[trigger]
                    self.first_unknown_in_lists(i, n) && lists[i].effect_texts()[n] == b;
                assert(!all_known(lists[i].effect_texts()));
            } else {
                let n = choose|n: int| #[trigger]
                    self.first_unknown_in_defaults(n) && defaults[n] == b;
                lemma_first_unknown_unique(defaults, m, n);
            }
        }
    }

    /// Where the text at place `n` of the rule list at place `i` is the first
    /// unknown effect of the rule lists, it is the text that the document
    /// reports.
    proof fn lemma_first_unknown_is_in_list(&self, text: Seq<char>, i: int, n: int)
        requires
            self.first_unknown_in_lists(i, n),
            self.first_unknown_effect(text),
        ensures
            text == self.nacm.rule_lists@[i].effect_texts()[n],
    {
        let lists = self.nacm.rule_lists@;
        assert(!all_known(lists[i].effect_texts()));
        let (k, m) = choose|k: int, m: int| #[trigger]
            self.first_unknown_in_lists(k, m) && lists[k].effect_texts()[m] == text;
        assert(!all_known(lists[k].effect_texts()));
        lemma_first_unknown_unique(lists[i].effect_texts(), m, n);
    }

    /// In the policy that a document declares, the rules have the orders of
    /// their places, as long as the document has no list with more than a
    /// thousand rules of a kind and the orders fit in 32 bits. There the
    /// first rule that matches decides.
    pub proof fn lemma_declared_orders_by_place(&self, config: &NacmConfig)
        requires
            self.converts_to(config),
            self.nacm.rule_lists@.len() * 1000 <= 0x1_0000_0000,
            forall|i: int|
                0 <= i < self.nacm.rule_lists@.len() ==> (#[trigger] self.nacm.rule_lists@[i]).rule@.len()
                    <= 1000 && self.nacm.rule_lists@[i].cmdrule@.len() <= 1000,
        ensures
            config.data_orders_by_place(),
            config.command_orders_by_place(),
    {
        assert forall|i: int| 0 <= i < config.rule_lists@.len() implies (
        #[trigger] config.rule_lists@[i]).rules@.len() <= 1000 && config.rule_lists@[i].command_rules@.len()
            <= 1000 by {
            assert(self.nacm.rule_lists@[i].converts_to(i, &config.rule_lists@[i]));
        }
        assert forall|i: int, j: int|
            0 <= i < config.rule_lists@.len() && 0 <= j
                < config.rule_lists@[i].rules@.len() implies (
        #[trigger] config.rule_lists@[i].rules@[j]).order == rule_order(i, j) by {
            assert(self.nacm.rule_lists@[i].converts_to(i, &config.rule_lists@[i]));
            assert(self.nacm.rule_lists@[i].rule@[j].converts_to(
                rule_order(i, j),
                &config.rule_lists@[i].rules@[j],
            ));
        }
        assert forall|i: int, j: int|
            0 <= i < config.rule_lists@.len() && 0 <= j
                < config.rule_lists@[i].command_rules@.len() implies (
        #[trigger] config.rule_lists@[i].command_rules@[j]).order == rule_order(i, j) by {
            assert(self.nacm.rule_lists@[i].converts_to(i, &config.rule_lists@[i]));
            assert(self.nacm.rule_lists@[i].cmdrule@[j].converts_to(
                rule_order(i, j),
                &config.rule_lists@[i].command_rules@[j],
            ));
        }
    }
}

} // verus!
