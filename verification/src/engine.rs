//! The decision: which rule decides a request, and what is decided when none
//! does.
//!
//! Among the rules that match a request, in the rule lists that apply to the
//! user, the one with the lowest `order` decides. Where several share the
//! lowest `order`, the first of them decides, by the place of its list and
//! then by its place in the list. Where no rule matches, the default policy
//! for the operation decides.

use vstd::prelude::*;
use crate::groups::name_set;
use crate::model::{
    AccessRequest, NacmCommandRule, NacmConfig, NacmRule, NacmRuleList, Operation, RequestView,
    RuleEffect, ValidationResult,
};
use crate::text::same_text;

verus! {

/// A rule of order `a` at place `j` of list `i` comes before a rule of order
/// `b` at place `l` of list `k`, or is that rule.
pub open spec fn takes_precedence(a: u32, i: int, j: int, b: u32, k: int, l: int) -> bool {
    a < b || (a == b && (i < k || (i == k && j <= l)))
}

/// The place `(i, j)` lies before the place `(k, l)`.
pub open spec fn lies_before(i: int, j: int, k: int, l: int) -> bool {
    i < k || (i == k && j < l)
}

impl NacmRule {
    /// What the rule decides, with the logging flag that goes with its effect.
    pub open spec fn outcome(&self) -> ValidationResult {
        ValidationResult {
            effect: self.effect,
            should_log: match self.effect {
                RuleEffect::Permit => self.log_if_permit,
                RuleEffect::Deny => self.log_if_deny,
            },
        }
    }

    /// What the rule decides, with the logging flag that goes with its effect.
    pub fn decide(&self) -> (r: ValidationResult)
        ensures
            r == self.outcome(),
    {
        let should_log = match self.effect {
            RuleEffect::Permit => self.log_if_permit,
            RuleEffect::Deny => self.log_if_deny,
        };
        ValidationResult { effect: self.effect, should_log }
    }
}

impl NacmCommandRule {
    /// What the rule decides, with the logging flag that goes with its effect.
    pub open spec fn outcome(&self) -> ValidationResult {
        ValidationResult {
            effect: self.effect,
            should_log: match self.effect {
                RuleEffect::Permit => self.log_if_permit,
                RuleEffect::Deny => self.log_if_deny,
            },
        }
    }

    /// What the rule decides, with the logging flag that goes with its effect.
    pub fn decide(&self) -> (r: ValidationResult)
        ensures
            r == self.outcome(),
    {
        let should_log = match self.effect {
            RuleEffect::Permit => self.log_if_permit,
            RuleEffect::Deny => self.log_if_deny,
        };
        ValidationResult { effect: self.effect, should_log }
    }
}

impl NacmRuleList {
    /// The list applies to a user with the groups `groups`: one of its entries
    /// is `"*"` or the name of one of those groups.
    pub open spec fn spec_applies_to(&self, groups: Set<Seq<char>>) -> bool {
        exists|k: int|
            0 <= k < self.groups@.len() && ((#[trigger] self.groups@[k])@ == "*"@
                || groups.contains(self.groups@[k]@))
    }

    /// Whether the list applies to a user who belongs to `user_groups`.
    pub fn applies_to(&self, user_groups: &[&str]) -> (r: bool)
        ensures
            r == self.spec_applies_to(name_set(user_groups@)),
    {
        let mut k: usize = 0;
        while k < self.groups.len()
            invariant
                k <= self.groups@.len(),
                forall|m: int|
                    0 <= m < k ==> (#[trigger] self.groups@[m])@ != "*"@ && !name_set(
                        user_groups@,
                    ).contains(self.groups@[m]@),
            decreases self.groups@.len() - k,
        {
            let entry = self.groups[k].as_str();
            if same_text(entry, "*") {
                return true;
            }
            let mut n: usize = 0;
            while n < user_groups.len()
                invariant
                    n <= user_groups@.len(),
                    k < self.groups@.len(),
                    entry@ == self.groups@[k as int]@,
                    forall|m: int| 0 <= m < n ==> (#[trigger] user_groups@[m])@ != entry@,
                decreases user_groups@.len() - n,
            {
                if same_text(user_groups[n], entry) {
                    assert(name_set(user_groups@).contains(self.groups@[k as int]@));
                    return true;
                }
                n += 1;
            }
            k += 1;
        }
        false
    }
}

impl NacmConfig {
    /// A decision by default: the effect, and the logging flag the policy
    /// keeps for that effect.
    pub open spec fn default_outcome(&self, effect: RuleEffect) -> ValidationResult {
        ValidationResult {
            effect,
            should_log: match effect {
                RuleEffect::Permit => self.log_if_default_permit,
                RuleEffect::Deny => self.log_if_default_deny,
            },
        }
    }

    /// The default for a request on data: by the class of its operation.
    pub open spec fn data_default(&self, operation: Operation) -> ValidationResult {
        self.default_outcome(
            match operation {
                Operation::Read => self.read_default,
                Operation::Create | Operation::Update | Operation::Delete => self.write_default,
                Operation::Exec => self.exec_default,
            },
        )
    }

    /// The default for a request on a command: the read default for a read,
    /// the exec default for every other operation.
    pub open spec fn command_default(&self, operation: Operation) -> ValidationResult {
        self.default_outcome(
            match operation {
                Operation::Read => self.cmd_read_default,
                _ => self.cmd_exec_default,
            },
        )
    }

    /// The data rule at place `j` of list `i` is a candidate: the list applies
    /// to the user's groups and the rule matches the request.
    pub open spec fn data_candidate(
        &self,
        req: RequestView,
        groups: Set<Seq<char>>,
        i: int,
        j: int,
    ) -> bool {
        &&& 0 <= i < self.rule_lists@.len()
        &&& self.rule_lists@[i].spec_applies_to(groups)
        &&& 0 <= j < self.rule_lists@[i].rules@.len()
        &&& self.rule_lists@[i].rules@[j].spec_matches(req)
    }

    /// The data rule at place `j` of list `i` decides: it is a candidate and
    /// takes precedence over every candidate.
    pub open spec fn data_decider(
        &self,
        req: RequestView,
        groups: Set<Seq<char>>,
        i: int,
        j: int,
    ) -> bool {
        &&& self.data_candidate(req, groups, i, j)
        &&& forall|k: int, l: int| #[trigger]
            self.data_candidate(req, groups, k, l) ==> takes_precedence(
                self.rule_lists@[i].rules@[j].order,
                i,
                j,
                self.rule_lists@[k].rules@[l].order,
                k,
                l,
            )
    }

    /// The decision on a request on data by a user with the groups `groups`.
    pub open spec fn data_decision(
        &self,
        req: RequestView,
        groups: Set<Seq<char>>,
    ) -> ValidationResult {
        if exists|i: int, j: int| self.data_decider(req, groups, i, j) {
            let (i, j) = choose|i: int, j: int| self.data_decider(req, groups, i, j);
            self.rule_lists@[i].rules@[j].outcome()
        } else {
            self.data_default(req.operation)
        }
    }

    /// The command rule at place `j` of list `i` is a candidate: the list
    /// applies to the user's groups and the rule matches the request.
    pub open spec fn command_candidate(
        &self,
        req: RequestView,
        groups: Set<Seq<char>>,
        i: int,
        j: int,
    ) -> bool {
        &&& 0 <= i < self.rule_lists@.len()
        &&& self.rule_lists@[i].spec_applies_to(groups)
        &&& 0 <= j < self.rule_lists@[i].command_rules@.len()
        &&& self.rule_lists@[i].command_rules@[j].spec_matches(req)
    }

    /// The command rule at place `j` of list `i` decides: it is a candidate
    /// and takes precedence over every candidate.
    pub open spec fn command_decider(
        &self,
        req: RequestView,
        groups: Set<Seq<char>>,
        i: int,
        j: int,
    ) -> bool {
        &&& self.command_candidate(req, groups, i, j)
        &&& forall|k: int, l: int| #[trigger]
            self.command_candidate(req, groups, k, l) ==> takes_precedence(
                self.rule_lists@[i].command_rules@[j].order,
                i,
                j,
                self.rule_lists@[k].command_rules@[l].order,
                k,
                l,
            )
    }

    /// The decision on a request on a command by a user with the groups
    /// `groups`.
    pub open spec fn command_decision(
        &self,
        req: RequestView,
        groups: Set<Seq<char>>,
    ) -> ValidationResult {
        if exists|i: int, j: int| self.command_decider(req, groups, i, j) {
            let (i, j) = choose|i: int, j: int| self.command_decider(req, groups, i, j);
            self.rule_lists@[i].command_rules@[j].outcome()
        } else {
            self.command_default(req.operation)
        }
    }

    /// The decision on a request: permit, unlogged, while the policy is
    /// switched off; else the decision on the command, where the request
    /// carries one, and on the data otherwise.
    pub open spec fn decision(&self, req: RequestView) -> ValidationResult {
        if !self.enable_nacm {
            ValidationResult { effect: RuleEffect::Permit, should_log: false }
        } else if req.command is Some {
            self.command_decision(req, self.groups.spec_groups_of(req.user))
        } else {
            self.data_decision(req, self.groups.spec_groups_of(req.user))
        }
    }

    /// At most one data rule decides.
    pub proof fn lemma_data_decider_unique(
        &self,
        req: RequestView,
        groups: Set<Seq<char>>,
        i: int,
        j: int,
        k: int,
        l: int,
    )
        requires
            self.data_decider(req, groups, i, j),
            self.data_decider(req, groups, k, l),
        ensures
            i == k && j == l,
    {
    }

    /// At most one command rule decides.
    pub proof fn lemma_command_decider_unique(
        &self,
        req: RequestView,
        groups: Set<Seq<char>>,
        i: int,
        j: int,
        k: int,
        l: int,
    )
        requires
            self.command_decider(req, groups, i, j),
            self.command_decider(req, groups, k, l),
        ensures
            i == k && j == l,
    {
    }

    /// The decision by default on a request on data.
    fn default_for_data(&self, operation: &Operation) -> (r: ValidationResult)
        ensures
            r == self.data_default(*operation),
    {
        let effect = match operation {
            Operation::Read => self.read_default,
            Operation::Create | Operation::Update | Operation::Delete => self.write_default,
            Operation::Exec => self.exec_default,
        };
        self.by_default(effect)
    }

    /// The decision by default on a request on a command.
    fn default_for_command(&self, operation: &Operation) -> (r: ValidationResult)
        ensures
            r == self.command_default(*operation),
    {
        let effect = match operation {
            Operation::Read => self.cmd_read_default,
            _ => self.cmd_exec_default,
        };
        self.by_default(effect)
    }

    /// A decision by default, with the logging flag kept for its effect.
    fn by_default(&self, effect: RuleEffect) -> (r: ValidationResult)
        ensures
            r == self.default_outcome(effect),
    {
        let should_log = match effect {
            RuleEffect::Permit => self.log_if_default_permit,
            RuleEffect::Deny => self.log_if_default_deny,
        };
        ValidationResult { effect, should_log }
    }

    /// Decides a request on data for a user who belongs to `user_groups`.
    pub fn validate_data_request(
        &self,
        req: &AccessRequest,
        user_groups: &[&str],
    ) -> (r: ValidationResult)
        ensures
            r == self.data_decision(req@, name_set(user_groups@)),
    {
        let ghost groups = name_set(user_groups@);
        let mut best: Option<&NacmRule> = None;
        let ghost mut bi: int = 0;
        let ghost mut bj: int = 0;
        let mut i: usize = 0;
        while i < self.rule_lists.len()
            invariant
                groups == name_set(user_groups@),
                i <= self.rule_lists@.len(),
                best is None ==> forall|k: int, l: int| #[trigger]
                    self.data_candidate(req@, groups, k, l) ==> !(k < i),
                best is Some ==> {
                    &&& self.data_candidate(req@, groups, bi, bj)
                    &&& bi < i
                    &&& *best->0 == self.rule_lists@[bi].rules@[bj]
                    &&& forall|k: int, l: int| #[trigger]
                        self.data_candidate(req@, groups, k, l) && k < i ==> takes_precedence(
                            self.rule_lists@[bi].rules@[bj].order,
                            bi,
                            bj,
                            self.rule_lists@[k].rules@[l].order,
                            k,
                            l,
                        )
                },
            decreases self.rule_lists@.len() - i,
        {
            let list = &self.rule_lists[i];
            if list.applies_to(user_groups) {
                let mut j: usize = 0;
                while j < list.rules.len()
                    invariant
                        groups == name_set(user_groups@),
                        i < self.rule_lists@.len(),
                        *list == self.rule_lists@[i as int],
                        list.spec_applies_to(groups),
                        j <= list.rules@.len(),
                        best is None ==> forall|k: int, l: int| #[trigger]
                            self.data_candidate(req@, groups, k, l) ==> !lies_before(
                                k,
                                l,
                                i as int,
                                j as int,
                            ),
                        best is Some ==> {
                            &&& self.data_candidate(req@, groups, bi, bj)
                            &&& lies_before(bi, bj, i as int, j as int)
                            &&& *best->0 == self.rule_lists@[bi].rules@[bj]
                            &&& forall|k: int, l: int| #[trigger]
                                self.data_candidate(req@, groups, k, l) && lies_before(
                                    k,
                                    l,
                                    i as int,
                                    j as int,
                                ) ==> takes_precedence(
                                    self.rule_lists@[bi].rules@[bj].order,
                                    bi,
                                    bj,
                                    self.rule_lists@[k].rules@[l].order,
                                    k,
                                    l,
                                )
                        },
                    decreases list.rules@.len() - j,
                {
                    let rule = &list.rules[j];
                    if self.rule_matches(rule, req) {
                        let better = match best {
                            Some(b) => rule.order < b.order,
                            None => true,
                        };
                        if better {
                            best = Some(rule);
                            proof {
                                bi = i as int;
                                bj = j as int;
                            }
                        }
                    }
                    j += 1;
                }
            }
            i += 1;
        }
        match best {
            Some(rule) => {
                proof {
                    assert(self.data_decider(req@, groups, bi, bj));
                    let (ci, cj) = choose|i: int, j: int| self.data_decider(req@, groups, i, j);
                    self.lemma_data_decider_unique(req@, groups, bi, bj, ci, cj);
                }
                rule.decide()
            },
            None => {
                proof {
                    assert forall|i: int, j: int| !self.data_decider(req@, groups, i, j) by {
                        if self.data_decider(req@, groups, i, j) {
                            assert(self.data_candidate(req@, groups, i, j));
                        }
                    }
                }
                self.default_for_data(&req.operation)
            },
        }
    }

    /// Decides a request on a command for a user who belongs to `user_groups`.
    pub fn validate_command_request(
        &self,
        req: &AccessRequest,
        user_groups: &[&str],
    ) -> (r: ValidationResult)
        ensures
            r == self.command_decision(req@, name_set(user_groups@)),
    {
        let ghost groups = name_set(user_groups@);
        let mut best: Option<&NacmCommandRule> = None;
        let ghost mut bi: int = 0;
        let ghost mut bj: int = 0;
        let mut i: usize = 0;
        while i < self.rule_lists.len()
            invariant
                groups == name_set(user_groups@),
                i <= self.rule_lists@.len(),
                best is None ==> forall|k: int, l: int| #[trigger]
                    self.command_candidate(req@, groups, k, l) ==> !(k < i),
                best is Some ==> {
                    &&& self.command_candidate(req@, groups, bi, bj)
                    &&& bi < i
                    &&& *best->0 == self.rule_lists@[bi].command_rules@[bj]
                    &&& forall|k: int, l: int| #[trigger]
                        self.command_candidate(req@, groups, k, l) && k < i ==> takes_precedence(
                            self.rule_lists@[bi].command_rules@[bj].order,
                            bi,
                            bj,
                            self.rule_lists@[k].command_rules@[l].order,
                            k,
                            l,
                        )
                },
            decreases self.rule_lists@.len() - i,
        {
            let list = &self.rule_lists[i];
            if list.applies_to(user_groups) {
                let mut j: usize = 0;
                while j < list.command_rules.len()
                    invariant
                        groups == name_set(user_groups@),
                        i < self.rule_lists@.len(),
                        *list == self.rule_lists@[i as int],
                        list.spec_applies_to(groups),
                        j <= list.command_rules@.len(),
                        best is None ==> forall|k: int, l: int| #[trigger]
                            self.command_candidate(req@, groups, k, l) ==> !lies_before(
                                k,
                                l,
                                i as int,
                                j as int,
                            ),
                        best is Some ==> {
                            &&& self.command_candidate(req@, groups, bi, bj)
                            &&& lies_before(bi, bj, i as int, j as int)
                            &&& *best->0 == self.rule_lists@[bi].command_rules@[bj]
                            &&& forall|k: int, l: int| #[trigger]
                                self.command_candidate(req@, groups, k, l) && lies_before(
                                    k,
                                    l,
                                    i as int,
                                    j as int,
                                ) ==> takes_precedence(
                                    self.rule_lists@[bi].command_rules@[bj].order,
                                    bi,
                                    bj,
                                    self.rule_lists@[k].command_rules@[l].order,
                                    k,
                                    l,
                                )
                        },
                    decreases list.command_rules@.len() - j,
                {
                    let rule = &list.command_rules[j];
                    if self.command_rule_matches(rule, req) {
                        let better = match best {
                            Some(b) => rule.order < b.order,
                            None => true,
                        };
                        if better {
                            best = Some(rule);
                            proof {
                                bi = i as int;
                                bj = j as int;
                            }
                        }
                    }
                    j += 1;
                }
            }
            i += 1;
        }
        match best {
            Some(rule) => {
                proof {
                    assert(self.command_decider(req@, groups, bi, bj));
                    let (ci, cj) = choose|i: int, j: int| self.command_decider(req@, groups, i, j);
                    self.lemma_command_decider_unique(req@, groups, bi, bj, ci, cj);
                }
                rule.decide()
            },
            None => {
                proof {
                    assert forall|i: int, j: int| !self.command_decider(req@, groups, i, j) by {
                        if self.command_decider(req@, groups, i, j) {
                            assert(self.command_candidate(req@, groups, i, j));
                        }
                    }
                }
                self.default_for_command(&req.operation)
            },
        }
    }

    /// The names of the groups that `user` belongs to: those whose list of
    /// users holds `user`. A user in no group gets none.
    pub fn resolve_groups(&self, user: &str) -> (r: Vec<&str>)
        ensures
            name_set(r@) == self.groups.spec_groups_of(user@),
    {
        self.groups.groups_of(user)
    }

    /// Decides a request: permit, unlogged, while the policy is switched off;
    /// else by the rules that match it, and by default where none does.
    pub fn validate(&self, req: &AccessRequest) -> (r: ValidationResult)
        ensures
            r == self.decision(req@),
            !self.enable_nacm ==> r == (ValidationResult {
                effect: RuleEffect::Permit,
                should_log: false,
            }),
    {
        if !self.enable_nacm {
            return ValidationResult { effect: RuleEffect::Permit, should_log: false };
        }
        let user_groups = self.resolve_groups(req.user);
        if req.command.is_some() {
            return self.validate_command_request(req, user_groups.as_slice());
        }
        self.validate_data_request(req, user_groups.as_slice())
    }
}

} // verus!
