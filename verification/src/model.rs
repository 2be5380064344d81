//! The policy data model: effects, operations, rules, rule lists, groups and
//! the request that is judged against them.

use vstd::prelude::*;
use crate::context::RequestContext;
use crate::groups::GroupMap;
use crate::text::{copy_texts, same_text, slice_of, texts_of};

verus! {

/// The decision a rule or a default policy carries.
#[derive(Debug, Clone, Copy, PartialEq, Eq, Structural)]
pub enum RuleEffect {
    /// Allow the requested access.
    Permit,
    /// Refuse the requested access.
    Deny,
}

/// A decision together with the flag that says whether it is to be logged.
#[derive(Debug, Clone, Copy, PartialEq, Eq, Structural)]
pub struct ValidationResult {
    /// The access decision.
    pub effect: RuleEffect,
    /// Whether the decision should be logged.
    pub should_log: bool,
}

/// The kind of access a request asks for.
#[derive(Debug, Clone, Copy, PartialEq, Eq, Hash, Structural)]
pub enum Operation {
    /// Retrieving data.
    Read,
    /// Creating new data.
    Create,
    /// Modifying existing data.
    Update,
    /// Removing data.
    Delete,
    /// Running an RPC, an action or a command.
    Exec,
}

/// A set of operations. Its view is the mathematical set of its members.
#[derive(Debug, Clone, Copy, PartialEq, Eq, Structural)]
pub struct OperationSet {
    read: bool,
    create: bool,
    update: bool,
    delete: bool,
    execute: bool,
}

impl View for OperationSet {
    type V = Set<Operation>;

    closed spec fn view(&self) -> Set<Operation> {
        Set::new(
            |op: Operation|
                match op {
                    Operation::Read => self.read,
                    Operation::Create => self.create,
                    Operation::Update => self.update,
                    Operation::Delete => self.delete,
                    Operation::Exec => self.execute,
                },
        )
    }
}

impl OperationSet {
    /// The empty set.
    pub fn new() -> (r: Self)
        ensures
            r@ == Set::<Operation>::empty(),
    {
        let r = OperationSet { read: false, create: false, update: false, delete: false, execute: false };
        assert(r@ =~= Set::<Operation>::empty());
        r
    }

    /// Adds `op` to the set and says whether it was absent before.
    pub fn insert(&mut self, op: Operation) -> (fresh: bool)
        ensures
            final(self)@ == old(self)@.insert(op),
            fresh == !old(self)@.contains(op),
    {
        let fresh = !self.contains(&op);
        match op {
            Operation::Read => { self.read = true; },
            Operation::Create => { self.create = true; },
            Operation::Update => { self.update = true; },
            Operation::Delete => { self.delete = true; },
            Operation::Exec => { self.execute = true; },
        }
        assert(self@ =~= old(self)@.insert(op));
        fresh
    }

    /// Whether `op` is a member.
    pub fn contains(&self, op: &Operation) -> (r: bool)
        ensures
            r == self@.contains(*op),
    {
        match op {
            Operation::Read => self.read,
            Operation::Create => self.create,
            Operation::Update => self.update,
            Operation::Delete => self.delete,
            Operation::Exec => self.execute,
        }
    }

    /// The number of members.
    pub fn len(&self) -> (r: usize)
        ensures
            self@.finite(),
            r == self@.len(),
    {
        let mut n: usize = 0;
        let ghost mut counted = Set::<Operation>::empty();
        if self.read {
            n += 1;
            proof {
                counted = counted.insert(Operation::Read);
            }
        }
        if self.create {
            n += 1;
            proof {
                counted = counted.insert(Operation::Create);
            }
        }
        if self.update {
            n += 1;
            proof {
                counted = counted.insert(Operation::Update);
            }
        }
        if self.delete {
            n += 1;
            proof {
                counted = counted.insert(Operation::Delete);
            }
        }
        if self.execute {
            n += 1;
            proof {
                counted = counted.insert(Operation::Exec);
            }
        }
        assert(counted =~= self@);
        n
    }

    /// Whether the set has no member.
    pub fn is_empty(&self) -> (r: bool)
        ensures
            r == (self@ == Set::<Operation>::empty()),
    {
        let r = !(self.read || self.create || self.update || self.delete || self.execute);
        proof {
            if r {
                assert(self@ =~= Set::<Operation>::empty());
            } else {
                let witness = if self.read {
                    Operation::Read
                } else if self.create {
                    Operation::Create
                } else if self.update {
                    Operation::Update
                } else if self.delete {
                    Operation::Delete
                } else {
                    Operation::Exec
                };
                assert(self@.contains(witness));
            }
        }
        r
    }
}

/// A rule on access to data nodes and RPCs.
#[derive(Debug, Clone)]
pub struct NacmRule {
    /// The rule's name.
    pub name: String,
    /// The module the rule is about; `None` for any module.
    pub module_name: Option<String>,
    /// The RPC the rule is about; `None` for any, `"*"` for any or none.
    pub rpc_name: Option<String>,
    /// The data path the rule is about; `None` for any path.
    pub path: Option<String>,
    /// The operations the rule covers; the empty set covers every operation.
    pub access_operations: OperationSet,
    /// What the rule decides.
    pub effect: RuleEffect,
    /// The rule's precedence: the lower value wins.
    pub order: u32,
    /// The pattern the request's context must match; `None` for any context.
    pub context: Option<String>,
    /// Whether a permit by this rule is logged.
    pub log_if_permit: bool,
    /// Whether a deny by this rule is logged.
    pub log_if_deny: bool,
}

/// A rule on access to management commands.
#[derive(Debug, Clone)]
pub struct NacmCommandRule {
    /// The rule's name.
    pub name: String,
    /// The pattern the request's context must match; `None` for any context.
    pub context: Option<String>,
    /// The pattern the requested command must match; `None` for any command.
    pub command: Option<String>,
    /// The operations the rule covers; the empty set covers every operation.
    pub access_operations: OperationSet,
    /// What the rule decides.
    pub effect: RuleEffect,
    /// The rule's precedence: the lower value wins.
    pub order: u32,
    /// Whether a permit by this rule is logged.
    pub log_if_permit: bool,
    /// Whether a deny by this rule is logged.
    pub log_if_deny: bool,
    /// A free-form description.
    pub comment: Option<String>,
}

/// A named collection of rules that applies to the members of some groups.
#[derive(Debug, Clone)]
pub struct NacmRuleList {
    /// The list's name.
    pub name: String,
    /// The groups the list applies to; the entry `"*"` stands for every user.
    pub groups: Vec<String>,
    /// The data rules, in the order they were declared.
    pub rules: Vec<NacmRule>,
    /// The command rules, in the order they were declared.
    pub command_rules: Vec<NacmCommandRule>,
}

/// A named group of users.
#[derive(Debug)]
pub struct NacmGroup {
    /// The group's name.
    pub name: String,
    /// The names of the users in the group.
    pub users: Vec<String>,
    /// A numeric identifier of the group.
    pub gid: Option<i32>,
}

/// A policy snapshot: the switch, the default policies, the groups and the
/// rule lists.
#[derive(Debug, Clone)]
pub struct NacmConfig {
    /// When `false`, every request is permitted.
    pub enable_nacm: bool,
    /// The default for read requests on data.
    pub read_default: RuleEffect,
    /// The default for create, update and delete requests on data.
    pub write_default: RuleEffect,
    /// The default for exec requests on data.
    pub exec_default: RuleEffect,
    /// The default for read requests on commands.
    pub cmd_read_default: RuleEffect,
    /// The default for every other request on commands.
    pub cmd_exec_default: RuleEffect,
    /// Whether a permit by default is logged.
    pub log_if_default_permit: bool,
    /// Whether a deny by default is logged.
    pub log_if_default_deny: bool,
    /// The groups, by name.
    pub groups: GroupMap,
    /// The rule lists, in the order they were declared.
    pub rule_lists: Vec<NacmRuleList>,
}

/// One access request.
pub struct AccessRequest<'a> {
    /// The user who asks.
    pub user: &'a str,
    /// The module that is accessed, if any.
    pub module_name: Option<&'a str>,
    /// The RPC that is called, if any.
    pub rpc_name: Option<&'a str>,
    /// The kind of access.
    pub operation: Operation,
    /// The data path that is accessed, if any.
    pub path: Option<&'a str>,
    /// The management interface the request comes from, if known.
    pub context: Option<&'a RequestContext>,
    /// The command that is to be run, if the request is about a command.
    pub command: Option<&'a str>,
}

/// What a request says, with each text as the sequence of its characters.
pub struct RequestView {
    /// The user who asks.
    pub user: Seq<char>,
    /// The module that is accessed, if any.
    pub module_name: Option<Seq<char>>,
    /// The RPC that is called, if any.
    pub rpc_name: Option<Seq<char>>,
    /// The kind of access.
    pub operation: Operation,
    /// The data path that is accessed, if any.
    pub path: Option<Seq<char>>,
    /// The management interface the request comes from, if known.
    pub context: Option<RequestContext>,
    /// The command that is to be run, if the request is about a command.
    pub command: Option<Seq<char>>,
}

impl<'a> View for AccessRequest<'a> {
    type V = RequestView;

    open spec fn view(&self) -> RequestView {
        RequestView {
            user: self.user@,
            module_name: slice_of(self.module_name),
            rpc_name: slice_of(self.rpc_name),
            operation: self.operation,
            path: slice_of(self.path),
            context: match self.context {
                Some(c) => Some(*c),
                None => None,
            },
            command: slice_of(self.command),
        }
    }
}

impl Clone for NacmGroup {
    fn clone(&self) -> (r: Self)
        ensures
            r.same_as(self),
    {
        NacmGroup { name: self.name.clone(), users: copy_texts(&self.users), gid: self.gid }
    }
}

impl NacmGroup {
    /// The two groups have the same name, the same users in the same order
    /// and the same identifier.
    pub open spec fn same_as(&self, other: &NacmGroup) -> bool {
        &&& self.name@ == other.name@
        &&& texts_of(self.users@) == texts_of(other.users@)
        &&& self.gid == other.gid
    }

    /// `user` is among the group's users.
    pub open spec fn spec_has_user(&self, user: Seq<char>) -> bool {
        exists|i: int| 0 <= i < self.users@.len() && (#[trigger] self.users@[i])@ == user
    }

    /// Whether `user` is among the group's users.
    pub fn has_user(&self, user: &str) -> (r: bool)
        ensures
            r == self.spec_has_user(user@),
    {
        let mut i: usize = 0;
        while i < self.users.len()
            invariant
                i <= self.users@.len(),
                forall|k: int| 0 <= k < i ==> (#[trigger] self.users@[k])@ != user@,
            decreases self.users@.len() - i,
        {
            if same_text(self.users[i].as_str(), user) {
                return true;
            }
            i += 1;
        }
        false
    }
}

} // verus!
