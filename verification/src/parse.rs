//! Reading effects, operations and sets of operations from text.
//!
//! A text names an effect or an operation after its surrounding white space
//! is removed and it is brought to lower case.

use vstd::prelude::*;
use vstd::string::StringExecFns;
use crate::model::{Operation, OperationSet, RuleEffect};
use crate::text::{lowercase, same_text, split_words, to_lowercase, trim, trimmed, words};

verus! {

/// The effect that a trimmed, lower-case token names.
pub open spec fn effect_of_token(token: Seq<char>) -> Option<RuleEffect> {
    if token == "permit"@ {
        Some(RuleEffect::Permit)
    } else if token == "deny"@ {
        Some(RuleEffect::Deny)
    } else {
        None
    }
}

/// The effect that a text names.
pub open spec fn effect_of_text(text: Seq<char>) -> Option<RuleEffect> {
    effect_of_token(lowercase(trimmed(text)))
}

/// The operation that a trimmed, lower-case token names.
pub open spec fn operation_of_token(token: Seq<char>) -> Option<Operation> {
    if token == "read"@ {
        Some(Operation::Read)
    } else if token == "create"@ {
        Some(Operation::Create)
    } else if token == "update"@ {
        Some(Operation::Update)
    } else if token == "delete"@ {
        Some(Operation::Delete)
    } else if token == "exec"@ {
        Some(Operation::Exec)
    } else {
        None
    }
}

/// The operation that a text names.
pub open spec fn operation_of_text(text: Seq<char>) -> Option<Operation> {
    operation_of_token(lowercase(trimmed(text)))
}

/// The message for a text that names no effect.
pub open spec fn unknown_effect_message(text: Seq<char>) -> Seq<char> {
    "Unknown rule effect: "@ + text
}

/// The message for a text that names no operation.
pub open spec fn unknown_operation_message(text: Seq<char>) -> Seq<char> {
    "Unknown operation: "@ + text
}

/// The operations that the words `names` name; a word that names none adds
/// nothing.
pub open spec fn named_operations(names: Seq<Seq<char>>) -> Set<Operation> {
    Set::new(
        |op: Operation|
            exists|i: int| 0 <= i < names.len() && operation_of_text(#[trigger] names[i]) == Some(op),
    )
}

/// The operations a data rule covers, by the text of its configuration:
/// none, which stands for all, where there is no text; all five for `*`;
/// else the operations that the words of the text name.
pub open spec fn data_operations(text: Option<String>) -> Set<Operation> {
    match text {
        None => Set::empty(),
        Some(s) => if trimmed(s@) == "*"@ {
            Set::full()
        } else {
            named_operations(words(s@))
        },
    }
}

/// The operations a command rule covers, by the text of its configuration:
/// read and exec where there is no text, and for `*`; else the operations
/// that the words of the text name.
pub open spec fn command_operations(text: Option<String>) -> Set<Operation> {
    match text {
        None => set![Operation::Read, Operation::Exec],
        Some(s) => if trimmed(s@) == "*"@ {
            set![Operation::Read, Operation::Exec]
        } else {
            named_operations(words(s@))
        },
    }
}

impl RuleEffect {
    /// The effect that a trimmed, lower-case token names.
    pub fn from_token(token: &str) -> (r: Option<RuleEffect>)
        ensures
            r == effect_of_token(token@),
    {
        if same_text(token, "permit") {
            Some(RuleEffect::Permit)
        } else if same_text(token, "deny") {
            Some(RuleEffect::Deny)
        } else {
            None
        }
    }

    /// The effect that `s` names, or a message that quotes `s`.
    pub fn parse(s: &str) -> (r: Result<RuleEffect, String>)
        ensures
            match r {
                Ok(effect) => effect_of_text(s@) == Some(effect),
                Err(message) => effect_of_text(s@) is None && message@ == unknown_effect_message(
                    s@,
                ),
            },
    {
        let token = to_lowercase(trim(s));
        match RuleEffect::from_token(token.as_str()) {
            Some(effect) => Ok(effect),
            None => Err(String::from_str("Unknown rule effect: ").concat(s)),
        }
    }
}

impl Operation {
    /// The operation that a trimmed, lower-case token names.
    pub fn from_token(token: &str) -> (r: Option<Operation>)
        ensures
            r == operation_of_token(token@),
    {
        if same_text(token, "read") {
            Some(Operation::Read)
        } else if same_text(token, "create") {
            Some(Operation::Create)
        } else if same_text(token, "update") {
            Some(Operation::Update)
        } else if same_text(token, "delete") {
            Some(Operation::Delete)
        } else if same_text(token, "exec") {
            Some(Operation::Exec)
        } else {
            None
        }
    }

    /// The operation that `s` names, or a message that quotes `s`.
    pub fn parse(s: &str) -> (r: Result<Operation, String>)
        ensures
            match r {
                Ok(operation) => operation_of_text(s@) == Some(operation),
                Err(message) => operation_of_text(s@) is None && message@
                    == unknown_operation_message(s@),
            },
    {
        let token = to_lowercase(trim(s));
        match Operation::from_token(token.as_str()) {
            Some(operation) => Ok(operation),
            None => Err(String::from_str("Unknown operation: ").concat(s)),
        }
    }
}

impl core::str::FromStr for RuleEffect {
    type Err = String;

    fn from_str(s: &str) -> (r: Result<RuleEffect, String>)
        ensures
            match r {
                Ok(effect) => effect_of_text(s@) == Some(effect),
                Err(message) => effect_of_text(s@) is None && message@ == unknown_effect_message(
                    s@,
                ),
            },
    {
        RuleEffect::parse(s)
    }
}

impl core::str::FromStr for Operation {
    type Err = String;

    fn from_str(s: &str) -> (r: Result<Operation, String>)
        ensures
            match r {
                Ok(operation) => operation_of_text(s@) == Some(operation),
                Err(message) => operation_of_text(s@) is None && message@
                    == unknown_operation_message(s@),
            },
    {
        Operation::parse(s)
    }
}

/// The operations that the words of `s` name.
pub fn parse_operation_names(s: &str) -> (r: OperationSet)
    ensures
        r@ == named_operations(words(s@)),
{
    let names = split_words(s);
    let mut set = OperationSet::new();
    let mut i: usize = 0;
    while i < names.len()
        invariant
            i <= names@.len(),
            names@.len() == words(s@).len(),
            forall|k: int| 0 <= k < names@.len() ==> (#[trigger] names@[k])@ == words(s@)[k],
            set@ =~= named_operations(words(s@).take(i as int)),
        decreases names@.len() - i,
    {
        let ghost before = words(s@).take(i as int);
        let ghost after = words(s@).take(i + 1);
        let ghost name = words(s@)[i as int];
        match Operation::parse(names[i]) {
            Ok(operation) => {
                set.insert(operation);
                proof {
                    assert(after[i as int] == name);
                    assert forall|op: Operation|
                        named_operations(after).contains(op) == named_operations(before).insert(
                            operation,
                        ).contains(op) by {
                        if named_operations(after).contains(op) {
                            let k = choose|k: int|
                                0 <= k < after.len() && operation_of_text(#[trigger] after[k])
                                    == Some(op);
                            if k < i {
                                assert(before[k] == after[k]);
                            }
                        }
                        if named_operations(before).contains(op) {
                            let k = choose|k: int|
                                0 <= k < before.len() && operation_of_text(#[trigger] before[k])
                                    == Some(op);
                            assert(after[k] == before[k]);
                        }
                    }
                }
            },
            Err(_) => {
                proof {
                    assert forall|op: Operation|
                        named_operations(after).contains(op) == named_operations(before).contains(
                            op,
                        ) by {
                        if named_operations(after).contains(op) {
                            let k = choose|k: int|
                                0 <= k < after.len() && operation_of_text(#[trigger] after[k])
                                    == Some(op);
                            if k < i {
                                assert(before[k] == after[k]);
                            } else {
                                assert(after[k] == name);
                            }
                        }
                        if named_operations(before).contains(op) {
                            let k = choose|k: int|
                                0 <= k < before.len() && operation_of_text(#[trigger] before[k])
                                    == Some(op);
                            assert(after[k] == before[k]);
                        }
                    }
                }
            },
        }
        i += 1;
    }
    assert(words(s@).take(i as int) =~= words(s@));
    set
}

/// The operations a data rule covers, by the text of its configuration.
pub fn parse_data_operations(text: &Option<String>) -> (r: OperationSet)
    ensures
        r@ == data_operations(*text),
{
    match text {
        None => OperationSet::new(),
        Some(s) => {
            if same_text(trim(s.as_str()), "*") {
                let mut set = OperationSet::new();
                set.insert(Operation::Read);
                set.insert(Operation::Create);
                set.insert(Operation::Update);
                set.insert(Operation::Delete);
                set.insert(Operation::Exec);
                assert(set@ =~= Set::<Operation>::full());
                set
            } else {
                parse_operation_names(s.as_str())
            }
        },
    }
}

/// The operations a command rule covers, by the text of its configuration.
pub fn parse_command_operations(text: &Option<String>) -> (r: OperationSet)
    ensures
        r@ == command_operations(*text),
{
    let named = match text {
        None => false,
        Some(s) => !same_text(trim(s.as_str()), "*"),
    };
    if named {
        match text {
            Some(s) => parse_operation_names(s.as_str()),
            None => OperationSet::new(),
        }
    } else {
        let mut set = OperationSet::new();
        set.insert(Operation::Read);
        set.insert(Operation::Exec);
        assert(set@ =~= set![Operation::Read, Operation::Exec]);
        set
    }
}

} // verus!
