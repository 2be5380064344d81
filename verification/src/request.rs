//! Requests and answers as records of text.
//!
//! A front end that takes its requests as text hands them over as a
//! `JsonRequest`; the answer repeats the request and adds the decision.

use vstd::prelude::*;
use vstd::string::StringExecFns;
use crate::context::RequestContext;
use crate::model::{AccessRequest, NacmConfig, Operation, RequestView};
use crate::parse::{operation_of_text, unknown_operation_message};
use crate::report::{decision_name, effect_name};
use crate::text::{borrow_text, lowercase, same_text, text_of, to_lowercase};

verus! {

/// A request as a record of text.
#[derive(Debug, Clone)]
pub struct JsonRequest {
    /// The user who asks.
    pub user: String,
    /// The module that is accessed, if any.
    pub module: Option<String>,
    /// The RPC that is called, if any.
    pub rpc: Option<String>,
    /// The name of the operation.
    pub operation: String,
    /// The data path that is accessed, if any.
    pub path: Option<String>,
    /// The name of the context, if any.
    pub context: Option<String>,
    /// The command that is to be run, if any.
    pub command: Option<String>,
}

/// The answer to a request: the request, and what was decided.
#[derive(Debug, Clone)]
pub struct JsonResult {
    /// The decision: `permit` or `deny`.
    pub decision: String,
    /// The user who asked.
    pub user: String,
    /// The module that was named.
    pub module: Option<String>,
    /// The RPC that was named.
    pub rpc: Option<String>,
    /// The name of the operation, as it was given.
    pub operation: String,
    /// The data path that was named.
    pub path: Option<String>,
    /// The name of the context, as it was given.
    pub context: Option<String>,
    /// The command that was named.
    pub command: Option<String>,
    /// Whether a policy was at hand.
    pub config_loaded: bool,
    /// Whether the decision should be logged.
    pub should_log: bool,
}

/// The context that a lower-case token names.
pub open spec fn context_of_token(token: Seq<char>) -> Option<RequestContext> {
    if token == "netconf"@ {
        Some(RequestContext::NETCONF)
    } else if token == "cli"@ {
        Some(RequestContext::CLI)
    } else if token == "webui"@ {
        Some(RequestContext::WebUI)
    } else {
        None
    }
}

/// The context that a text names.
pub open spec fn context_of_text(text: Seq<char>) -> Option<RequestContext> {
    context_of_token(lowercase(text))
}

/// The message for a request whose operation is not known.
pub open spec fn invalid_operation_message(text: Seq<char>) -> Seq<char> {
    "Invalid operation '"@ + text + "': "@ + unknown_operation_message(text)
}

/// The message for a request whose context is not known.
pub open spec fn invalid_context_message(text: Seq<char>) -> Seq<char> {
    "Invalid context '"@ + text + "': must be 'netconf', 'cli', or 'webui'"@
}

impl RequestContext {
    /// The context that a lower-case token names.
    pub fn from_token(token: &str) -> (r: Option<RequestContext>)
        ensures
            r == context_of_token(token@),
    {
        if same_text(token, "netconf") {
            Some(RequestContext::NETCONF)
        } else if same_text(token, "cli") {
            Some(RequestContext::CLI)
        } else if same_text(token, "webui") {
            Some(RequestContext::WebUI)
        } else {
            None
        }
    }

    /// The context that `s` names, whatever the case of its letters.
    pub fn parse(s: &str) -> (r: Option<RequestContext>)
        ensures
            r == context_of_text(s@),
    {
        let token = to_lowercase(s);
        RequestContext::from_token(token.as_str())
    }
}

impl JsonRequest {
    /// The request that the record stands for, once its operation and its
    /// context are read.
    pub open spec fn request(
        &self,
        operation: Operation,
        context: Option<RequestContext>,
    ) -> RequestView {
        RequestView {
            user: self.user@,
            module_name: text_of(self.module),
            rpc_name: text_of(self.rpc),
            operation,
            path: text_of(self.path),
            context,
            command: text_of(self.command),
        }
    }

    /// The context of the record is absent, or names a context.
    pub open spec fn context_known(&self) -> bool {
        match self.context {
            Some(c) => context_of_text(c@) is Some,
            None => true,
        }
    }

    /// The context that the record names, if it names one.
    pub open spec fn named_context(&self) -> Option<RequestContext> {
        match self.context {
            Some(c) => context_of_text(c@),
            None => None,
        }
    }
}

impl JsonResult {
    /// The answer repeats `request`.
    pub open spec fn repeats(&self, request: &JsonRequest) -> bool {
        &&& self.user@ == request.user@
        &&& text_of(self.module) == text_of(request.module)
        &&& text_of(self.rpc) == text_of(request.rpc)
        &&& self.operation@ == request.operation@
        &&& text_of(self.path) == text_of(request.path)
        &&& text_of(self.context) == text_of(request.context)
        &&& text_of(self.command) == text_of(request.command)
    }
}

impl NacmConfig {
    /// Answers a request that comes as a record of text: reads its operation
    /// and its context, decides it, and repeats it with the decision. A
    /// record whose operation or context is not known gets a message
    /// instead, the operation being read first.
    pub fn answer(&self, request: JsonRequest) -> (r: Result<JsonResult, String>)
        ensures
            r is Ok <==> operation_of_text(request.operation@) is Some && request.context_known(),
            match r {
                Ok(answer) => {
                    let decided = self.decision(
                        request.request(
                            operation_of_text(request.operation@)->0,
                            request.named_context(),
                        ),
                    );
                    &&& answer.repeats(&request)
                    &&& answer.config_loaded
                    &&& answer.decision@ == effect_name(decided.effect)
                    &&& answer.should_log == decided.should_log
                },
                Err(message) => if operation_of_text(request.operation@) is None {
                    message@ == invalid_operation_message(request.operation@)
                } else {
                    request.context matches Some(c) && message@ == invalid_context_message(c@)
                },
            },
    {
        let operation = match Operation::parse(request.operation.as_str()) {
            Ok(operation) => operation,
            Err(reason) => {
                let message = String::from_str("Invalid operation '").concat(
                    request.operation.as_str(),
                ).concat("': ").concat(reason.as_str());
                proof {
                    assert(message@ =~= invalid_operation_message(request.operation@));
                }
                return Err(message);
            },
        };
        let context = match &request.context {
            Some(c) => match RequestContext::parse(c.as_str()) {
                Some(context) => Some(context),
                None => {
                    let message = String::from_str("Invalid context '").concat(c.as_str()).concat(
                        "': must be 'netconf', 'cli', or 'webui'",
                    );
                    return Err(message);
                },
            },
            None => None,
        };
        let access = AccessRequest {
            user: request.user.as_str(),
            module_name: borrow_text(&request.module),
            rpc_name: borrow_text(&request.rpc),
            operation,
            path: borrow_text(&request.path),
            context: context.as_ref(),
            command: borrow_text(&request.command),
        };
        assert(access@ == request.request(operation, context));
        let result = self.validate(&access);
        Ok(
            JsonResult {
                decision: String::from_str(decision_name(result.effect)),
                user: request.user,
                module: request.module,
                rpc: request.rpc,
                operation: request.operation,
                path: request.path,
                context: request.context,
                command: request.command,
                config_loaded: true,
                should_log: result.should_log,
            },
        )
    }
}

} // verus!
