use vstd::prelude::*;

verus! {

/// Error of an MCP service, in the simple form the services use.
#[derive(Debug, Clone)]
pub enum ServiceError {
    /// The call's parameters are wrong.
    InvalidParams(String),
    /// Something failed inside the service.
    InternalError(String),
    /// The request could not be parsed.
    ParseError(String),
    /// No such method.
    MethodNotFound(String),
    /// Anything else.
    Custom(String),
}

/// JSON-RPC error code of invalid parameters.
pub const INVALID_PARAMS_CODE: i32 = -32602;

/// JSON-RPC error code of an internal error.
pub const INTERNAL_ERROR_CODE: i32 = -32603;

/// JSON-RPC error code of a parse error.
pub const PARSE_ERROR_CODE: i32 = -32700;

/// JSON-RPC error code of an unknown method.
pub const METHOD_NOT_FOUND_CODE: i32 = -32601;

/// The text of an error, as it is displayed.
pub open spec fn service_error_text(e: ServiceError) -> Seq<char> {
    match e {
        ServiceError::InvalidParams(m) => "参数无效: "@ + m@,
        ServiceError::InternalError(m) => "内部错误: "@ + m@,
        ServiceError::ParseError(m) => "解析错误: "@ + m@,
        ServiceError::MethodNotFound(m) => "方法未找到: "@ + m@,
        ServiceError::Custom(m) => "自定义错误: "@ + m@,
    }
}

/// The JSON-RPC error code an error is sent with.
pub open spec fn rpc_code(e: ServiceError) -> i32 {
    match e {
        ServiceError::InvalidParams(_) => INVALID_PARAMS_CODE,
        ServiceError::InternalError(_) => INTERNAL_ERROR_CODE,
        ServiceError::ParseError(_) => PARSE_ERROR_CODE,
        ServiceError::MethodNotFound(_) => METHOD_NOT_FOUND_CODE,
        ServiceError::Custom(_) => INTERNAL_ERROR_CODE,
    }
}

/// The JSON-RPC error message an error is sent with.
pub open spec fn rpc_message(e: ServiceError) -> Seq<char> {
    match e {
        ServiceError::MethodNotFound(m) => "方法未找到: "@ + m@,
        ServiceError::InvalidParams(m) => m@,
        ServiceError::InternalError(m) => m@,
        ServiceError::ParseError(m) => m@,
        ServiceError::Custom(m) => m@,
    }
}

fn prefixed(prefix: &str, message: &String) -> (r: String)
    ensures
        r@ == prefix@ + message@,
{
    let mut out = String::from_str(prefix);
    out.append(message.as_str());
    out
}

impl ServiceError {
    /// An invalid-parameters error.
    pub fn invalid_params(msg: String) -> (r: Self)
        ensures
            r matches ServiceError::InvalidParams(m) && m@ == msg@,
    {
        ServiceError::InvalidParams(msg)
    }

    /// An internal error.
    pub fn internal_error(msg: String) -> (r: Self)
        ensures
            r matches ServiceError::InternalError(m) && m@ == msg@,
    {
        ServiceError::InternalError(msg)
    }

    /// A parse error.
    pub fn parse_error(msg: String) -> (r: Self)
        ensures
            r matches ServiceError::ParseError(m) && m@ == msg@,
    {
        ServiceError::ParseError(msg)
    }

    /// An unknown-method error.
    pub fn method_not_found(method: String) -> (r: Self)
        ensures
            r matches ServiceError::MethodNotFound(m) && m@ == method@,
    {
        ServiceError::MethodNotFound(method)
    }

    /// The error's text, as it is displayed.
    pub fn to_string(&self) -> (r: String)
        ensures
            r@ == service_error_text(*self),
    {
        match self {
            ServiceError::InvalidParams(m) => prefixed("参数无效: ", m),
            ServiceError::InternalError(m) => prefixed("内部错误: ", m),
            ServiceError::ParseError(m) => prefixed("解析错误: ", m),
            ServiceError::MethodNotFound(m) => prefixed("方法未找到: ", m),
            ServiceError::Custom(m) => prefixed("自定义错误: ", m),
        }
    }

    /// The JSON-RPC error code and message the error is sent with.
    pub fn to_rpc_error(&self) -> (r: (i32, String))
        ensures
            r.0 == rpc_code(*self),
            r.1@ == rpc_message(*self),
    {
        match self {
            ServiceError::InvalidParams(m) => (INVALID_PARAMS_CODE, m.clone()),
            ServiceError::InternalError(m) => (INTERNAL_ERROR_CODE, m.clone()),
            ServiceError::ParseError(m) => (PARSE_ERROR_CODE, m.clone()),
            ServiceError::MethodNotFound(m) => (METHOD_NOT_FOUND_CODE, prefixed("方法未找到: ", m)),
            ServiceError::Custom(m) => (INTERNAL_ERROR_CODE, m.clone()),
        }
    }

    /// The error a received JSON-RPC error stands for: the kind by its code, any
    /// other code as a custom error; the message is kept.
    pub fn from_rpc_error(code: i32, message: String) -> (r: Self)
        ensures
            code == INVALID_PARAMS_CODE ==> (r matches ServiceError::InvalidParams(m) && m@ == message@),
            code == INTERNAL_ERROR_CODE ==> (r matches ServiceError::InternalError(m) && m@ == message@),
            code == PARSE_ERROR_CODE ==> (r matches ServiceError::ParseError(m) && m@ == message@),
            code == METHOD_NOT_FOUND_CODE ==> (r matches ServiceError::MethodNotFound(m) && m@ == message@),
            code != INVALID_PARAMS_CODE && code != INTERNAL_ERROR_CODE && code != PARSE_ERROR_CODE && code
                != METHOD_NOT_FOUND_CODE ==> (r matches ServiceError::Custom(m) && m@ == message@),
    {
        if code == INVALID_PARAMS_CODE {
            ServiceError::InvalidParams(message)
        } else if code == INTERNAL_ERROR_CODE {
            ServiceError::InternalError(message)
        } else if code == PARSE_ERROR_CODE {
            ServiceError::ParseError(message)
        } else if code == METHOD_NOT_FOUND_CODE {
            ServiceError::MethodNotFound(message)
        } else {
            ServiceError::Custom(message)
        }
    }

    /// The error a failure below the protocol (in the transport) stands for.
    pub fn transport_error() -> (r: Self)
        ensures
            r matches ServiceError::Custom(m) && m@ == "传输层错误"@,
    {
        ServiceError::Custom(String::from_str("传输层错误"))
    }
}

/// Collects the parts of a resource description.
pub struct ResourceBuilder {
    uri: String,
    name: String,
    description: Option<String>,
    mime_type: Option<String>,
}

impl ResourceBuilder {
    /// The URI given.
    pub closed spec fn spec_uri(&self) -> Seq<char> {
        self.uri@
    }

    /// The name given.
    pub closed spec fn spec_name(&self) -> Seq<char> {
        self.name@
    }

    /// The description given, if any.
    pub closed spec fn spec_description(&self) -> Option<Seq<char>> {
        match self.description {
            Some(d) => Some(d@),
            None => None,
        }
    }

    /// The MIME type given, if any.
    pub closed spec fn spec_mime_type(&self) -> Option<Seq<char>> {
        match self.mime_type {
            Some(d) => Some(d@),
            None => None,
        }
    }

    /// A builder for the resource at `uri` named `name`.
    pub fn new(uri: String, name: String) -> (r: Self)
        ensures
            r.spec_uri() == uri@,
            r.spec_name() == name@,
            r.spec_description() is None,
            r.spec_mime_type() is None,
    {
        ResourceBuilder { uri, name, description: None, mime_type: None }
    }

    /// Sets the description.
    pub fn description(self, desc: String) -> (r: Self)
        ensures
            r.spec_uri() == self.spec_uri(),
            r.spec_name() == self.spec_name(),
            r.spec_description() == Some(desc@),
            r.spec_mime_type() == self.spec_mime_type(),
    {
        ResourceBuilder { description: Some(desc), ..self }
    }

    /// Sets the MIME type.
    pub fn mime_type(self, mime: String) -> (r: Self)
        ensures
            r.spec_uri() == self.spec_uri(),
            r.spec_name() == self.spec_name(),
            r.spec_description() == self.spec_description(),
            r.spec_mime_type() == Some(mime@),
    {
        ResourceBuilder { mime_type: Some(mime), ..self }
    }

    /// Building a resource is not supported: this always fails.
    pub fn build(self) -> (r: Result<(), ServiceError>)
        ensures
            r matches Err(ServiceError::Custom(m)) && m@ == "Resource 构造需要根据实际 API 实现"@,
    {
        Err(ServiceError::Custom(String::from_str("Resource 构造需要根据实际 API 实现")))
    }
}

} // verus!
