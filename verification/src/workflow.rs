//! A request that is built in stages. Each stage is a type of its own, so a
//! step that is not legal at a stage does not exist there, and each step
//! consumes the stage it starts from.

use vstd::prelude::*;

verus! {

/// The stage of a request that has no body yet.
pub struct NoBody;

/// The stage of a request that carries a body.
pub struct WithBody {
    body: String,
}

/// A request under construction, at the stage `State`.
pub struct RequestBuilder<State> {
    url: String,
    method: String,
    state: State,
}

/// What a finished request asks for: `operation` on `target`, with `payload`.
#[derive(Debug)]
pub struct CompletedInstruction {
    pub target: String,
    pub operation: String,
    pub payload: String,
}

/// Why a request could not be finished.
#[derive(Debug, PartialEq, Eq, Structural)]
pub enum ConfigurationError {
    /// The body holds no character.
    EmptyPayload,
}

impl<State> RequestBuilder<State> {
    /// The address the request goes to.
    pub closed spec fn target(&self) -> Seq<char> {
        self.url@
    }

    /// The operation the request performs.
    pub closed spec fn operation(&self) -> Seq<char> {
        self.method@
    }
}

impl RequestBuilder<NoBody> {
    /// Starts a request to `url`, with the operation `GET`.
    pub fn new(url: String) -> (request: Self)
        ensures
            request.target() == url@,
            request.operation() == "GET"@,
    {
        RequestBuilder { url, method: "GET".to_owned(), state: NoBody }
    }

    /// Gives the request its body and moves it to the next stage.
    pub fn with_body(self, body: String) -> (request: RequestBuilder<WithBody>)
        ensures
            request.target() == self.target(),
            request.operation() == self.operation(),
            request.payload() == body@,
    {
        RequestBuilder { url: self.url, method: self.method, state: WithBody { body } }
    }
}

impl RequestBuilder<WithBody> {
    /// The body the request carries.
    pub closed spec fn payload(&self) -> Seq<char> {
        self.state.body@
    }

    /// Finishes the request. An empty body is refused; any other body gives
    /// the instruction that names the request's target, operation and body.
    pub fn finalize(self) -> (result: Result<CompletedInstruction, ConfigurationError>)
        ensures
            self.payload().len() == 0 <==> result == Err::<
                CompletedInstruction,
                ConfigurationError,
            >(ConfigurationError::EmptyPayload),
            self.payload().len() > 0 <==> result is Ok,
            result matches Ok(instruction) ==> {
                &&& instruction.target@ == self.target()
                &&& instruction.operation@ == self.operation()
                &&& instruction.payload@ == self.payload()
            },
    {
        if self.state.body.as_str().is_empty() {
            Err(ConfigurationError::EmptyPayload)
        } else {
            Ok(
                CompletedInstruction {
                    target: self.url,
                    operation: self.method,
                    payload: self.state.body,
                },
            )
        }
    }
}

/// Builds the request for `https://example.com` with the body
/// `Hello, World!` and finishes it.
pub fn use_request_builder() -> (result: Result<CompletedInstruction, ConfigurationError>)
    ensures
        result matches Ok(instruction) && instruction.target@ == "https://example.com"@
            && instruction.operation@ == "GET"@ && instruction.payload@ == "Hello, World!"@,
{
    proof {
        reveal_strlit("Hello, World!");
    }
    let request = RequestBuilder::new("https://example.com".to_owned()).with_body(
        "Hello, World!".to_owned(),
    );
    request.finalize()
}

} // verus!
