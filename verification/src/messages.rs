//! The request and response vocabulary shared by the requester and the receivers.
use vstd::prelude::*;

verus! {

/// Requests understood by the receivers.
#[derive(Debug, PartialEq, Eq)]
pub enum AsyncRequest {
    StepA(String),
    StepB(i32),
    StepC(u64),
    Gather(()),
}

/// Answers to an [`AsyncRequest`], one variant per request variant.
#[derive(Debug, PartialEq, Eq)]
pub enum AsyncResponse {
    StepA(i32),
    StepB(u64),
    StepC(String),
    Gather(Result<String, String>),
}

/// The mathematical value of an [`AsyncRequest`].
pub enum AsyncRequestView {
    StepA(Seq<char>),
    StepB(i32),
    StepC(u64),
    Gather,
}

/// The mathematical value of an [`AsyncResponse`].
pub enum AsyncResponseView {
    StepA(i32),
    StepB(u64),
    StepC(Seq<char>),
    Gather(Result<Seq<char>, Seq<char>>),
}

impl View for AsyncRequest {
    type V = AsyncRequestView;

    open spec fn view(&self) -> AsyncRequestView {
        match self {
            AsyncRequest::StepA(s) => AsyncRequestView::StepA(s@),
            AsyncRequest::StepB(v) => AsyncRequestView::StepB(*v),
            AsyncRequest::StepC(v) => AsyncRequestView::StepC(*v),
            AsyncRequest::Gather(_) => AsyncRequestView::Gather,
        }
    }
}

impl View for AsyncResponse {
    type V = AsyncResponseView;

    open spec fn view(&self) -> AsyncResponseView {
        match self {
            AsyncResponse::StepA(v) => AsyncResponseView::StepA(*v),
            AsyncResponse::StepB(v) => AsyncResponseView::StepB(*v),
            AsyncResponse::StepC(s) => AsyncResponseView::StepC(s@),
            AsyncResponse::Gather(r) => AsyncResponseView::Gather(
                match r {
                    Ok(s) => Ok(s@),
                    Err(e) => Err(e@),
                },
            ),
        }
    }
}


/// The variant of a request or response, shared by both enums: a reply is
/// expected to carry the variant of the request that it answers.
#[derive(Clone, Copy, PartialEq, Eq, Structural, Debug)]
pub enum Variant {
    StepA,
    StepB,
    StepC,
    Gather,
}

/// The variant of a request.
pub open spec fn request_variant(r: AsyncRequestView) -> Variant {
    match r {
        AsyncRequestView::StepA(_) => Variant::StepA,
        AsyncRequestView::StepB(_) => Variant::StepB,
        AsyncRequestView::StepC(_) => Variant::StepC,
        AsyncRequestView::Gather => Variant::Gather,
    }
}

/// The variant of a response.
pub open spec fn response_variant(r: AsyncResponseView) -> Variant {
    match r {
        AsyncResponseView::StepA(_) => Variant::StepA,
        AsyncResponseView::StepB(_) => Variant::StepB,
        AsyncResponseView::StepC(_) => Variant::StepC,
        AsyncResponseView::Gather(_) => Variant::Gather,
    }
}

impl AsyncRequest {
    /// The variant of this request.
    pub fn variant(&self) -> (v: Variant)
        ensures
            v == request_variant(self@),
    {
        match self {
            AsyncRequest::StepA(_) => Variant::StepA,
            AsyncRequest::StepB(_) => Variant::StepB,
            AsyncRequest::StepC(_) => Variant::StepC,
            AsyncRequest::Gather(_) => Variant::Gather,
        }
    }
}

impl AsyncResponse {
    /// The variant of this response.
    pub fn variant(&self) -> (v: Variant)
        ensures
            v == response_variant(self@),
    {
        match self {
            AsyncResponse::StepA(_) => Variant::StepA,
            AsyncResponse::StepB(_) => Variant::StepB,
            AsyncResponse::StepC(_) => Variant::StepC,
            AsyncResponse::Gather(_) => Variant::Gather,
        }
    }
}

/// Requests of a service that has no receiver behind it.
#[derive(Debug, PartialEq, Eq)]
pub enum AsyncNoExistRequest {
    Gather(()),
}

/// Answers to an [`AsyncNoExistRequest`].
#[derive(Debug, PartialEq, Eq)]
pub enum AsyncNoExistResponse {
    Gather(Result<String, String>),
}

/// A small payload carrying a counter.
#[derive(Debug, PartialEq, Eq)]
pub struct SomeStruct {
    pub counter: u64,
}

/// A small payload carrying a text message.
#[derive(Debug, PartialEq, Eq)]
pub struct SomeOtherStruct {
    pub message: String,
}

} // verus!
