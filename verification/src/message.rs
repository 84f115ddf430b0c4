//! The parts of a DNS message that the pipeline reads and writes: the
//! questions of a request, and the response that answers one of them.

use vstd::prelude::*;
use crate::record::{records_view, AnswerRecord, RecordView};

verus! {

/// One question of a request, as the client asked it. Questions are taken
/// to be of the Internet class.
#[derive(Debug, Clone, PartialEq, Eq)]
pub struct Question {
    /// The name asked for, in ASCII form and in the client's spelling.
    pub name: String,
    /// The code of the record type asked for.
    pub record_type: u16,
}

/// What a `Question` holds.
pub ghost struct QuestionView {
    pub name: Seq<char>,
    pub record_type: u16,
}

impl View for Question {
    type V = QuestionView;

    open spec fn view(&self) -> QuestionView {
        QuestionView { name: self.name@, record_type: self.record_type }
    }
}

impl Question {
    /// A second question that holds the same.
    pub fn duplicate(&self) -> (out: Self)
        ensures
            out@ == self@,
    {
        Question { name: self.name.clone(), record_type: self.record_type }
    }
}

/// What a sequence of questions holds, question by question.
pub open spec fn questions_view(questions: Seq<Question>) -> Seq<QuestionView> {
    Seq::new(questions.len(), |i: int| questions[i]@)
}

/// A decoded request: what the pipeline reads of an inbound message.
#[derive(Debug, Clone, PartialEq, Eq)]
pub struct Request {
    /// The transaction identifier, which the response repeats.
    pub id: u16,
    /// Whether the client asked for recursion.
    pub recursion_desired: bool,
    /// The questions, in the order of the message.
    pub questions: Vec<Question>,
}

/// What a `Request` holds.
pub ghost struct RequestView {
    pub id: u16,
    pub recursion_desired: bool,
    pub questions: Seq<QuestionView>,
}

impl View for Request {
    type V = RequestView;

    open spec fn view(&self) -> RequestView {
        RequestView {
            id: self.id,
            recursion_desired: self.recursion_desired,
            questions: questions_view(self.questions@),
        }
    }
}

/// One client question with what is needed to answer it.
#[derive(Debug, Clone, PartialEq, Eq)]
pub struct Query {
    /// The transaction identifier of the request.
    pub id: u16,
    /// Whether the client asked for recursion.
    pub recursion_desired: bool,
    /// The question that is answered.
    pub question: Question,
}

/// What a `Query` holds.
pub ghost struct QueryView {
    pub id: u16,
    pub recursion_desired: bool,
    pub question: QuestionView,
}

impl View for Query {
    type V = QueryView;

    open spec fn view(&self) -> QueryView {
        QueryView {
            id: self.id,
            recursion_desired: self.recursion_desired,
            question: self.question@,
        }
    }
}

/// The response codes that the pipeline gives.
#[derive(Debug, Clone, Copy, PartialEq, Eq, Structural)]
pub enum ResponseCode {
    /// The query was answered.
    NoError,
    /// The upstream resolution failed.
    ServFail,
    /// The name does not exist: the answer for a blocked domain.
    NxDomain,
}

impl ResponseCode {
    /// The code's number in a message header.
    pub open spec fn number(self) -> u8 {
        match self {
            ResponseCode::NoError => 0,
            ResponseCode::ServFail => 2,
            ResponseCode::NxDomain => 3,
        }
    }

    /// The code's number in a message header.
    pub fn to_number(self) -> (out: u8)
        ensures
            out == self.number(),
    {
        match self {
            ResponseCode::NoError => 0,
            ResponseCode::ServFail => 2,
            ResponseCode::NxDomain => 3,
        }
    }
}

/// How the handling of a query ended.
#[derive(Debug, Clone, PartialEq, Eq)]
pub enum Disposition {
    /// The domain is on the denylist.
    Blocked,
    /// These records answer the query, from the cache or from upstream.
    Served(Vec<AnswerRecord>),
    /// The upstream resolver gave no answer.
    ResolutionFailed,
}

/// What a `Disposition` holds.
pub ghost enum DispositionView {
    Blocked,
    Served(Seq<RecordView>),
    ResolutionFailed,
}

impl View for Disposition {
    type V = DispositionView;

    open spec fn view(&self) -> DispositionView {
        match self {
            Disposition::Blocked => DispositionView::Blocked,
            Disposition::Served(records) => DispositionView::Served(records_view(records@)),
            Disposition::ResolutionFailed => DispositionView::ResolutionFailed,
        }
    }
}

/// A response message, before it is encoded.
#[derive(Debug, Clone, PartialEq, Eq)]
pub struct Response {
    /// The transaction identifier of the request.
    pub id: u16,
    /// The request's recursion-desired flag, repeated.
    pub recursion_desired: bool,
    /// Whether recursion is on offer.
    pub recursion_available: bool,
    /// Whether the answer is given with authority.
    pub authoritative: bool,
    /// The response code.
    pub code: ResponseCode,
    /// The question that is repeated, if any.
    pub question: Option<Question>,
    /// The answer records, in order.
    pub answers: Vec<AnswerRecord>,
}

/// What a `Response` holds.
pub ghost struct ResponseView {
    pub id: u16,
    pub recursion_desired: bool,
    pub recursion_available: bool,
    pub authoritative: bool,
    pub code: ResponseCode,
    pub question: Option<QuestionView>,
    pub answers: Seq<RecordView>,
}

impl View for Response {
    type V = ResponseView;

    open spec fn view(&self) -> ResponseView {
        ResponseView {
            id: self.id,
            recursion_desired: self.recursion_desired,
            recursion_available: self.recursion_available,
            authoritative: self.authoritative,
            code: self.code,
            question: match self.question {
                Some(question) => Some(question@),
                None => None,
            },
            answers: records_view(self.answers@),
        }
    }
}

/// The response that ends the handling of `query` with `disposition`. It
/// repeats the request's identifier and recursion-desired flag and offers
/// recursion. A blocked query is answered with authority that the name does
/// not exist; a served one carries the question and the records; a failed
/// resolution is reported as a server failure. Only a served response has
/// answer records.
pub open spec fn response_for(query: QueryView, disposition: DispositionView) -> ResponseView {
    ResponseView {
        id: query.id,
        recursion_desired: query.recursion_desired,
        recursion_available: true,
        authoritative: disposition is Blocked,
        code: match disposition {
            DispositionView::Blocked => ResponseCode::NxDomain,
            DispositionView::Served(_) => ResponseCode::NoError,
            DispositionView::ResolutionFailed => ResponseCode::ServFail,
        },
        question: match disposition {
            DispositionView::Served(_) => Some(query.question),
            _ => None,
        },
        answers: match disposition {
            DispositionView::Served(records) => records,
            _ => Seq::empty(),
        },
    }
}

/// Builds the response that ends the handling of `query` with `disposition`.
pub fn respond(query: &Query, disposition: Disposition) -> (out: Response)
    ensures
        out@ == response_for(query@, disposition@),
{
    match disposition {
        Disposition::Blocked => {
            let out = Response {
                id: query.id,
                recursion_desired: query.recursion_desired,
                recursion_available: true,
                authoritative: true,
                code: ResponseCode::NxDomain,
                question: None,
                answers: Vec::new(),
            };
            assert(records_view(out.answers@) =~= Seq::<RecordView>::empty());
            out
        },
        Disposition::Served(records) => Response {
            id: query.id,
            recursion_desired: query.recursion_desired,
            recursion_available: true,
            authoritative: false,
            code: ResponseCode::NoError,
            question: Some(query.question.duplicate()),
            answers: records,
        },
        Disposition::ResolutionFailed => {
            let out = Response {
                id: query.id,
                recursion_desired: query.recursion_desired,
                recursion_available: true,
                authoritative: false,
                code: ResponseCode::ServFail,
                question: None,
                answers: Vec::new(),
            };
            assert(records_view(out.answers@) =~= Seq::<RecordView>::empty());
            out
        },
    }
}

/// The query that a request is handled as: its first question, with the
/// request's identifier and flag. A request without a question has none.
pub open spec fn first_query_of(request: RequestView) -> Option<QueryView> {
    if request.questions.len() == 0 {
        None
    } else {
        Some(
            QueryView {
                id: request.id,
                recursion_desired: request.recursion_desired,
                question: request.questions[0],
            },
        )
    }
}

/// Picks the query that a request is handled as.
pub fn first_query(request: &Request) -> (out: Option<Query>)
    ensures
        out is Some <==> first_query_of(request@) is Some,
        out matches Some(query) ==> Some(query@) == first_query_of(request@),
{
    if request.questions.len() == 0 {
        None
    } else {
        Some(
            Query {
                id: request.id,
                recursion_desired: request.recursion_desired,
                question: request.questions[0].duplicate(),
            },
        )
    }
}

} // verus!
