//! The responses of the service.

use crate::json;
use crate::json::JsonView;
use crate::json::{array_member, flag_member, member, text_member};
use vstd::prelude::*;
use vstd::string::*;

verus! {

/// A token of a response.
#[derive(Debug, PartialEq, Eq)]
pub struct Token {
    /// What was recognized; empty if the response does not say.
    pub text: String,
    /// Whether the token will not change any more.
    pub is_final: bool,
    /// How the token relates to a translation, if the response says.
    pub translation_status: Option<String>,
}

/// What a `Token` says.
pub struct TokenView {
    pub text: Seq<char>,
    pub is_final: bool,
    pub translation_status: Option<Seq<char>>,
}

impl View for Token {
    type V = TokenView;

    open spec fn view(&self) -> TokenView {
        TokenView {
            text: self.text@,
            is_final: self.is_final,
            translation_status: match self.translation_status {
                Some(status) => Some(status@),
                None => None,
            },
        }
    }
}

/// A response of the service.
#[derive(Debug, PartialEq, Eq)]
pub enum Response {
    /// An error, with its message.
    Failure(String),
    /// Recognized tokens, and whether they are the last.
    Update { tokens: Vec<Token>, finished: bool },
}

/// What a `Response` says.
pub enum ResponseView {
    Failure(Seq<char>),
    Update { tokens: Seq<TokenView>, finished: bool },
}

/// What a list of tokens says.
pub open spec fn token_views(tokens: Seq<Token>) -> Seq<TokenView> {
    tokens.map_values(|token: Token| token@)
}

impl View for Response {
    type V = ResponseView;

    open spec fn view(&self) -> ResponseView {
        match self {
            Response::Failure(message) => ResponseView::Failure(message@),
            Response::Update { tokens, finished } => ResponseView::Update {
                tokens: token_views(tokens@),
                finished: *finished,
            },
        }
    }
}

/// The token that a document describes.
pub open spec fn token_of(document: JsonView) -> TokenView {
    TokenView {
        text: match document.text_member("text"@) {
            Some(text) => text,
            None => Seq::empty(),
        },
        is_final: document.flag_member("is_final"@) == Some(true),
        translation_status: document.text_member("translation_status"@),
    }
}

/// Whether a document describes an error.
pub open spec fn is_failure(document: JsonView) -> bool {
    document.member("error_code"@) is Some || document.member("error_type"@) is Some
}

/// The message of an error: the one that it carries, or else its type.
pub open spec fn failure_message(document: JsonView) -> Seq<char> {
    match document.text_member("error_message"@) {
        Some(message) => message,
        None => match document.text_member("error_type"@) {
            Some(kind) => kind,
            None => "Unknown Soniox error"@,
        },
    }
}

/// The response that a document describes.
pub open spec fn response_of(document: JsonView) -> ResponseView {
    if is_failure(document) {
        ResponseView::Failure(failure_message(document))
    } else {
        ResponseView::Update {
            tokens: match document.array_member("tokens"@) {
                Some(items) => items.map_values(|item: JsonView| token_of(item)),
                None => Seq::empty(),
            },
            finished: document.flag_member("finished"@) == Some(true),
        }
    }
}

/// The token that `document` describes.
pub fn read_token(document: &serde_json::Value) -> (r: Token)
    ensures
        r@ == token_of(json::value_view(*document)),
{
    let text = match text_member(document, "text") {
        Some(text) => text.to_owned(),
        None => String::new(),
    };
    let is_final = match flag_member(document, "is_final") {
        Some(flag) => flag,
        None => false,
    };
    let translation_status = match text_member(document, "translation_status") {
        Some(status) => Some(status.to_owned()),
        None => None,
    };
    Token { text, is_final, translation_status }
}

/// The response that `document` describes.
pub fn read_response(document: &serde_json::Value) -> (r: Response)
    ensures
        r@ == response_of(json::value_view(*document)),
{
    if member(document, "error_code").is_some() || member(document, "error_type").is_some() {
        let message = match text_member(document, "error_message") {
            Some(message) => message,
            None => match text_member(document, "error_type") {
                Some(kind) => kind,
                None => "Unknown Soniox error",
            },
        };
        return Response::Failure(message.to_owned());
    }
    let mut tokens: Vec<Token> = Vec::new();
    if let Some(items) = array_member(document, "tokens") {
        let mut i: usize = 0;
        while i < items.len()
            invariant
                i <= items.len(),
                tokens@.len() == i,
                forall|j: int|
                    0 <= j < i ==> (#[trigger] tokens@[j])@ == token_of(
                        json::value_view(items@[j]),
                    ),
            decreases items.len() - i,
        {
            tokens.push(read_token(&items[i]));
            i = i + 1;
        }
        assert(token_views(tokens@) =~= items@.map_values(
            |item: serde_json::Value| json::value_view(item),
        ).map_values(|item: JsonView| token_of(item)));
    } else {
        assert(token_views(tokens@) =~= Seq::<TokenView>::empty());
    }
    let finished = match flag_member(document, "finished") {
        Some(flag) => flag,
        None => false,
    };
    Response::Update { tokens, finished }
}

} // verus!
