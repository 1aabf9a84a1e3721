//! Placeholder templates: strings in which `{key}` stands for the value that a
//! parameter map gives to `key`.
//!
//! The substitution itself is done by the `strfmt` crate. Its result is named
//! by [`strfmt_output`]; for templates made of plain text and plain
//! placeholders the result is stated in full by [`rendered`].
use crate::config::ConfigMap;
use vstd::prelude::*;

verus! {

/// Why a template could not be rendered.
#[derive(Debug)]
pub enum TemplateError {
    /// The template is structured incorrectly.
    Invalid(String),
    /// A placeholder names a key that the parameters do not hold.
    KeyError(String),
    /// A placeholder carries a format code that does not fit a string.
    TypeError(String),
}

impl TemplateError {
    /// The kind of the error followed by its detail in parentheses.
    pub fn message(&self) -> (r: String)
        ensures
            r@ == match *self {
                TemplateError::Invalid(s) => "Invalid("@ + s@ + ")"@,
                TemplateError::KeyError(s) => "KeyError("@ + s@ + ")"@,
                TemplateError::TypeError(s) => "TypeError("@ + s@ + ")"@,
            },
    {
        let (kind, detail) = match self {
            TemplateError::Invalid(s) => ("Invalid(", s),
            TemplateError::KeyError(s) => ("KeyError(", s),
            TemplateError::TypeError(s) => ("TypeError(", s),
        };
        let mut out = kind.to_owned();
        out.append(detail.as_str());
        out.append(")");
        out
    }
}

/// One part of a plain template.
pub enum Piece {
    /// Literal text without braces, written in the template as it is.
    Text(Seq<char>),
    /// An opening brace, written in the template doubled.
    Open,
    /// A closing brace, written in the template doubled.
    Close,
    /// A placeholder, written in the template as the key between braces.
    Param(Seq<char>),
}

/// How a piece is written in a template.
pub open spec fn piece_source(piece: Piece) -> Seq<char> {
    match piece {
        Piece::Text(text) => text,
        Piece::Open => seq!['{', '{'],
        Piece::Close => seq!['}', '}'],
        Piece::Param(key) => seq!['{'] + key + seq!['}'],
    }
}

/// The template that a sequence of pieces is written as.
pub open spec fn template_of(pieces: Seq<Piece>) -> Seq<char>
    decreases pieces.len(),
{
    if pieces.len() == 0 {
        Seq::empty()
    } else {
        piece_source(pieces[0]) + template_of(pieces.drop_first())
    }
}

/// Whether the text holds no brace.
pub open spec fn is_plain(text: Seq<char>) -> bool {
    forall|i: int| 0 <= i < text.len() ==> #[trigger] text[i] != '{' && text[i] != '}'
}

/// A key that can stand in a plain placeholder: not empty, and free of
/// braces and of the colon that would begin a format code.
pub open spec fn is_key(key: Seq<char>) -> bool {
    &&& key.len() > 0
    &&& forall|i: int|
        0 <= i < key.len() ==> #[trigger] key[i] != '{' && key[i] != '}' && key[i] != ':'
}

/// Whether a piece can stand in a plain template.
pub open spec fn is_piece(piece: Piece) -> bool {
    match piece {
        Piece::Text(text) => is_plain(text),
        Piece::Param(key) => is_key(key),
        _ => true,
    }
}

/// Whether every piece can stand in a plain template.
pub open spec fn well_formed(pieces: Seq<Piece>) -> bool {
    forall|i: int| 0 <= i < pieces.len() ==> is_piece(#[trigger] pieces[i])
}

/// What a piece stands for under `params`; `None` for a placeholder whose key
/// is missing.
pub open spec fn piece_value(piece: Piece, params: Map<Seq<char>, Seq<char>>) -> Option<
    Seq<char>,
> {
    match piece {
        Piece::Text(text) => Some(text),
        Piece::Open => Some(seq!['{']),
        Piece::Close => Some(seq!['}']),
        Piece::Param(key) => if params.contains_key(key) {
            Some(params[key])
        } else {
            None
        },
    }
}

/// The text that the pieces stand for under `params`; `None` as soon as one
/// placeholder names a missing key.
pub open spec fn rendered(pieces: Seq<Piece>, params: Map<Seq<char>, Seq<char>>) -> Option<
    Seq<char>,
>
    decreases pieces.len(),
{
    if pieces.len() == 0 {
        Some(Seq::empty())
    } else {
        match (piece_value(pieces[0], params), rendered(pieces.drop_first(), params)) {
            (Some(head), Some(tail)) => Some(head + tail),
            _ => None,
        }
    }
}

/// What `strfmt::strfmt` makes of a template and a parameter map: the
/// formatted text, or `None` where it reports an error.
pub uninterp spec fn strfmt_output(template: Seq<char>, params: Map<Seq<char>, Seq<char>>) -> Option<Seq<char>>;

/// The text of a rendering, `None` for a failed one.
pub open spec fn output_of(r: Result<String, TemplateError>) -> Option<Seq<char>> {
    match r {
        Ok(s) => Some(s@),
        Err(_) => None,
    }
}

/// Calls `strfmt::strfmt` on the template with the parameters as its variables.
///
/// Trusted: the result is the one that [`strfmt_output`] names. For a
/// template written as plain pieces (text, doubled braces, and `{key}` with
/// a key free of braces and colons) it is the text with one brace for two
/// and each key's value in the placeholder's place, and an error if a key is
/// missing.
#[verifier::external_body]
fn substitute(template: &str, params: &ConfigMap) -> (r: Result<String, TemplateError>)
    ensures
        output_of(r) == strfmt_output(template@, params@),
        forall|pieces: Seq<Piece>|
            well_formed(pieces) && #[trigger] template_of(pieces) == template@ ==> output_of(r)
                == rendered(pieces, params@),
{
    let vars: std::collections::HashMap<String, String> = params.entries.iter().cloned().collect();
    match ::strfmt::strfmt(template, &vars) {
        Ok(text) => Ok(text),
        Err(::strfmt::FmtError::Invalid(s)) => Err(TemplateError::Invalid(s)),
        Err(::strfmt::FmtError::KeyError(s)) => Err(TemplateError::KeyError(s)),
        Err(::strfmt::FmtError::TypeError(s)) => Err(TemplateError::TypeError(s)),
    }
}

/// Renders a template against the parameters.
///
/// A template written as plain pieces renders to the pieces' text, and fails
/// where a placeholder names a missing key. Of any other template the result
/// is the one that [`strfmt_output`] names.
pub fn render(template: &str, params: &ConfigMap) -> (r: Result<String, TemplateError>)
    ensures
        output_of(r) == strfmt_output(template@, params@),
        forall|pieces: Seq<Piece>|
            well_formed(pieces) && #[trigger] template_of(pieces) == template@ ==> output_of(r)
                == rendered(pieces, params@),
{
    substitute(template, params)
}

} // verus!
