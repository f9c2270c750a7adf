use vstd::prelude::*;

verus! {

#[verifier::external_type_specification]
#[verifier::external_body]
pub struct ExMethod(reqwest::Method);

/// The text of a method, as the transport writes it on the request line.
pub uninterp spec fn method_token(m: reqwest::Method) -> Seq<char>;

/// A character allowed in an HTTP token (`tchar`): a letter, a digit or one of
/// ``!#$%&'*+-.^_`|~``.
pub open spec fn is_tchar(c: char) -> bool {
    ('0' <= c && c <= '9') || ('a' <= c && c <= 'z') || ('A' <= c && c <= 'Z') || c == '!'
        || c == '#' || c == '$' || c == '%' || c == '&' || c == '\'' || c == '*' || c == '+'
        || c == '-' || c == '.' || c == '^' || c == '_' || c == '`' || c == '|' || c == '~'
}

/// A method token: one or more token characters. Standard methods (`GET`,
/// `POST`, ...) and extension methods alike are tokens.
pub open spec fn is_method_token(s: Seq<char>) -> bool {
    s.len() > 0 && forall|i: int| 0 <= i < s.len() ==> is_tchar(#[trigger] s[i])
}

/// A text that holds a space, a tab or another control character is no method
/// token, so it is rejected before anything is sent.
pub proof fn lemma_blank_or_control_is_not_token(s: Seq<char>, i: int)
    requires
        0 <= i < s.len(),
        s[i] == ' ' || (s[i] as u32) < 32 || (s[i] as u32) == 127,
    ensures
        !is_method_token(s),
{
    assert(!is_tchar(s[i]));
}

/// The standard methods are tokens, so they pass validation.
pub proof fn lemma_standard_methods_are_tokens()
    ensures
        is_method_token("GET"@),
        is_method_token("POST"@),
        is_method_token("PUT"@),
        is_method_token("DELETE"@),
        is_method_token("PATCH"@),
        is_method_token("HEAD"@),
        is_method_token("OPTIONS"@),
{
    reveal_strlit("GET");
    reveal_strlit("POST");
    reveal_strlit("PUT");
    reveal_strlit("DELETE");
    reveal_strlit("PATCH");
    reveal_strlit("HEAD");
    reveal_strlit("OPTIONS");
}

/// The diagnostic text of a rejected method.
pub open spec fn invalid_method_text() -> Seq<char> {
    "invalid HTTP method"@
}

/// Relies on http's `Method::from_str` (re-exported by reqwest): the text is
/// accepted exactly when it is a non-empty run of token characters, the method
/// then keeps that text exactly (`Method::as_str`), and the error displays as
/// "invalid HTTP method".
#[verifier::external_body]
fn method_from_text(text: &str) -> (r: Result<reqwest::Method, String>)
    ensures
        r is Ok <==> is_method_token(text@),
        r is Ok ==> method_token(r->Ok_0) == text@,
        r is Err ==> r->Err_0@ == invalid_method_text(),
{
    match <reqwest::Method as std::str::FromStr>::from_str(text) {
        Ok(m) => Ok(m),
        Err(e) => Err(e.to_string()),
    }
}

/// Parses the method text of a request.
pub fn parse_method(text: &str) -> (r: Result<reqwest::Method, crate::error::RequestError>)
    ensures
        r is Ok <==> is_method_token(text@),
        r is Ok ==> method_token(r->Ok_0) == text@,
        r is Err ==> r->Err_0 is InvalidMethod && r->Err_0.text() == invalid_method_text(),
{
    match method_from_text(text) {
        Ok(m) => Ok(m),
        Err(msg) => Err(crate::error::RequestError::InvalidMethod(msg)),
    }
}

} // verus!
