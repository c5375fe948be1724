//! What the rollback needs to know of the database connection: the user
//! that owns the schema, and the statement that resets the schema for it.

use crate::planner::option_text;
use vstd::prelude::*;
use vstd::string::StringExecFns;

verus! {

/// The error of the `url` crate's parser.
#[verifier::external_type_specification]
#[verifier::external_body]
pub struct ExParseError(url::ParseError);

/// The username that a connection URL carries, percent-encoded as the URL
/// parser of the `url` crate reports it; nothing where the text does not
/// parse as an absolute URL.
pub uninterp spec fn url_username(url: Seq<char>) -> Option<Seq<char>>;

/// The statement that empties the default schema and hands it to `user`:
/// the schema is dropped with all that it holds and created anew, and all
/// rights on it are granted to `user` and to everyone.
pub open spec fn reset_statement(user: Seq<char>) -> Seq<char> {
    "DROP SCHEMA public CASCADE;\nCREATE SCHEMA public;\nGRANT ALL ON SCHEMA public TO "@ + user
        + ";\nGRANT ALL ON SCHEMA public TO public;\n"@
}

/// `Url::parse` of the `url` crate, followed by `Url::username` on what it
/// returned. Assumed: whether the text parses, and the username of the
/// parsed URL, depend on the text alone.
#[verifier::external_body]
fn parse_username(url: &str) -> (r: Result<String, url::ParseError>)
    ensures
        match r {
            Ok(name) => url_username(url@) == Some(name@),
            Err(_) => url_username(url@) is None,
        },
{
    match url::Url::parse(url) {
        Ok(parsed) => Ok(parsed.username().to_string()),
        Err(error) => Err(error),
    }
}

/// The username that a connection URL carries, if the URL parses.
pub fn username_of(url: &str) -> (r: Option<String>)
    ensures
        option_text(r) == url_username(url@),
{
    match parse_username(url) {
        Ok(name) => Some(name),
        Err(_) => None,
    }
}

/// Writes the statement that resets the schema for `user`.
pub fn reset_statement_for(user: &str) -> (statement: String)
    ensures
        statement@ == reset_statement(user@),
{
    let mut statement = String::from_str(
        "DROP SCHEMA public CASCADE;\nCREATE SCHEMA public;\nGRANT ALL ON SCHEMA public TO ",
    );
    statement.append(user);
    statement.append(";\nGRANT ALL ON SCHEMA public TO public;\n");
    statement
}

} // verus!
