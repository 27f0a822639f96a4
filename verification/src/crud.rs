//! The decisions of the request handlers: which parameters a request needs,
//! how they are validated, and what a refused request is answered with.
use vstd::prelude::*;
use vstd::string::*;

use crate::text::{concat_str, views};
use crate::validations::{field_check, MissingParameter, DatabaseError, Rejection, Validations};

verus! {

/// Creating an author needs a `name`, which must pass validation.
pub fn create_author_check(name: Option<&str>) -> (r: Result<(), Rejection>)
    ensures
        r == match name {
            Some(n) => field_check(n@),
            None => Err(Rejection::MissingParameter(MissingParameter)),
        },
{
    match name {
        Some(n) => Validations::validate(n),
        None => Err(Rejection::MissingParameter(MissingParameter)),
    }
}

/// Creating a post needs a `title`, a `body` and an `author_id`; the title
/// must pass validation. A missing parameter is answered as a database
/// failure.
pub fn create_post_check(title: Option<&str>, body: Option<&str>, author_id: Option<&str>) -> (r:
    Result<(), Rejection>)
    ensures
        r == match (title, body, author_id) {
            (Some(t), Some(_), Some(_)) => field_check(t@),
            _ => Err(Rejection::Database(DatabaseError)),
        },
{
    match (title, body, author_id) {
        (Some(t), Some(_), Some(_)) => Validations::validate(t),
        _ => Err(Rejection::Database(DatabaseError)),
    }
}

/// Creating a user and logging in need a `username` and a `password`, both
/// of which must pass validation, the username first.
pub fn user_params_check(username: Option<&str>, password: Option<&str>) -> (r: Result<(), Rejection>)
    ensures
        r == match (username, password) {
            (Some(u), Some(p)) => match all_fields_check(seq![u@, p@]) {
                Ok(_) => Ok(()),
                Err(e) => Err(e),
            },
            _ => Err(Rejection::MissingParameter(MissingParameter)),
        },
{
    match (username, password) {
        (Some(u), Some(p)) => {
            let mut params: Vec<String> = Vec::new();
            params.push(String::from_str(u));
            params.push(String::from_str(p));
            assert(views(params@) =~= seq![u@, p@]);
            match validate_all_params(params) {
                Ok(_) => Ok(()),
                Err(rejection) => Err(rejection),
            }
        },
        _ => Err(Rejection::MissingParameter(MissingParameter)),
    }
}

/// The answer to creating an author.
pub fn author_created_message(name: &str) -> (text: String)
    ensures
        text@ == "User created with name: "@ + name@,
{
    concat_str("User created with name: ", name)
}

/// The status code and text of a refused request: 404 when no route
/// matched, 400 for a body that is too large, 500 otherwise.
pub fn rejection_reply(not_found: bool, payload_too_large: bool) -> (reply: (u16, String))
    ensures
        not_found ==> reply.0 == 404 && reply.1@ == "Not Found"@,
        !not_found && payload_too_large ==> reply.0 == 400 && reply.1@ == "Payload too large"@,
        !not_found && !payload_too_large ==> reply.0 == 500 && reply.1@
            == "Internal Server Error"@,
{
    if not_found {
        (404, String::from_str("Not Found"))
    } else if payload_too_large {
        (400, String::from_str("Payload too large"))
    } else {
        (500, String::from_str("Internal Server Error"))
    }
}

/// The verdict on a list of fields: the refusal of the first one refused,
/// else acceptance.
pub open spec fn all_fields_check(fields: Seq<Seq<char>>) -> Result<bool, Rejection>
    decreases fields.len(),
{
    if fields.len() == 0 {
        Ok(true)
    } else {
        match field_check(fields[0]) {
            Err(e) => Err(e),
            Ok(()) => all_fields_check(fields.drop_first()),
        }
    }
}

/// Validates every parameter in order and refuses with the first refusal.
pub fn validate_all_params(params: Vec<String>) -> (r: Result<bool, Rejection>)
    ensures
        r == all_fields_check(views(params@)),
{
    let n = params.len();
    let mut i: usize = 0;
    assert(views(params@).skip(0) =~= views(params@));
    while i < n
        invariant
            n == params@.len(),
            0 <= i <= n,
            all_fields_check(views(params@)) == all_fields_check(views(params@).skip(i as int)),
        decreases n - i,
    {
        let ghost rest = views(params@).skip(i as int);
        assert(rest[0] == params@[i as int]@);
        assert(rest.drop_first() =~= views(params@).skip(i + 1));
        match Validations::validate(params[i].as_str()) {
            Ok(()) => {},
            Err(rejection) => {
                return Err(rejection);
            },
        }
        i = i + 1;
    }
    assert(views(params@).skip(n as int) =~= Seq::<Seq<char>>::empty());
    Ok(true)
}

/// A list of fields is accepted exactly when every field in it is, and
/// acceptance is always `Ok(true)`.
pub proof fn lemma_all_fields_ok_iff_each(fields: Seq<Seq<char>>)
    ensures
        all_fields_check(fields) is Ok <==> forall|i: int|
            0 <= i < fields.len() ==> #[trigger] field_check(fields[i]) is Ok,
        all_fields_check(fields) is Ok ==> all_fields_check(fields) == Ok::<bool, Rejection>(true),
    decreases fields.len(),
{
    if fields.len() > 0 {
        let rest = fields.drop_first();
        lemma_all_fields_ok_iff_each(rest);
        if field_check(fields[0]) is Ok {
            if forall|j: int| 0 <= j < rest.len() ==> #[trigger] field_check(rest[j]) is Ok {
                assert forall|i: int| 0 <= i < fields.len() implies #[trigger] field_check(
                    fields[i],
                ) is Ok by {
                    if i > 0 {
                        assert(rest[i - 1] == fields[i]);
                    }
                }
            } else {
                let j = choose|j: int| 0 <= j < rest.len() && !(#[trigger] field_check(rest[j]) is Ok);
                assert(rest[j] == fields[j + 1]);
            }
        }
    }
}

} // verus!
