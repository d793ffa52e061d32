use vstd::prelude::*;
use crate::authenticator::{AuthOutcome, AuthOutcomeView};

verus! {

/// The shape of an inbound GraphQL request.
#[derive(Clone, Debug)]
pub enum Payload {
    /// A JSON body: query, variables and operation name only.
    Simple,
    /// A multipart form: whether it holds a `query` part, and the declared content type of each
    /// extra (file) part, in order.
    Multipart { has_query: bool, upload_content_types: Vec<String> },
}

pub enum PayloadView {
    Simple,
    Multipart { has_query: bool, upload_content_types: Seq<Seq<char>> },
}

impl View for Payload {
    type V = PayloadView;

    open spec fn view(&self) -> PayloadView {
        match self {
            Payload::Simple => PayloadView::Simple,
            Payload::Multipart { has_query, upload_content_types } => PayloadView::Multipart {
                has_query: *has_query,
                upload_content_types: upload_content_types@.map_values(|s: String| s@),
            },
        }
    }
}

/// Why a request is refused before it reaches GraphQL execution.
#[derive(Clone, Debug)]
pub enum Denial {
    /// A credential was presented that resolves to nobody.
    Unauthenticated,
    /// Extra parts were sent by somebody without administrative rights.
    AdminRequired,
    /// An extra part declares a content type that may not be uploaded.
    UnsupportedUpload(String),
    /// A multipart request without a `query` part.
    MissingQuery,
}

pub enum DenialView {
    Unauthenticated,
    AdminRequired,
    UnsupportedUpload(Seq<char>),
    MissingQuery,
}

impl View for Denial {
    type V = DenialView;

    open spec fn view(&self) -> DenialView {
        match self {
            Denial::Unauthenticated => DenialView::Unauthenticated,
            Denial::AdminRequired => DenialView::AdminRequired,
            Denial::UnsupportedUpload(ct) => DenialView::UnsupportedUpload(ct@),
            Denial::MissingQuery => DenialView::MissingQuery,
        }
    }
}

/// The media types that may be uploaded.
pub open spec fn is_uploadable(content_type: Seq<char>) -> bool {
    ||| content_type == "image/png"@
    ||| content_type == "image/jpeg"@
    ||| content_type == "image/gif"@
    ||| content_type == "image/webp"@
}

/// The first content type in `cts` that may not be uploaded.
pub open spec fn first_unsupported(cts: Seq<Seq<char>>) -> Option<Seq<char>>
    decreases cts.len(),
{
    if cts.len() == 0 {
        None
    } else if !is_uploadable(cts[0]) {
        Some(cts[0])
    } else {
        first_unsupported(cts.drop_first())
    }
}

pub open spec fn acts_as_admin(auth: AuthOutcomeView) -> bool {
    match auth {
        AuthOutcomeView::Authenticated(u) => u.is_admin,
        _ => false,
    }
}

/// The decision for a request: a rejected credential first, then, for a multipart request, a
/// missing query, an unsupported upload, and uploads without administrative rights, in this
/// order. Everything else is let through.
pub open spec fn decision(auth: AuthOutcomeView, payload: PayloadView) -> Result<(), DenialView> {
    if auth is Rejected {
        Err(DenialView::Unauthenticated)
    } else {
        match payload {
            PayloadView::Simple => Ok(()),
            PayloadView::Multipart { has_query, upload_content_types } => {
                if !has_query {
                    Err(DenialView::MissingQuery)
                } else if first_unsupported(upload_content_types) is Some {
                    Err(
                        DenialView::UnsupportedUpload(
                            first_unsupported(upload_content_types)->Some_0,
                        ),
                    )
                } else if upload_content_types.len() > 0 && !acts_as_admin(auth) {
                    Err(DenialView::AdminRequired)
                } else {
                    Ok(())
                }
            },
        }
    }
}

pub fn is_uploadable_content_type(content_type: &String) -> (r: bool)
    ensures
        r == is_uploadable(content_type@),
{
    *content_type == String::from_str("image/png") || *content_type == String::from_str(
        "image/jpeg",
    ) || *content_type == String::from_str("image/gif") || *content_type == String::from_str(
        "image/webp",
    )
}

fn find_unsupported(cts: &Vec<String>) -> (r: Option<String>)
    ensures
        match r {
            Some(ct) => first_unsupported(cts@.map_values(|s: String| s@)) == Some(ct@),
            None => first_unsupported(cts@.map_values(|s: String| s@)) is None,
        },
{
    let ghost all = cts@.map_values(|s: String| s@);
    let mut i: usize = 0;
    assert(all.subrange(0, all.len() as int) =~= all);
    while i < cts.len()
        invariant
            all == cts@.map_values(|s: String| s@),
            i <= cts.len(),
            first_unsupported(all) == first_unsupported(all.subrange(i as int, all.len() as int)),
        decreases cts.len() - i,
    {
        let ghost rest = all.subrange(i as int, all.len() as int);
        assert(rest.drop_first() =~= all.subrange(i + 1, all.len() as int));
        assert(rest[0] == cts[i as int]@);
        if !is_uploadable_content_type(&cts[i]) {
            return Some(cts[i].clone());
        }
        i = i + 1;
    }
    assert(all.subrange(i as int, all.len() as int).len() == 0);
    None
}

/// Decides whether a request may go on to GraphQL execution.
pub fn authorize(auth: &AuthOutcome, payload: &Payload) -> (r: Result<(), Denial>)
    ensures
        match r {
            Ok(()) => decision(auth@, payload@) == Ok::<(), DenialView>(()),
            Err(d) => decision(auth@, payload@) == Err::<(), DenialView>(d@),
        },
{
    if let AuthOutcome::Rejected = auth {
        return Err(Denial::Unauthenticated);
    }
    match payload {
        Payload::Simple => Ok(()),
        Payload::Multipart { has_query, upload_content_types } => {
            if !*has_query {
                return Err(Denial::MissingQuery);
            }
            if let Some(ct) = find_unsupported(upload_content_types) {
                return Err(Denial::UnsupportedUpload(ct));
            }
            let is_admin = match auth {
                AuthOutcome::Authenticated(u) => u.is_admin,
                _ => false,
            };
            if upload_content_types.len() > 0 && !is_admin {
                Err(Denial::AdminRequired)
            } else {
                Ok(())
            }
        },
    }
}

/// The HTTP status that a denial is answered with.
pub open spec fn status_of(d: DenialView) -> u16 {
    match d {
        DenialView::Unauthenticated => 403,
        DenialView::AdminRequired => 403,
        DenialView::UnsupportedUpload(_) => 400,
        DenialView::MissingQuery => 400,
    }
}

/// The message that a denial is answered with.
pub open spec fn message_of(d: DenialView) -> Seq<char> {
    match d {
        DenialView::Unauthenticated => "Session token doesn't match any user."@,
        DenialView::AdminRequired => "admin permissions required when uploading"@,
        DenialView::UnsupportedUpload(ct) => "invalid uploadable file type: "@ + ct,
        DenialView::MissingQuery => "Query is a required field when using multipart GraphQL."@,
    }
}

impl Denial {
    pub fn status_code(&self) -> (r: u16)
        ensures
            r == status_of(self@),
    {
        match self {
            Denial::Unauthenticated => 403,
            Denial::AdminRequired => 403,
            Denial::UnsupportedUpload(_) => 400,
            Denial::MissingQuery => 400,
        }
    }

    pub fn message(&self) -> (r: String)
        ensures
            r@ == message_of(self@),
    {
        match self {
            Denial::Unauthenticated => String::from_str("Session token doesn't match any user."),
            Denial::AdminRequired => String::from_str("admin permissions required when uploading"),
            Denial::UnsupportedUpload(ct) => String::from_str(
                "invalid uploadable file type: ",
            ).concat(ct.as_str()),
            Denial::MissingQuery => String::from_str(
                "Query is a required field when using multipart GraphQL.",
            ),
        }
    }
}

} // verus!
