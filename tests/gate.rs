use abacus_auth::authenticator::{authenticate, AuthOutcome};
use abacus_auth::gate::{authorize, is_uploadable_content_type, Denial, Payload};
use abacus_auth::store::{create_inactive_user_by_google_claims, Store};
use abacus_auth::user::GoogleClaims;

fn body(d: &Denial) -> String {
    format!("{{\"code\":{},\"message\":\"{}\"}}", d.status_code(), d.message())
}

fn multipart(has_query: bool, types: &[&str]) -> Payload {
    Payload::Multipart {
        has_query,
        upload_content_types: types.iter().map(|t| t.to_string()).collect(),
    }
}

fn admin() -> AuthOutcome {
    let mut store = Store::new();
    let claims = GoogleClaims::new("root".to_string(), None, None);
    let u = create_inactive_user_by_google_claims(&mut store, &claims).unwrap();
    store.set_user_status(u.id(), true, true);
    let u = abacus_auth::store::find_user_by_google_claims(&store, "root").unwrap();
    AuthOutcome::Authenticated(u)
}

fn member() -> AuthOutcome {
    let mut store = Store::new();
    let claims = GoogleClaims::new("member".to_string(), None, None);
    let u = create_inactive_user_by_google_claims(&mut store, &claims).unwrap();
    AuthOutcome::Authenticated(u)
}

#[test]
fn test_graphql_post_forbidden() {
    let mut store = Store::new();
    let auth = authenticate(&mut store, Some("Bearer XYZ"), "2021-01-01T00:00:00.000Z");
    let denial = authorize(&auth, &Payload::Simple).unwrap_err();
    assert_eq!(denial.status_code(), 403);
    assert_eq!(
        body(&denial),
        r#"{"code":403,"message":"Session token doesn't match any user."}"#
    );
}

#[test]
fn test_graphql_multipart_forbidden() {
    let mut store = Store::new();
    let auth = authenticate(&mut store, Some("Bearer XYZ"), "2021-01-01T00:00:00.000Z");
    let denial = authorize(&auth, &multipart(true, &[])).unwrap_err();
    assert_eq!(denial.status_code(), 403);
    assert_eq!(
        body(&denial),
        r#"{"code":403,"message":"Session token doesn't match any user."}"#
    );
}

#[test]
fn test_graphql_multipart_upload_forbidden() {
    let denial = authorize(&AuthOutcome::Anonymous, &multipart(true, &["image/png"])).unwrap_err();
    assert_eq!(
        body(&denial),
        r#"{"code":403,"message":"admin permissions required when uploading"}"#
    );
    assert_eq!(denial.status_code(), 403);
}

#[test]
fn test_graphql_multipart_upload_forbidden_unkown_content_type() {
    let denial =
        authorize(&AuthOutcome::Anonymous, &multipart(true, &["application/pdf"])).unwrap_err();
    assert_eq!(
        body(&denial),
        r#"{"code":400,"message":"invalid uploadable file type: application/pdf"}"#
    );
    assert_eq!(denial.status_code(), 400);
}

#[test]
fn test_graphql_multipart_query_missing() {
    let denial = authorize(&AuthOutcome::Anonymous, &multipart(false, &["image/png"])).unwrap_err();
    assert_eq!(denial.status_code(), 400);
    assert_eq!(
        body(&denial),
        r#"{"code":400,"message":"Query is a required field when using multipart GraphQL."}"#
    );
}

#[test]
fn anonymous_simple_query_is_allowed() {
    let mut store = Store::new();
    let auth = authenticate(&mut store, None, "t");
    assert!(matches!(auth, AuthOutcome::Anonymous));
    assert!(authorize(&auth, &Payload::Simple).is_ok());
}

#[test]
fn multipart_query_without_uploads_is_allowed_for_anybody() {
    assert!(authorize(&AuthOutcome::Anonymous, &multipart(true, &[])).is_ok());
    assert!(authorize(&member(), &multipart(true, &[])).is_ok());
}

#[test]
fn admin_may_upload_images() {
    assert!(authorize(&admin(), &multipart(true, &["image/png", "image/jpeg"])).is_ok());
}

#[test]
fn member_without_admin_rights_may_not_upload() {
    let d = authorize(&member(), &multipart(true, &["image/png"])).unwrap_err();
    assert!(matches!(d, Denial::AdminRequired));
}

#[test]
fn admin_may_not_upload_unsupported_types() {
    let d = authorize(&admin(), &multipart(true, &["image/png", "text/html", "application/pdf"]))
        .unwrap_err();
    assert_eq!(d.message(), "invalid uploadable file type: text/html");
}

#[test]
fn missing_query_comes_before_everything_but_rejection() {
    let d = authorize(&AuthOutcome::Anonymous, &multipart(false, &["application/pdf"])).unwrap_err();
    assert!(matches!(d, Denial::MissingQuery));
    let d = authorize(&AuthOutcome::Rejected, &multipart(false, &[])).unwrap_err();
    assert!(matches!(d, Denial::Unauthenticated));
}

#[test]
fn simple_payload_ignores_admin_rights() {
    assert!(authorize(&member(), &Payload::Simple).is_ok());
    assert!(authorize(&admin(), &Payload::Simple).is_ok());
}

#[test]
fn uploadable_types_are_exact() {
    assert!(is_uploadable_content_type(&"image/png".to_string()));
    assert!(is_uploadable_content_type(&"image/jpeg".to_string()));
    assert!(is_uploadable_content_type(&"image/gif".to_string()));
    assert!(is_uploadable_content_type(&"image/webp".to_string()));
    assert!(!is_uploadable_content_type(&"image/PNG".to_string()));
    assert!(!is_uploadable_content_type(&"image/png; x=1".to_string()));
    assert!(!is_uploadable_content_type(&String::new()));
}
