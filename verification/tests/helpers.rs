//! The request-facing helpers: pagination, query encoding, form utilities
//! and the trusted encoding boundary exercised through public functions.

use plume::errors::Error;
use plume::render::{escape, render};
use plume::signatures::{digest_matches, digest_value};
use plume::signing::{ascii_lower, build_signing_string, string_to_bytes, Header};
use plume::sigheader::{render_signature_header, signature_from_headers};
use plume::signatures::Signature;
use plume::uris::uri_domain;
use plume::web::{
    default_avatar, encode_query_param, parse_user_action, plan_role_changes, tabs, Input,
    MultiAction, Page, Ructe, Size, UserActions,
};

#[test]
fn page_total_rounds_up() {
    assert_eq!(Page::total(0), 0);
    assert_eq!(Page::total(12), 1);
    assert_eq!(Page::total(13), 2);
    assert_eq!(Page::total(24), 2);
    assert_eq!(Page::total(25), 3);
}

#[test]
fn page_limits_cover_twelve_items() {
    assert_eq!(Page(1).limits(), (0, 12));
    assert_eq!(Page(3).limits(), (24, 36));
}

#[test]
fn encode_query_param_escapes_plus_and_space() {
    assert_eq!(encode_query_param("a+b c"), "a%2Bb+c");
    assert_eq!(encode_query_param(""), "");
    assert_eq!(encode_query_param("plain"), "plain");
}

#[test]
fn tabs_renders_links_in_order() {
    let links = vec![
        ("/a".to_string(), "A".to_string(), false),
        ("/b".to_string(), "B".to_string(), true),
    ];
    assert_eq!(
        tabs(&links),
        "<div class=\"tabs\"><a dir=\"auto\" href=\"/a\">A</a><a dir=\"auto\" href=\"/b\" class=\"selected\">B</a></div>"
    );
}

#[test]
fn default_avatar_falls_back() {
    assert_eq!(default_avatar(&None), "/static/images/default-avatar.png");
    assert_eq!(
        default_avatar(&Some("https://x/avatar.png".to_string())),
        "https://x/avatar.png"
    );
}

#[test]
fn size_labels() {
    assert_eq!(Size::Small.as_str(), "small");
    assert_eq!(Size::Medium.as_str(), "medium");
}

#[test]
fn input_builder_sets_fields_and_replaces_props() {
    let input = Input::new("mail".to_string(), "Your email address".to_string())
        .input_type("email".to_string())
        .default("foo@bar.example".to_string())
        .optional()
        .details("We won't use it for advertising.".to_string())
        .set_prop("class".to_string(), "one".to_string())
        .set_prop("class".to_string(), "two".to_string());
    assert_eq!(input.name, "mail");
    assert_eq!(input.input_type, "email");
    assert!(input.optional);
    assert_eq!(input.default.as_deref(), Some("foo@bar.example"));
    assert_eq!(input.props.len(), 1);
    assert_eq!(input.props[0], ("class".to_string(), "two".to_string()));
}

#[test]
fn form_marker_detection() {
    let page = Ructe(b"<html><form action=\"/x\"></form></html>".to_vec());
    assert!(page.has_form_tag());
    let plain = Ructe(b"<html><p>nothing</p></html>".to_vec());
    assert!(!plain.has_form_tag());
    let tiny = Ructe(b"<f".to_vec());
    assert!(!tiny.has_form_tag());
}

#[test]
fn role_plan_refuses_self_and_non_admin_grants() {
    let form = MultiAction { ids: vec![4, 5], action: UserActions::Admin };
    assert!(plan_role_changes(4, true, &form).is_none());
    assert!(plan_role_changes(9, false, &form).is_none());
    let plan = plan_role_changes(9, true, &form).unwrap();
    assert_eq!(plan.len(), 2);
    assert_eq!(plan[0].0, 4);
    assert!(plan[0].1.is_some());
}

#[test]
fn digest_of_empty_body_is_the_reference_value() {
    // The digest of an empty body is a published reference value; it shows
    // the hash and its encoding are computed, not echoed.
    let v = digest_value(&Vec::new());
    assert_eq!(v, "SHA-256=47DEQpj8HBSa+/TImW+5JCeuQeRkm5NMpJWZG3hSuFU=");
}

#[test]
fn digest_header_has_known_value() {
    // The digest of b"abc" is a published reference value.
    let v = digest_value(&b"abc".to_vec());
    assert_eq!(v, "SHA-256=ungWv48Bz+pBQUDeXa4iI7ADYaOWF3qctBD/YfIAFa0=");
    assert!(digest_matches(&v, &b"abc".to_vec()));
    assert!(!digest_matches(&v, &b"abd".to_vec()));
}

#[test]
fn signing_string_joins_claimed_headers() {
    let headers = vec![
        Header { name: "host".to_string(), value: "x.example".to_string() },
        Header { name: "date".to_string(), value: "today".to_string() },
    ];
    let claimed = vec!["host".to_string(), "date".to_string()];
    let s = build_signing_string(&headers, &claimed).unwrap();
    assert_eq!(s, "host: x.example\ndate: today");
    let missing = vec!["host".to_string(), "digest".to_string()];
    assert_eq!(
        build_signing_string(&headers, &missing),
        Err(Error::MalformedSignature)
    );
}

#[test]
fn ascii_lower_and_byte_encoding() {
    assert_eq!(ascii_lower("POST"), "post");
    assert_eq!(ascii_lower("MiXeD-9"), "mixed-9");
    assert_eq!(string_to_bytes("ab"), vec![97u8, 98u8]);
}

#[test]
fn uri_domain_extracts_the_host() {
    assert_eq!(
        uri_domain("https://far.example/@/bob").as_deref(),
        Some("far.example")
    );
    assert_eq!(uri_domain("https://bare.example").as_deref(), Some("bare.example"));
    assert_eq!(uri_domain("no scheme here"), None);
}

#[test]
fn render_escapes_newlines_and_backslashes() {
    assert_eq!(escape("a\\b\nc"), "a\\\\b\\nc");
    let act = plume::model::Activity {
        id: "id1".to_string(),
        actor_uri: "https://x/@/a".to_string(),
        kind: plume::model::ActivityKind::Like { object_uri: "https://x/p/1".to_string() },
        published_at: 0,
    };
    let body = render(&act);
    assert!(body.contains("id: id1\n"));
    assert!(body.contains("type: Like\n"));
    assert!(body.contains("object: https://x/p/1\n"));
}

#[test]
fn error_messages_are_stable() {
    assert_eq!(Error::Blocked.message(), "instance is blocked");
    assert_eq!(Error::DigestMismatch.message(), "digest mismatch");
    assert_eq!(Error::NotFound.message(), "not found");
    assert_eq!(Error::FetchError.message(), "fetch error");
    assert_eq!(Error::TypeMismatch.message(), "unexpected document type");
    assert_eq!(Error::InvalidSignature.message(), "invalid signature");
}

#[test]
fn signature_header_round_trip() {
    let sig = Signature {
        key_id: "https://far.example/@/bob#main-key".to_string(),
        headers: vec![
            "(request-target)".to_string(),
            "host".to_string(),
            "digest".to_string(),
        ],
        signature: "AQID".to_string(),
    };
    let value = render_signature_header(&sig);
    assert_eq!(
        value,
        "Signature keyId=\"https://far.example/@/bob#main-key\",headers=\"(request-target) host digest\",signature=\"AQID\""
    );
    let headers = vec![Header {
        name: "authorization".to_string(),
        value,
    }];
    let parsed = signature_from_headers(&headers).unwrap();
    assert_eq!(parsed.key_id, sig.key_id);
    assert_eq!(parsed.headers, sig.headers);
    assert_eq!(parsed.signature, sig.signature);
}

#[test]
fn signature_header_errors_are_precise() {
    assert!(matches!(signature_from_headers(&vec![]), Err(Error::NoHeader)));
    let no_type = vec![Header {
        name: "authorization".to_string(),
        value: "token".to_string(),
    }];
    assert!(matches!(signature_from_headers(&no_type), Err(Error::NoType)));
    let no_value = vec![Header {
        name: "authorization".to_string(),
        value: "Signature ".to_string(),
    }];
    assert!(matches!(signature_from_headers(&no_value), Err(Error::NoValue)));
    let malformed = vec![Header {
        name: "signature".to_string(),
        value: "keyId=broken".to_string(),
    }];
    assert!(matches!(
        signature_from_headers(&malformed),
        Err(Error::MalformedSignature)
    ));
}

#[test]
fn user_actions_parse_exactly_five_spellings() {
    assert!(matches!(parse_user_action("admin"), Ok(UserActions::Admin)));
    assert!(matches!(parse_user_action("un-admin"), Ok(UserActions::RevokeAdmin)));
    assert!(matches!(parse_user_action("moderator"), Ok(UserActions::Moderator)));
    assert!(matches!(
        parse_user_action("un-moderator"),
        Ok(UserActions::RevokeModerator)
    ));
    assert!(matches!(parse_user_action("ban"), Ok(UserActions::Ban)));
    assert!(parse_user_action("Admin").is_err());
    assert!(parse_user_action("").is_err());
}

#[test]
fn api_token_scope_matching() {
    let token = plume::web::ApiToken {
        id: 1,
        creation_date: 0,
        value: "tok".to_string(),
        scopes: "read:posts+write:posts".to_string(),
        app_id: 2,
        user_id: 3,
    };
    assert!(token.can_read("posts"));
    assert!(token.can_write("posts"));
    assert!(!token.can_read("medias"));
    assert!(!token.can("read", "post"));
    let global = plume::web::ApiToken {
        id: 1,
        creation_date: 0,
        value: "tok".to_string(),
        scopes: "read+write".to_string(),
        app_id: 2,
        user_id: 3,
    };
    assert!(global.can_read("anything"));
    assert!(global.can_write("posts"));
}
