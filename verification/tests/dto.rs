use service_access::ids::Uuid;
use service_access::principal::dto::{
    ListServicePrincipalsResponseDto, ServicePrincipalCredentialsDto, ServicePrincipalSummaryDto,
};
use service_access::principal::models::{
    ClientSecret, ServicePrincipalCredentials, ServicePrincipalSummary,
};

fn credentials(secret: &str) -> ServicePrincipalCredentials {
    ServicePrincipalCredentials {
        client_id: "svc-abc".to_owned(),
        client_secret: ClientSecret::new(secret.to_owned()),
        token_url: "https://idp/token".to_owned(),
        subject_id: Uuid { value: 0 },
    }
}

#[test]
fn credentials_debug_redacts_secret() {
    let dto = ServicePrincipalCredentialsDto::from(ServicePrincipalCredentials {
        client_id: "svc-abc".to_owned(),
        client_secret: ClientSecret::new("super-secret".to_owned()),
        token_url: "https://idp/token".to_owned(),
        subject_id: Uuid { value: 0 },
    });
    let rendered = dto.to_debug_string();
    assert!(
        !rendered.contains("super-secret"),
        "secret must not appear in Debug"
    );
    assert_eq!(dto.client_secret, "super-secret");
}

#[test]
fn credentials_debug_has_the_shape_of_a_struct() {
    let dto = ServicePrincipalCredentialsDto::from(credentials("s3cr3t"));
    assert_eq!(
        dto.to_debug_string(),
        "ServicePrincipalCredentialsDto { client_id: \"svc-abc\", \
         client_secret: \"[REDACTED]\", token_url: \"https://idp/token\", \
         subject_id: 00000000-0000-0000-0000-000000000000 }"
    );
    let quoted = ServicePrincipalCredentialsDto {
        client_id: "a\"b\n".to_owned(),
        ..dto
    };
    assert!(quoted
        .to_debug_string()
        .contains("client_id: \"a\\\"b\\n\","));
}

#[test]
fn credentials_debug_does_not_depend_on_the_secret() {
    let one = ServicePrincipalCredentialsDto::from(credentials("one"));
    let other = ServicePrincipalCredentialsDto::from(credentials("another"));
    assert!(one != other);
    assert_eq!(one.to_debug_string(), other.to_debug_string());
}

#[test]
fn secrets_hold_what_they_were_made_of() {
    assert_eq!(ClientSecret::new("s3cr3t".to_owned()).expose(), "s3cr3t");
    let dto = ServicePrincipalCredentialsDto::from(credentials("rotated"));
    assert_eq!(dto.client_id, "svc-abc");
    assert_eq!(dto.client_secret, "rotated");
    assert_eq!(dto.token_url, "https://idp/token");
    assert_eq!(dto.subject_id, Uuid { value: 0 });
}

#[test]
fn summary_carries_the_name_verbatim() {
    let dto = ServicePrincipalSummaryDto::from(ServicePrincipalSummary {
        client_id: "9f1c0b3e-object-id".to_owned(),
        name: "ci".to_owned(),
        enabled: true,
        scopes: vec!["openid".to_owned()],
    });
    assert_eq!(dto.client_id, "9f1c0b3e-object-id");
    assert_eq!(dto.name, "ci");
    assert!(dto.enabled);
    assert_eq!(dto.scopes, vec!["openid".to_owned()]);
    let listing = ListServicePrincipalsResponseDto {
        service_principals: vec![dto.clone()],
    };
    assert_eq!(listing.service_principals[0], dto);
}
