use slumber::error::TemplateError;
use slumber::key::TemplateKey;

#[test]
fn test_parse_template_key_success() {
    // Success cases
    assert_eq!(
        TemplateKey::parse("field_id").unwrap(),
        TemplateKey::Field("field_id")
    );
    assert_eq!(
        TemplateKey::parse("chains.chain_id").unwrap(),
        TemplateKey::Chain("chain_id")
    );
    // This is "valid", but probably won't match anything
    assert_eq!(
        TemplateKey::parse("chains.").unwrap(),
        TemplateKey::Chain("")
    );

    // Error cases
    assert_eq!(
        TemplateKey::parse("."),
        Err(TemplateError::InvalidKey { key: "." })
    );
    assert_eq!(
        TemplateKey::parse(".").unwrap_err().into_owned().message(),
        "Failed to parse template key \".\""
    );
    assert_eq!(
        TemplateKey::parse(".bad"),
        Err(TemplateError::InvalidKey { key: ".bad" })
    );
    assert_eq!(
        TemplateKey::parse(".bad").unwrap_err().into_owned().message(),
        "Failed to parse template key \".bad\""
    );
    assert_eq!(
        TemplateKey::parse("bad."),
        Err(TemplateError::InvalidKey { key: "bad." })
    );
    assert_eq!(
        TemplateKey::parse("bad.").unwrap_err().into_owned().message(),
        "Failed to parse template key \"bad.\""
    );
    assert_eq!(
        TemplateKey::parse("chains.good.bad"),
        Err(TemplateError::InvalidKey {
            key: "chains.good.bad"
        })
    );
    assert_eq!(
        TemplateKey::parse("chains.good.bad")
            .unwrap_err()
            .into_owned()
            .message(),
        "Failed to parse template key \"chains.good.bad\""
    );
}
