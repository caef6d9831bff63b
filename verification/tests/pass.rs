use pallet_call::ast::{Attr, Field, InputDecl, OutVariant, OutputDecl, PassError, TyExpr, Variant};
use pallet_call::config::PalletCallConfig;
use pallet_call::expand::PalletCall;
use pallet_call::rules::IdentityRule;

fn path(segments: &[&str]) -> TyExpr {
    TyExpr::Path { segments: segments.iter().map(|s| s.to_string()).collect() }
}

fn field(segments: &[&str]) -> Field {
    Field { ty: path(segments), attrs: Vec::new() }
}

fn field_with_attr(segments: &[&str], doc: bool, text: &str) -> Field {
    Field { ty: path(segments), attrs: vec![Attr { doc, text: text.to_string() }] }
}

fn variant(name: &str, fields: Vec<Field>) -> Variant {
    Variant { name: name.to_string(), fields, attrs: Vec::new() }
}

/// The input of the worked example: `set_balance(Source, T::Balance,
/// T::Balance)` beside the `__ignore` sentinel, with `T` the context
/// parameter spelled `Context`.
fn example_input() -> InputDecl {
    InputDecl {
        name: "Call".to_string(),
        context_param: "Context".to_string(),
        variants: vec![
            variant(
                "set_balance",
                vec![
                    field(&["Source"]),
                    field_with_attr(&["Context", "Balance"], false, "#[codec(compact)]"),
                    field_with_attr(&["Context", "Balance"], false, "#[codec(compact)]"),
                ],
            ),
            variant("__ignore", Vec::new()),
        ],
        attrs: vec![Attr { doc: true, text: "#[doc = \" dispatch enum \"]".to_string() }],
    }
}

fn expand_default(input: InputDecl) -> Result<OutputDecl, PassError> {
    PalletCall::new(PalletCallConfig::new(), input).expand()
}

#[test]
fn example_scenario() {
    let out = expand_default(example_input()).unwrap();
    assert_eq!(out.name, "Call");
    assert_eq!(out.generics, vec!["Balance".to_string()]);
    assert_eq!(
        out.derives,
        vec![
            "Clone".to_string(),
            "PartialEq".to_string(),
            "Eq".to_string(),
            "codec::Encode".to_string(),
            "codec::Decode".to_string(),
        ]
    );
    assert_eq!(out.attrs, Vec::new());
    assert_eq!(out.variants.len(), 1);
    let v = &out.variants[0];
    assert_eq!(v.name, "SetBalance");
    assert_eq!(
        v.fields,
        vec![
            field(&["Source"]),
            field_with_attr(&["Balance"], false, "#[codec(compact)]"),
            field_with_attr(&["Balance"], false, "#[codec(compact)]"),
        ]
    );
}

#[test]
fn pass_is_deterministic() {
    let a = expand_default(example_input()).unwrap();
    let b = expand_default(example_input()).unwrap();
    assert_eq!(a, b);
}

#[test]
fn generics_dedup_across_variants() {
    let input = InputDecl {
        name: "Call".to_string(),
        context_param: "T".to_string(),
        variants: vec![
            variant("a", vec![field(&["T", "Balance"])]),
            variant("b", vec![field(&["T", "Balance"]), field(&["T", "Balance"])]),
        ],
        attrs: Vec::new(),
    };
    let out = expand_default(input).unwrap();
    assert_eq!(out.generics, vec!["Balance".to_string()]);
    assert_eq!(out.variants[0].fields, vec![field(&["Balance"])]);
    assert_eq!(out.variants[1].fields, vec![field(&["Balance"]), field(&["Balance"])]);
}

#[test]
fn generics_keep_first_appearance_order() {
    let input = InputDecl {
        name: "Call".to_string(),
        context_param: "T".to_string(),
        variants: vec![
            variant("one", vec![field(&["T", "Lookup", "Source"]), field(&["T", "Balance"])]),
            variant("two", vec![field(&["T", "Balance"]), field(&["T", "Hash"])]),
        ],
        attrs: Vec::new(),
    };
    let out = expand_default(input).unwrap();
    assert_eq!(
        out.generics,
        vec!["Source".to_string(), "Balance".to_string(), "Hash".to_string()]
    );
}

#[test]
fn sentinel_is_excluded_case_insensitively() {
    for sentinel in ["__ignore", "__IGNORE", "__Ignore"] {
        let input = InputDecl {
            name: "Call".to_string(),
            context_param: "T".to_string(),
            variants: vec![
                variant("real", vec![field(&["T", "Balance"])]),
                variant(sentinel, vec![field(&["T", "Unused"])]),
            ],
            attrs: Vec::new(),
        };
        let out = expand_default(input).unwrap();
        assert_eq!(out.variants.len(), 1);
        assert_eq!(out.variants[0].name, "Real");
        assert_eq!(out.generics, vec!["Balance".to_string()]);
    }
}

#[test]
fn almost_sentinel_is_kept() {
    let input = InputDecl {
        name: "Call".to_string(),
        context_param: "T".to_string(),
        variants: vec![variant("__ignores", Vec::new())],
        attrs: Vec::new(),
    };
    let out = expand_default(input).unwrap();
    assert_eq!(out.variants.len(), 1);
    assert_eq!(out.variants[0].name, "Ignores");
}

#[test]
fn doc_attributes_are_stripped_by_default() {
    let input = InputDecl {
        name: "Call".to_string(),
        context_param: "T".to_string(),
        variants: vec![Variant {
            name: "a".to_string(),
            fields: vec![Field {
                ty: path(&["T", "Balance"]),
                attrs: vec![
                    Attr { doc: true, text: "#[doc = \" field doc \"]".to_string() },
                    Attr { doc: false, text: "#[codec(compact)]".to_string() },
                ],
            }],
            attrs: vec![Attr { doc: true, text: "#[doc = \" variant doc \"]".to_string() }],
        }],
        attrs: vec![Attr { doc: true, text: "#[doc = \" decl doc \"]".to_string() }],
    };
    let out = expand_default(input).unwrap();
    assert_eq!(out.attrs, Vec::new());
    assert_eq!(out.variants[0].attrs, Vec::new());
    assert_eq!(
        out.variants[0].fields[0].attrs,
        vec![Attr { doc: false, text: "#[codec(compact)]".to_string() }]
    );
}

#[test]
fn doc_attributes_survive_with_keep_comments() {
    let input = InputDecl {
        name: "Call".to_string(),
        context_param: "T".to_string(),
        variants: vec![Variant {
            name: "a".to_string(),
            fields: vec![Field {
                ty: path(&["T", "Balance"]),
                attrs: vec![Attr { doc: true, text: "#[doc = \" field doc \"]".to_string() }],
            }],
            attrs: vec![Attr { doc: true, text: "#[doc = \" variant doc \"]".to_string() }],
        }],
        attrs: vec![Attr { doc: true, text: "#[doc = \" decl doc \"]".to_string() }],
    };
    let config = PalletCallConfig::new().keep_comments();
    let out = PalletCall::new(config, input).expand().unwrap();
    assert_eq!(out.attrs, vec![Attr { doc: true, text: "#[doc = \" decl doc \"]".to_string() }]);
    assert_eq!(
        out.variants[0].attrs,
        vec![Attr { doc: true, text: "#[doc = \" variant doc \"]".to_string() }]
    );
    assert_eq!(
        out.variants[0].fields[0].attrs,
        vec![Attr { doc: true, text: "#[doc = \" field doc \"]".to_string() }]
    );
}

#[test]
fn non_path_field_type_is_rejected() {
    let input = InputDecl {
        name: "Call".to_string(),
        context_param: "T".to_string(),
        variants: vec![
            variant("fine", vec![field(&["u32"])]),
            Variant {
                name: "broken".to_string(),
                fields: vec![field(&["u8"]), Field { ty: TyExpr::Other, attrs: Vec::new() }],
                attrs: Vec::new(),
            },
        ],
        attrs: Vec::new(),
    };
    let err = expand_default(input).unwrap_err();
    assert_eq!(err, PassError::UnsupportedFieldType { variant: 1, field: 1 });
}

#[test]
fn invalid_target_name_is_reported() {
    let config = PalletCallConfig::new().name("not an ident!".to_string());
    let err = PalletCall::new(config, example_input()).expand().unwrap_err();
    assert_eq!(err, PassError::InvalidIdentifier { name: "not an ident!".to_string() });
}

#[test]
fn custom_target_name_is_used() {
    let config = PalletCallConfig::new().name("MyCall".to_string());
    let out = PalletCall::new(config, example_input()).expand().unwrap();
    assert_eq!(out.name, "MyCall");
}

#[test]
fn invalid_generic_name_is_reported() {
    let input = InputDecl {
        name: "Call".to_string(),
        context_param: "T".to_string(),
        variants: vec![variant("a", vec![field(&["T", "123"])])],
        attrs: Vec::new(),
    };
    let err = expand_default(input).unwrap_err();
    assert_eq!(err, PassError::InvalidIdentifier { name: "123".to_string() });
}

#[test]
fn naming_collision_is_reported() {
    let input = InputDecl {
        name: "Call".to_string(),
        context_param: "T".to_string(),
        variants: vec![variant(
            "a",
            vec![field(&["T", "Lookup", "Source"]), field(&["T", "Origin", "Source"])],
        )],
        attrs: Vec::new(),
    };
    let err = expand_default(input).unwrap_err();
    assert_eq!(
        err,
        PassError::NamingCollision {
            name: "Source".to_string(),
            existing: "T::Lookup::Source".to_string(),
            conflicting: "T::Origin::Source".to_string(),
        }
    );
}

#[test]
fn codec_namespace_is_configurable() {
    let config = PalletCallConfig::new().codec_crate("parity_scale_codec".to_string());
    let out = PalletCall::new(config, example_input()).expand().unwrap();
    assert_eq!(out.derives[3], "parity_scale_codec::Encode");
    assert_eq!(out.derives[4], "parity_scale_codec::Decode");
}

#[test]
fn runtime_debug_derive_is_appended_last() {
    let mut config = PalletCallConfig::new().frame_support_runtime_debug();
    config.push_derive_str("Debug").unwrap();
    let out = PalletCall::new(config, example_input()).expand().unwrap();
    assert_eq!(
        out.derives,
        vec![
            "Clone".to_string(),
            "PartialEq".to_string(),
            "Eq".to_string(),
            "codec::Encode".to_string(),
            "codec::Decode".to_string(),
            "Debug".to_string(),
            "frame_support::RuntimeDebug".to_string(),
        ]
    );
}

#[test]
fn push_derive_str_rejects_non_paths() {
    let mut config = PalletCallConfig::new();
    let err = config.push_derive_str("not a path!!").unwrap_err();
    assert_eq!(err, PassError::InvalidIdentifier { name: "not a path!!".to_string() });
    config.push_derive_str("serde::Serialize").unwrap();
    let out = PalletCall::new(config, example_input()).expand().unwrap();
    assert_eq!(out.derives[5], "serde::Serialize");
}

#[test]
fn extra_derives_and_attrs_keep_push_order() {
    let config = PalletCallConfig::new()
        .push_derive("Debug".to_string())
        .push_derive("Hash".to_string())
        .push_attr(Attr { doc: false, text: "#[allow(non_camel_case_types)]".to_string() })
        .push_attr(Attr { doc: false, text: "#[non_exhaustive]".to_string() });
    let out = PalletCall::new(config, example_input()).expand().unwrap();
    assert_eq!(out.derives[5], "Debug");
    assert_eq!(out.derives[6], "Hash");
    assert_eq!(
        out.attrs,
        vec![
            Attr { doc: false, text: "#[allow(non_camel_case_types)]".to_string() },
            Attr { doc: false, text: "#[non_exhaustive]".to_string() },
        ]
    );
}

#[test]
fn identity_variant_rule_keeps_source_names() {
    let config = PalletCallConfig::new().variant_name(IdentityRule);
    let out = PalletCall::new(config, example_input()).expand().unwrap();
    assert_eq!(out.variants[0].name, "set_balance");
}

#[test]
fn context_param_itself_becomes_a_generic() {
    let input = InputDecl {
        name: "Call".to_string(),
        context_param: "T".to_string(),
        variants: vec![variant("a", vec![field(&["T"])])],
        attrs: Vec::new(),
    };
    let out = expand_default(input).unwrap();
    assert_eq!(out.generics, vec!["T".to_string()]);
    assert_eq!(out.variants[0].fields, vec![field(&["T"])]);
}

#[test]
fn parameter_style_defaults_to_unnamed() {
    let style = pallet_call::config::ParameterStyle::default();
    assert!(matches!(style, pallet_call::config::ParameterStyle::Unnamed));
}
