//! The immutable configuration of the pass, built through chained setters
//! before the pass runs.

use vstd::prelude::*;
use vstd::string::StringExecFns;
use crate::ast::Attr;
use crate::ast::AttrView;
use crate::ast::PassError;
use crate::ast::attrs_view;
use crate::ast::strs_view;
use crate::names::check_path;
use crate::names::is_rust_path;
use crate::rules::GenericNameRule;
use crate::rules::IdentityRule;
use crate::rules::LastSegmentRule;
use crate::rules::PascalCaseRule;
use crate::rules::VariantNameRule;

verus! {

/// How call parameters are laid out as variant fields.
pub enum ParameterStyle {
    /// Plain unnamed tuple fields; the only fully supported style.
    Unnamed,
    /// Named fields; not supported by the pass yet.
    Named,
}

impl Default for ParameterStyle {
    fn default() -> (r: Self)
        ensures
            r is Unnamed,
    {
        ParameterStyle::Unnamed
    }
}

/// The options of one pass invocation. Built by chained setters, each of
/// which returns the updated value, and read-only once the pass runs.
pub struct PalletCallConfig<VR, GR> {
    /// The name of the rewritten enum; `Call` when absent.
    pub name: Option<String>,
    /// The rule for the emitted variant names.
    pub variant_rule: VR,
    /// The rule for the generic parameter names.
    pub generic_rule: GR,
    /// How call parameters become variant fields.
    pub style: ParameterStyle,
    /// Whether documentation attributes are kept.
    pub keep: bool,
    /// The serialization namespace for the encode/decode derives;
    /// `codec` when absent.
    pub codec: Option<String>,
    /// A module whose runtime-debug derive is added, when present.
    pub runtime_debug: Option<String>,
    /// Additional attributes, appended in push order.
    pub additional_attr: Vec<Attr>,
    /// Additional derives, appended in push order.
    pub additional_derives: Vec<String>,
}

/// Mathematical view of a [`PalletCallConfig`], naming rules aside.
pub struct ConfigView {
    pub name: Option<Seq<char>>,
    pub keep_comments: bool,
    pub codec_crate: Option<Seq<char>>,
    pub runtime_debug: Option<Seq<char>>,
    pub extra_attrs: Seq<AttrView>,
    pub extra_derives: Seq<Seq<char>>,
}

/// The view of an optional string.
pub open spec fn opt_str_view(s: Option<String>) -> Option<Seq<char>> {
    match s {
        Option::Some(v) => Option::Some(v@),
        Option::None => Option::None,
    }
}

impl<VR, GR> View for PalletCallConfig<VR, GR> {
    type V = ConfigView;

    open spec fn view(&self) -> ConfigView {
        ConfigView {
            name: opt_str_view(self.name),
            keep_comments: self.keep,
            codec_crate: opt_str_view(self.codec),
            runtime_debug: opt_str_view(self.runtime_debug),
            extra_attrs: attrs_view(self.additional_attr@),
            extra_derives: strs_view(self.additional_derives@),
        }
    }
}

impl PalletCallConfig<PascalCaseRule, LastSegmentRule> {
    /// A configuration with every option at its default.
    pub fn new() -> (r: Self)
        ensures
            r@ == (ConfigView {
                name: Option::None,
                keep_comments: false,
                codec_crate: Option::None,
                runtime_debug: Option::None,
                extra_attrs: Seq::<AttrView>::empty(),
                extra_derives: Seq::<Seq<char>>::empty(),
            }),
            r.variant_rule == PascalCaseRule,
            r.generic_rule == LastSegmentRule,
            r.style is Unnamed,
    {
        let r = PalletCallConfig {
            name: None,
            variant_rule: PascalCaseRule,
            generic_rule: LastSegmentRule,
            style: ParameterStyle::Unnamed,
            keep: false,
            codec: None,
            runtime_debug: None,
            additional_attr: Vec::new(),
            additional_derives: Vec::new(),
        };
        proof {
            assert(attrs_view(r.additional_attr@) =~= Seq::<AttrView>::empty());
            assert(strs_view(r.additional_derives@) =~= Seq::<Seq<char>>::empty());
        }
        r
    }
}

impl Default for PalletCallConfig<PascalCaseRule, LastSegmentRule> {
    fn default() -> (r: Self)
        ensures
            r@ == (ConfigView {
                name: Option::None,
                keep_comments: false,
                codec_crate: Option::None,
                runtime_debug: Option::None,
                extra_attrs: Seq::<AttrView>::empty(),
                extra_derives: Seq::<Seq<char>>::empty(),
            }),
            r.variant_rule == PascalCaseRule,
            r.generic_rule == LastSegmentRule,
            r.style is Unnamed,
    {
        PalletCallConfig::new()
    }
}

impl<VR: VariantNameRule, GR: GenericNameRule> PalletCallConfig<VR, GR> {
    /// Sets the name of the rewritten enum explicitly.
    pub fn name(self, name: String) -> (r: Self)
        ensures
            r@ == (ConfigView { name: Option::Some(name@), ..self@ }),
            r.variant_rule == self.variant_rule,
            r.generic_rule == self.generic_rule,
    {
        PalletCallConfig { name: Some(name), ..self }
    }

    /// Sets the rule that determines the emitted variant names.
    pub fn variant_name<VR2: VariantNameRule>(self, rule: VR2) -> (r: PalletCallConfig<VR2, GR>)
        ensures
            r@ == self@,
            r.variant_rule == rule,
            r.generic_rule == self.generic_rule,
    {
        PalletCallConfig {
            name: self.name,
            variant_rule: rule,
            generic_rule: self.generic_rule,
            style: self.style,
            keep: self.keep,
            codec: self.codec,
            runtime_debug: self.runtime_debug,
            additional_attr: self.additional_attr,
            additional_derives: self.additional_derives,
        }
    }

    /// Sets the rule that determines the generic parameter names.
    pub fn generic_name<GR2: GenericNameRule>(self, rule: GR2) -> (r: PalletCallConfig<VR, GR2>)
        ensures
            r@ == self@,
            r.variant_rule == self.variant_rule,
            r.generic_rule == rule,
    {
        PalletCallConfig {
            name: self.name,
            variant_rule: self.variant_rule,
            generic_rule: rule,
            style: self.style,
            keep: self.keep,
            codec: self.codec,
            runtime_debug: self.runtime_debug,
            additional_attr: self.additional_attr,
            additional_derives: self.additional_derives,
        }
    }

    /// Keeps the original documentation attributes; by default they are
    /// stripped.
    pub fn keep_comments(self) -> (r: Self)
        ensures
            r@ == (ConfigView { keep_comments: true, ..self@ }),
            r.variant_rule == self.variant_rule,
            r.generic_rule == self.generic_rule,
    {
        PalletCallConfig { keep: true, ..self }
    }

    /// Sets the name of the serialization namespace for the encode/decode
    /// derives.
    pub fn codec_crate(self, codec: String) -> (r: Self)
        ensures
            r@ == (ConfigView { codec_crate: Option::Some(codec@), ..self@ }),
            r.variant_rule == self.variant_rule,
            r.generic_rule == self.generic_rule,
    {
        PalletCallConfig { codec: Some(codec), ..self }
    }

    /// Names the module whose runtime-debug derive is added to the output,
    /// such as `frame_support`.
    pub fn use_runtime_debug_from_crate(self, debug: String) -> (r: Self)
        ensures
            r@ == (ConfigView { runtime_debug: Option::Some(debug@), ..self@ }),
            r.variant_rule == self.variant_rule,
            r.generic_rule == self.generic_rule,
    {
        PalletCallConfig { runtime_debug: Some(debug), ..self }
    }

    /// Derives the runtime-debug trait from `frame_support`.
    pub fn frame_support_runtime_debug(self) -> (r: Self)
        ensures
            r@ == (ConfigView { runtime_debug: Option::Some("frame_support"@), ..self@ }),
            r.variant_rule == self.variant_rule,
            r.generic_rule == self.generic_rule,
    {
        let s = String::from_str("frame_support");
        self.use_runtime_debug_from_crate(s)
    }

    /// Parses and pushes an additional derive given as text, such as
    /// `Debug`; a string that does not form a path is rejected.
    pub fn push_derive_str(&mut self, attr: &str) -> (r: Result<(), PassError>)
        ensures
            is_rust_path(attr@) ==> {
                &&& r is Ok
                &&& final(self)@ == (ConfigView {
                    extra_derives: old(self)@.extra_derives.push(attr@),
                    ..old(self)@
                })
            },
            !is_rust_path(attr@) ==> {
                &&& (r matches Err(e) && e@ == (crate::ast::PassErrorView::InvalidIdentifier {
                    name: attr@,
                }))
                &&& final(self)@ == old(self)@
            },
            final(self).variant_rule == old(self).variant_rule,
            final(self).generic_rule == old(self).generic_rule,
    {
        if check_path(attr) {
            let ghost pre = strs_view(self.additional_derives@);
            self.additional_derives.push(attr.to_owned());
            proof {
                assert(strs_view(self.additional_derives@) =~= pre.push(attr@));
            }
            Ok(())
        } else {
            Err(PassError::InvalidIdentifier { name: attr.to_owned() })
        }
    }

    /// Pushes an additional derive path to add to the output.
    pub fn push_derive(self, derive: String) -> (r: Self)
        ensures
            r@ == (ConfigView { extra_derives: self@.extra_derives.push(derive@), ..self@ }),
            r.variant_rule == self.variant_rule,
            r.generic_rule == self.generic_rule,
    {
        let mut derives = self.additional_derives;
        let ghost pre = strs_view(derives@);
        derives.push(derive);
        proof {
            assert(strs_view(derives@) =~= pre.push(derive@));
        }
        PalletCallConfig { additional_derives: derives, ..self }
    }

    /// Pushes an additional attribute to add to the output.
    pub fn push_attr(self, attr: Attr) -> (r: Self)
        ensures
            r@ == (ConfigView { extra_attrs: self@.extra_attrs.push(attr@), ..self@ }),
            r.variant_rule == self.variant_rule,
            r.generic_rule == self.generic_rule,
    {
        let mut attrs = self.additional_attr;
        let ghost pre = attrs_view(attrs@);
        attrs.push(attr);
        proof {
            assert(attrs_view(attrs@) =~= pre.push(attr@));
        }
        PalletCallConfig { additional_attr: attrs, ..self }
    }
}

/// Builds a configuration whose variant names are kept as they stand in
/// the source.
pub fn x() {
    let call_config = PalletCallConfig::new().variant_name(IdentityRule);
    let _ = call_config;
}

} // verus!
