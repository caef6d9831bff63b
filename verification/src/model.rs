//! The mathematical model of the rewriting pass: a pure function from the
//! configuration and the input declaration to the output declaration or an
//! error. The executable pass is proved equal to this model.

use vstd::prelude::*;
use crate::ast::FieldView;
use crate::ast::InputDeclView;
use crate::ast::OutVariantView;
use crate::ast::OutputDeclView;
use crate::ast::PassErrorView;
use crate::ast::TyExprView;
use crate::ast::VariantView;
use crate::config::ConfigView;
use crate::names::is_rust_ident;
use crate::rules::GenericNameRule;
use crate::rules::VariantNameRule;
use crate::text::canon;
use crate::text::filter_attrs;
use crate::text::is_context_bound;
use crate::text::is_sentinel_name;

verus! {

/// The generic table: an insertion-ordered mapping from the canonical form
/// of a context-bound type expression to its assigned generic name.
pub type TableView = Seq<(Seq<char>, Seq<char>)>;

/// The first binding of `key` in the table, scanning in insertion order.
pub open spec fn table_lookup(table: TableView, key: Seq<char>) -> Option<Seq<char>>
    decreases table.len(),
{
    if table.len() == 0 {
        Option::None
    } else if table[0].0 == key {
        Option::Some(table[0].1)
    } else {
        table_lookup(table.drop_first(), key)
    }
}

/// The first key bound to `value` in the table, scanning in insertion order.
pub open spec fn table_lookup_value(table: TableView, value: Seq<char>) -> Option<Seq<char>>
    decreases table.len(),
{
    if table.len() == 0 {
        Option::None
    } else if table[0].1 == value {
        Option::Some(table[0].0)
    } else {
        table_lookup_value(table.drop_first(), value)
    }
}

/// The table's keys, in insertion order.
pub open spec fn table_keys(table: TableView) -> Seq<Seq<char>> {
    table.map_values(|p: (Seq<char>, Seq<char>)| p.0)
}

/// The table's generic names, in insertion order.
pub open spec fn table_values(table: TableView) -> Seq<Seq<char>> {
    table.map_values(|p: (Seq<char>, Seq<char>)| p.1)
}

/// An optional configured string, or its default.
pub open spec fn opt_or(o: Option<Seq<char>>, dflt: Seq<char>) -> Seq<char> {
    match o {
        Option::Some(s) => s,
        Option::None => dflt,
    }
}

/// A single-segment dotted path.
pub open spec fn single_path(g: Seq<char>) -> TyExprView {
    TyExprView::Path { segments: seq![g] }
}

/// The baseline derive set: structural equality, cloning, and the
/// encode/decode pair namespaced under the serialization namespace.
pub open spec fn baseline_derives(codec: Seq<char>) -> Seq<Seq<char>> {
    seq!["Clone"@, "PartialEq"@, "Eq"@, codec + "::Encode"@, codec + "::Decode"@]
}

/// The full derive list: the baseline set, then the configured extras in
/// push order, then the runtime-debug derive when one is configured.
pub open spec fn all_derives(
    codec: Seq<char>,
    runtime_debug: Option<Seq<char>>,
    extras: Seq<Seq<char>>,
) -> Seq<Seq<char>> {
    baseline_derives(codec) + extras + (match runtime_debug {
        Option::Some(m) => seq![m + "::RuntimeDebug"@],
        Option::None => Seq::<Seq<char>>::empty(),
    })
}

/// Rewrites the fields of one variant, front to back, threading the generic
/// table. `vi` and `fi` are the positions of the variant and of the next
/// field in the input declaration, carried for diagnostics.
pub open spec fn spec_fields<GR: GenericNameRule>(
    gr: GR,
    keep: bool,
    ctx: Seq<char>,
    fs: Seq<FieldView>,
    vi: int,
    fi: int,
    table: TableView,
    acc: Seq<FieldView>,
) -> Result<(TableView, Seq<FieldView>), PassErrorView>
    decreases fs.len(),
{
    if fs.len() == 0 {
        Result::Ok((table, acc))
    } else {
        let f = fs[0];
        match f.ty {
            TyExprView::Other => (
                Result::Err(PassErrorView::UnsupportedFieldType { variant: vi, field: fi })
            ),
            TyExprView::Path { segments } => {
                let new_attrs = filter_attrs(f.attrs, keep);
                if is_context_bound(segments, ctx) {
                    let key = canon(segments);
                    match table_lookup(table, key) {
                        Option::Some(g) => spec_fields(
                            gr,
                            keep,
                            ctx,
                            fs.drop_first(),
                            vi,
                            fi + 1,
                            table,
                            acc.push(FieldView { ty: single_path(g), attrs: new_attrs }),
                        ),
                        Option::None => {
                            let g = gr.rule_spec(segments);
                            if !is_rust_ident(g) {
                                Result::Err(PassErrorView::InvalidIdentifier { name: g })
                            } else {
                                match table_lookup_value(table, g) {
                                    Option::Some(k0) => (
                                        Result::Err(PassErrorView::NamingCollision {
                                            name: g,
                                            existing: k0,
                                            conflicting: key,
                                        })
                                    ),
                                    Option::None => spec_fields(
                                        gr,
                                        keep,
                                        ctx,
                                        fs.drop_first(),
                                        vi,
                                        fi + 1,
                                        table.push((key, g)),
                                        acc.push(
                                            FieldView { ty: single_path(g), attrs: new_attrs },
                                        ),
                                    ),
                                }
                            }
                        },
                    }
                } else {
                    spec_fields(
                        gr,
                        keep,
                        ctx,
                        fs.drop_first(),
                        vi,
                        fi + 1,
                        table,
                        acc.push(FieldView { ty: f.ty, attrs: new_attrs }),
                    )
                }
            },
        }
    }
}

/// Transforms the variants, front to back, skipping every sentinel variant
/// and threading the generic table. `vi` is the position of the next
/// variant in the input declaration.
pub open spec fn spec_variants<VR: VariantNameRule, GR: GenericNameRule>(
    vr: VR,
    gr: GR,
    keep: bool,
    ctx: Seq<char>,
    vs: Seq<VariantView>,
    vi: int,
    table: TableView,
    outs: Seq<OutVariantView>,
) -> Result<(TableView, Seq<OutVariantView>), PassErrorView>
    decreases vs.len(),
{
    if vs.len() == 0 {
        Result::Ok((table, outs))
    } else {
        let v = vs[0];
        if is_sentinel_name(v.name) {
            spec_variants(vr, gr, keep, ctx, vs.drop_first(), vi + 1, table, outs)
        } else {
            let vname = vr.rule_spec(v.name);
            if !is_rust_ident(vname) {
                Result::Err(PassErrorView::InvalidIdentifier { name: vname })
            } else {
                match spec_fields(gr, keep, ctx, v.fields, vi, 0, table, Seq::empty()) {
                    Result::Err(e) => Result::Err(e),
                    Result::Ok(tf) => spec_variants(
                        vr,
                        gr,
                        keep,
                        ctx,
                        vs.drop_first(),
                        vi + 1,
                        tf.0,
                        outs.push(
                            OutVariantView {
                                name: vname,
                                fields: tf.1,
                                attrs: filter_attrs(v.attrs, keep),
                            },
                        ),
                    ),
                }
            }
        }
    }
}

/// The whole pass as a pure function: validate the configured names,
/// rewrite the variants, and assemble the output declaration.
pub open spec fn spec_expand<VR: VariantNameRule, GR: GenericNameRule>(
    vr: VR,
    gr: GR,
    cfg: ConfigView,
    input: InputDeclView,
) -> Result<OutputDeclView, PassErrorView> {
    let name = opt_or(cfg.name, "Call"@);
    let codec = opt_or(cfg.codec_crate, "codec"@);
    if !is_rust_ident(name) {
        Result::Err(PassErrorView::InvalidIdentifier { name })
    } else if !is_rust_ident(codec) {
        Result::Err(PassErrorView::InvalidIdentifier { name: codec })
    } else if cfg.runtime_debug matches Option::Some(m) && !is_rust_ident(m) {
        Result::Err(
            PassErrorView::InvalidIdentifier {
                name: match cfg.runtime_debug {
                    Option::Some(m) => m,
                    Option::None => Seq::empty(),
                },
            },
        )
    } else {
        match spec_variants(
            vr,
            gr,
            cfg.keep_comments,
            input.context_param,
            input.variants,
            0,
            Seq::empty(),
            Seq::empty(),
        ) {
            Result::Err(e) => Result::Err(e),
            Result::Ok(to) => Result::Ok(
                OutputDeclView {
                    name,
                    generics: table_values(to.0),
                    derives: all_derives(codec, cfg.runtime_debug, cfg.extra_derives),
                    attrs: filter_attrs(input.attrs, cfg.keep_comments) + cfg.extra_attrs,
                    variants: to.1,
                },
            ),
        }
    }
}

} // verus!
