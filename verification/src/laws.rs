//! The laws the pass obeys, stated over the mathematical model and proved
//! once and for all.

use vstd::prelude::*;
use crate::ast::AttrView;
use crate::ast::FieldView;
use crate::ast::InputDeclView;
use crate::ast::OutVariantView;
use crate::ast::PassErrorView;
use crate::ast::VariantView;
use crate::config::ConfigView;
use crate::model::TableView;
use crate::model::spec_expand;
use crate::model::spec_fields;
use crate::model::spec_variants;
use crate::names::is_rust_ident;
use crate::rules::GenericNameRule;
use crate::rules::VariantNameRule;
use crate::text::filter_attrs;
use crate::text::is_sentinel_name;
use crate::text::remove_docs;

verus! {

broadcast use vstd::seq_lib::group_seq_properties;

/// Whether some attribute in the list is a documentation attribute.
pub open spec fn has_doc(attrs: Seq<AttrView>) -> bool {
    exists|i: int| 0 <= i < attrs.len() && attrs[i].doc
}

/// Attribute filtering, the stripping direction: after removal no
/// documentation attribute is left, and every non-documentation attribute
/// survives.
pub proof fn lemma_remove_docs(attrs: Seq<AttrView>)
    ensures
        !has_doc(remove_docs(attrs)),
        forall|i: int|
            0 <= i < attrs.len() && !attrs[i].doc ==> remove_docs(attrs).contains(attrs[i]),
    decreases attrs.len(),
{
    if attrs.len() == 0 {
    } else {
        let pre = attrs.drop_last();
        lemma_remove_docs(pre);
        let rest = remove_docs(pre);
        assert forall|i: int|
            0 <= i < attrs.len() && !attrs[i].doc implies remove_docs(attrs).contains(
            attrs[i],
        ) by {
            if i < attrs.len() - 1 {
                assert(pre[i] == attrs[i]);
                assert(rest.contains(attrs[i]));
                if !attrs.last().doc {
                    assert(remove_docs(attrs) == rest.push(attrs.last()));
                }
            } else {
                assert(attrs[i] == attrs.last());
                assert(remove_docs(attrs) == rest.push(attrs.last()));
                assert(remove_docs(attrs)[rest.len() as int] == attrs.last());
            }
        }
        if !has_doc(remove_docs(attrs)) {
        } else {
            let k = choose|k: int|
                0 <= k < remove_docs(attrs).len() && remove_docs(attrs)[k].doc;
            if attrs.last().doc {
                assert(remove_docs(attrs) == rest);
                assert(rest[k].doc);
            } else {
                if k < rest.len() {
                    assert(rest[k].doc);
                } else {
                    assert(remove_docs(attrs)[k] == attrs.last());
                }
            }
        }
    }
}

/// Attribute filtering, the keeping direction: with comments retained the
/// list is kept verbatim.
pub proof fn lemma_filter_attrs_keeps(attrs: Seq<AttrView>)
    ensures
        filter_attrs(attrs, true) == attrs,
{
}

/// Determinism: the pass is a pure function of the naming rules, the
/// configuration and the input declaration; equal inputs give equal
/// results.
pub proof fn lemma_determinism<VR: VariantNameRule, GR: GenericNameRule>(
    vr1: VR,
    gr1: GR,
    cfg1: ConfigView,
    input1: InputDeclView,
    vr2: VR,
    gr2: GR,
    cfg2: ConfigView,
    input2: InputDeclView,
)
    requires
        vr1 == vr2,
        gr1 == gr2,
        cfg1 == cfg2,
        input1 == input2,
    ensures
        spec_expand(vr1, gr1, cfg1, input1) == spec_expand(vr2, gr2, cfg2, input2),
{
}

/// The variants that are not the sentinel, in order.
pub open spec fn remove_sentinels(vs: Seq<VariantView>) -> Seq<VariantView>
    decreases vs.len(),
{
    if vs.len() == 0 {
        Seq::empty()
    } else if is_sentinel_name(vs[0].name) {
        remove_sentinels(vs.drop_first())
    } else {
        seq![vs[0]] + remove_sentinels(vs.drop_first())
    }
}

/// After removal, no variant matches the sentinel name.
pub proof fn lemma_remove_sentinels_clean(vs: Seq<VariantView>)
    ensures
        forall|k: int|
            0 <= k < remove_sentinels(vs).len() ==> !is_sentinel_name(
                remove_sentinels(vs)[k].name,
            ),
    decreases vs.len(),
{
    if vs.len() == 0 {
    } else {
        lemma_remove_sentinels_clean(vs.drop_first());
        if is_sentinel_name(vs[0].name) {
            assert(remove_sentinels(vs) == remove_sentinels(vs.drop_first()));
        } else {
            assert(remove_sentinels(vs) == seq![vs[0]] + remove_sentinels(vs.drop_first()));
            assert forall|k: int|
                0 <= k < remove_sentinels(vs).len() implies !is_sentinel_name(
                remove_sentinels(vs)[k].name,
            ) by {
                if k == 0 {
                    assert(remove_sentinels(vs)[0] == vs[0]);
                } else {
                    assert(remove_sentinels(vs)[k] == remove_sentinels(vs.drop_first())[k - 1]);
                }
            }
        }
    }
}

/// The field positions carried for diagnostics do not influence whether the
/// rewriting succeeds, nor the successful result.
proof fn lemma_fields_pos<GR: GenericNameRule>(
    gr: GR,
    keep: bool,
    ctx: Seq<char>,
    fs: Seq<FieldView>,
    vi1: int,
    fi1: int,
    vi2: int,
    fi2: int,
    table: TableView,
    acc: Seq<FieldView>,
)
    ensures
        ({
            let r1 = spec_fields(gr, keep, ctx, fs, vi1, fi1, table, acc);
            let r2 = spec_fields(gr, keep, ctx, fs, vi2, fi2, table, acc);
            &&& (r1 is Ok <==> r2 is Ok)
            &&& (r1 is Ok ==> r1 == r2)
        }),
    decreases fs.len(),
{
    if fs.len() == 0 {
    } else {
        let f = fs[0];
        match f.ty {
            crate::ast::TyExprView::Other => {},
            crate::ast::TyExprView::Path { segments } => {
                let new_attrs = filter_attrs(f.attrs, keep);
                if crate::text::is_context_bound(segments, ctx) {
                    let key = crate::text::canon(segments);
                    match crate::model::table_lookup(table, key) {
                        Option::Some(g) => {
                            lemma_fields_pos(
                                gr,
                                keep,
                                ctx,
                                fs.drop_first(),
                                vi1,
                                fi1 + 1,
                                vi2,
                                fi2 + 1,
                                table,
                                acc.push(
                                    FieldView {
                                        ty: crate::model::single_path(g),
                                        attrs: new_attrs,
                                    },
                                ),
                            );
                        },
                        Option::None => {
                            let g = gr.rule_spec(segments);
                            if is_rust_ident(g) && crate::model::table_lookup_value(table, g)
                                is None {
                                lemma_fields_pos(
                                    gr,
                                    keep,
                                    ctx,
                                    fs.drop_first(),
                                    vi1,
                                    fi1 + 1,
                                    vi2,
                                    fi2 + 1,
                                    table.push((key, g)),
                                    acc.push(
                                        FieldView {
                                            ty: crate::model::single_path(g),
                                            attrs: new_attrs,
                                        },
                                    ),
                                );
                            }
                        },
                    }
                } else {
                    lemma_fields_pos(
                        gr,
                        keep,
                        ctx,
                        fs.drop_first(),
                        vi1,
                        fi1 + 1,
                        vi2,
                        fi2 + 1,
                        table,
                        acc.push(FieldView { ty: f.ty, attrs: new_attrs }),
                    );
                }
            },
        }
    }
}

/// The variant positions carried for diagnostics do not influence whether
/// the pass succeeds, nor the successful result.
proof fn lemma_variants_pos<VR: VariantNameRule, GR: GenericNameRule>(
    vr: VR,
    gr: GR,
    keep: bool,
    ctx: Seq<char>,
    vs: Seq<VariantView>,
    vi1: int,
    vi2: int,
    table: TableView,
    outs: Seq<OutVariantView>,
)
    ensures
        ({
            let r1 = spec_variants(vr, gr, keep, ctx, vs, vi1, table, outs);
            let r2 = spec_variants(vr, gr, keep, ctx, vs, vi2, table, outs);
            &&& (r1 is Ok <==> r2 is Ok)
            &&& (r1 is Ok ==> r1 == r2)
        }),
    decreases vs.len(),
{
    if vs.len() == 0 {
    } else {
        let v = vs[0];
        if is_sentinel_name(v.name) {
            lemma_variants_pos(vr, gr, keep, ctx, vs.drop_first(), vi1 + 1, vi2 + 1, table, outs);
        } else {
            let vname = vr.rule_spec(v.name);
            if is_rust_ident(vname) {
                lemma_fields_pos(gr, keep, ctx, v.fields, vi1, 0, vi2, 0, table, Seq::empty());
                match spec_fields(gr, keep, ctx, v.fields, vi1, 0, table, Seq::empty()) {
                    Result::Err(_) => {},
                    Result::Ok(tf) => {
                        lemma_variants_pos(
                            vr,
                            gr,
                            keep,
                            ctx,
                            vs.drop_first(),
                            vi1 + 1,
                            vi2 + 1,
                            tf.0,
                            outs.push(
                                OutVariantView {
                                    name: vname,
                                    fields: tf.1,
                                    attrs: filter_attrs(v.attrs, keep),
                                },
                            ),
                        );
                    },
                }
            }
        }
    }
}

/// Removing the sentinel variants beforehand changes nothing: the pass
/// succeeds on the original variants exactly when it succeeds on the
/// filtered ones, with the same result.
proof fn lemma_variants_remove_sentinels<VR: VariantNameRule, GR: GenericNameRule>(
    vr: VR,
    gr: GR,
    keep: bool,
    ctx: Seq<char>,
    vs: Seq<VariantView>,
    vi1: int,
    vi2: int,
    table: TableView,
    outs: Seq<OutVariantView>,
)
    ensures
        ({
            let r1 = spec_variants(vr, gr, keep, ctx, vs, vi1, table, outs);
            let r2 = spec_variants(vr, gr, keep, ctx, remove_sentinels(vs), vi2, table, outs);
            &&& (r1 is Ok <==> r2 is Ok)
            &&& (r1 is Ok ==> r1 == r2)
        }),
    decreases vs.len(),
{
    if vs.len() == 0 {
    } else {
        let v = vs[0];
        if is_sentinel_name(v.name) {
            lemma_variants_remove_sentinels(
                vr,
                gr,
                keep,
                ctx,
                vs.drop_first(),
                vi1 + 1,
                vi2,
                table,
                outs,
            );
        } else {
            let rs = remove_sentinels(vs);
            assert(rs[0] == v);
            assert(rs.drop_first() =~= remove_sentinels(vs.drop_first()));
            let vname = vr.rule_spec(v.name);
            if is_rust_ident(vname) {
                lemma_fields_pos(gr, keep, ctx, v.fields, vi1, 0, vi2, 0, table, Seq::empty());
                match spec_fields(gr, keep, ctx, v.fields, vi1, 0, table, Seq::empty()) {
                    Result::Err(_) => {},
                    Result::Ok(tf) => {
                        lemma_variants_remove_sentinels(
                            vr,
                            gr,
                            keep,
                            ctx,
                            vs.drop_first(),
                            vi1 + 1,
                            vi2 + 1,
                            tf.0,
                            outs.push(
                                OutVariantView {
                                    name: vname,
                                    fields: tf.1,
                                    attrs: filter_attrs(v.attrs, keep),
                                },
                            ),
                        );
                    },
                }
            }
        }
    }
}

/// Sentinel exclusion: a variant whose name case-insensitively equals the
/// reserved placeholder contributes no output variant and no generics — the
/// pass gives the same successful result on the declaration with every
/// sentinel variant removed.
pub proof fn lemma_sentinel_exclusion<VR: VariantNameRule, GR: GenericNameRule>(
    vr: VR,
    gr: GR,
    cfg: ConfigView,
    input: InputDeclView,
)
    ensures
        ({
            let filtered = InputDeclView { variants: remove_sentinels(input.variants), ..input };
            let r1 = spec_expand(vr, gr, cfg, input);
            let r2 = spec_expand(vr, gr, cfg, filtered);
            &&& (r1 is Ok <==> r2 is Ok)
            &&& (r1 is Ok ==> r1 == r2)
        }),
{
    lemma_variants_remove_sentinels(
        vr,
        gr,
        cfg.keep_comments,
        input.context_param,
        input.variants,
        0,
        0,
        Seq::<(Seq<char>, Seq<char>)>::empty(),
        Seq::<OutVariantView>::empty(),
    );
}

/// Whether some field's type is not a simple dotted path.
pub open spec fn has_unsupported_field(fs: Seq<FieldView>) -> bool {
    exists|j: int| 0 <= j < fs.len() && fs[j].ty is Other
}

/// Rewriting a field list that holds a non-path type never succeeds.
proof fn lemma_fields_reject<GR: GenericNameRule>(
    gr: GR,
    keep: bool,
    ctx: Seq<char>,
    fs: Seq<FieldView>,
    vi: int,
    fi: int,
    table: TableView,
    acc: Seq<FieldView>,
)
    requires
        has_unsupported_field(fs),
    ensures
        spec_fields(gr, keep, ctx, fs, vi, fi, table, acc) is Err,
    decreases fs.len(),
{
    let j = choose|j: int| 0 <= j < fs.len() && fs[j].ty is Other;
    let f = fs[0];
    match f.ty {
        crate::ast::TyExprView::Other => {},
        crate::ast::TyExprView::Path { segments } => {
            assert(j > 0);
            assert(fs.drop_first()[j - 1] == fs[j]);
            assert(has_unsupported_field(fs.drop_first()));
            let new_attrs = filter_attrs(f.attrs, keep);
            if crate::text::is_context_bound(segments, ctx) {
                let key = crate::text::canon(segments);
                match crate::model::table_lookup(table, key) {
                    Option::Some(g) => {
                        lemma_fields_reject(
                            gr,
                            keep,
                            ctx,
                            fs.drop_first(),
                            vi,
                            fi + 1,
                            table,
                            acc.push(
                                FieldView { ty: crate::model::single_path(g), attrs: new_attrs },
                            ),
                        );
                    },
                    Option::None => {
                        let g = gr.rule_spec(segments);
                        if is_rust_ident(g) && crate::model::table_lookup_value(table, g)
                            is None {
                            lemma_fields_reject(
                                gr,
                                keep,
                                ctx,
                                fs.drop_first(),
                                vi,
                                fi + 1,
                                table.push((key, g)),
                                acc.push(
                                    FieldView {
                                        ty: crate::model::single_path(g),
                                        attrs: new_attrs,
                                    },
                                ),
                            );
                        }
                    },
                }
            } else {
                lemma_fields_reject(
                    gr,
                    keep,
                    ctx,
                    fs.drop_first(),
                    vi,
                    fi + 1,
                    table,
                    acc.push(FieldView { ty: f.ty, attrs: new_attrs }),
                );
            }
        },
    }
}

/// Transforming a variant list in which some non-sentinel variant holds a
/// non-path field type never succeeds.
proof fn lemma_variants_reject<VR: VariantNameRule, GR: GenericNameRule>(
    vr: VR,
    gr: GR,
    keep: bool,
    ctx: Seq<char>,
    vs: Seq<VariantView>,
    vi: int,
    table: TableView,
    outs: Seq<OutVariantView>,
)
    requires
        exists|k: int|
            0 <= k < vs.len() && !is_sentinel_name(vs[k].name) && has_unsupported_field(
                vs[k].fields,
            ),
    ensures
        spec_variants(vr, gr, keep, ctx, vs, vi, table, outs) is Err,
    decreases vs.len(),
{
    let k = choose|k: int|
        0 <= k < vs.len() && !is_sentinel_name(vs[k].name) && has_unsupported_field(vs[k].fields);
    let v = vs[0];
    if is_sentinel_name(v.name) {
        assert(k > 0);
        assert(vs.drop_first()[k - 1] == vs[k]);
        lemma_variants_reject(vr, gr, keep, ctx, vs.drop_first(), vi + 1, table, outs);
    } else {
        let vname = vr.rule_spec(v.name);
        if is_rust_ident(vname) {
            if k == 0 {
                lemma_fields_reject(gr, keep, ctx, v.fields, vi, 0, table, Seq::empty());
            } else {
                match spec_fields(gr, keep, ctx, v.fields, vi, 0, table, Seq::empty()) {
                    Result::Err(_) => {},
                    Result::Ok(tf) => {
                        assert(vs.drop_first()[k - 1] == vs[k]);
                        lemma_variants_reject(
                            vr,
                            gr,
                            keep,
                            ctx,
                            vs.drop_first(),
                            vi + 1,
                            tf.0,
                            outs.push(
                                OutVariantView {
                                    name: vname,
                                    fields: tf.1,
                                    attrs: filter_attrs(v.attrs, keep),
                                },
                            ),
                        );
                    },
                }
            }
        }
    }
}

/// Shape rejection: a declaration in which some non-sentinel variant holds
/// a field whose type is not a simple dotted path is always rejected; no
/// output declaration is produced.
pub proof fn lemma_shape_rejection<VR: VariantNameRule, GR: GenericNameRule>(
    vr: VR,
    gr: GR,
    cfg: ConfigView,
    input: InputDeclView,
)
    requires
        exists|k: int|
            0 <= k < input.variants.len() && !is_sentinel_name(input.variants[k].name)
                && has_unsupported_field(input.variants[k].fields),
    ensures
        spec_expand(vr, gr, cfg, input) is Err,
{
    if is_rust_ident(crate::model::opt_or(cfg.name, "Call"@)) && is_rust_ident(
        crate::model::opt_or(cfg.codec_crate, "codec"@),
    ) && !(cfg.runtime_debug matches Option::Some(m) && !is_rust_ident(m)) {
        lemma_variants_reject(
            vr,
            gr,
            cfg.keep_comments,
            input.context_param,
            input.variants,
            0,
            Seq::<(Seq<char>, Seq<char>)>::empty(),
            Seq::<OutVariantView>::empty(),
        );
    }
}

/// The canonical forms of the context-bound field types, in field order,
/// duplicates included.
pub open spec fn field_keys(ctx: Seq<char>, fs: Seq<FieldView>) -> Seq<Seq<char>>
    decreases fs.len(),
{
    if fs.len() == 0 {
        Seq::empty()
    } else {
        let rest = field_keys(ctx, fs.drop_first());
        match fs[0].ty {
            crate::ast::TyExprView::Path { segments } => {
                if crate::text::is_context_bound(segments, ctx) {
                    seq![crate::text::canon(segments)] + rest
                } else {
                    rest
                }
            },
            crate::ast::TyExprView::Other => rest,
        }
    }
}

/// The canonical forms of every context-bound field type of the
/// non-sentinel variants, scanning variants and fields in declaration
/// order, duplicates included.
pub open spec fn scan_keys(ctx: Seq<char>, vs: Seq<VariantView>) -> Seq<Seq<char>>
    decreases vs.len(),
{
    if vs.len() == 0 {
        Seq::empty()
    } else if is_sentinel_name(vs[0].name) {
        scan_keys(ctx, vs.drop_first())
    } else {
        field_keys(ctx, vs[0].fields) + scan_keys(ctx, vs.drop_first())
    }
}

/// Folds keys into a list, keeping only the first occurrence of each.
pub open spec fn add_first_seen(seen: Seq<Seq<char>>, ks: Seq<Seq<char>>) -> Seq<Seq<char>>
    decreases ks.len(),
{
    if ks.len() == 0 {
        seen
    } else if seen.contains(ks[0]) {
        add_first_seen(seen, ks.drop_first())
    } else {
        add_first_seen(seen.push(ks[0]), ks.drop_first())
    }
}

/// A key is found in the table exactly when it stands among the table's
/// keys.
proof fn lemma_lookup_contains(table: TableView, key: Seq<char>)
    ensures
        (crate::model::table_lookup(table, key) is Some) <==> crate::model::table_keys(
            table,
        ).contains(key),
    decreases table.len(),
{
    if table.len() == 0 {
    } else {
        lemma_lookup_contains(table.drop_first(), key);
        assert(crate::model::table_keys(table.drop_first()) =~= crate::model::table_keys(
            table,
        ).drop_first());
        assert(crate::model::table_keys(table)[0] == table[0].0);
        if crate::model::table_keys(table).contains(key) {
            let l = choose|l: int|
                0 <= l < crate::model::table_keys(table).len() && crate::model::table_keys(
                    table,
                )[l] == key;
            if l > 0 {
                assert(crate::model::table_keys(table).drop_first()[l - 1] == key);
            }
        }
    }
}

/// A generic name is found among the table's bindings exactly when it
/// stands among the table's values.
proof fn lemma_lookup_value_contains(table: TableView, value: Seq<char>)
    ensures
        (crate::model::table_lookup_value(table, value) is Some) <==> crate::model::table_values(
            table,
        ).contains(value),
    decreases table.len(),
{
    if table.len() == 0 {
    } else {
        lemma_lookup_value_contains(table.drop_first(), value);
        assert(crate::model::table_values(table.drop_first()) =~= crate::model::table_values(
            table,
        ).drop_first());
        assert(crate::model::table_values(table)[0] == table[0].1);
        if crate::model::table_values(table).contains(value) {
            let l = choose|l: int|
                0 <= l < crate::model::table_values(table).len() && crate::model::table_values(
                    table,
                )[l] == value;
            if l > 0 {
                assert(crate::model::table_values(table).drop_first()[l - 1] == value);
            }
        }
    }
}

/// Folding keys one by one distributes over concatenation.
proof fn lemma_add_first_seen_app(seen: Seq<Seq<char>>, a: Seq<Seq<char>>, b: Seq<Seq<char>>)
    ensures
        add_first_seen(seen, a + b) == add_first_seen(add_first_seen(seen, a), b),
    decreases a.len(),
{
    if a.len() == 0 {
        assert(a + b =~= b);
    } else {
        assert((a + b)[0] == a[0]);
        assert((a + b).drop_first() =~= a.drop_first() + b);
        if seen.contains(a[0]) {
            lemma_add_first_seen_app(seen, a.drop_first(), b);
        } else {
            lemma_add_first_seen_app(seen.push(a[0]), a.drop_first(), b);
        }
    }
}

/// Pushing a fresh element keeps a sequence duplicate-free.
proof fn lemma_no_dup_push(s: Seq<Seq<char>>, x: Seq<char>)
    requires
        s.no_duplicates(),
        !s.contains(x),
    ensures
        s.push(x).no_duplicates(),
{
    assert forall|i: int, j: int|
        0 <= i < s.push(x).len() && 0 <= j < s.push(x).len() && i != j implies s.push(x)[i]
        != s.push(x)[j] by {
        if i < s.len() && j < s.len() {
        } else if i < s.len() {
            assert(s[i] == s.push(x)[i]);
        } else if j < s.len() {
            assert(s[j] == s.push(x)[j]);
        }
    }
}

/// A binding once present keeps its generic name while the table grows:
/// looking a key up in any later state gives the same name.
proof fn lemma_lookup_stable(t1: TableView, t2: TableView, key: Seq<char>)
    requires
        t2.len() >= t1.len(),
        t2.take(t1.len() as int) == t1,
        crate::model::table_lookup(t1, key) is Some,
    ensures
        crate::model::table_lookup(t2, key) == crate::model::table_lookup(t1, key),
    decreases t1.len(),
{
    if t1.len() == 0 {
    } else {
        assert(t2.take(t1.len() as int)[0] == t2[0]);
        assert(t2[0] == t1[0]);
        if t1[0].0 == key {
        } else {
            assert forall|l: int| 0 <= l < t1.len() - 1 implies t2.drop_first().take(
                t1.len() - 1,
            )[l] == t1.drop_first()[l] by {
                assert(t2.take(t1.len() as int)[l + 1] == t2[l + 1]);
            }
            assert(t2.drop_first().take(t1.len() - 1) =~= t1.drop_first());
            lemma_lookup_stable(t1.drop_first(), t2.drop_first(), key);
        }
    }
}

/// Appending a fresh binding makes its key found with its name.
proof fn lemma_lookup_push(t: TableView, k: Seq<char>, v: Seq<char>)
    requires
        crate::model::table_lookup(t, k) is None,
    ensures
        crate::model::table_lookup(t.push((k, v)), k) == Option::Some(v),
    decreases t.len(),
{
    if t.len() == 0 {
        assert(t.push((k, v))[0] == (k, v));
    } else {
        assert(t.push((k, v))[0] == t[0]);
        assert(t.push((k, v)).drop_first() =~= t.drop_first().push((k, v)));
        lemma_lookup_push(t.drop_first(), k, v);
    }
}

/// Rewriting a field list extends the table by exactly the first
/// occurrences of the new canonical forms, in scan order, and keeps both
/// the keys and the assigned generic names duplicate-free.
proof fn lemma_fields_table<GR: GenericNameRule>(
    gr: GR,
    keep: bool,
    ctx: Seq<char>,
    fs: Seq<FieldView>,
    vi: int,
    fi: int,
    table: TableView,
    acc: Seq<FieldView>,
)
    requires
        crate::model::table_keys(table).no_duplicates(),
        crate::model::table_values(table).no_duplicates(),
    ensures
        spec_fields(gr, keep, ctx, fs, vi, fi, table, acc) matches Ok(tf) ==> {
            &&& crate::model::table_keys(tf.0) == add_first_seen(
                crate::model::table_keys(table),
                field_keys(ctx, fs),
            )
            &&& tf.0.len() >= table.len()
            &&& tf.0.take(table.len() as int) == table
            &&& crate::model::table_keys(tf.0).no_duplicates()
            &&& crate::model::table_values(tf.0).no_duplicates()
        },
    decreases fs.len(),
{
    if fs.len() == 0 {
        assert(table.take(table.len() as int) =~= table);
    } else {
        let f = fs[0];
        match f.ty {
            crate::ast::TyExprView::Other => {},
            crate::ast::TyExprView::Path { segments } => {
                let new_attrs = filter_attrs(f.attrs, keep);
                let rest_keys = field_keys(ctx, fs.drop_first());
                if crate::text::is_context_bound(segments, ctx) {
                    let key = crate::text::canon(segments);
                    assert(field_keys(ctx, fs) == seq![key] + rest_keys);
                    assert((seq![key] + rest_keys)[0] == key);
                    assert((seq![key] + rest_keys).drop_first() =~= rest_keys);
                    lemma_lookup_contains(table, key);
                    match crate::model::table_lookup(table, key) {
                        Option::Some(g) => {
                            lemma_fields_table(
                                gr,
                                keep,
                                ctx,
                                fs.drop_first(),
                                vi,
                                fi + 1,
                                table,
                                acc.push(
                                    FieldView {
                                        ty: crate::model::single_path(g),
                                        attrs: new_attrs,
                                    },
                                ),
                            );
                        },
                        Option::None => {
                            let g = gr.rule_spec(segments);
                            if is_rust_ident(g) && crate::model::table_lookup_value(table, g)
                                is None {
                                let t2 = table.push((key, g));
                                assert(crate::model::table_keys(t2)
                                    =~= crate::model::table_keys(table).push(key));
                                assert(crate::model::table_values(t2)
                                    =~= crate::model::table_values(table).push(g));
                                lemma_lookup_value_contains(table, g);
                                lemma_no_dup_push(crate::model::table_keys(table), key);
                                lemma_no_dup_push(crate::model::table_values(table), g);
                                lemma_fields_table(
                                    gr,
                                    keep,
                                    ctx,
                                    fs.drop_first(),
                                    vi,
                                    fi + 1,
                                    t2,
                                    acc.push(
                                        FieldView {
                                            ty: crate::model::single_path(g),
                                            attrs: new_attrs,
                                        },
                                    ),
                                );
                                match spec_fields(
                                    gr,
                                    keep,
                                    ctx,
                                    fs.drop_first(),
                                    vi,
                                    fi + 1,
                                    t2,
                                    acc.push(
                                        FieldView {
                                            ty: crate::model::single_path(g),
                                            attrs: new_attrs,
                                        },
                                    ),
                                ) {
                                    Result::Err(_) => {},
                                    Result::Ok(tf) => {
                                        assert(tf.0.take(t2.len() as int) == t2);
                                        assert forall|l: int|
                                            0 <= l < table.len() implies tf.0[l] == table[l] by {
                                            assert(tf.0.take(t2.len() as int)[l] == t2[l]);
                                            assert(t2[l] == table[l]);
                                        }
                                        assert(tf.0.take(table.len() as int) =~= table);
                                    },
                                }
                            }
                        },
                    }
                } else {
                    assert(field_keys(ctx, fs) == rest_keys);
                    lemma_fields_table(
                        gr,
                        keep,
                        ctx,
                        fs.drop_first(),
                        vi,
                        fi + 1,
                        table,
                        acc.push(FieldView { ty: f.ty, attrs: new_attrs }),
                    );
                }
            },
        }
    }
}

/// Transforming the variants extends the table by exactly the first
/// occurrences of the canonical forms met in scan order, and keeps both the
/// keys and the generic names duplicate-free.
proof fn lemma_variants_table<VR: VariantNameRule, GR: GenericNameRule>(
    vr: VR,
    gr: GR,
    keep: bool,
    ctx: Seq<char>,
    vs: Seq<VariantView>,
    vi: int,
    table: TableView,
    outs: Seq<OutVariantView>,
)
    requires
        crate::model::table_keys(table).no_duplicates(),
        crate::model::table_values(table).no_duplicates(),
    ensures
        spec_variants(vr, gr, keep, ctx, vs, vi, table, outs) matches Ok(to) ==> {
            &&& crate::model::table_keys(to.0) == add_first_seen(
                crate::model::table_keys(table),
                scan_keys(ctx, vs),
            )
            &&& to.0.len() >= table.len()
            &&& to.0.take(table.len() as int) == table
            &&& crate::model::table_keys(to.0).no_duplicates()
            &&& crate::model::table_values(to.0).no_duplicates()
        },
    decreases vs.len(),
{
    if vs.len() == 0 {
        assert(table.take(table.len() as int) =~= table);
    } else {
        let v = vs[0];
        if is_sentinel_name(v.name) {
            lemma_variants_table(vr, gr, keep, ctx, vs.drop_first(), vi + 1, table, outs);
        } else {
            let vname = vr.rule_spec(v.name);
            if is_rust_ident(vname) {
                lemma_fields_table(gr, keep, ctx, v.fields, vi, 0, table, Seq::empty());
                match spec_fields(gr, keep, ctx, v.fields, vi, 0, table, Seq::empty()) {
                    Result::Err(_) => {},
                    Result::Ok(tf) => {
                        lemma_add_first_seen_app(
                            crate::model::table_keys(table),
                            field_keys(ctx, v.fields),
                            scan_keys(ctx, vs.drop_first()),
                        );
                        lemma_variants_table(
                            vr,
                            gr,
                            keep,
                            ctx,
                            vs.drop_first(),
                            vi + 1,
                            tf.0,
                            outs.push(
                                OutVariantView {
                                    name: vname,
                                    fields: tf.1,
                                    attrs: filter_attrs(v.attrs, keep),
                                },
                            ),
                        );
                        match spec_variants(
                            vr,
                            gr,
                            keep,
                            ctx,
                            vs.drop_first(),
                            vi + 1,
                            tf.0,
                            outs.push(
                                OutVariantView {
                                    name: vname,
                                    fields: tf.1,
                                    attrs: filter_attrs(v.attrs, keep),
                                },
                            ),
                        ) {
                            Result::Err(_) => {},
                            Result::Ok(to) => {
                                assert(to.0.take(tf.0.len() as int) == tf.0);
                                assert forall|l: int|
                                    0 <= l < table.len() implies to.0[l] == table[l] by {
                                    assert(to.0.take(tf.0.len() as int)[l] == tf.0[l]);
                                    assert(tf.0.take(table.len() as int)[l] == tf.0[l]);
                                    assert(tf.0.take(table.len() as int)[l] == table[l]);
                                }
                                assert(to.0.take(table.len() as int) =~= table);
                            },
                        }
                    },
                }
            }
        }
    }
}

/// Ordering stability and generic dedup: in a successful pass the generic
/// table's keys are exactly the distinct canonical forms of the
/// context-bound field types, in order of first appearance when scanning
/// the non-sentinel variants and their fields in declaration order; each
/// canonical form is bound once, and no generic name is bound twice, so
/// each generic appears exactly once in the emitted generic list.
pub proof fn lemma_ordering_and_dedup<VR: VariantNameRule, GR: GenericNameRule>(
    vr: VR,
    gr: GR,
    keep: bool,
    ctx: Seq<char>,
    vs: Seq<VariantView>,
)
    ensures
        spec_variants(
            vr,
            gr,
            keep,
            ctx,
            vs,
            0,
            Seq::<(Seq<char>, Seq<char>)>::empty(),
            Seq::<OutVariantView>::empty(),
        ) matches Ok(to) ==> {
            &&& crate::model::table_keys(to.0) == add_first_seen(
                Seq::<Seq<char>>::empty(),
                scan_keys(ctx, vs),
            )
            &&& crate::model::table_keys(to.0).no_duplicates()
            &&& crate::model::table_values(to.0).no_duplicates()
        },
{
    let empty_table = Seq::<(Seq<char>, Seq<char>)>::empty();
    assert(crate::model::table_keys(empty_table) =~= Seq::<Seq<char>>::empty());
    assert(crate::model::table_values(empty_table) =~= Seq::<Seq<char>>::empty());
    lemma_variants_table(vr, gr, keep, ctx, vs, 0, empty_table, Seq::<OutVariantView>::empty());
}

/// The emitted generic list of a successful pass is the value column of a
/// table whose keys stand in first-appearance order and whose values are
/// pairwise distinct.
pub proof fn lemma_expand_generics<VR: VariantNameRule, GR: GenericNameRule>(
    vr: VR,
    gr: GR,
    cfg: ConfigView,
    input: InputDeclView,
)
    ensures
        spec_expand(vr, gr, cfg, input) matches Ok(out) ==> exists|t: TableView|
            {
                &&& spec_variants(
                    vr,
                    gr,
                    cfg.keep_comments,
                    input.context_param,
                    input.variants,
                    0,
                    Seq::<(Seq<char>, Seq<char>)>::empty(),
                    Seq::<OutVariantView>::empty(),
                ) == Result::<(TableView, Seq<OutVariantView>), PassErrorView>::Ok(
                    (t, out.variants),
                )
                &&& out.generics == crate::model::table_values(t)
                &&& crate::model::table_keys(t) == add_first_seen(
                    Seq::<Seq<char>>::empty(),
                    scan_keys(input.context_param, input.variants),
                )
                &&& crate::model::table_keys(t).no_duplicates()
                &&& out.generics.no_duplicates()
            },
{
    lemma_ordering_and_dedup(
        vr,
        gr,
        cfg.keep_comments,
        input.context_param,
        input.variants,
    );
}

/// What the pass makes of one field, read against the final table: a
/// context-bound type is replaced by the generic name the table binds to
/// its canonical form, any other dotted path passes through unchanged, and
/// the attributes are filtered.
pub open spec fn field_rewritten(
    ctx: Seq<char>,
    keep: bool,
    ft: TableView,
    src: FieldView,
    out: FieldView,
) -> bool {
    match src.ty {
        crate::ast::TyExprView::Path { segments } => {
            &&& out.attrs == filter_attrs(src.attrs, keep)
            &&& if crate::text::is_context_bound(segments, ctx) {
                match crate::model::table_lookup(ft, crate::text::canon(segments)) {
                    Option::Some(g) => out.ty == crate::model::single_path(g),
                    Option::None => false,
                }
            } else {
                out.ty == src.ty
            }
        },
        crate::ast::TyExprView::Other => false,
    }
}

/// What the pass makes of one non-sentinel variant: the converted name, the
/// filtered attributes, and every field rewritten as [`field_rewritten`]
/// says.
pub open spec fn variant_rewritten<VR: VariantNameRule>(
    vr: VR,
    keep: bool,
    ctx: Seq<char>,
    ft: TableView,
    src: VariantView,
    out: OutVariantView,
) -> bool {
    &&& out.name == vr.rule_spec(src.name)
    &&& out.attrs == filter_attrs(src.attrs, keep)
    &&& out.fields.len() == src.fields.len()
    &&& forall|m: int|
        0 <= m < src.fields.len() ==> field_rewritten(ctx, keep, ft, src.fields[m], out.fields[m])
}

/// Rewriting a field list turns each source field into its rewritten form,
/// read against the table the rewriting ends with.
proof fn lemma_fields_rewrite<GR: GenericNameRule>(
    gr: GR,
    keep: bool,
    ctx: Seq<char>,
    fs: Seq<FieldView>,
    vi: int,
    fi: int,
    table: TableView,
    acc: Seq<FieldView>,
    srcs: Seq<FieldView>,
)
    requires
        crate::model::table_keys(table).no_duplicates(),
        crate::model::table_values(table).no_duplicates(),
        srcs.len() == acc.len(),
        forall|l: int| 0 <= l < acc.len() ==> field_rewritten(ctx, keep, table, srcs[l], acc[l]),
    ensures
        spec_fields(gr, keep, ctx, fs, vi, fi, table, acc) matches Ok(tf) ==> {
            &&& tf.1.len() == srcs.len() + fs.len()
            &&& forall|l: int|
                0 <= l < tf.1.len() ==> field_rewritten(ctx, keep, tf.0, (srcs + fs)[l], tf.1[l])
        },
    decreases fs.len(),
{
    if fs.len() == 0 {
        assert(srcs + fs =~= srcs);
    } else {
        let f = fs[0];
        match f.ty {
            crate::ast::TyExprView::Other => {},
            crate::ast::TyExprView::Path { segments } => {
                let new_attrs = filter_attrs(f.attrs, keep);
                let srcs2 = srcs.push(f);
                assert(srcs2 + fs.drop_first() =~= srcs + fs);
                if crate::text::is_context_bound(segments, ctx) {
                    let key = crate::text::canon(segments);
                    match crate::model::table_lookup(table, key) {
                        Option::Some(g) => {
                            let newf = FieldView {
                                ty: crate::model::single_path(g),
                                attrs: new_attrs,
                            };
                            assert(field_rewritten(ctx, keep, table, f, newf));
                            lemma_fields_rewrite(
                                gr,
                                keep,
                                ctx,
                                fs.drop_first(),
                                vi,
                                fi + 1,
                                table,
                                acc.push(newf),
                                srcs2,
                            );
                        },
                        Option::None => {
                            let g = gr.rule_spec(segments);
                            if is_rust_ident(g) && crate::model::table_lookup_value(table, g)
                                is None {
                                let t2 = table.push((key, g));
                                assert(crate::model::table_keys(t2)
                                    =~= crate::model::table_keys(table).push(key));
                                assert(crate::model::table_values(t2)
                                    =~= crate::model::table_values(table).push(g));
                                lemma_lookup_contains(table, key);
                                lemma_lookup_value_contains(table, g);
                                lemma_no_dup_push(crate::model::table_keys(table), key);
                                lemma_no_dup_push(crate::model::table_values(table), g);
                                lemma_lookup_push(table, key, g);
                                assert(t2.take(table.len() as int) =~= table);
                                let newf = FieldView {
                                    ty: crate::model::single_path(g),
                                    attrs: new_attrs,
                                };
                                assert(field_rewritten(ctx, keep, t2, f, newf));
                                assert forall|l: int|
                                    0 <= l < acc.len() implies field_rewritten(
                                    ctx,
                                    keep,
                                    t2,
                                    srcs[l],
                                    acc[l],
                                ) by {
                                    match srcs[l].ty {
                                        crate::ast::TyExprView::Path { segments: s2 } => {
                                            if crate::text::is_context_bound(s2, ctx) {
                                                lemma_lookup_stable(
                                                    table,
                                                    t2,
                                                    crate::text::canon(s2),
                                                );
                                            }
                                        },
                                        crate::ast::TyExprView::Other => {},
                                    }
                                }
                                lemma_fields_rewrite(
                                    gr,
                                    keep,
                                    ctx,
                                    fs.drop_first(),
                                    vi,
                                    fi + 1,
                                    t2,
                                    acc.push(newf),
                                    srcs2,
                                );
                            }
                        },
                    }
                } else {
                    let newf = FieldView { ty: f.ty, attrs: new_attrs };
                    assert(field_rewritten(ctx, keep, table, f, newf));
                    lemma_fields_rewrite(
                        gr,
                        keep,
                        ctx,
                        fs.drop_first(),
                        vi,
                        fi + 1,
                        table,
                        acc.push(newf),
                        srcs2,
                    );
                }
            },
        }
    }
}

/// Transforming the variants turns each non-sentinel source variant into
/// its rewritten form, read against the final table.
proof fn lemma_variants_rewrite<VR: VariantNameRule, GR: GenericNameRule>(
    vr: VR,
    gr: GR,
    keep: bool,
    ctx: Seq<char>,
    vs: Seq<VariantView>,
    vi: int,
    table: TableView,
    outs: Seq<OutVariantView>,
    srcs: Seq<VariantView>,
)
    requires
        crate::model::table_keys(table).no_duplicates(),
        crate::model::table_values(table).no_duplicates(),
        srcs.len() == outs.len(),
        forall|l: int|
            0 <= l < outs.len() ==> variant_rewritten(vr, keep, ctx, table, srcs[l], outs[l]),
    ensures
        spec_variants(vr, gr, keep, ctx, vs, vi, table, outs) matches Ok(to) ==> {
            &&& to.1.len() == srcs.len() + remove_sentinels(vs).len()
            &&& forall|l: int|
                0 <= l < to.1.len() ==> variant_rewritten(
                    vr,
                    keep,
                    ctx,
                    to.0,
                    (srcs + remove_sentinels(vs))[l],
                    to.1[l],
                )
        },
    decreases vs.len(),
{
    if vs.len() == 0 {
        assert(srcs + remove_sentinels(vs) =~= srcs);
    } else {
        let v = vs[0];
        if is_sentinel_name(v.name) {
            assert(remove_sentinels(vs) == remove_sentinels(vs.drop_first()));
            lemma_variants_rewrite(
                vr,
                gr,
                keep,
                ctx,
                vs.drop_first(),
                vi + 1,
                table,
                outs,
                srcs,
            );
        } else {
            assert(remove_sentinels(vs) == seq![v] + remove_sentinels(vs.drop_first()));
            let vname = vr.rule_spec(v.name);
            if is_rust_ident(vname) {
                lemma_fields_table(gr, keep, ctx, v.fields, vi, 0, table, Seq::empty());
                lemma_fields_rewrite(
                    gr,
                    keep,
                    ctx,
                    v.fields,
                    vi,
                    0,
                    table,
                    Seq::empty(),
                    Seq::empty(),
                );
                match spec_fields(gr, keep, ctx, v.fields, vi, 0, table, Seq::empty()) {
                    Result::Err(_) => {},
                    Result::Ok(tf) => {
                        let newv = OutVariantView {
                            name: vname,
                            fields: tf.1,
                            attrs: filter_attrs(v.attrs, keep),
                        };
                        assert(Seq::<FieldView>::empty() + v.fields =~= v.fields);
                        assert(variant_rewritten(vr, keep, ctx, tf.0, v, newv));
                        assert forall|l: int|
                            0 <= l < outs.len() implies variant_rewritten(
                            vr,
                            keep,
                            ctx,
                            tf.0,
                            srcs[l],
                            outs[l],
                        ) by {
                            assert forall|m: int|
                                0 <= m < srcs[l].fields.len() implies field_rewritten(
                                ctx,
                                keep,
                                tf.0,
                                srcs[l].fields[m],
                                outs[l].fields[m],
                            ) by {
                                assert(field_rewritten(ctx, keep, table, srcs[l].fields[m],
                                    outs[l].fields[m]));
                                match srcs[l].fields[m].ty {
                                    crate::ast::TyExprView::Path { segments: s2 } => {
                                        if crate::text::is_context_bound(s2, ctx) {
                                            lemma_lookup_stable(
                                                table,
                                                tf.0,
                                                crate::text::canon(s2),
                                            );
                                        }
                                    },
                                    crate::ast::TyExprView::Other => {},
                                }
                            }
                        }
                        let srcs2 = srcs.push(v);
                        assert(srcs2 + remove_sentinels(vs.drop_first()) =~= srcs
                            + remove_sentinels(vs));
                        lemma_variants_rewrite(
                            vr,
                            gr,
                            keep,
                            ctx,
                            vs.drop_first(),
                            vi + 1,
                            tf.0,
                            outs.push(newv),
                            srcs2,
                        );
                    },
                }
            }
        }
    }
}

/// Faithful rewriting, and generic dedup in its strongest form: in a
/// successful pass the output variants are, in order, the transforms of the
/// non-sentinel input variants; a context-bound field is rewritten to the
/// generic name the final table binds to its canonical form — so two fields
/// whose type expressions have the same canonical form are given the same
/// generic parameter — while every other field passes through unchanged,
/// and every attribute list is the filtered source list.
pub proof fn lemma_rewriting_correspondence<VR: VariantNameRule, GR: GenericNameRule>(
    vr: VR,
    gr: GR,
    cfg: ConfigView,
    input: InputDeclView,
)
    ensures
        spec_expand(vr, gr, cfg, input) matches Ok(out) ==> spec_variants(
            vr,
            gr,
            cfg.keep_comments,
            input.context_param,
            input.variants,
            0,
            Seq::<(Seq<char>, Seq<char>)>::empty(),
            Seq::<OutVariantView>::empty(),
        ) matches Ok(to) && {
            &&& out.variants == to.1
            &&& out.generics == crate::model::table_values(to.0)
            &&& out.variants.len() == remove_sentinels(input.variants).len()
            &&& forall|l: int|
                0 <= l < out.variants.len() ==> variant_rewritten(
                    vr,
                    cfg.keep_comments,
                    input.context_param,
                    to.0,
                    remove_sentinels(input.variants)[l],
                    out.variants[l],
                )
        },
{
    let empty_table = Seq::<(Seq<char>, Seq<char>)>::empty();
    assert(crate::model::table_keys(empty_table) =~= Seq::<Seq<char>>::empty());
    assert(crate::model::table_values(empty_table) =~= Seq::<Seq<char>>::empty());
    lemma_variants_rewrite(
        vr,
        gr,
        cfg.keep_comments,
        input.context_param,
        input.variants,
        0,
        empty_table,
        Seq::<OutVariantView>::empty(),
        Seq::<VariantView>::empty(),
    );
    match spec_variants(
        vr,
        gr,
        cfg.keep_comments,
        input.context_param,
        input.variants,
        0,
        empty_table,
        Seq::<OutVariantView>::empty(),
    ) {
        Result::Err(_) => {},
        Result::Ok(to) => {
            assert(Seq::<VariantView>::empty() + remove_sentinels(input.variants)
                =~= remove_sentinels(input.variants));
        },
    }
}

/// Attribute filtering, the keeping direction, end to end: with comments
/// retained every attribute list of a successful output is the source list
/// carried over verbatim, the declaration's own followed by the configured
/// extras.
pub proof fn lemma_attributes_kept_verbatim<VR: VariantNameRule, GR: GenericNameRule>(
    vr: VR,
    gr: GR,
    cfg: ConfigView,
    input: InputDeclView,
)
    requires
        cfg.keep_comments,
    ensures
        spec_expand(vr, gr, cfg, input) matches Ok(out) ==> {
            &&& out.attrs == input.attrs + cfg.extra_attrs
            &&& forall|l: int|
                0 <= l < out.variants.len() ==> out.variants[l].attrs == remove_sentinels(
                    input.variants,
                )[l].attrs
            &&& forall|l: int, m: int|
                0 <= l < out.variants.len() && 0 <= m < out.variants[l].fields.len()
                    ==> out.variants[l].fields[m].attrs == remove_sentinels(
                    input.variants,
                )[l].fields[m].attrs
        },
{
    lemma_rewriting_correspondence(vr, gr, cfg, input);
    match spec_expand(vr, gr, cfg, input) {
        Result::Err(_) => {},
        Result::Ok(out) => {
            let rs = remove_sentinels(input.variants);
            assert forall|l: int, m: int|
                0 <= l < out.variants.len() && 0 <= m < out.variants[l].fields.len() implies
                out.variants[l].fields[m].attrs == rs[l].fields[m].attrs by {
                assert(field_rewritten(
                    input.context_param,
                    cfg.keep_comments,
                    spec_variants(
                        vr,
                        gr,
                        cfg.keep_comments,
                        input.context_param,
                        input.variants,
                        0,
                        Seq::<(Seq<char>, Seq<char>)>::empty(),
                        Seq::<OutVariantView>::empty(),
                    )->Ok_0.0,
                    rs[l].fields[m],
                    out.variants[l].fields[m],
                ));
            }
        },
    }
}

/// Attribute filtering, end to end: with comments stripped (and no
/// documentation attribute among the configured extras) no documentation
/// attribute survives on the declaration, on any variant or on any field of
/// a successful output; non-documentation attributes of the non-sentinel
/// variants and their fields always survive.
pub proof fn lemma_attribute_filtering<VR: VariantNameRule, GR: GenericNameRule>(
    vr: VR,
    gr: GR,
    cfg: ConfigView,
    input: InputDeclView,
)
    requires
        !cfg.keep_comments,
        !has_doc(cfg.extra_attrs),
    ensures
        spec_expand(vr, gr, cfg, input) matches Ok(out) ==> {
            &&& !has_doc(out.attrs)
            &&& forall|l: int| 0 <= l < out.variants.len() ==> !has_doc(out.variants[l].attrs)
            &&& forall|l: int, m: int|
                0 <= l < out.variants.len() && 0 <= m < out.variants[l].fields.len() ==> !has_doc(
                    out.variants[l].fields[m].attrs,
                )
            &&& forall|l: int, m: int|
                0 <= l < out.variants.len() && 0 <= m
                    < remove_sentinels(input.variants)[l].attrs.len() && !remove_sentinels(
                    input.variants,
                )[l].attrs[m].doc ==> out.variants[l].attrs.contains(
                    remove_sentinels(input.variants)[l].attrs[m],
                )
            &&& forall|l: int, m: int, n: int|
                0 <= l < out.variants.len() && 0 <= m < remove_sentinels(
                    input.variants,
                )[l].fields.len() && 0 <= n < remove_sentinels(input.variants)[l].fields[m].attrs.len()
                    && !remove_sentinels(input.variants)[l].fields[m].attrs[n].doc
                    ==> out.variants[l].fields[m].attrs.contains(
                    remove_sentinels(input.variants)[l].fields[m].attrs[n],
                )
        },
{
    lemma_rewriting_correspondence(vr, gr, cfg, input);
    match spec_expand(vr, gr, cfg, input) {
        Result::Err(_) => {},
        Result::Ok(out) => {
            lemma_remove_docs(input.attrs);
            assert(!has_doc(out.attrs)) by {
                if has_doc(out.attrs) {
                    let k = choose|k: int| 0 <= k < out.attrs.len() && out.attrs[k].doc;
                    let filtered = remove_docs(input.attrs);
                    if k < filtered.len() {
                        assert(out.attrs[k] == filtered[k]);
                    } else {
                        assert(out.attrs[k] == cfg.extra_attrs[k - filtered.len()]);
                    }
                }
            }
            let rs = remove_sentinels(input.variants);
            assert forall|l: int| 0 <= l < out.variants.len() implies !has_doc(
                out.variants[l].attrs,
            ) by {
                lemma_remove_docs(rs[l].attrs);
            }
            assert forall|l: int, m: int|
                0 <= l < out.variants.len() && 0 <= m < rs[l].attrs.len()
                    && !rs[l].attrs[m].doc implies out.variants[l].attrs.contains(
                rs[l].attrs[m],
            ) by {
                lemma_remove_docs(rs[l].attrs);
            }
            assert forall|l: int, m: int, n: int|
                0 <= l < out.variants.len() && 0 <= m < rs[l].fields.len() && 0 <= n
                    < rs[l].fields[m].attrs.len() && !rs[l].fields[m].attrs[n].doc implies
                out.variants[l].fields[m].attrs.contains(rs[l].fields[m].attrs[n]) by {
                assert(field_rewritten(
                    input.context_param,
                    cfg.keep_comments,
                    spec_variants(
                        vr,
                        gr,
                        cfg.keep_comments,
                        input.context_param,
                        input.variants,
                        0,
                        Seq::<(Seq<char>, Seq<char>)>::empty(),
                        Seq::<OutVariantView>::empty(),
                    )->Ok_0.0,
                    rs[l].fields[m],
                    out.variants[l].fields[m],
                ));
                lemma_remove_docs(rs[l].fields[m].attrs);
            }
            assert forall|l: int, m: int|
                0 <= l < out.variants.len() && 0 <= m < out.variants[l].fields.len() implies
                !has_doc(out.variants[l].fields[m].attrs) by {
                assert(field_rewritten(
                    input.context_param,
                    cfg.keep_comments,
                    spec_variants(
                        vr,
                        gr,
                        cfg.keep_comments,
                        input.context_param,
                        input.variants,
                        0,
                        Seq::<(Seq<char>, Seq<char>)>::empty(),
                        Seq::<OutVariantView>::empty(),
                    )->Ok_0.0,
                    rs[l].fields[m],
                    out.variants[l].fields[m],
                ));
                lemma_remove_docs(rs[l].fields[m].attrs);
            }
        },
    }
}

} // verus!
