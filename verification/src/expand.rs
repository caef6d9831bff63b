//! The executable rewriting pass, proved equal to the mathematical model in
//! [`crate::model`].

use vstd::prelude::*;
use vstd::string::StringExecFns;
use crate::ast::Attr;
use crate::ast::Field;
use crate::ast::FieldView;
use crate::ast::InputDecl;
use crate::ast::OutVariant;
use crate::ast::OutVariantView;
use crate::ast::OutputDecl;
use crate::ast::OutputDeclView;
use crate::ast::PassError;
use crate::ast::PassErrorView;
use crate::ast::TyExpr;
use crate::ast::TyExprView;
use crate::ast::VariantView;
use crate::ast::attrs_view;
use crate::ast::fields_view;
use crate::ast::out_variants_view;
use crate::ast::strs_view;
use crate::ast::variants_view;
use crate::config::PalletCallConfig;
use crate::config::opt_str_view;
use crate::model::TableView;
use crate::model::all_derives;
use crate::model::baseline_derives;
use crate::model::single_path;
use crate::model::spec_expand;
use crate::model::spec_fields;
use crate::model::spec_variants;
use crate::model::table_lookup;
use crate::model::table_lookup_value;
use crate::model::table_values;
use crate::names::check_ident;
use crate::rules::GenericNameRule;
use crate::rules::VariantNameRule;
use crate::text::canon;
use crate::text::canon_of;
use crate::text::filter_attrs;
use crate::text::filter_attrs_exec;
use crate::text::is_context_bound;
use crate::text::is_sentinel;

verus! {

broadcast use vstd::prelude::Seq::lemma_push_map_commute;

/// The view of the executable generic table.
pub open spec fn tview(t: Seq<(String, String)>) -> TableView {
    t.map_values(|p: (String, String)| (p.0@, p.1@))
}

/// The view of the pass's result.
pub open spec fn result_view(r: Result<OutputDecl, PassError>) -> Result<
    OutputDeclView,
    PassErrorView,
> {
    match r {
        Result::Ok(o) => Result::Ok(o@),
        Result::Err(e) => Result::Err(e@),
    }
}

/// Copies a segment list.
#[verifier::loop_isolation(false)]
fn clone_strings(v: &Vec<String>) -> (r: Vec<String>)
    ensures
        r@ == v@,
{
    let mut r: Vec<String> = Vec::new();
    let mut i: usize = 0;
    while i < v.len()
        invariant
            i <= v.len(),
            r@ == v@.subrange(0, i as int),
        decreases v.len() - i,
    {
        r.push(v[i].clone());
        proof {
            assert(r@ =~= v@.subrange(0, i as int + 1));
        }
        i += 1;
    }
    proof {
        assert(v@.subrange(0, v@.len() as int) =~= v@);
    }
    r
}

/// Finds the generic name bound to a canonical form, scanning the table in
/// insertion order.
#[verifier::loop_isolation(false)]
fn lookup_key(table: &Vec<(String, String)>, key: &String) -> (r: Option<String>)
    ensures
        opt_str_view(r) == table_lookup(tview(table@), key@),
{
    let ghost tv = tview(table@);
    let mut i: usize = 0;
    proof {
        assert(tv.skip(0) =~= tv);
    }
    while i < table.len()
        invariant
            i <= table.len(),
            table_lookup(tv, key@) == table_lookup(tv.skip(i as int), key@),
        decreases table.len() - i,
    {
        let ghost si = tv.skip(i as int);
        proof {
            assert(si[0] == tv[i as int]);
            assert(si.drop_first() =~= tv.skip(i as int + 1));
        }
        let entry = &table[i];
        if entry.0 == *key {
            return Some(entry.1.clone());
        }
        i += 1;
    }
    proof {
        assert(tv.skip(table@.len() as int) =~= Seq::<(Seq<char>, Seq<char>)>::empty());
    }
    None
}

/// Finds the canonical form already bound to a generic name, scanning the
/// table in insertion order.
#[verifier::loop_isolation(false)]
fn lookup_value(table: &Vec<(String, String)>, value: &String) -> (r: Option<String>)
    ensures
        opt_str_view(r) == table_lookup_value(tview(table@), value@),
{
    let ghost tv = tview(table@);
    let mut i: usize = 0;
    proof {
        assert(tv.skip(0) =~= tv);
    }
    while i < table.len()
        invariant
            i <= table.len(),
            table_lookup_value(tv, value@) == table_lookup_value(tv.skip(i as int), value@),
        decreases table.len() - i,
    {
        let ghost si = tv.skip(i as int);
        proof {
            assert(si[0] == tv[i as int]);
            assert(si.drop_first() =~= tv.skip(i as int + 1));
        }
        let entry = &table[i];
        if entry.1 == *value {
            return Some(entry.0.clone());
        }
        i += 1;
    }
    proof {
        assert(tv.skip(table@.len() as int) =~= Seq::<(Seq<char>, Seq<char>)>::empty());
    }
    None
}

/// A parsed input declaration together with the configuration that governs
/// its rewriting.
pub struct PalletCall<VR, GR> {
    /// The options of the pass.
    pub config: PalletCallConfig<VR, GR>,
    /// The structured declaration to rewrite.
    pub input: InputDecl,
}

impl<VR: VariantNameRule, GR: GenericNameRule> PalletCall<VR, GR> {
    /// Pairs a configuration with the declaration it will rewrite.
    pub fn new(config: PalletCallConfig<VR, GR>, input: InputDecl) -> (r: Self)
        ensures
            r.config == config,
            r.input == input,
    {
        PalletCall { config, input }
    }

    /// Runs the pass: every field type bound to the input's context
    /// parameter is replaced by a deduplicated generic parameter, the
    /// sentinel variant is dropped, variant names are converted, and
    /// documentation attributes are stripped unless kept by configuration.
    ///
    /// The result is exactly the mathematical model of the pass applied to
    /// the configuration and the input declaration.
    #[verifier::loop_isolation(false)]
    #[verifier::rlimit(100)]
    pub fn expand(&self) -> (r: Result<OutputDecl, PassError>)
        ensures
            result_view(r) == spec_expand(
                self.config.variant_rule,
                self.config.generic_rule,
                self.config@,
                self.input@,
            ),
    {
        let ghost vr = self.config.variant_rule;
        let ghost gr = self.config.generic_rule;
        let ghost cfgv = self.config@;
        let ghost inv = self.input@;
        let ghost ctxp = inv.context_param;
        let keep = self.config.keep;

        // The target name and the serialization namespace, validated first.
        let name: String = match &self.config.name {
            Some(n) => n.clone(),
            None => String::from_str("Call"),
        };
        if !check_ident(name.as_str()) {
            return Err(PassError::InvalidIdentifier { name });
        }
        let codec: String = match &self.config.codec {
            Some(c) => c.clone(),
            None => String::from_str("codec"),
        };
        if !check_ident(codec.as_str()) {
            return Err(PassError::InvalidIdentifier { name: codec });
        }
        match &self.config.runtime_debug {
            Some(m) => {
                if !check_ident(m.as_str()) {
                    return Err(PassError::InvalidIdentifier { name: m.clone() });
                }
            },
            None => {},
        }

        // Walk the variants in declaration order, skipping the sentinel and
        // rewriting context-bound field types through the generic table.
        let vs = &self.input.variants;
        let ghost vvs = variants_view(vs@);
        let mut table: Vec<(String, String)> = Vec::new();
        let mut outs: Vec<OutVariant> = Vec::new();
        let mut i: usize = 0;
        proof {
            assert(vvs.skip(0) =~= vvs);
            assert(tview(table@) =~= Seq::<(Seq<char>, Seq<char>)>::empty());
            assert(out_variants_view(outs@) =~= Seq::<OutVariantView>::empty());
        }
        while i < vs.len()
            invariant
                i <= vs.len(),
                spec_variants(
                    vr,
                    gr,
                    keep,
                    ctxp,
                    vvs.skip(i as int),
                    i as int,
                    tview(table@),
                    out_variants_view(outs@),
                ) == spec_variants(
                    vr,
                    gr,
                    keep,
                    ctxp,
                    vvs,
                    0,
                    Seq::<(Seq<char>, Seq<char>)>::empty(),
                    Seq::<OutVariantView>::empty(),
                ),
            decreases vs.len() - i,
        {
            let v = &vs[i];
            let ghost svi = vvs.skip(i as int);
            proof {
                assert(svi[0] == vvs[i as int]);
                assert(vvs[i as int] == v@);
                assert(svi.drop_first() =~= vvs.skip(i as int + 1));
            }
            if is_sentinel(&v.name) {
                proof {
                    assert(spec_variants(
                        vr,
                        gr,
                        keep,
                        ctxp,
                        svi,
                        i as int,
                        tview(table@),
                        out_variants_view(outs@),
                    ) == spec_variants(
                        vr,
                        gr,
                        keep,
                        ctxp,
                        svi.drop_first(),
                        i as int + 1,
                        tview(table@),
                        out_variants_view(outs@),
                    ));
                }
                i += 1;
            } else {
                let vname = self.config.variant_rule.apply(v.name.as_str());
                if !check_ident(vname.as_str()) {
                    proof {
                        assert(spec_variants(
                            vr,
                            gr,
                            keep,
                            ctxp,
                            svi,
                            i as int,
                            tview(table@),
                            out_variants_view(outs@),
                        ) == Result::<(TableView, Seq<OutVariantView>), PassErrorView>::Err(
                            PassErrorView::InvalidIdentifier { name: vname@ },
                        ));
                    }
                    return Err(PassError::InvalidIdentifier { name: vname });
                }
                let ghost table0 = tview(table@);
                let ghost outs0 = out_variants_view(outs@);
                let ghost fsv = v@.fields;
                let mut fields: Vec<Field> = Vec::new();
                let mut j: usize = 0;
                proof {
                    assert(fsv.skip(0) =~= fsv);
                    assert(fields_view(fields@) =~= Seq::<FieldView>::empty());
                }
                while j < v.fields.len()
                    invariant
                        j <= v.fields.len(),
                        spec_fields(
                            gr,
                            keep,
                            ctxp,
                            fsv.skip(j as int),
                            i as int,
                            j as int,
                            tview(table@),
                            fields_view(fields@),
                        ) == spec_fields(
                            gr,
                            keep,
                            ctxp,
                            fsv,
                            i as int,
                            0,
                            table0,
                            Seq::<FieldView>::empty(),
                        ),
                    decreases v.fields.len() - j,
                {
                    let f = &v.fields[j];
                    let ghost sfj = fsv.skip(j as int);
                    let ghost tablej = tview(table@);
                    let ghost fieldsj = fields_view(fields@);
                    proof {
                        assert(sfj[0] == fsv[j as int]);
                        assert(fsv[j as int] == f@);
                        assert(sfj.drop_first() =~= fsv.skip(j as int + 1));
                    }
                    match &f.ty {
                        TyExpr::Other => {
                            proof {
                                let e = PassErrorView::UnsupportedFieldType {
                                    variant: i as int,
                                    field: j as int,
                                };
                                assert(spec_fields(gr, keep, ctxp, sfj, i as int, j as int, tablej, fieldsj)
                                    == Result::<(TableView, Seq<FieldView>), PassErrorView>::Err(e));
                                assert(spec_variants(vr, gr, keep, ctxp, svi, i as int, table0, outs0)
                                    == Result::<(TableView, Seq<OutVariantView>), PassErrorView>::Err(e));
                            }
                            return Err(PassError::UnsupportedFieldType { variant: i, field: j });
                        },
                        TyExpr::Path { segments } => {
                            let ghost segsv = strs_view(segments@);
                            proof {
                                assert(f@.ty == (TyExprView::Path { segments: segsv }));
                                if segments@.len() > 0 {
                                    assert(segsv[0] == segments@[0]@);
                                }
                            }
                            let new_attrs = filter_attrs_exec(&f.attrs, keep);
                            let bound = segments.len() > 0 && segments[0]
                                == self.input.context_param;
                            proof {
                                assert(bound == is_context_bound(segsv, ctxp));
                            }
                            if bound {
                                let key = canon_of(segments);
                                match lookup_key(&table, &key) {
                                    Some(g) => {
                                        let ghost gview = g@;
                                        proof {
                                            assert(table_lookup(tablej, canon(segsv))
                                                == Option::Some(gview));
                                        }
                                        let mut gv: Vec<String> = Vec::new();
                                        gv.push(g);
                                        let newf = Field {
                                            ty: TyExpr::Path { segments: gv },
                                            attrs: new_attrs,
                                        };
                                        proof {
                                            assert(strs_view(newf.ty->Path_segments@)
                                                =~= seq![gview]);
                                            assert(newf@ == (FieldView {
                                                ty: single_path(gview),
                                                attrs: filter_attrs(f@.attrs, keep),
                                            }));
                                        }
                                        fields.push(newf);
                                        proof {
                                            assert(fields_view(fields@) =~= fieldsj.push(newf@));
                                            assert(spec_fields(gr, keep, ctxp, sfj, i as int,
                                                j as int, tablej, fieldsj)
                                                == spec_fields(gr, keep, ctxp, fsv.skip(j as int + 1),
                                                    i as int, j as int + 1, tablej,
                                                    fields_view(fields@)));
                                        }
                                        j += 1;
                                    },
                                    None => {
                                        proof {
                                            assert(table_lookup(tablej, canon(segsv))
                                                is None);
                                        }
                                        let g = self.config.generic_rule.apply(segments);
                                        if !check_ident(g.as_str()) {
                                            proof {
                                                let e = PassErrorView::InvalidIdentifier {
                                                    name: g@,
                                                };
                                                assert(spec_fields(gr, keep, ctxp, sfj, i as int,
                                                    j as int, tablej, fieldsj)
                                                    == Result::<(TableView, Seq<FieldView>), PassErrorView>::Err(e));
                                                assert(spec_variants(vr, gr, keep, ctxp, svi,
                                                    i as int, table0, outs0)
                                                    == Result::<(TableView, Seq<OutVariantView>), PassErrorView>::Err(e));
                                            }
                                            return Err(PassError::InvalidIdentifier { name: g });
                                        }
                                        match lookup_value(&table, &g) {
                                            Some(k0) => {
                                                proof {
                                                    let e = PassErrorView::NamingCollision {
                                                        name: g@,
                                                        existing: k0@,
                                                        conflicting: key@,
                                                    };
                                                    assert(spec_fields(gr, keep, ctxp, sfj,
                                                        i as int, j as int, tablej, fieldsj)
                                                        == Result::<(TableView, Seq<FieldView>), PassErrorView>::Err(e));
                                                    assert(spec_variants(vr, gr, keep, ctxp, svi,
                                                        i as int, table0, outs0)
                                                        == Result::<(TableView, Seq<OutVariantView>), PassErrorView>::Err(e));
                                                }
                                                return Err(
                                                    PassError::NamingCollision {
                                                        name: g,
                                                        existing: k0,
                                                        conflicting: key,
                                                    },
                                                );
                                            },
                                            None => {
                                                let ghost gview = g@;
                                                let ghost keyview = key@;
                                                let gf = g.clone();
                                                table.push((key, g));
                                                proof {
                                                    assert(tview(table@) =~= tablej.push(
                                                        (keyview, gview),
                                                    ));
                                                }
                                                let mut gv: Vec<String> = Vec::new();
                                                gv.push(gf);
                                                let newf = Field {
                                                    ty: TyExpr::Path { segments: gv },
                                                    attrs: new_attrs,
                                                };
                                                proof {
                                                    assert(strs_view(newf.ty->Path_segments@)
                                                        =~= seq![gview]);
                                                    assert(newf@ == (FieldView {
                                                        ty: single_path(gview),
                                                        attrs: filter_attrs(f@.attrs, keep),
                                                    }));
                                                }
                                                fields.push(newf);
                                                proof {
                                                    assert(fields_view(fields@) =~= fieldsj.push(
                                                        newf@,
                                                    ));
                                                    assert(spec_fields(gr, keep, ctxp, sfj,
                                                        i as int, j as int, tablej, fieldsj)
                                                        == spec_fields(gr, keep, ctxp,
                                                            fsv.skip(j as int + 1), i as int,
                                                            j as int + 1, tview(table@),
                                                            fields_view(fields@)));
                                                }
                                                j += 1;
                                            },
                                        }
                                    },
                                }
                            } else {
                                let segs2 = clone_strings(segments);
                                let newf = Field {
                                    ty: TyExpr::Path { segments: segs2 },
                                    attrs: new_attrs,
                                };
                                proof {
                                    assert(newf@ == (FieldView {
                                        ty: f@.ty,
                                        attrs: filter_attrs(f@.attrs, keep),
                                    }));
                                }
                                fields.push(newf);
                                proof {
                                    assert(fields_view(fields@) =~= fieldsj.push(newf@));
                                    assert(spec_fields(gr, keep, ctxp, sfj, i as int, j as int,
                                        tablej, fieldsj)
                                        == spec_fields(gr, keep, ctxp, fsv.skip(j as int + 1),
                                            i as int, j as int + 1, tablej,
                                            fields_view(fields@)));
                                }
                                j += 1;
                            }
                        },
                    }
                }
                proof {
                    assert(fsv.skip(v.fields@.len() as int) =~= Seq::<FieldView>::empty());
                    assert(spec_fields(gr, keep, ctxp, fsv, i as int, 0, table0,
                        Seq::<FieldView>::empty())
                        == Result::<(TableView, Seq<FieldView>), PassErrorView>::Ok(
                            (tview(table@), fields_view(fields@)),
                        ));
                }
                let out_attrs = filter_attrs_exec(&v.attrs, keep);
                let ghost outs_pre = out_variants_view(outs@);
                let newv = OutVariant { name: vname, fields, attrs: out_attrs };
                proof {
                    assert(newv@ == (OutVariantView {
                        name: vr.rule_spec(v@.name),
                        fields: fields_view(newv.fields@),
                        attrs: filter_attrs(v@.attrs, keep),
                    }));
                }
                outs.push(newv);
                proof {
                    assert(out_variants_view(outs@) =~= outs_pre.push(newv@));
                    assert(spec_variants(vr, gr, keep, ctxp, svi, i as int, table0, outs0)
                        == spec_variants(vr, gr, keep, ctxp, vvs.skip(i as int + 1), i as int + 1,
                            tview(table@), out_variants_view(outs@)));
                }
                i += 1;
            }
        }
        proof {
            assert(vvs.skip(vs@.len() as int) =~= Seq::<VariantView>::empty());
            assert(spec_variants(
                vr,
                gr,
                keep,
                ctxp,
                vvs,
                0,
                Seq::<(Seq<char>, Seq<char>)>::empty(),
                Seq::<OutVariantView>::empty(),
            ) == Result::<(TableView, Seq<OutVariantView>), PassErrorView>::Ok(
                (tview(table@), out_variants_view(outs@)),
            ));
        }

        // Assemble the output declaration.
        let mut generics: Vec<String> = Vec::new();
        let mut k: usize = 0;
        proof {
            assert(strs_view(generics@) =~= table_values(tview(table@)).take(0));
        }
        while k < table.len()
            invariant
                k <= table.len(),
                strs_view(generics@) == table_values(tview(table@)).take(k as int),
            decreases table.len() - k,
        {
            generics.push(table[k].1.clone());
            proof {
                assert(strs_view(generics@) =~= table_values(tview(table@)).take(k as int + 1));
            }
            k += 1;
        }
        proof {
            assert(table_values(tview(table@)).take(table@.len() as int)
                =~= table_values(tview(table@)));
        }

        let ghost codecv = codec@;
        let mut derives: Vec<String> = Vec::new();
        derives.push(String::from_str("Clone"));
        derives.push(String::from_str("PartialEq"));
        derives.push(String::from_str("Eq"));
        derives.push(codec.clone().concat("::Encode"));
        derives.push(codec.clone().concat("::Decode"));
        proof {
            assert(strs_view(derives@) =~= baseline_derives(codecv));
        }
        let mut k2: usize = 0;
        while k2 < self.config.additional_derives.len()
            invariant
                k2 <= self.config.additional_derives.len(),
                strs_view(derives@) == baseline_derives(codecv) + cfgv.extra_derives.take(
                    k2 as int,
                ),
            decreases self.config.additional_derives.len() - k2,
        {
            derives.push(self.config.additional_derives[k2].clone());
            proof {
                assert(strs_view(derives@) =~= baseline_derives(codecv) + cfgv.extra_derives.take(
                    k2 as int + 1,
                ));
            }
            k2 += 1;
        }
        proof {
            assert(cfgv.extra_derives.take(cfgv.extra_derives.len() as int)
                =~= cfgv.extra_derives);
        }
        match &self.config.runtime_debug {
            Some(m) => {
                derives.push(m.clone().concat("::RuntimeDebug"));
            },
            None => {},
        }
        proof {
            assert(strs_view(derives@) =~= all_derives(
                codecv,
                cfgv.runtime_debug,
                cfgv.extra_derives,
            ));
        }

        let mut attrs = filter_attrs_exec(&self.input.attrs, keep);
        let mut k3: usize = 0;
        proof {
            assert(attrs_view(attrs@) =~= filter_attrs(inv.attrs, keep) + cfgv.extra_attrs.take(
                0,
            ));
        }
        while k3 < self.config.additional_attr.len()
            invariant
                k3 <= self.config.additional_attr.len(),
                attrs_view(attrs@) == filter_attrs(inv.attrs, keep) + cfgv.extra_attrs.take(
                    k3 as int,
                ),
            decreases self.config.additional_attr.len() - k3,
        {
            let a = &self.config.additional_attr[k3];
            attrs.push(Attr { doc: a.doc, text: a.text.clone() });
            proof {
                assert(attrs_view(attrs@) =~= filter_attrs(inv.attrs, keep)
                    + cfgv.extra_attrs.take(k3 as int + 1));
            }
            k3 += 1;
        }
        proof {
            assert(cfgv.extra_attrs.take(cfgv.extra_attrs.len() as int) =~= cfgv.extra_attrs);
        }

        Ok(OutputDecl { name, generics, derives, attrs, variants: outs })
    }
}

} // verus!
