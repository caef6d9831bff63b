//! Text-level helpers of the pass: the sentinel-name test, canonical forms
//! of dotted paths, and attribute filtering.

use vstd::prelude::*;
use vstd::string::StrSliceExecFns;
use vstd::string::StringExecFns;
use crate::ast::Attr;
use crate::ast::AttrView;
use crate::ast::attrs_view;

verus! {

/// ASCII lower-casing of one character; everything outside `A`..`Z` is kept.
pub open spec fn lower_ascii(c: char) -> char {
    if 'A' <= c && c <= 'Z' {
        ((c as u8) + 32) as char
    } else {
        c
    }
}

/// The reserved placeholder name: a variant matches it case-insensitively.
pub open spec fn is_sentinel_name(s: Seq<char>) -> bool {
    s.map_values(|c: char| lower_ascii(c)) == "__ignore"@
}

/// ASCII lower-casing of one character.
pub fn lower_char(c: char) -> (r: char)
    ensures
        r == lower_ascii(c),
{
    if 'A' <= c && c <= 'Z' {
        ((c as u8) + 32) as char
    } else {
        c
    }
}

/// Whether `name` case-insensitively equals the reserved placeholder
/// `__ignore` that marks the sentinel variant.
pub fn is_sentinel(name: &String) -> (r: bool)
    ensures
        r == is_sentinel_name(name@),
{
    proof {
        reveal_strlit("__ignore");
    }
    let s = name.as_str();
    let n = s.unicode_len();
    if n != 8 {
        proof {
            assert(name@.map_values(|c: char| lower_ascii(c)).len() == name@.len());
        }
        return false;
    }
    let pat = "__ignore";
    proof {
        assert(pat@ == "__ignore"@);
    }
    let mut i: usize = 0;
    while i < 8
        invariant
            s@ == name@,
            pat@ == "__ignore"@,
            name@.len() == 8,
            "__ignore"@.len() == 8,
            i <= 8,
            forall|j: int| 0 <= j < i ==> lower_ascii(name@[j]) == "__ignore"@[j],
        decreases 8 - i,
    {
        let c = s.get_char(i);
        let lc = lower_char(c);
        let p = pat.get_char(i);
        if lc != p {
            proof {
                assert(name@.map_values(|c: char| lower_ascii(c))[i as int] != "__ignore"@[i as int]);
            }
            return false;
        }
        i += 1;
    }
    proof {
        assert(name@.map_values(|c: char| lower_ascii(c)) =~= "__ignore"@);
    }
    true
}

/// The canonical textual form of a dotted path: its segments joined by `::`.
pub open spec fn canon(segs: Seq<Seq<char>>) -> Seq<char>
    decreases segs.len(),
{
    if segs.len() <= 0 {
        Seq::empty()
    } else if segs.len() == 1 {
        segs[0]
    } else {
        canon(segs.drop_last()) + "::"@ + segs.last()
    }
}

/// Whether a dotted path denotes the bound context type: its first segment
/// is the input declaration's single generic parameter.
pub open spec fn is_context_bound(segs: Seq<Seq<char>>, ctx: Seq<char>) -> bool {
    segs.len() > 0 && segs[0] == ctx
}

/// Joins the segments of a dotted path with `::` into its canonical form.
pub fn canon_of(segments: &Vec<String>) -> (r: String)
    ensures
        r@ == canon(crate::ast::strs_view(segments@)),
{
    let ghost segsv = crate::ast::strs_view(segments@);
    if segments.len() == 0 {
        let r = String::new();
        return r;
    }
    let mut r: String = segments[0].clone();
    let mut i: usize = 1;
    proof {
        assert(segsv.subrange(0, 1) =~= seq![segsv[0]]);
    }
    while i < segments.len()
        invariant
            1 <= i <= segments.len(),
            segsv == crate::ast::strs_view(segments@),
            segsv.len() == segments@.len(),
            r@ == canon(segsv.subrange(0, i as int)),
        decreases segments.len() - i,
    {
        r.append("::");
        r.append(segments[i].as_str());
        proof {
            let pre = segsv.subrange(0, i as int);
            let cur = segsv.subrange(0, i as int + 1);
            assert(cur.drop_last() =~= pre);
            assert(cur.last() == segsv[i as int]);
        }
        i += 1;
    }
    proof {
        assert(segsv.subrange(0, segments@.len() as int) =~= segsv);
    }
    r
}

/// Removes every documentation attribute, keeping the rest in order.
pub open spec fn remove_docs(attrs: Seq<AttrView>) -> Seq<AttrView>
    decreases attrs.len(),
{
    if attrs.len() == 0 {
        Seq::empty()
    } else {
        let rest = remove_docs(attrs.drop_last());
        if attrs.last().doc {
            rest
        } else {
            rest.push(attrs.last())
        }
    }
}

/// The attribute list the pass emits for an input list: kept verbatim when
/// comments are retained, otherwise with documentation attributes removed.
pub open spec fn filter_attrs(attrs: Seq<AttrView>, keep: bool) -> Seq<AttrView> {
    if keep {
        attrs
    } else {
        remove_docs(attrs)
    }
}

/// Copies an attribute list, dropping documentation attributes unless
/// `keep` is set.
pub fn filter_attrs_exec(attrs: &Vec<Attr>, keep: bool) -> (r: Vec<Attr>)
    ensures
        attrs_view(r@) == filter_attrs(attrs_view(attrs@), keep),
{
    let ghost avs = attrs_view(attrs@);
    let mut r: Vec<Attr> = Vec::new();
    let mut i: usize = 0;
    proof {
        assert(attrs_view(r@) =~= filter_attrs(avs.subrange(0, 0), keep));
    }
    while i < attrs.len()
        invariant
            i <= attrs.len(),
            avs == attrs_view(attrs@),
            avs.len() == attrs@.len(),
            attrs_view(r@) == filter_attrs(avs.subrange(0, i as int), keep),
        decreases attrs.len() - i,
    {
        let a = &attrs[i];
        let ghost pre = avs.subrange(0, i as int);
        let ghost cur = avs.subrange(0, i as int + 1);
        proof {
            assert(cur.drop_last() =~= pre);
            assert(cur.last() == avs[i as int]);
        }
        if keep || !a.doc {
            let copied = Attr { doc: a.doc, text: a.text.clone() };
            r.push(copied);
            proof {
                if keep {
                    assert(attrs_view(r@) =~= cur);
                } else {
                    assert(attrs_view(r@) =~= remove_docs(cur));
                }
            }
        } else {
            proof {
                assert(attrs_view(r@) =~= remove_docs(cur));
            }
        }
        i += 1;
    }
    proof {
        assert(avs.subrange(0, attrs@.len() as int) =~= avs);
    }
    r
}

} // verus!
