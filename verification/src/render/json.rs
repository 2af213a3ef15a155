//! The records of the JSON output: what each line of `--json` output holds
//! for an item, a list, or ambiguous matches. Encoding them as JSON text is
//! left to the caller.
use vstd::prelude::*;
use crate::cache::opt_string;
use crate::render::ambiguous::at;
use crate::render::display::{display_view, DisplayItem, DisplayView};
use crate::render::text::{all_below, display_in_bounds, groups_below};
use crate::search::results_below;
use crate::types::{grouped_view, spec_meta, DocIndex, GroupedItems, IndexItem, KindCategory, SearchResult, TraitImplInfo};

verus! {

/// A method in an item's record.
pub struct JsonMethod {
    /// Simple method name.
    pub name: String,
    /// Rendered method signature.
    pub signature: String,
    /// First sentence of docs.
    pub summary: String,
    /// Whether the method has a body; only for trait methods.
    pub has_body: Option<bool>,
}

/// An enum variant in an item's record.
pub struct JsonVariant {
    /// Simple variant name.
    pub name: String,
    /// Rendered variant signature.
    pub signature: String,
    /// First sentence of docs.
    pub summary: String,
}

/// A listed item: one line of a list, of a container's children, or of
/// ambiguous matches.
pub struct JsonListItem {
    /// Full item path.
    pub path: String,
    /// Item kind short name.
    pub kind: String,
    /// Rendered signature.
    pub signature: String,
    /// First sentence of docs.
    pub summary: String,
}

/// The record of a documented item.
pub struct JsonDocItem {
    /// Full item path.
    pub path: String,
    /// Item kind short name.
    pub kind: String,
    /// Rendered signature.
    pub signature: String,
    /// Full doc comment, raw.
    pub doc: String,
    /// Feature gate name.
    pub feature_gate: Option<String>,
    /// Methods (types and traits); absent when there are none.
    pub methods: Option<Vec<JsonMethod>>,
    /// Trait implementation paths (types); absent when there are none.
    pub trait_impls: Option<Vec<String>>,
    /// Enum variants; absent when there are none.
    pub variants: Option<Vec<JsonVariant>>,
}

/// One line of JSON output.
pub enum JsonLine {
    /// The record of the item shown.
    Doc(JsonDocItem),
    /// A listed child.
    Listed(JsonListItem),
}

/// A listed item's fields: path, kind, signature, summary.
pub type ListView = (Seq<char>, Seq<char>, Seq<char>, Seq<char>);

/// A method's fields: name, signature, summary, whether it has a body.
pub type MethodView = (Seq<char>, Seq<char>, Seq<char>, Option<bool>);

/// A variant's fields: name, signature, summary.
pub type VariantView = (Seq<char>, Seq<char>, Seq<char>);

/// The fields of an item's record.
pub struct DocView {
    pub path: Seq<char>,
    pub kind: Seq<char>,
    pub signature: Seq<char>,
    pub doc: Seq<char>,
    pub feature_gate: Option<Seq<char>>,
    pub methods: Option<Seq<MethodView>>,
    pub trait_impls: Option<Seq<Seq<char>>>,
    pub variants: Option<Seq<VariantView>>,
}

/// The fields of a line.
pub enum LineView {
    Doc(DocView),
    Listed(ListView),
}

/// What an item is listed as.
pub open spec fn list_entry(it: IndexItem) -> ListView {
    (it.path@, spec_meta(it.kind).short_name@, it.signature@, it.summary@)
}

/// What a method is recorded as.
pub open spec fn method_entry(it: IndexItem, has_body: Option<bool>) -> MethodView {
    (it.name@, it.signature@, it.summary@, has_body)
}

/// What a variant is recorded as.
pub open spec fn variant_entry(it: IndexItem) -> VariantView {
    (it.name@, it.signature@, it.summary@)
}

/// `None` for an empty sequence.
pub open spec fn nonempty<A>(s: Seq<A>) -> Option<Seq<A>> {
    if s.len() == 0 {
        None
    } else {
        Some(s)
    }
}

/// The record of an item with the given methods, trait implementations and
/// variants.
pub open spec fn doc_entry(
    it: IndexItem,
    methods: Seq<MethodView>,
    trait_impls: Seq<Seq<char>>,
    variants: Seq<VariantView>,
) -> DocView {
    DocView {
        path: it.path@,
        kind: spec_meta(it.kind).short_name@,
        signature: it.signature@,
        doc: it.docs@,
        feature_gate: opt_string(it.feature_gate),
        methods: nonempty(methods),
        trait_impls: nonempty(trait_impls),
        variants: nonempty(variants),
    }
}

/// The listed entries of positions.
pub open spec fn list_entries(idx: &DocIndex, pos: Seq<usize>) -> Seq<ListView> {
    pos.map_values(|p: usize| list_entry(at(idx, p)))
}

/// The positions of grouped items, group after group.
pub open spec fn grouped_positions(g: Seq<(KindCategory, Seq<usize>)>) -> Seq<usize>
    decreases g.len(),
{
    if g.len() == 0 {
        seq![]
    } else {
        grouped_positions(g.drop_last()) + g.last().1
    }
}

/// The lines of the JSON view of a display item: a container's record and
/// one listed line per child, in group order; a single record otherwise (a
/// trait's methods are the required ones, then the provided ones).
pub open spec fn json_lines(idx: &DocIndex, d: DisplayView) -> Seq<LineView> {
    match d {
        DisplayView::Crate(i, g) => seq![LineView::Doc(doc_entry(at(idx, i), seq![], seq![], seq![]))]
            + list_entries(idx, grouped_positions(g)).map_values(|l: ListView| LineView::Listed(l)),
        DisplayView::Module(i, g) => seq![LineView::Doc(doc_entry(at(idx, i), seq![], seq![], seq![]))]
            + list_entries(idx, grouped_positions(g)).map_values(|l: ListView| LineView::Listed(l)),
        DisplayView::Type(i, m, v, t) => seq![
            LineView::Doc(
                doc_entry(
                    at(idx, i),
                    m.map_values(|p: usize| method_entry(at(idx, p), None)),
                    t.map_values(|x: TraitImplInfo| x.trait_path@),
                    v.map_values(|p: usize| variant_entry(at(idx, p))),
                ),
            ),
        ],
        DisplayView::Trait(i, r, p) => seq![
            LineView::Doc(
                doc_entry(
                    at(idx, i),
                    r.map_values(|q: usize| method_entry(at(idx, q), Some(false))) + p.map_values(
                        |q: usize| method_entry(at(idx, q), Some(true)),
                    ),
                    seq![],
                    seq![],
                ),
            ),
        ],
        DisplayView::Leaf(i) => seq![LineView::Doc(doc_entry(at(idx, i), seq![], seq![], seq![]))],
    }
}

/// The JSON record of a type is one line for the type itself. It lists one
/// variant entry (name, signature, summary) per variant, in order, and one
/// method entry per method (with no body flag), in order, and the path of
/// each trait implementation; each list is absent exactly when it is empty.
/// A trait's record lists its required methods (marked without a default
/// body) before its provided ones (marked with one).
pub proof fn lemma_json_type_record(idx: &DocIndex, i: usize, m: Seq<usize>, v: Seq<usize>, t: Seq<TraitImplInfo>, rq: Seq<usize>, pv: Seq<usize>)
    ensures
        json_lines(idx, DisplayView::Type(i, m, v, t)).len() == 1,
        json_lines(idx, DisplayView::Type(i, m, v, t))[0] matches LineView::Doc(d) && {
            &&& d.path == at(idx, i).path@
            &&& (d.variants is None <==> v.len() == 0)
            &&& (d.variants matches Some(vs) ==> vs.len() == v.len() && forall|k: int| 0 <= k < v.len() ==> {
                let it = #[trigger] at(idx, v[k]);
                vs[k] == (it.name@, it.signature@, it.summary@)
            })
            &&& (d.methods is None <==> m.len() == 0)
            &&& (d.methods matches Some(ms) ==> ms.len() == m.len() && forall|k: int| 0 <= k < m.len() ==> {
                let it = #[trigger] at(idx, m[k]);
                ms[k] == (it.name@, it.signature@, it.summary@, None::<bool>)
            })
            &&& (d.trait_impls is None <==> t.len() == 0)
            &&& (d.trait_impls matches Some(ts) ==> ts.len() == t.len() && forall|k: int| 0 <= k < t.len() ==> ts[k] == (#[trigger] t[k]).trait_path@)
        },
        json_lines(idx, DisplayView::Trait(i, rq, pv))[0] matches LineView::Doc(d) && {
            &&& (d.methods is None <==> rq.len() + pv.len() == 0)
            &&& (d.methods matches Some(ms) ==> ms.len() == rq.len() + pv.len() && (forall|k: int| 0 <= k < rq.len() ==> {
                let it = #[trigger] at(idx, rq[k]);
                ms[k] == (it.name@, it.signature@, it.summary@, Some(false))
            }) && (forall|k: int| 0 <= k < pv.len() ==> {
                let it = #[trigger] at(idx, pv[k]);
                ms[rq.len() + k] == (it.name@, it.signature@, it.summary@, Some(true))
            }))
            &&& d.variants is None
        },
{
    let mv = m.map_values(|p: usize| method_entry(at(idx, p), None));
    let vv = v.map_values(|p: usize| variant_entry(at(idx, p)));
    let tv = t.map_values(|x: TraitImplInfo| x.trait_path@);
    let rv = rq.map_values(|q: usize| method_entry(at(idx, q), Some(false)));
    let pw = pv.map_values(|q: usize| method_entry(at(idx, q), Some(true)));
    assert forall|k: int| 0 <= k < rq.len() implies (rv + pw)[k] == rv[k] by {}
    assert forall|k: int| 0 <= k < pv.len() implies (rv + pw)[rq.len() + k] == pw[k] by {}
}

/// The items of a JSON list: a container's children in group order, a
/// type's methods, a trait's required then provided methods, or a leaf.
pub open spec fn json_list_positions(d: DisplayView) -> Seq<usize> {
    match d {
        DisplayView::Crate(_, g) => grouped_positions(g),
        DisplayView::Module(_, g) => grouped_positions(g),
        DisplayView::Type(_, m, _, _) => m,
        DisplayView::Trait(_, r, p) => r + p,
        DisplayView::Leaf(i) => seq![i],
    }
}

/// The fields of listed items.
pub open spec fn list_views(v: Seq<JsonListItem>) -> Seq<ListView> {
    v.map_values(|j: JsonListItem| (j.path@, j.kind@, j.signature@, j.summary@))
}

/// The fields of methods.
pub open spec fn method_views(v: Seq<JsonMethod>) -> Seq<MethodView> {
    v.map_values(|j: JsonMethod| (j.name@, j.signature@, j.summary@, j.has_body))
}

/// The fields of variants.
pub open spec fn variant_views(v: Seq<JsonVariant>) -> Seq<VariantView> {
    v.map_values(|j: JsonVariant| (j.name@, j.signature@, j.summary@))
}

/// The fields of an optional sequence, by the given view.
pub open spec fn opt_methods(v: Option<Vec<JsonMethod>>) -> Option<Seq<MethodView>> {
    match v {
        Some(x) => Some(method_views(x@)),
        None => None,
    }
}

pub open spec fn opt_variants(v: Option<Vec<JsonVariant>>) -> Option<Seq<VariantView>> {
    match v {
        Some(x) => Some(variant_views(x@)),
        None => None,
    }
}

pub open spec fn opt_paths(v: Option<Vec<String>>) -> Option<Seq<Seq<char>>> {
    match v {
        Some(x) => Some(x@.map_values(|s: String| s@)),
        None => None,
    }
}

/// The fields of an item's record.
pub open spec fn doc_view(d: JsonDocItem) -> DocView {
    DocView {
        path: d.path@,
        kind: d.kind@,
        signature: d.signature@,
        doc: d.doc@,
        feature_gate: opt_string(d.feature_gate),
        methods: opt_methods(d.methods),
        trait_impls: opt_paths(d.trait_impls),
        variants: opt_variants(d.variants),
    }
}

/// The fields of lines.
pub open spec fn line_views(v: Seq<JsonLine>) -> Seq<LineView> {
    v.map_values(
        |l: JsonLine|
            match l {
                JsonLine::Doc(d) => LineView::Doc(doc_view(d)),
                JsonLine::Listed(x) => LineView::Listed((x.path@, x.kind@, x.signature@, x.summary@)),
            },
    )
}

fn opt_clone(o: &Option<String>) -> (r: Option<String>)
    ensures
        opt_string(r) == opt_string(*o),
{
    match o {
        Some(s) => Some(s.clone()),
        None => None,
    }
}

fn list_item(it: &IndexItem) -> (r: JsonListItem)
    ensures
        (r.path@, r.kind@, r.signature@, r.summary@) == list_entry(*it),
{
    JsonListItem {
        path: it.path.clone(),
        kind: it.kind.short_name().to_owned(),
        signature: it.signature.clone(),
        summary: it.summary.clone(),
    }
}

/// The listed items of positions.
pub fn json_list_items(index: &DocIndex, pos: &[usize]) -> (r: Vec<JsonListItem>)
    requires
        all_below(pos@, index.items@.len() as int),
    ensures
        list_views(r@) == list_entries(index, pos@),
{
    let mut out: Vec<JsonListItem> = Vec::new();
    let mut i: usize = 0;
    while i < pos.len()
        invariant
            i <= pos@.len(),
            all_below(pos@, index.items@.len() as int),
            out@.len() == i,
            forall|j: int| 0 <= j < i ==> list_views(out@)[j] == list_entry(at(index, #[trigger] pos@[j])),
        decreases pos.len() - i,
    {
        let p = pos[i];
        let ghost before = out@;
        out.push(list_item(&index.items[p]));
        proof {
            assert forall|j: int| 0 <= j < i + 1 implies list_views(out@)[j] == list_entry(at(index, #[trigger] pos@[j])) by {
                if j < i {
                    assert(out@[j] == before[j]);
                }
            }
        }
        i = i + 1;
    }
    assert(list_views(out@) =~= list_entries(index, pos@));
    out
}

fn doc_item(
    it: &IndexItem,
    methods: Vec<JsonMethod>,
    trait_impls: Vec<String>,
    variants: Vec<JsonVariant>,
) -> (r: JsonDocItem)
    ensures
        doc_view(r) == doc_entry(
            *it,
            method_views(methods@),
            trait_impls@.map_values(|s: String| s@),
            variant_views(variants@),
        ),
{
    let m_empty = methods.len() == 0;
    let t_empty = trait_impls.len() == 0;
    let v_empty = variants.len() == 0;
    let r = JsonDocItem {
        path: it.path.clone(),
        kind: it.kind.short_name().to_owned(),
        signature: it.signature.clone(),
        doc: it.docs.clone(),
        feature_gate: opt_clone(&it.feature_gate),
        methods: if m_empty { None } else { Some(methods) },
        trait_impls: if t_empty { None } else { Some(trait_impls) },
        variants: if v_empty { None } else { Some(variants) },
    };
    r
}

fn method_records(index: &DocIndex, pos: &Vec<usize>, has_body: Option<bool>) -> (r: Vec<JsonMethod>)
    requires
        all_below(pos@, index.items@.len() as int),
    ensures
        method_views(r@) == pos@.map_values(|p: usize| method_entry(at(index, p), has_body)),
{
    let mut out: Vec<JsonMethod> = Vec::new();
    let mut i: usize = 0;
    while i < pos.len()
        invariant
            i <= pos@.len(),
            all_below(pos@, index.items@.len() as int),
            out@.len() == i,
            forall|j: int| 0 <= j < i ==> method_views(out@)[j] == method_entry(at(index, #[trigger] pos@[j]), has_body),
        decreases pos.len() - i,
    {
        let it = &index.items[pos[i]];
        let ghost before = out@;
        out.push(JsonMethod {
            name: it.name.clone(),
            signature: it.signature.clone(),
            summary: it.summary.clone(),
            has_body,
        });
        proof {
            assert forall|j: int| 0 <= j < i + 1 implies method_views(out@)[j] == method_entry(at(index, #[trigger] pos@[j]), has_body) by {
                if j < i {
                    assert(out@[j] == before[j]);
                }
            }
        }
        i = i + 1;
    }
    assert(method_views(out@) =~= pos@.map_values(|p: usize| method_entry(at(index, p), has_body)));
    out
}

fn group_positions(children: &GroupedItems) -> (r: Vec<usize>)
    ensures
        r@ == grouped_positions(grouped_view(*children)),
{
    let ghost g = grouped_view(*children);
    let mut out: Vec<usize> = Vec::new();
    let mut i: usize = 0;
    while i < children.groups.len()
        invariant
            i <= children.groups@.len(),
            g == grouped_view(*children),
            out@ == grouped_positions(g.take(i as int)),
        decreases children.groups.len() - i,
    {
        assert(g.take(i + 1).drop_last() =~= g.take(i as int));
        let items = &children.groups[i].items;
        let ghost before = out@;
        let mut k: usize = 0;
        while k < items.len()
            invariant
                k <= items@.len(),
                out@ == before + items@.take(k as int),
            decreases items.len() - k,
        {
            out.push(items[k]);
            k = k + 1;
            assert(out@ =~= before + items@.take(k as int));
        }
        assert(items@.take(items@.len() as int) =~= items@);
        i = i + 1;
    }
    assert(g.take(g.len() as int) =~= g);
    out
}

proof fn lemma_grouped_positions_below(g: Seq<(KindCategory, Seq<usize>)>, n: int)
    requires
        groups_below(g, n),
    ensures
        all_below(grouped_positions(g), n),
    decreases g.len(),
{
    if g.len() > 0 {
        assert(groups_below(g.drop_last(), n)) by {
            assert forall|a: int| 0 <= a < g.drop_last().len() implies all_below(#[trigger] g.drop_last()[a].1, n) by {
                assert(g.drop_last()[a] == g[a]);
            }
        }
        lemma_grouped_positions_below(g.drop_last(), n);
        assert(all_below(g[g.len() - 1].1, n));
    }
}

fn container_lines(index: &DocIndex, item: usize, children: &GroupedItems) -> (r: Vec<JsonLine>)
    requires
        item < index.items@.len(),
        groups_below(grouped_view(*children), index.items@.len() as int),
    ensures
        line_views(r@) == seq![LineView::Doc(doc_entry(at(index, item), seq![], seq![], seq![]))]
            + list_entries(index, grouped_positions(grouped_view(*children))).map_values(
            |l: ListView| LineView::Listed(l),
        ),
{
    let mut out: Vec<JsonLine> = Vec::new();
    let d = doc_item(&index.items[item], Vec::new(), Vec::new(), Vec::new());
    proof {
        assert(method_views(Seq::<JsonMethod>::empty()) =~= Seq::<MethodView>::empty());
        assert(variant_views(Seq::<JsonVariant>::empty()) =~= Seq::<VariantView>::empty());
        assert(Seq::<String>::empty().map_values(|s: String| s@) =~= Seq::<Seq<char>>::empty());
    }
    out.push(JsonLine::Doc(d));
    let pos = group_positions(children);
    proof {
        lemma_grouped_positions_below(grouped_view(*children), index.items@.len() as int);
    }
    let ghost head = line_views(out@);
    let ghost n = index.items@.len() as int;
    let mut i: usize = 0;
    while i < pos.len()
        invariant
            i <= pos@.len(),
            n == index.items@.len(),
            all_below(pos@, n),
            out@.len() == 1 + i,
            line_views(out@)[0] == head[0],
            head.len() == 1,
            forall|j: int| 0 <= j < i ==> line_views(out@)[1 + j] == LineView::Listed(list_entry(at(index, #[trigger] pos@[j]))),
        decreases pos.len() - i,
    {
        let x = list_item(&index.items[pos[i]]);
        let ghost before = out@;
        out.push(JsonLine::Listed(x));
        proof {
            assert(out@[0] == before[0]);
            assert forall|j: int| 0 <= j < i + 1 implies line_views(out@)[1 + j] == LineView::Listed(list_entry(at(index, #[trigger] pos@[j]))) by {
                if j < i {
                    assert(out@[1 + j] == before[1 + j]);
                }
            }
        }
        i = i + 1;
    }
    assert(line_views(out@) =~= head + list_entries(index, pos@).map_values(|l: ListView| LineView::Listed(l)));
    out
}

/// The records of the JSON view of a display item (`--json`): one line for
/// the item, plus one listed line per child of a crate or module.
pub fn json_records(index: &DocIndex, display: &DisplayItem) -> (r: Vec<JsonLine>)
    requires
        display_in_bounds(index, display_view(*display)),
    ensures
        line_views(r@) == json_lines(index, display_view(*display)),
{
    match display {
        DisplayItem::Crate { item, children } => container_lines(index, *item, children),
        DisplayItem::Module { item, children } => container_lines(index, *item, children),
        DisplayItem::Type { item, methods, variants, trait_impls } => {
            let ms = method_records(index, methods, None);
            let mut vs: Vec<JsonVariant> = Vec::new();
            let mut i: usize = 0;
            while i < variants.len()
                invariant
                    i <= variants@.len(),
                    all_below(variants@, index.items@.len() as int),
                    vs@.len() == i,
                    forall|j: int| 0 <= j < i ==> variant_views(vs@)[j] == variant_entry(at(index, #[trigger] variants@[j])),
                decreases variants.len() - i,
            {
                let it = &index.items[variants[i]];
                let ghost before = vs@;
                vs.push(JsonVariant { name: it.name.clone(), signature: it.signature.clone(), summary: it.summary.clone() });
                proof {
                    assert forall|j: int| 0 <= j < i + 1 implies variant_views(vs@)[j] == variant_entry(at(index, #[trigger] variants@[j])) by {
                        if j < i {
                            assert(vs@[j] == before[j]);
                        }
                    }
                }
                i = i + 1;
            }
            assert(variant_views(vs@) =~= variants@.map_values(|p: usize| variant_entry(at(index, p))));
            let mut ts: Vec<String> = Vec::new();
            let mut k: usize = 0;
            while k < trait_impls.len()
                invariant
                    k <= trait_impls@.len(),
                    ts@.len() == k,
                    forall|j: int| 0 <= j < k ==> ts@[j]@ == (#[trigger] trait_impls@[j]).trait_path@,
                decreases trait_impls.len() - k,
            {
                ts.push(trait_impls[k].trait_path.clone());
                k = k + 1;
            }
            assert(ts@.map_values(|s: String| s@) =~= trait_impls@.map_values(|x: TraitImplInfo| x.trait_path@));
            assert(method_views(ms@) =~= methods@.map_values(|p: usize| method_entry(at(index, p), None)));
            let d = doc_item(&index.items[*item], ms, ts, vs);
            let r = vec![JsonLine::Doc(d)];
            assert(line_views(r@) =~= json_lines(index, display_view(*display)));
            r
        },
        DisplayItem::Trait { item, required_methods, provided_methods } => {
            let mut ms = method_records(index, required_methods, Some(false));
            let mut more = method_records(index, provided_methods, Some(true));
            let ghost a = ms@;
            let ghost b = more@;
            ms.append(&mut more);
            assert(method_views(ms@) =~= method_views(a) + method_views(b));
            assert(method_views(ms@) =~= required_methods@.map_values(|q: usize| method_entry(at(index, q), Some(false)))
                + provided_methods@.map_values(|q: usize| method_entry(at(index, q), Some(true))));
            proof {
                assert(variant_views(Seq::<JsonVariant>::empty()) =~= Seq::<VariantView>::empty());
                assert(Seq::<String>::empty().map_values(|s: String| s@) =~= Seq::<Seq<char>>::empty());
            }
            let d = doc_item(&index.items[*item], ms, Vec::new(), Vec::new());
            let r = vec![JsonLine::Doc(d)];
            assert(line_views(r@) =~= json_lines(index, display_view(*display)));
            r
        },
        DisplayItem::Leaf { item } => {
            proof {
                assert(method_views(Seq::<JsonMethod>::empty()) =~= Seq::<MethodView>::empty());
                assert(variant_views(Seq::<JsonVariant>::empty()) =~= Seq::<VariantView>::empty());
                assert(Seq::<String>::empty().map_values(|s: String| s@) =~= Seq::<Seq<char>>::empty());
            }
            let d = doc_item(&index.items[*item], Vec::new(), Vec::new(), Vec::new());
            let r = vec![JsonLine::Doc(d)];
            assert(line_views(r@) =~= json_lines(index, display_view(*display)));
            r
        },
    }
}

/// The listed items of a JSON list (`--json --list`).
pub fn json_list_records(index: &DocIndex, display: &DisplayItem) -> (r: Vec<JsonListItem>)
    requires
        display_in_bounds(index, display_view(*display)),
    ensures
        list_views(r@) == list_entries(index, json_list_positions(display_view(*display))),
{
    match display {
        DisplayItem::Crate { children, .. } | DisplayItem::Module { children, .. } => {
            let pos = group_positions(children);
            proof {
                lemma_grouped_positions_below(grouped_view(*children), index.items@.len() as int);
            }
            json_list_items(index, pos.as_slice())
        },
        DisplayItem::Type { methods, .. } => json_list_items(index, methods.as_slice()),
        DisplayItem::Trait { required_methods, provided_methods, .. } => {
            let mut pos: Vec<usize> = Vec::new();
            let mut i: usize = 0;
            while i < required_methods.len()
                invariant
                    i <= required_methods@.len(),
                    pos@ == required_methods@.take(i as int),
                decreases required_methods.len() - i,
            {
                pos.push(required_methods[i]);
                i = i + 1;
                assert(pos@ =~= required_methods@.take(i as int));
            }
            let mut k: usize = 0;
            while k < provided_methods.len()
                invariant
                    k <= provided_methods@.len(),
                    i == required_methods@.len(),
                    pos@ == required_methods@.take(i as int) + provided_methods@.take(k as int),
                decreases provided_methods.len() - k,
            {
                pos.push(provided_methods[k]);
                k = k + 1;
                assert(pos@ =~= required_methods@.take(i as int) + provided_methods@.take(k as int));
            }
            assert(pos@ =~= required_methods@ + provided_methods@);
            json_list_items(index, pos.as_slice())
        },
        DisplayItem::Leaf { item } => {
            let pos = vec![*item];
            assert(pos@ =~= seq![*item]);
            json_list_items(index, pos.as_slice())
        },
    }
}


/// A search hit as a JSON line: the listed fields and the score.
pub struct JsonSearchItem {
    /// The item's listed fields.
    pub item: JsonListItem,
    /// The hit's score.
    pub score: u32,
}

/// The JSON lines of search hits (`--search --json`), in hit order.
pub fn json_search_items(index: &DocIndex, results: &Vec<SearchResult>) -> (r: Vec<JsonSearchItem>)
    requires
        results_below(results@, index.items@.len() as int),
    ensures
        r@.len() == results@.len(),
        forall|j: int|
            0 <= j < r@.len() ==> {
                let x = #[trigger] r@[j];
                &&& (x.item.path@, x.item.kind@, x.item.signature@, x.item.summary@) == list_entry(at(index, results@[j].index))
                &&& x.score == results@[j].score
            },
{
    let mut out: Vec<JsonSearchItem> = Vec::new();
    let mut i: usize = 0;
    while i < results.len()
        invariant
            i <= results@.len(),
            results_below(results@, index.items@.len() as int),
            out@.len() == i,
            forall|j: int|
                0 <= j < i ==> {
                    let x = #[trigger] out@[j];
                    &&& (x.item.path@, x.item.kind@, x.item.signature@, x.item.summary@) == list_entry(at(index, results@[j].index))
                    &&& x.score == results@[j].score
                },
        decreases results.len() - i,
    {
        let r = results[i];
        assert(r.index < index.items@.len()) by {
            assert(results@[i as int] == r);
        }
        let ghost before = out@;
        out.push(JsonSearchItem { item: list_item(&index.items[r.index]), score: r.score });
        proof {
            assert forall|j: int| 0 <= j < i + 1 implies {
                let x = #[trigger] out@[j];
                &&& (x.item.path@, x.item.kind@, x.item.signature@, x.item.summary@) == list_entry(at(index, results@[j].index))
                &&& x.score == results@[j].score
            } by {
                if j < i {
                    assert(out@[j] == before[j]);
                }
            }
        }
        i = i + 1;
    }
    out
}

} // verus!
