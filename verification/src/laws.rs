//! Cross-cutting guarantees of the library, stated and proved: structural
//! validity is a property of a document's parsed model alone, it survives a
//! serialise-and-reparse round trip, and every tree the builder produces
//! has it.

use vstd::prelude::*;
use crate::schema::{
    SpecAttributeDef, SpecElementDef, SpecSchema, s_attr_ok, s_children_valid, s_doc_valid,
    s_elem_valid, s_find_def, spec_qti_schema, spec_qti_defs,
};
use crate::text::s_starts_with;
use crate::xml::{SpecElement, SpecNode, s_attr_lookup};
use crate::xmlio::{
    ParsedElement, ParsedNode, attr_entry_ok, attrs_distinct, no_tab, nodes_attrs_distinct,
    nodes_within_read_limits, parsed_model, parsed_nodes, rt_children_related, rt_key,
    rt_keeps_key, rt_related, within_read_limits, writable, writable_elem_children, xml_name_ok,
    xml_text_ok,
};

verus! {

/// Structural conformance of a parsed document model: the same check as
/// [`s_elem_valid`], over the attribute map instead of the attribute list.
pub open spec fn p_attr_ok(e: ParsedElement, ad: SpecAttributeDef) -> bool {
    if s_starts_with(ad.name, "xmlns"@) {
        true
    } else {
        &&& (ad.required ==> e.attrs.contains_key(ad.name))
        &&& (e.attrs.contains_key(ad.name) ==> match ad.values {
            Some(vals) => vals.contains(e.attrs[ad.name]),
            None => true,
        })
    }
}

pub open spec fn p_elem_valid(schema: SpecSchema, e: ParsedElement, expected: Seq<char>) -> bool
    decreases e,
{
    &&& e.name == expected
    &&& match s_find_def(schema.elements, e.name) {
        None => false,
        Some(def) => {
            &&& forall|i: int|
                0 <= i < def.attributes.len() ==> p_attr_ok(e, #[trigger] def.attributes[i])
            &&& p_children_valid(schema, def, e.children)
        },
    }
}

pub open spec fn p_children_valid(
    schema: SpecSchema,
    def: SpecElementDef,
    ns: Seq<ParsedNode>,
) -> bool
    decreases ns,
{
    if ns.len() == 0 {
        true
    } else {
        &&& match ns[0] {
            ParsedNode::Element(c) => def.children.contains(c.name) && p_elem_valid(
                schema,
                c,
                c.name,
            ),
            ParsedNode::Text(_) => true,
        }
        &&& p_children_valid(schema, def, ns.drop_first())
    }
}

pub open spec fn p_doc_valid(schema: SpecSchema, e: ParsedElement) -> bool {
    p_elem_valid(schema, e, schema.root)
}

/// The first element child with the given name, in a parsed model.
pub open spec fn p_child_named(ns: Seq<ParsedNode>, name: Seq<char>) -> Option<ParsedElement>
    decreases ns.len(),
{
    if ns.len() == 0 {
        None
    } else {
        match ns[0] {
            ParsedNode::Element(c) => if c.name == name {
                Some(c)
            } else {
                p_child_named(ns.drop_first(), name)
            },
            ParsedNode::Text(_) => p_child_named(ns.drop_first(), name),
        }
    }
}

/// Looking a child up in a tree and in its parsed model agree.
pub proof fn lemma_p_child_named(ns: Seq<crate::xml::SpecNode>, name: Seq<char>)
    ensures
        p_child_named(parsed_nodes(ns), name) == match crate::xml::s_child_named(ns, name) {
            Some(c) => Some(parsed_model(c)),
            None => None::<ParsedElement>,
        },
    decreases ns.len(),
{
    if ns.len() > 0 {
        assert(parsed_nodes(ns).drop_first() =~= parsed_nodes(ns.drop_first()));
        match ns[0] {
            crate::xml::SpecNode::Element(c) => {
                assert(parsed_nodes(ns)[0] == ParsedNode::Element(parsed_model(c)));
                assert(parsed_model(c).name == c.name);
            },
            crate::xml::SpecNode::Text(t) => {
                assert(parsed_nodes(ns)[0] == ParsedNode::Text(t));
            },
        }
        lemma_p_child_named(ns.drop_first(), name);
    }
}

/// Structural validity depends only on a tree's parsed model: the check on
/// an element list agrees with the check on its first-match attribute maps.
pub proof fn lemma_model_valid(schema: SpecSchema, e: SpecElement, expected: Seq<char>)
    ensures
        s_elem_valid(schema, e, expected) <==> p_elem_valid(schema, parsed_model(e), expected),
    decreases e,
{
    let m = parsed_model(e);
    match s_find_def(schema.elements, e.name) {
        None => {},
        Some(def) => {
            assert forall|i: int| 0 <= i < def.attributes.len() implies (s_attr_ok(
                e,
                #[trigger] def.attributes[i],
            ) <==> p_attr_ok(m, def.attributes[i])) by {}
            lemma_model_children(schema, def, e.children);
        },
    }
}

proof fn lemma_model_children(schema: SpecSchema, def: SpecElementDef, ns: Seq<SpecNode>)
    ensures
        s_children_valid(schema, def, ns) <==> p_children_valid(schema, def, parsed_nodes(ns)),
    decreases ns,
{
    if ns.len() == 0 {
    } else {
        let pn = parsed_nodes(ns);
        assert(pn.drop_first() =~= parsed_nodes(ns.drop_first()));
        match ns[0] {
            SpecNode::Element(c) => {
                lemma_model_valid(schema, c, c.name);
            },
            SpecNode::Text(_) => {},
        }
        lemma_model_children(schema, def, ns.drop_first());
    }
}

/// A schema table whose attribute definitions survive the round trip: no
/// attribute name carries a namespace prefix's colon, none is the bare
/// local part of the one prefixed attribute the builder emits, and no
/// enumerated value holds a tab.
pub open spec fn schema_plain(schema: SpecSchema) -> bool {
    forall|di: int, ai: int|
        0 <= di < schema.elements.len() && 0 <= ai < (#[trigger] schema.elements[di]).attributes.len()
            ==> {
            let ad = #[trigger] schema.elements[di].attributes[ai];
            &&& (s_starts_with(ad.name, "xmlns"@) || forall|k: int|
                0 <= k < ad.name.len() ==> #[trigger] ad.name[k] != ':')
            &&& ad.name != "schemaLocation"@
            &&& match ad.values {
                Some(vals) => forall|vi: int| 0 <= vi < vals.len() ==> no_tab(#[trigger] vals[vi]),
                None => true,
            }
        }
}

/// Validity survives a serialise-and-reparse round trip, for a plain
/// schema.
pub proof fn lemma_rt_preserves_valid(
    schema: SpecSchema,
    m: ParsedElement,
    p: ParsedElement,
    expected: Seq<char>,
)
    requires
        schema_plain(schema),
        p_elem_valid(schema, m, expected),
        rt_related(m, p),
    ensures
        p_elem_valid(schema, p, expected),
    decreases m,
{
    let def = s_find_def(schema.elements, m.name)->0;
    lemma_find_def_index(schema.elements, m.name);
    assert forall|i: int| 0 <= i < def.attributes.len() implies p_attr_ok(
        p,
        #[trigger] def.attributes[i],
    ) by {
        let ad = def.attributes[i];
        if !s_starts_with(ad.name, "xmlns"@) {
            reveal_strlit("xsi:schemaLocation");
            reveal_strlit("schemaLocation");
            reveal_strlit("xmlns");
            reveal_strlit("xmlns:");
            assert(ad.name != "xsi:schemaLocation"@) by {
                if ad.name == "xsi:schemaLocation"@ {
                    assert(ad.name[3] == ':');
                }
            }
            assert(rt_key(ad.name) == ad.name);
            assert(rt_keeps_key(ad.name)) by {
                if ad.name == "xmlns"@ {
                    assert(ad.name.take(5) =~= "xmlns"@);
                }
                if s_starts_with(ad.name, "xmlns:"@) {
                    assert(ad.name.take(5) =~= "xmlns"@) by {
                        assert(forall|j: int|
                            0 <= j < 6 ==> ad.name.take(6)[j] == "xmlns:"@[j]);
                    }
                }
            }
            if ad.required {
                assert(m.attrs.contains_key(ad.name));
                assert(p.attrs.contains_key(rt_key(ad.name)));
            }
            if p.attrs.contains_key(ad.name) {
                let k0 = choose|k0: Seq<char>|
                    m.attrs.contains_key(k0) && rt_keeps_key(k0) && #[trigger] rt_key(k0)
                        == ad.name;
                assert(k0 != "xsi:schemaLocation"@);
                assert(k0 == ad.name);
                match ad.values {
                    Some(vals) => {
                        assert(vals.contains(m.attrs[ad.name]));
                        let vi = choose|vi: int|
                            0 <= vi < vals.len() && vals[vi] == m.attrs[ad.name];
                        assert(no_tab(m.attrs[ad.name]));
                        assert(p.attrs[ad.name] == m.attrs[ad.name]);
                    },
                    None => {},
                }
            }
        }
    }
    lemma_rt_children(schema, def, m.children, p.children);
}

proof fn lemma_rt_children(
    schema: SpecSchema,
    def: SpecElementDef,
    ms: Seq<ParsedNode>,
    ps: Seq<ParsedNode>,
)
    requires
        schema_plain(schema),
        p_children_valid(schema, def, ms),
        rt_children_related(ms, ps),
    ensures
        p_children_valid(schema, def, ps),
    decreases ms,
{
    if ms.len() == 0 {
        assert(ps.len() == 0);
    } else if ms.len() == 1 && ms[0] is Text {
        if ps.len() == 1 {
            assert(ps.drop_first() =~= Seq::<ParsedNode>::empty());
            assert(ps[0] is Text);
            assert(p_children_valid(schema, def, ps.drop_first()));
        } else {
            assert(ps.len() == 0);
        }
    } else {
        match (ms[0], ps[0]) {
            (ParsedNode::Element(a), ParsedNode::Element(b)) => {
                assert(def.children.contains(a.name) && p_elem_valid(schema, a, a.name));
                lemma_rt_preserves_valid(schema, a, b, a.name);
                assert(b.name == a.name);
            },
            _ => {
                assert(false);
            },
        }
        lemma_rt_children(schema, def, ms.drop_first(), ps.drop_first());
    }
}

/// Looking a name up in a definition table finds an entry of the table.
proof fn lemma_find_def_index(defs: Seq<SpecElementDef>, name: Seq<char>)
    ensures
        s_find_def(defs, name) is Some ==> exists|i: int|
            0 <= i < defs.len() && #[trigger] defs[i] == s_find_def(defs, name)->0,
    decreases defs.len(),
{
    if defs.len() > 0 {
        if defs[0].name == name {
            assert(defs[0] == s_find_def(defs, name)->0);
        } else {
            lemma_find_def_index(defs.drop_first(), name);
            assert(s_find_def(defs, name) == s_find_def(defs.drop_first(), name));
            if s_find_def(defs, name) is Some {
                let d = s_find_def(defs, name)->0;
                let i = choose|i: int|
                    0 <= i < defs.drop_first().len() && #[trigger] defs.drop_first()[i] == d;
                assert(defs[i + 1] == d);
                assert(exists|j: int|
                    0 <= j < defs.len() && #[trigger] defs[j] == s_find_def(defs, name)->0);
            }
        }
    }
}

/// The QTI 1.2 schema table is plain: its attribute definitions survive
/// the round trip.
#[verifier::rlimit(100)]
pub proof fn lemma_qti_schema_plain()
    ensures
        schema_plain(spec_qti_schema()),
{
    reveal_strlit("Add");
    reveal_strlit("Multiple");
    reveal_strlit("No");
    reveal_strlit("Set");
    reveal_strlit("Single");
    reveal_strlit("Subtract");
    reveal_strlit("Yes");
    reveal_strlit("action");
    reveal_strlit("case");
    reveal_strlit("columns");
    reveal_strlit("continue");
    reveal_strlit("http://www.imsglobal.org/xsd/ims_qtiasiv1p2");
    reveal_strlit("http://www.w3.org/2001/XMLSchema-instance");
    reveal_strlit("ident");
    reveal_strlit("linkrefid");
    reveal_strlit("maxattempts");
    reveal_strlit("maxvalue");
    reveal_strlit("minvalue");
    reveal_strlit("numtype");
    reveal_strlit("rcardinality");
    reveal_strlit("respident");
    reveal_strlit("rows");
    reveal_strlit("rtiming");
    reveal_strlit("schemaLocation");
    reveal_strlit("shuffle");
    reveal_strlit("text/html");
    reveal_strlit("text/plain");
    reveal_strlit("texttype");
    reveal_strlit("title");
    reveal_strlit("varname");
    reveal_strlit("vartype");
    reveal_strlit("xmlns");
    reveal_strlit("xmlns:xsi");
    assert(forall|k: int| 0 <= k < "ident"@.len() ==> #[trigger] "ident"@[k] != ':');
    assert("ident"@.len() == 5);
    assert(forall|k: int| 0 <= k < "title"@.len() ==> #[trigger] "title"@[k] != ':');
    assert("title"@.len() == 5);
    assert(forall|k: int| 0 <= k < "maxattempts"@.len() ==> #[trigger] "maxattempts"@[k] != ':');
    assert("maxattempts"@.len() == 11);
    assert(forall|k: int| 0 <= k < "rcardinality"@.len() ==> #[trigger] "rcardinality"@[k] != ':');
    assert("rcardinality"@.len() == 12);
    assert(forall|k: int| 0 <= k < "rtiming"@.len() ==> #[trigger] "rtiming"@[k] != ':');
    assert("rtiming"@.len() == 7);
    assert(forall|k: int| 0 <= k < "shuffle"@.len() ==> #[trigger] "shuffle"@[k] != ':');
    assert("shuffle"@.len() == 7);
    assert(forall|k: int| 0 <= k < "texttype"@.len() ==> #[trigger] "texttype"@[k] != ':');
    assert("texttype"@.len() == 8);
    assert(forall|k: int| 0 <= k < "varname"@.len() ==> #[trigger] "varname"@[k] != ':');
    assert("varname"@.len() == 7);
    assert(forall|k: int| 0 <= k < "vartype"@.len() ==> #[trigger] "vartype"@[k] != ':');
    assert("vartype"@.len() == 7);
    assert(forall|k: int| 0 <= k < "minvalue"@.len() ==> #[trigger] "minvalue"@[k] != ':');
    assert("minvalue"@.len() == 8);
    assert(forall|k: int| 0 <= k < "maxvalue"@.len() ==> #[trigger] "maxvalue"@[k] != ':');
    assert("maxvalue"@.len() == 8);
    assert(forall|k: int| 0 <= k < "continue"@.len() ==> #[trigger] "continue"@[k] != ':');
    assert("continue"@.len() == 8);
    assert(forall|k: int| 0 <= k < "respident"@.len() ==> #[trigger] "respident"@[k] != ':');
    assert("respident"@.len() == 9);
    assert(forall|k: int| 0 <= k < "case"@.len() ==> #[trigger] "case"@[k] != ':');
    assert("case"@.len() == 4);
    assert(forall|k: int| 0 <= k < "action"@.len() ==> #[trigger] "action"@[k] != ':');
    assert("action"@.len() == 6);
    assert(forall|k: int| 0 <= k < "linkrefid"@.len() ==> #[trigger] "linkrefid"@[k] != ':');
    assert("linkrefid"@.len() == 9);
    assert(forall|k: int| 0 <= k < "numtype"@.len() ==> #[trigger] "numtype"@[k] != ':');
    assert("numtype"@.len() == 7);
    assert(forall|k: int| 0 <= k < "rows"@.len() ==> #[trigger] "rows"@[k] != ':');
    assert("rows"@.len() == 4);
    assert(forall|k: int| 0 <= k < "columns"@.len() ==> #[trigger] "columns"@[k] != ':');
    assert("columns"@.len() == 7);
    assert(no_tab("http://www.imsglobal.org/xsd/ims_qtiasiv1p2"@));
    assert(no_tab("http://www.w3.org/2001/XMLSchema-instance"@));
    assert(no_tab("Single"@));
    assert(no_tab("Multiple"@));
    assert(no_tab("No"@));
    assert(no_tab("Yes"@));
    assert(no_tab("text/plain"@));
    assert(no_tab("text/html"@));
    assert(no_tab("Set"@));
    assert(no_tab("Add"@));
    assert(no_tab("Subtract"@));
    assert("schemaLocation"@.len() == 14);
    assert(s_starts_with("xmlns"@, "xmlns"@)) by {
        assert("xmlns"@.take(5) =~= "xmlns"@);
    }
    assert(s_starts_with("xmlns:xsi"@, "xmlns"@)) by {
        assert("xmlns:xsi"@.take(5) =~= "xmlns"@);
    }

    assert forall|di: int, ai: int|
        0 <= di < spec_qti_schema().elements.len() && 0 <= ai < (#[trigger] spec_qti_schema().elements[di]).attributes.len() implies {
            let ad = #[trigger] spec_qti_schema().elements[di].attributes[ai];
            &&& (s_starts_with(ad.name, "xmlns"@) || forall|k: int|
                0 <= k < ad.name.len() ==> #[trigger] ad.name[k] != ':')
            &&& ad.name != "schemaLocation"@
            &&& match ad.values {
                Some(vals) => forall|vi: int| 0 <= vi < vals.len() ==> no_tab(#[trigger] vals[vi]),
                None => true,
            }
        } by {
        if di == 0 {
            if ai == 0 {
                assert(spec_qti_defs()[0].attributes[0].name == "xmlns"@);
            }
            if ai == 1 {
                assert(spec_qti_defs()[0].attributes[1].name == "xmlns:xsi"@);
            }
        }
        if di == 6 {
            if ai == 0 {
                assert(spec_qti_defs()[6].attributes[0].name == "ident"@);
            }
            if ai == 1 {
                assert(spec_qti_defs()[6].attributes[1].name == "title"@);
            }
        }
        if di == 7 {
            if ai == 0 {
                assert(spec_qti_defs()[7].attributes[0].name == "ident"@);
            }
            if ai == 1 {
                assert(spec_qti_defs()[7].attributes[1].name == "title"@);
            }
        }
        if di == 8 {
            if ai == 0 {
                assert(spec_qti_defs()[8].attributes[0].name == "ident"@);
            }
            if ai == 1 {
                assert(spec_qti_defs()[8].attributes[1].name == "title"@);
            }
            if ai == 2 {
                assert(spec_qti_defs()[8].attributes[2].name == "maxattempts"@);
            }
        }
        if di == 10 {
            if ai == 0 {
                assert(spec_qti_defs()[10].attributes[0].name == "ident"@);
            }
            if ai == 1 {
                assert(spec_qti_defs()[10].attributes[1].name == "rcardinality"@);
            }
            if ai == 2 {
                assert(spec_qti_defs()[10].attributes[2].name == "rtiming"@);
            }
        }
        if di == 11 {
            if ai == 0 {
                assert(spec_qti_defs()[11].attributes[0].name == "shuffle"@);
            }
        }
        if di == 12 {
            if ai == 0 {
                assert(spec_qti_defs()[12].attributes[0].name == "ident"@);
            }
        }
        if di == 14 {
            if ai == 0 {
                assert(spec_qti_defs()[14].attributes[0].name == "texttype"@);
            }
        }
        if di == 17 {
            if ai == 0 {
                assert(spec_qti_defs()[17].attributes[0].name == "varname"@);
            }
            if ai == 1 {
                assert(spec_qti_defs()[17].attributes[1].name == "vartype"@);
            }
            if ai == 2 {
                assert(spec_qti_defs()[17].attributes[2].name == "minvalue"@);
            }
            if ai == 3 {
                assert(spec_qti_defs()[17].attributes[3].name == "maxvalue"@);
            }
        }
        if di == 18 {
            if ai == 0 {
                assert(spec_qti_defs()[18].attributes[0].name == "continue"@);
            }
        }
        if di == 20 {
            if ai == 0 {
                assert(spec_qti_defs()[20].attributes[0].name == "respident"@);
            }
            if ai == 1 {
                assert(spec_qti_defs()[20].attributes[1].name == "case"@);
            }
        }
        if di == 21 {
            if ai == 0 {
                assert(spec_qti_defs()[21].attributes[0].name == "varname"@);
            }
            if ai == 1 {
                assert(spec_qti_defs()[21].attributes[1].name == "action"@);
            }
        }
        if di == 22 {
            if ai == 0 {
                assert(spec_qti_defs()[22].attributes[0].name == "linkrefid"@);
            }
        }
        if di == 23 {
            if ai == 0 {
                assert(spec_qti_defs()[23].attributes[0].name == "ident"@);
            }
        }
        if di == 24 {
            if ai == 0 {
                assert(spec_qti_defs()[24].attributes[0].name == "ident"@);
            }
            if ai == 1 {
                assert(spec_qti_defs()[24].attributes[1].name == "rcardinality"@);
            }
        }
        if di == 25 {
            if ai == 0 {
                assert(spec_qti_defs()[25].attributes[0].name == "ident"@);
            }
            if ai == 1 {
                assert(spec_qti_defs()[25].attributes[1].name == "rcardinality"@);
            }
            if ai == 2 {
                assert(spec_qti_defs()[25].attributes[2].name == "numtype"@);
            }
        }
        if di == 26 {
            if ai == 0 {
                assert(spec_qti_defs()[26].attributes[0].name == "rows"@);
            }
            if ai == 1 {
                assert(spec_qti_defs()[26].attributes[1].name == "columns"@);
            }
        }
    }
}

/// Where each element name stands in the schema table.
pub proof fn lemma_qti_lookup()
    ensures
        s_find_def(spec_qti_defs(), "questestinterop"@) == Some(spec_qti_defs()[0]),
        s_find_def(spec_qti_defs(), "qtimetadata"@) == Some(spec_qti_defs()[1]),
        s_find_def(spec_qti_defs(), "itemmetadata"@) == Some(spec_qti_defs()[2]),
        s_find_def(spec_qti_defs(), "qtimetadatafield"@) == Some(spec_qti_defs()[3]),
        s_find_def(spec_qti_defs(), "fieldlabel"@) == Some(spec_qti_defs()[4]),
        s_find_def(spec_qti_defs(), "fieldentry"@) == Some(spec_qti_defs()[5]),
        s_find_def(spec_qti_defs(), "assessment"@) == Some(spec_qti_defs()[6]),
        s_find_def(spec_qti_defs(), "section"@) == Some(spec_qti_defs()[7]),
        s_find_def(spec_qti_defs(), "item"@) == Some(spec_qti_defs()[8]),
        s_find_def(spec_qti_defs(), "presentation"@) == Some(spec_qti_defs()[9]),
        s_find_def(spec_qti_defs(), "response_lid"@) == Some(spec_qti_defs()[10]),
        s_find_def(spec_qti_defs(), "render_choice"@) == Some(spec_qti_defs()[11]),
        s_find_def(spec_qti_defs(), "response_label"@) == Some(spec_qti_defs()[12]),
        s_find_def(spec_qti_defs(), "material"@) == Some(spec_qti_defs()[13]),
        s_find_def(spec_qti_defs(), "mattext"@) == Some(spec_qti_defs()[14]),
        s_find_def(spec_qti_defs(), "resprocessing"@) == Some(spec_qti_defs()[15]),
        s_find_def(spec_qti_defs(), "outcomes"@) == Some(spec_qti_defs()[16]),
        s_find_def(spec_qti_defs(), "decvar"@) == Some(spec_qti_defs()[17]),
        s_find_def(spec_qti_defs(), "respcondition"@) == Some(spec_qti_defs()[18]),
        s_find_def(spec_qti_defs(), "conditionvar"@) == Some(spec_qti_defs()[19]),
        s_find_def(spec_qti_defs(), "varequal"@) == Some(spec_qti_defs()[20]),
        s_find_def(spec_qti_defs(), "setvar"@) == Some(spec_qti_defs()[21]),
        s_find_def(spec_qti_defs(), "displayfeedback"@) == Some(spec_qti_defs()[22]),
        s_find_def(spec_qti_defs(), "itemfeedback"@) == Some(spec_qti_defs()[23]),
        s_find_def(spec_qti_defs(), "response_str"@) == Some(spec_qti_defs()[24]),
        s_find_def(spec_qti_defs(), "response_num"@) == Some(spec_qti_defs()[25]),
        s_find_def(spec_qti_defs(), "render_fib"@) == Some(spec_qti_defs()[26]),
{
    lemma_qti_lookup_0();
    lemma_qti_lookup_1();
    lemma_qti_lookup_2();
    lemma_qti_lookup_3();
    lemma_qti_lookup_4();
    lemma_qti_lookup_5();
    lemma_qti_lookup_6();
    lemma_qti_lookup_7();
    lemma_qti_lookup_8();
    lemma_qti_lookup_9();
    lemma_qti_lookup_10();
    lemma_qti_lookup_11();
    lemma_qti_lookup_12();
    lemma_qti_lookup_13();
    lemma_qti_lookup_14();
    lemma_qti_lookup_15();
    lemma_qti_lookup_16();
    lemma_qti_lookup_17();
    lemma_qti_lookup_18();
    lemma_qti_lookup_19();
    lemma_qti_lookup_20();
    lemma_qti_lookup_21();
    lemma_qti_lookup_22();
    lemma_qti_lookup_23();
    lemma_qti_lookup_24();
    lemma_qti_lookup_25();
    lemma_qti_lookup_26();
}

#[verifier::rlimit(100)]
proof fn lemma_qti_lookup_0()
    ensures
        s_find_def(spec_qti_defs(), "questestinterop"@) == Some(spec_qti_defs()[0]),
{
    reveal_with_fuel(s_find_def, 30);
    reveal_strlit("questestinterop");
    assert("questestinterop"@.len() == 15);
}

#[verifier::rlimit(100)]
proof fn lemma_qti_lookup_1()
    ensures
        s_find_def(spec_qti_defs(), "qtimetadata"@) == Some(spec_qti_defs()[1]),
{
    reveal_with_fuel(s_find_def, 30);
    reveal_strlit("questestinterop");
    reveal_strlit("qtimetadata");
    assert("questestinterop"@.len() == 15);
    assert("qtimetadata"@.len() == 11);
}

#[verifier::rlimit(100)]
proof fn lemma_qti_lookup_2()
    ensures
        s_find_def(spec_qti_defs(), "itemmetadata"@) == Some(spec_qti_defs()[2]),
{
    reveal_with_fuel(s_find_def, 30);
    reveal_strlit("questestinterop");
    reveal_strlit("qtimetadata");
    reveal_strlit("itemmetadata");
    assert("questestinterop"@.len() == 15);
    assert("qtimetadata"@.len() == 11);
    assert("itemmetadata"@.len() == 12);
}

#[verifier::rlimit(100)]
proof fn lemma_qti_lookup_3()
    ensures
        s_find_def(spec_qti_defs(), "qtimetadatafield"@) == Some(spec_qti_defs()[3]),
{
    reveal_with_fuel(s_find_def, 30);
    reveal_strlit("questestinterop");
    reveal_strlit("qtimetadata");
    reveal_strlit("itemmetadata");
    reveal_strlit("qtimetadatafield");
    assert("questestinterop"@.len() == 15);
    assert("qtimetadata"@.len() == 11);
    assert("itemmetadata"@.len() == 12);
    assert("qtimetadatafield"@.len() == 16);
}

#[verifier::rlimit(100)]
proof fn lemma_qti_lookup_4()
    ensures
        s_find_def(spec_qti_defs(), "fieldlabel"@) == Some(spec_qti_defs()[4]),
{
    reveal_with_fuel(s_find_def, 30);
    reveal_strlit("questestinterop");
    reveal_strlit("qtimetadata");
    reveal_strlit("itemmetadata");
    reveal_strlit("qtimetadatafield");
    reveal_strlit("fieldlabel");
    assert("questestinterop"@.len() == 15);
    assert("qtimetadata"@.len() == 11);
    assert("itemmetadata"@.len() == 12);
    assert("qtimetadatafield"@.len() == 16);
    assert("fieldlabel"@.len() == 10);
}

#[verifier::rlimit(100)]
proof fn lemma_qti_lookup_5()
    ensures
        s_find_def(spec_qti_defs(), "fieldentry"@) == Some(spec_qti_defs()[5]),
{
    reveal_with_fuel(s_find_def, 30);
    reveal_strlit("questestinterop");
    reveal_strlit("qtimetadata");
    reveal_strlit("itemmetadata");
    reveal_strlit("qtimetadatafield");
    reveal_strlit("fieldlabel");
    reveal_strlit("fieldentry");
    assert("questestinterop"@.len() == 15);
    assert("qtimetadata"@.len() == 11);
    assert("itemmetadata"@.len() == 12);
    assert("qtimetadatafield"@.len() == 16);
    assert("fieldlabel"@.len() == 10);
    assert("fieldentry"@.len() == 10);
    assert("fieldlabel"@[5] != "fieldentry"@[5]);
}

#[verifier::rlimit(100)]
proof fn lemma_qti_lookup_6()
    ensures
        s_find_def(spec_qti_defs(), "assessment"@) == Some(spec_qti_defs()[6]),
{
    reveal_with_fuel(s_find_def, 30);
    reveal_strlit("questestinterop");
    reveal_strlit("qtimetadata");
    reveal_strlit("itemmetadata");
    reveal_strlit("qtimetadatafield");
    reveal_strlit("fieldlabel");
    reveal_strlit("fieldentry");
    reveal_strlit("assessment");
    assert("questestinterop"@.len() == 15);
    assert("qtimetadata"@.len() == 11);
    assert("itemmetadata"@.len() == 12);
    assert("qtimetadatafield"@.len() == 16);
    assert("fieldlabel"@.len() == 10);
    assert("fieldentry"@.len() == 10);
    assert("assessment"@.len() == 10);
    assert("fieldlabel"@[0] != "assessment"@[0]);
    assert("fieldentry"@[0] != "assessment"@[0]);
}

#[verifier::rlimit(100)]
proof fn lemma_qti_lookup_7()
    ensures
        s_find_def(spec_qti_defs(), "section"@) == Some(spec_qti_defs()[7]),
{
    reveal_with_fuel(s_find_def, 30);
    reveal_strlit("questestinterop");
    reveal_strlit("qtimetadata");
    reveal_strlit("itemmetadata");
    reveal_strlit("qtimetadatafield");
    reveal_strlit("fieldlabel");
    reveal_strlit("fieldentry");
    reveal_strlit("assessment");
    reveal_strlit("section");
    assert("questestinterop"@.len() == 15);
    assert("qtimetadata"@.len() == 11);
    assert("itemmetadata"@.len() == 12);
    assert("qtimetadatafield"@.len() == 16);
    assert("fieldlabel"@.len() == 10);
    assert("fieldentry"@.len() == 10);
    assert("assessment"@.len() == 10);
    assert("section"@.len() == 7);
}

#[verifier::rlimit(100)]
proof fn lemma_qti_lookup_8()
    ensures
        s_find_def(spec_qti_defs(), "item"@) == Some(spec_qti_defs()[8]),
{
    reveal_with_fuel(s_find_def, 30);
    reveal_strlit("questestinterop");
    reveal_strlit("qtimetadata");
    reveal_strlit("itemmetadata");
    reveal_strlit("qtimetadatafield");
    reveal_strlit("fieldlabel");
    reveal_strlit("fieldentry");
    reveal_strlit("assessment");
    reveal_strlit("section");
    reveal_strlit("item");
    assert("questestinterop"@.len() == 15);
    assert("qtimetadata"@.len() == 11);
    assert("itemmetadata"@.len() == 12);
    assert("qtimetadatafield"@.len() == 16);
    assert("fieldlabel"@.len() == 10);
    assert("fieldentry"@.len() == 10);
    assert("assessment"@.len() == 10);
    assert("section"@.len() == 7);
    assert("item"@.len() == 4);
}

#[verifier::rlimit(100)]
proof fn lemma_qti_lookup_9()
    ensures
        s_find_def(spec_qti_defs(), "presentation"@) == Some(spec_qti_defs()[9]),
{
    reveal_with_fuel(s_find_def, 30);
    reveal_strlit("questestinterop");
    reveal_strlit("qtimetadata");
    reveal_strlit("itemmetadata");
    reveal_strlit("qtimetadatafield");
    reveal_strlit("fieldlabel");
    reveal_strlit("fieldentry");
    reveal_strlit("assessment");
    reveal_strlit("section");
    reveal_strlit("item");
    reveal_strlit("presentation");
    assert("questestinterop"@.len() == 15);
    assert("qtimetadata"@.len() == 11);
    assert("itemmetadata"@.len() == 12);
    assert("qtimetadatafield"@.len() == 16);
    assert("fieldlabel"@.len() == 10);
    assert("fieldentry"@.len() == 10);
    assert("assessment"@.len() == 10);
    assert("section"@.len() == 7);
    assert("item"@.len() == 4);
    assert("presentation"@.len() == 12);
    assert("itemmetadata"@[0] != "presentation"@[0]);
}

#[verifier::rlimit(100)]
proof fn lemma_qti_lookup_10()
    ensures
        s_find_def(spec_qti_defs(), "response_lid"@) == Some(spec_qti_defs()[10]),
{
    reveal_with_fuel(s_find_def, 30);
    reveal_strlit("questestinterop");
    reveal_strlit("qtimetadata");
    reveal_strlit("itemmetadata");
    reveal_strlit("qtimetadatafield");
    reveal_strlit("fieldlabel");
    reveal_strlit("fieldentry");
    reveal_strlit("assessment");
    reveal_strlit("section");
    reveal_strlit("item");
    reveal_strlit("presentation");
    reveal_strlit("response_lid");
    assert("questestinterop"@.len() == 15);
    assert("qtimetadata"@.len() == 11);
    assert("itemmetadata"@.len() == 12);
    assert("qtimetadatafield"@.len() == 16);
    assert("fieldlabel"@.len() == 10);
    assert("fieldentry"@.len() == 10);
    assert("assessment"@.len() == 10);
    assert("section"@.len() == 7);
    assert("item"@.len() == 4);
    assert("presentation"@.len() == 12);
    assert("response_lid"@.len() == 12);
    assert("itemmetadata"@[0] != "response_lid"@[0]);
    assert("presentation"@[0] != "response_lid"@[0]);
}

#[verifier::rlimit(100)]
proof fn lemma_qti_lookup_11()
    ensures
        s_find_def(spec_qti_defs(), "render_choice"@) == Some(spec_qti_defs()[11]),
{
    reveal_with_fuel(s_find_def, 30);
    reveal_strlit("questestinterop");
    reveal_strlit("qtimetadata");
    reveal_strlit("itemmetadata");
    reveal_strlit("qtimetadatafield");
    reveal_strlit("fieldlabel");
    reveal_strlit("fieldentry");
    reveal_strlit("assessment");
    reveal_strlit("section");
    reveal_strlit("item");
    reveal_strlit("presentation");
    reveal_strlit("response_lid");
    reveal_strlit("render_choice");
    assert("questestinterop"@.len() == 15);
    assert("qtimetadata"@.len() == 11);
    assert("itemmetadata"@.len() == 12);
    assert("qtimetadatafield"@.len() == 16);
    assert("fieldlabel"@.len() == 10);
    assert("fieldentry"@.len() == 10);
    assert("assessment"@.len() == 10);
    assert("section"@.len() == 7);
    assert("item"@.len() == 4);
    assert("presentation"@.len() == 12);
    assert("response_lid"@.len() == 12);
    assert("render_choice"@.len() == 13);
}

#[verifier::rlimit(100)]
proof fn lemma_qti_lookup_12()
    ensures
        s_find_def(spec_qti_defs(), "response_label"@) == Some(spec_qti_defs()[12]),
{
    reveal_with_fuel(s_find_def, 30);
    reveal_strlit("questestinterop");
    reveal_strlit("qtimetadata");
    reveal_strlit("itemmetadata");
    reveal_strlit("qtimetadatafield");
    reveal_strlit("fieldlabel");
    reveal_strlit("fieldentry");
    reveal_strlit("assessment");
    reveal_strlit("section");
    reveal_strlit("item");
    reveal_strlit("presentation");
    reveal_strlit("response_lid");
    reveal_strlit("render_choice");
    reveal_strlit("response_label");
    assert("questestinterop"@.len() == 15);
    assert("qtimetadata"@.len() == 11);
    assert("itemmetadata"@.len() == 12);
    assert("qtimetadatafield"@.len() == 16);
    assert("fieldlabel"@.len() == 10);
    assert("fieldentry"@.len() == 10);
    assert("assessment"@.len() == 10);
    assert("section"@.len() == 7);
    assert("item"@.len() == 4);
    assert("presentation"@.len() == 12);
    assert("response_lid"@.len() == 12);
    assert("render_choice"@.len() == 13);
    assert("response_label"@.len() == 14);
}

#[verifier::rlimit(100)]
proof fn lemma_qti_lookup_13()
    ensures
        s_find_def(spec_qti_defs(), "material"@) == Some(spec_qti_defs()[13]),
{
    reveal_with_fuel(s_find_def, 30);
    reveal_strlit("questestinterop");
    reveal_strlit("qtimetadata");
    reveal_strlit("itemmetadata");
    reveal_strlit("qtimetadatafield");
    reveal_strlit("fieldlabel");
    reveal_strlit("fieldentry");
    reveal_strlit("assessment");
    reveal_strlit("section");
    reveal_strlit("item");
    reveal_strlit("presentation");
    reveal_strlit("response_lid");
    reveal_strlit("render_choice");
    reveal_strlit("response_label");
    reveal_strlit("material");
    assert("questestinterop"@.len() == 15);
    assert("qtimetadata"@.len() == 11);
    assert("itemmetadata"@.len() == 12);
    assert("qtimetadatafield"@.len() == 16);
    assert("fieldlabel"@.len() == 10);
    assert("fieldentry"@.len() == 10);
    assert("assessment"@.len() == 10);
    assert("section"@.len() == 7);
    assert("item"@.len() == 4);
    assert("presentation"@.len() == 12);
    assert("response_lid"@.len() == 12);
    assert("render_choice"@.len() == 13);
    assert("response_label"@.len() == 14);
    assert("material"@.len() == 8);
}

#[verifier::rlimit(100)]
proof fn lemma_qti_lookup_14()
    ensures
        s_find_def(spec_qti_defs(), "mattext"@) == Some(spec_qti_defs()[14]),
{
    reveal_with_fuel(s_find_def, 30);
    reveal_strlit("questestinterop");
    reveal_strlit("qtimetadata");
    reveal_strlit("itemmetadata");
    reveal_strlit("qtimetadatafield");
    reveal_strlit("fieldlabel");
    reveal_strlit("fieldentry");
    reveal_strlit("assessment");
    reveal_strlit("section");
    reveal_strlit("item");
    reveal_strlit("presentation");
    reveal_strlit("response_lid");
    reveal_strlit("render_choice");
    reveal_strlit("response_label");
    reveal_strlit("material");
    reveal_strlit("mattext");
    assert("questestinterop"@.len() == 15);
    assert("qtimetadata"@.len() == 11);
    assert("itemmetadata"@.len() == 12);
    assert("qtimetadatafield"@.len() == 16);
    assert("fieldlabel"@.len() == 10);
    assert("fieldentry"@.len() == 10);
    assert("assessment"@.len() == 10);
    assert("section"@.len() == 7);
    assert("item"@.len() == 4);
    assert("presentation"@.len() == 12);
    assert("response_lid"@.len() == 12);
    assert("render_choice"@.len() == 13);
    assert("response_label"@.len() == 14);
    assert("material"@.len() == 8);
    assert("mattext"@.len() == 7);
    assert("section"@[0] != "mattext"@[0]);
}

#[verifier::rlimit(100)]
proof fn lemma_qti_lookup_15()
    ensures
        s_find_def(spec_qti_defs(), "resprocessing"@) == Some(spec_qti_defs()[15]),
{
    reveal_with_fuel(s_find_def, 30);
    reveal_strlit("questestinterop");
    reveal_strlit("qtimetadata");
    reveal_strlit("itemmetadata");
    reveal_strlit("qtimetadatafield");
    reveal_strlit("fieldlabel");
    reveal_strlit("fieldentry");
    reveal_strlit("assessment");
    reveal_strlit("section");
    reveal_strlit("item");
    reveal_strlit("presentation");
    reveal_strlit("response_lid");
    reveal_strlit("render_choice");
    reveal_strlit("response_label");
    reveal_strlit("material");
    reveal_strlit("mattext");
    reveal_strlit("resprocessing");
    assert("questestinterop"@.len() == 15);
    assert("qtimetadata"@.len() == 11);
    assert("itemmetadata"@.len() == 12);
    assert("qtimetadatafield"@.len() == 16);
    assert("fieldlabel"@.len() == 10);
    assert("fieldentry"@.len() == 10);
    assert("assessment"@.len() == 10);
    assert("section"@.len() == 7);
    assert("item"@.len() == 4);
    assert("presentation"@.len() == 12);
    assert("response_lid"@.len() == 12);
    assert("render_choice"@.len() == 13);
    assert("response_label"@.len() == 14);
    assert("material"@.len() == 8);
    assert("mattext"@.len() == 7);
    assert("resprocessing"@.len() == 13);
    assert("render_choice"@[2] != "resprocessing"@[2]);
}

#[verifier::rlimit(100)]
proof fn lemma_qti_lookup_16()
    ensures
        s_find_def(spec_qti_defs(), "outcomes"@) == Some(spec_qti_defs()[16]),
{
    reveal_with_fuel(s_find_def, 30);
    reveal_strlit("questestinterop");
    reveal_strlit("qtimetadata");
    reveal_strlit("itemmetadata");
    reveal_strlit("qtimetadatafield");
    reveal_strlit("fieldlabel");
    reveal_strlit("fieldentry");
    reveal_strlit("assessment");
    reveal_strlit("section");
    reveal_strlit("item");
    reveal_strlit("presentation");
    reveal_strlit("response_lid");
    reveal_strlit("render_choice");
    reveal_strlit("response_label");
    reveal_strlit("material");
    reveal_strlit("mattext");
    reveal_strlit("resprocessing");
    reveal_strlit("outcomes");
    assert("questestinterop"@.len() == 15);
    assert("qtimetadata"@.len() == 11);
    assert("itemmetadata"@.len() == 12);
    assert("qtimetadatafield"@.len() == 16);
    assert("fieldlabel"@.len() == 10);
    assert("fieldentry"@.len() == 10);
    assert("assessment"@.len() == 10);
    assert("section"@.len() == 7);
    assert("item"@.len() == 4);
    assert("presentation"@.len() == 12);
    assert("response_lid"@.len() == 12);
    assert("render_choice"@.len() == 13);
    assert("response_label"@.len() == 14);
    assert("material"@.len() == 8);
    assert("mattext"@.len() == 7);
    assert("resprocessing"@.len() == 13);
    assert("outcomes"@.len() == 8);
    assert("material"@[0] != "outcomes"@[0]);
}

#[verifier::rlimit(100)]
proof fn lemma_qti_lookup_17()
    ensures
        s_find_def(spec_qti_defs(), "decvar"@) == Some(spec_qti_defs()[17]),
{
    reveal_with_fuel(s_find_def, 30);
    reveal_strlit("questestinterop");
    reveal_strlit("qtimetadata");
    reveal_strlit("itemmetadata");
    reveal_strlit("qtimetadatafield");
    reveal_strlit("fieldlabel");
    reveal_strlit("fieldentry");
    reveal_strlit("assessment");
    reveal_strlit("section");
    reveal_strlit("item");
    reveal_strlit("presentation");
    reveal_strlit("response_lid");
    reveal_strlit("render_choice");
    reveal_strlit("response_label");
    reveal_strlit("material");
    reveal_strlit("mattext");
    reveal_strlit("resprocessing");
    reveal_strlit("outcomes");
    reveal_strlit("decvar");
    assert("questestinterop"@.len() == 15);
    assert("qtimetadata"@.len() == 11);
    assert("itemmetadata"@.len() == 12);
    assert("qtimetadatafield"@.len() == 16);
    assert("fieldlabel"@.len() == 10);
    assert("fieldentry"@.len() == 10);
    assert("assessment"@.len() == 10);
    assert("section"@.len() == 7);
    assert("item"@.len() == 4);
    assert("presentation"@.len() == 12);
    assert("response_lid"@.len() == 12);
    assert("render_choice"@.len() == 13);
    assert("response_label"@.len() == 14);
    assert("material"@.len() == 8);
    assert("mattext"@.len() == 7);
    assert("resprocessing"@.len() == 13);
    assert("outcomes"@.len() == 8);
    assert("decvar"@.len() == 6);
}

#[verifier::rlimit(100)]
proof fn lemma_qti_lookup_18()
    ensures
        s_find_def(spec_qti_defs(), "respcondition"@) == Some(spec_qti_defs()[18]),
{
    reveal_with_fuel(s_find_def, 30);
    reveal_strlit("questestinterop");
    reveal_strlit("qtimetadata");
    reveal_strlit("itemmetadata");
    reveal_strlit("qtimetadatafield");
    reveal_strlit("fieldlabel");
    reveal_strlit("fieldentry");
    reveal_strlit("assessment");
    reveal_strlit("section");
    reveal_strlit("item");
    reveal_strlit("presentation");
    reveal_strlit("response_lid");
    reveal_strlit("render_choice");
    reveal_strlit("response_label");
    reveal_strlit("material");
    reveal_strlit("mattext");
    reveal_strlit("resprocessing");
    reveal_strlit("outcomes");
    reveal_strlit("decvar");
    reveal_strlit("respcondition");
    assert("questestinterop"@.len() == 15);
    assert("qtimetadata"@.len() == 11);
    assert("itemmetadata"@.len() == 12);
    assert("qtimetadatafield"@.len() == 16);
    assert("fieldlabel"@.len() == 10);
    assert("fieldentry"@.len() == 10);
    assert("assessment"@.len() == 10);
    assert("section"@.len() == 7);
    assert("item"@.len() == 4);
    assert("presentation"@.len() == 12);
    assert("response_lid"@.len() == 12);
    assert("render_choice"@.len() == 13);
    assert("response_label"@.len() == 14);
    assert("material"@.len() == 8);
    assert("mattext"@.len() == 7);
    assert("resprocessing"@.len() == 13);
    assert("outcomes"@.len() == 8);
    assert("decvar"@.len() == 6);
    assert("respcondition"@.len() == 13);
    assert("render_choice"@[2] != "respcondition"@[2]);
    assert("resprocessing"@[4] != "respcondition"@[4]);
}

#[verifier::rlimit(100)]
proof fn lemma_qti_lookup_19()
    ensures
        s_find_def(spec_qti_defs(), "conditionvar"@) == Some(spec_qti_defs()[19]),
{
    reveal_with_fuel(s_find_def, 30);
    reveal_strlit("questestinterop");
    reveal_strlit("qtimetadata");
    reveal_strlit("itemmetadata");
    reveal_strlit("qtimetadatafield");
    reveal_strlit("fieldlabel");
    reveal_strlit("fieldentry");
    reveal_strlit("assessment");
    reveal_strlit("section");
    reveal_strlit("item");
    reveal_strlit("presentation");
    reveal_strlit("response_lid");
    reveal_strlit("render_choice");
    reveal_strlit("response_label");
    reveal_strlit("material");
    reveal_strlit("mattext");
    reveal_strlit("resprocessing");
    reveal_strlit("outcomes");
    reveal_strlit("decvar");
    reveal_strlit("respcondition");
    reveal_strlit("conditionvar");
    assert("questestinterop"@.len() == 15);
    assert("qtimetadata"@.len() == 11);
    assert("itemmetadata"@.len() == 12);
    assert("qtimetadatafield"@.len() == 16);
    assert("fieldlabel"@.len() == 10);
    assert("fieldentry"@.len() == 10);
    assert("assessment"@.len() == 10);
    assert("section"@.len() == 7);
    assert("item"@.len() == 4);
    assert("presentation"@.len() == 12);
    assert("response_lid"@.len() == 12);
    assert("render_choice"@.len() == 13);
    assert("response_label"@.len() == 14);
    assert("material"@.len() == 8);
    assert("mattext"@.len() == 7);
    assert("resprocessing"@.len() == 13);
    assert("outcomes"@.len() == 8);
    assert("decvar"@.len() == 6);
    assert("respcondition"@.len() == 13);
    assert("conditionvar"@.len() == 12);
    assert("itemmetadata"@[0] != "conditionvar"@[0]);
    assert("presentation"@[0] != "conditionvar"@[0]);
    assert("response_lid"@[0] != "conditionvar"@[0]);
}

#[verifier::rlimit(100)]
proof fn lemma_qti_lookup_20()
    ensures
        s_find_def(spec_qti_defs(), "varequal"@) == Some(spec_qti_defs()[20]),
{
    reveal_with_fuel(s_find_def, 30);
    reveal_strlit("questestinterop");
    reveal_strlit("qtimetadata");
    reveal_strlit("itemmetadata");
    reveal_strlit("qtimetadatafield");
    reveal_strlit("fieldlabel");
    reveal_strlit("fieldentry");
    reveal_strlit("assessment");
    reveal_strlit("section");
    reveal_strlit("item");
    reveal_strlit("presentation");
    reveal_strlit("response_lid");
    reveal_strlit("render_choice");
    reveal_strlit("response_label");
    reveal_strlit("material");
    reveal_strlit("mattext");
    reveal_strlit("resprocessing");
    reveal_strlit("outcomes");
    reveal_strlit("decvar");
    reveal_strlit("respcondition");
    reveal_strlit("conditionvar");
    reveal_strlit("varequal");
    assert("questestinterop"@.len() == 15);
    assert("qtimetadata"@.len() == 11);
    assert("itemmetadata"@.len() == 12);
    assert("qtimetadatafield"@.len() == 16);
    assert("fieldlabel"@.len() == 10);
    assert("fieldentry"@.len() == 10);
    assert("assessment"@.len() == 10);
    assert("section"@.len() == 7);
    assert("item"@.len() == 4);
    assert("presentation"@.len() == 12);
    assert("response_lid"@.len() == 12);
    assert("render_choice"@.len() == 13);
    assert("response_label"@.len() == 14);
    assert("material"@.len() == 8);
    assert("mattext"@.len() == 7);
    assert("resprocessing"@.len() == 13);
    assert("outcomes"@.len() == 8);
    assert("decvar"@.len() == 6);
    assert("respcondition"@.len() == 13);
    assert("conditionvar"@.len() == 12);
    assert("varequal"@.len() == 8);
    assert("material"@[0] != "varequal"@[0]);
    assert("outcomes"@[0] != "varequal"@[0]);
}

#[verifier::rlimit(100)]
proof fn lemma_qti_lookup_21()
    ensures
        s_find_def(spec_qti_defs(), "setvar"@) == Some(spec_qti_defs()[21]),
{
    reveal_with_fuel(s_find_def, 30);
    reveal_strlit("questestinterop");
    reveal_strlit("qtimetadata");
    reveal_strlit("itemmetadata");
    reveal_strlit("qtimetadatafield");
    reveal_strlit("fieldlabel");
    reveal_strlit("fieldentry");
    reveal_strlit("assessment");
    reveal_strlit("section");
    reveal_strlit("item");
    reveal_strlit("presentation");
    reveal_strlit("response_lid");
    reveal_strlit("render_choice");
    reveal_strlit("response_label");
    reveal_strlit("material");
    reveal_strlit("mattext");
    reveal_strlit("resprocessing");
    reveal_strlit("outcomes");
    reveal_strlit("decvar");
    reveal_strlit("respcondition");
    reveal_strlit("conditionvar");
    reveal_strlit("varequal");
    reveal_strlit("setvar");
    assert("questestinterop"@.len() == 15);
    assert("qtimetadata"@.len() == 11);
    assert("itemmetadata"@.len() == 12);
    assert("qtimetadatafield"@.len() == 16);
    assert("fieldlabel"@.len() == 10);
    assert("fieldentry"@.len() == 10);
    assert("assessment"@.len() == 10);
    assert("section"@.len() == 7);
    assert("item"@.len() == 4);
    assert("presentation"@.len() == 12);
    assert("response_lid"@.len() == 12);
    assert("render_choice"@.len() == 13);
    assert("response_label"@.len() == 14);
    assert("material"@.len() == 8);
    assert("mattext"@.len() == 7);
    assert("resprocessing"@.len() == 13);
    assert("outcomes"@.len() == 8);
    assert("decvar"@.len() == 6);
    assert("respcondition"@.len() == 13);
    assert("conditionvar"@.len() == 12);
    assert("varequal"@.len() == 8);
    assert("setvar"@.len() == 6);
    assert("decvar"@[0] != "setvar"@[0]);
}

#[verifier::rlimit(100)]
proof fn lemma_qti_lookup_22()
    ensures
        s_find_def(spec_qti_defs(), "displayfeedback"@) == Some(spec_qti_defs()[22]),
{
    reveal_with_fuel(s_find_def, 30);
    reveal_strlit("questestinterop");
    reveal_strlit("qtimetadata");
    reveal_strlit("itemmetadata");
    reveal_strlit("qtimetadatafield");
    reveal_strlit("fieldlabel");
    reveal_strlit("fieldentry");
    reveal_strlit("assessment");
    reveal_strlit("section");
    reveal_strlit("item");
    reveal_strlit("presentation");
    reveal_strlit("response_lid");
    reveal_strlit("render_choice");
    reveal_strlit("response_label");
    reveal_strlit("material");
    reveal_strlit("mattext");
    reveal_strlit("resprocessing");
    reveal_strlit("outcomes");
    reveal_strlit("decvar");
    reveal_strlit("respcondition");
    reveal_strlit("conditionvar");
    reveal_strlit("varequal");
    reveal_strlit("setvar");
    reveal_strlit("displayfeedback");
    assert("questestinterop"@.len() == 15);
    assert("qtimetadata"@.len() == 11);
    assert("itemmetadata"@.len() == 12);
    assert("qtimetadatafield"@.len() == 16);
    assert("fieldlabel"@.len() == 10);
    assert("fieldentry"@.len() == 10);
    assert("assessment"@.len() == 10);
    assert("section"@.len() == 7);
    assert("item"@.len() == 4);
    assert("presentation"@.len() == 12);
    assert("response_lid"@.len() == 12);
    assert("render_choice"@.len() == 13);
    assert("response_label"@.len() == 14);
    assert("material"@.len() == 8);
    assert("mattext"@.len() == 7);
    assert("resprocessing"@.len() == 13);
    assert("outcomes"@.len() == 8);
    assert("decvar"@.len() == 6);
    assert("respcondition"@.len() == 13);
    assert("conditionvar"@.len() == 12);
    assert("varequal"@.len() == 8);
    assert("setvar"@.len() == 6);
    assert("displayfeedback"@.len() == 15);
    assert("questestinterop"@[0] != "displayfeedback"@[0]);
}

#[verifier::rlimit(100)]
proof fn lemma_qti_lookup_23()
    ensures
        s_find_def(spec_qti_defs(), "itemfeedback"@) == Some(spec_qti_defs()[23]),
{
    reveal_with_fuel(s_find_def, 30);
    reveal_strlit("questestinterop");
    reveal_strlit("qtimetadata");
    reveal_strlit("itemmetadata");
    reveal_strlit("qtimetadatafield");
    reveal_strlit("fieldlabel");
    reveal_strlit("fieldentry");
    reveal_strlit("assessment");
    reveal_strlit("section");
    reveal_strlit("item");
    reveal_strlit("presentation");
    reveal_strlit("response_lid");
    reveal_strlit("render_choice");
    reveal_strlit("response_label");
    reveal_strlit("material");
    reveal_strlit("mattext");
    reveal_strlit("resprocessing");
    reveal_strlit("outcomes");
    reveal_strlit("decvar");
    reveal_strlit("respcondition");
    reveal_strlit("conditionvar");
    reveal_strlit("varequal");
    reveal_strlit("setvar");
    reveal_strlit("displayfeedback");
    reveal_strlit("itemfeedback");
    assert("questestinterop"@.len() == 15);
    assert("qtimetadata"@.len() == 11);
    assert("itemmetadata"@.len() == 12);
    assert("qtimetadatafield"@.len() == 16);
    assert("fieldlabel"@.len() == 10);
    assert("fieldentry"@.len() == 10);
    assert("assessment"@.len() == 10);
    assert("section"@.len() == 7);
    assert("item"@.len() == 4);
    assert("presentation"@.len() == 12);
    assert("response_lid"@.len() == 12);
    assert("render_choice"@.len() == 13);
    assert("response_label"@.len() == 14);
    assert("material"@.len() == 8);
    assert("mattext"@.len() == 7);
    assert("resprocessing"@.len() == 13);
    assert("outcomes"@.len() == 8);
    assert("decvar"@.len() == 6);
    assert("respcondition"@.len() == 13);
    assert("conditionvar"@.len() == 12);
    assert("varequal"@.len() == 8);
    assert("setvar"@.len() == 6);
    assert("displayfeedback"@.len() == 15);
    assert("itemfeedback"@.len() == 12);
    assert("itemmetadata"@[4] != "itemfeedback"@[4]);
    assert("presentation"@[0] != "itemfeedback"@[0]);
    assert("response_lid"@[0] != "itemfeedback"@[0]);
    assert("conditionvar"@[0] != "itemfeedback"@[0]);
}

#[verifier::rlimit(100)]
proof fn lemma_qti_lookup_24()
    ensures
        s_find_def(spec_qti_defs(), "response_str"@) == Some(spec_qti_defs()[24]),
{
    reveal_with_fuel(s_find_def, 30);
    reveal_strlit("questestinterop");
    reveal_strlit("qtimetadata");
    reveal_strlit("itemmetadata");
    reveal_strlit("qtimetadatafield");
    reveal_strlit("fieldlabel");
    reveal_strlit("fieldentry");
    reveal_strlit("assessment");
    reveal_strlit("section");
    reveal_strlit("item");
    reveal_strlit("presentation");
    reveal_strlit("response_lid");
    reveal_strlit("render_choice");
    reveal_strlit("response_label");
    reveal_strlit("material");
    reveal_strlit("mattext");
    reveal_strlit("resprocessing");
    reveal_strlit("outcomes");
    reveal_strlit("decvar");
    reveal_strlit("respcondition");
    reveal_strlit("conditionvar");
    reveal_strlit("varequal");
    reveal_strlit("setvar");
    reveal_strlit("displayfeedback");
    reveal_strlit("itemfeedback");
    reveal_strlit("response_str");
    assert("questestinterop"@.len() == 15);
    assert("qtimetadata"@.len() == 11);
    assert("itemmetadata"@.len() == 12);
    assert("qtimetadatafield"@.len() == 16);
    assert("fieldlabel"@.len() == 10);
    assert("fieldentry"@.len() == 10);
    assert("assessment"@.len() == 10);
    assert("section"@.len() == 7);
    assert("item"@.len() == 4);
    assert("presentation"@.len() == 12);
    assert("response_lid"@.len() == 12);
    assert("render_choice"@.len() == 13);
    assert("response_label"@.len() == 14);
    assert("material"@.len() == 8);
    assert("mattext"@.len() == 7);
    assert("resprocessing"@.len() == 13);
    assert("outcomes"@.len() == 8);
    assert("decvar"@.len() == 6);
    assert("respcondition"@.len() == 13);
    assert("conditionvar"@.len() == 12);
    assert("varequal"@.len() == 8);
    assert("setvar"@.len() == 6);
    assert("displayfeedback"@.len() == 15);
    assert("itemfeedback"@.len() == 12);
    assert("response_str"@.len() == 12);
    assert("itemmetadata"@[0] != "response_str"@[0]);
    assert("presentation"@[0] != "response_str"@[0]);
    assert("response_lid"@[9] != "response_str"@[9]);
    assert("conditionvar"@[0] != "response_str"@[0]);
    assert("itemfeedback"@[0] != "response_str"@[0]);
}

#[verifier::rlimit(100)]
proof fn lemma_qti_lookup_25()
    ensures
        s_find_def(spec_qti_defs(), "response_num"@) == Some(spec_qti_defs()[25]),
{
    reveal_with_fuel(s_find_def, 30);
    reveal_strlit("questestinterop");
    reveal_strlit("qtimetadata");
    reveal_strlit("itemmetadata");
    reveal_strlit("qtimetadatafield");
    reveal_strlit("fieldlabel");
    reveal_strlit("fieldentry");
    reveal_strlit("assessment");
    reveal_strlit("section");
    reveal_strlit("item");
    reveal_strlit("presentation");
    reveal_strlit("response_lid");
    reveal_strlit("render_choice");
    reveal_strlit("response_label");
    reveal_strlit("material");
    reveal_strlit("mattext");
    reveal_strlit("resprocessing");
    reveal_strlit("outcomes");
    reveal_strlit("decvar");
    reveal_strlit("respcondition");
    reveal_strlit("conditionvar");
    reveal_strlit("varequal");
    reveal_strlit("setvar");
    reveal_strlit("displayfeedback");
    reveal_strlit("itemfeedback");
    reveal_strlit("response_str");
    reveal_strlit("response_num");
    assert("questestinterop"@.len() == 15);
    assert("qtimetadata"@.len() == 11);
    assert("itemmetadata"@.len() == 12);
    assert("qtimetadatafield"@.len() == 16);
    assert("fieldlabel"@.len() == 10);
    assert("fieldentry"@.len() == 10);
    assert("assessment"@.len() == 10);
    assert("section"@.len() == 7);
    assert("item"@.len() == 4);
    assert("presentation"@.len() == 12);
    assert("response_lid"@.len() == 12);
    assert("render_choice"@.len() == 13);
    assert("response_label"@.len() == 14);
    assert("material"@.len() == 8);
    assert("mattext"@.len() == 7);
    assert("resprocessing"@.len() == 13);
    assert("outcomes"@.len() == 8);
    assert("decvar"@.len() == 6);
    assert("respcondition"@.len() == 13);
    assert("conditionvar"@.len() == 12);
    assert("varequal"@.len() == 8);
    assert("setvar"@.len() == 6);
    assert("displayfeedback"@.len() == 15);
    assert("itemfeedback"@.len() == 12);
    assert("response_str"@.len() == 12);
    assert("response_num"@.len() == 12);
    assert("itemmetadata"@[0] != "response_num"@[0]);
    assert("presentation"@[0] != "response_num"@[0]);
    assert("response_lid"@[9] != "response_num"@[9]);
    assert("conditionvar"@[0] != "response_num"@[0]);
    assert("itemfeedback"@[0] != "response_num"@[0]);
    assert("response_str"@[9] != "response_num"@[9]);
}

#[verifier::rlimit(100)]
proof fn lemma_qti_lookup_26()
    ensures
        s_find_def(spec_qti_defs(), "render_fib"@) == Some(spec_qti_defs()[26]),
{
    reveal_with_fuel(s_find_def, 30);
    reveal_strlit("questestinterop");
    reveal_strlit("qtimetadata");
    reveal_strlit("itemmetadata");
    reveal_strlit("qtimetadatafield");
    reveal_strlit("fieldlabel");
    reveal_strlit("fieldentry");
    reveal_strlit("assessment");
    reveal_strlit("section");
    reveal_strlit("item");
    reveal_strlit("presentation");
    reveal_strlit("response_lid");
    reveal_strlit("render_choice");
    reveal_strlit("response_label");
    reveal_strlit("material");
    reveal_strlit("mattext");
    reveal_strlit("resprocessing");
    reveal_strlit("outcomes");
    reveal_strlit("decvar");
    reveal_strlit("respcondition");
    reveal_strlit("conditionvar");
    reveal_strlit("varequal");
    reveal_strlit("setvar");
    reveal_strlit("displayfeedback");
    reveal_strlit("itemfeedback");
    reveal_strlit("response_str");
    reveal_strlit("response_num");
    reveal_strlit("render_fib");
    assert("questestinterop"@.len() == 15);
    assert("qtimetadata"@.len() == 11);
    assert("itemmetadata"@.len() == 12);
    assert("qtimetadatafield"@.len() == 16);
    assert("fieldlabel"@.len() == 10);
    assert("fieldentry"@.len() == 10);
    assert("assessment"@.len() == 10);
    assert("section"@.len() == 7);
    assert("item"@.len() == 4);
    assert("presentation"@.len() == 12);
    assert("response_lid"@.len() == 12);
    assert("render_choice"@.len() == 13);
    assert("response_label"@.len() == 14);
    assert("material"@.len() == 8);
    assert("mattext"@.len() == 7);
    assert("resprocessing"@.len() == 13);
    assert("outcomes"@.len() == 8);
    assert("decvar"@.len() == 6);
    assert("respcondition"@.len() == 13);
    assert("conditionvar"@.len() == 12);
    assert("varequal"@.len() == 8);
    assert("setvar"@.len() == 6);
    assert("displayfeedback"@.len() == 15);
    assert("itemfeedback"@.len() == 12);
    assert("response_str"@.len() == 12);
    assert("response_num"@.len() == 12);
    assert("render_fib"@.len() == 10);
    assert("fieldlabel"@[0] != "render_fib"@[0]);
    assert("fieldentry"@[0] != "render_fib"@[0]);
    assert("assessment"@[0] != "render_fib"@[0]);
}

/// The properties every builder-produced element enjoys: it passes the
/// structural check under its own name, its attribute keys are distinct,
/// its serialised form is read back predictably, and it stays within the
/// reader's size limits.
pub open spec fn elem_good(e: SpecElement, expected: Seq<char>) -> bool {
    &&& s_elem_valid(spec_qti_schema(), e, expected)
    &&& attrs_distinct(e)
    &&& writable(parsed_model(e))
    &&& within_read_limits(e)
}

/// A string fit for the document: legal XML characters, short enough that
/// its escaped form stays within the reader's limits even after the short
/// fixed prefixes the builder attaches.
pub open spec fn xml_safe_text(s: Seq<char>) -> bool {
    xml_text_ok(s) && s.len() < 0x4000000
}

/// Character data a question contributes to the document: its identifier,
/// title, text, feedback texts, and its choices' identifiers and texts or
/// its acceptable answers' texts.
pub open spec fn q_xml_safe(q: crate::types::Question) -> bool {
    &&& xml_safe_text(q.id@)
    &&& xml_safe_text(q.title@)
    &&& xml_safe_text(q.text@)
    &&& q.points.scale < 0x1000000
    &&& match q.feedback {
        Some(f) => (match f.correct {
            Some(t) => xml_safe_text(t@),
            None => true,
        }) && (match f.incorrect {
            Some(t) => xml_safe_text(t@),
            None => true,
        }),
        None => true,
    }
    &&& match q.question_type {
        crate::types::QuestionType::MultipleChoice { choices, .. } => forall|i: int|
            0 <= i < choices@.len() ==> xml_safe_text((#[trigger] choices@[i]).id@)
                && xml_safe_text(choices@[i].text@),
        crate::types::QuestionType::MultipleAnswer { choices, .. } => forall|i: int|
            0 <= i < choices@.len() ==> xml_safe_text((#[trigger] choices@[i]).id@)
                && xml_safe_text(choices@[i].text@),
        crate::types::QuestionType::ShortAnswer { answers, .. } => forall|i: int|
            0 <= i < answers@.len() ==> xml_safe_text((#[trigger] answers@[i]).text@) && (
            #[trigger] answers@[i]).weight.scale < 0x1000000,
        _ => true,
    }
}

/// Every string of the assessment that lands in the document holds only
/// legal XML characters and stays within the reader's size limits, and
/// every point value and weight has a bounded scale. Control characters
/// other than tab, line feed and carriage return cannot appear in any XML
/// 1.0 document, so a title or question text carrying one (for example a
/// backspace) has no faithful serialisation; the guarantees below leave
/// such assessments out, as they do strings and rendered decimals too long
/// for the reader's caps.
pub open spec fn assessment_xml_safe(a: crate::types::Assessment) -> bool {
    &&& xml_safe_text(a.title@)
    &&& xml_safe_text(a.identifier@)
    &&& forall|i: int| 0 <= i < a.questions@.len() ==> q_xml_safe(#[trigger] a.questions@[i])
}

/// A plain XML name other than `xmlns` is a legal attribute entry with any
/// value.
proof fn lemma_plain_entry_ok(k: Seq<char>, v: Seq<char>)
    requires
        xml_name_ok(k),
        k != "xmlns"@,
    ensures
        attr_entry_ok(k, v),
{
}

/// XML-safe texts stay XML-safe under concatenation.
proof fn lemma_text_ok_concat(a: Seq<char>, b: Seq<char>)
    requires
        xml_text_ok(a),
        xml_text_ok(b),
    ensures
        xml_text_ok(a + b),
{
    assert forall|i: int| 0 <= i < (a + b).len() implies (#[trigger] (a + b)[i] == '\t' || (a
        + b)[i] == '\n' || (a + b)[i] == '\r' || ('\u{20}' <= (a + b)[i] && (a + b)[i]
        <= '\u{d7ff}') || ('\u{e000}' <= (a + b)[i] && (a + b)[i] <= '\u{fffd}') || ('\u{10000}'
        <= (a + b)[i] && (a + b)[i] <= '\u{10ffff}')) by {
        if i < a.len() {
            assert((a + b)[i] == a[i]);
        } else {
            assert((a + b)[i] == b[i - a.len()]);
        }
    }
}

/// A slice of an XML-safe text is XML-safe.
proof fn lemma_text_ok_subrange(s: Seq<char>, i: int, j: int)
    requires
        xml_text_ok(s),
        0 <= i <= j <= s.len(),
    ensures
        xml_text_ok(s.subrange(i, j)),
{
}

/// Decimal digit strings are XML-safe.
proof fn lemma_text_ok_digits(n: int)
    ensures
        xml_text_ok(crate::text::spec_u64_digits(n)),
    decreases n,
{
    if n >= 10 {
        lemma_text_ok_digits(n / 10);
    }
}

/// Rendered decimals are XML-safe.
proof fn lemma_text_ok_decimal(d: crate::decimal::Decimal)
    ensures
        xml_text_ok(crate::decimal::spec_decimal_str(d)),
{
    lemma_text_ok_digits(d.mantissa as int);
    let ds = crate::text::spec_u64_digits(d.mantissa as int);
    if d.scale == 0 {
    } else if ds.len() > d.scale {
        lemma_text_ok_subrange(ds, 0, ds.len() - d.scale);
        lemma_text_ok_subrange(ds, ds.len() - d.scale, ds.len() as int);
        assert(ds.take(ds.len() - d.scale) =~= ds.subrange(0, ds.len() - d.scale));
        assert(ds.skip(ds.len() - d.scale) =~= ds.subrange(ds.len() - d.scale, ds.len() as int));
        lemma_text_ok_concat(ds.take(ds.len() - d.scale), seq!['.']);
        lemma_text_ok_concat(ds.take(ds.len() - d.scale) + seq!['.'], ds.skip(ds.len() - d.scale));
    } else {
        assert(xml_text_ok(Seq::new((d.scale - ds.len()) as nat, |i: int| '0')));
        lemma_text_ok_concat(seq!['0', '.'], Seq::new((d.scale - ds.len()) as nat, |i: int| '0'));
        lemma_text_ok_concat(
            seq!['0', '.'] + Seq::new((d.scale - ds.len()) as nat, |i: int| '0'),
            ds,
        );
    }
    if d.negative {
        lemma_text_ok_concat(seq!['-'], crate::decimal::spec_decimal_str(
            crate::decimal::Decimal { negative: false, ..d },
        ));
        assert(crate::decimal::spec_decimal_str(d) =~= seq!['-']
            + crate::decimal::spec_decimal_str(crate::decimal::Decimal { negative: false, ..d }));
    }
}

/// Generated identifiers are XML-safe: an XML-safe prefix followed by
/// lowercase hexadecimal digits and hyphens.
proof fn lemma_text_ok_generated(id: Seq<char>, prefix: Seq<char>)
    requires
        crate::types::is_generated_id(id, prefix),
        xml_text_ok(prefix),
    ensures
        xml_text_ok(id),
{
    assert forall|i: int| 0 <= i < id.len() implies (#[trigger] id[i] == '\t' || id[i] == '\n'
        || id[i] == '\r' || ('\u{20}' <= id[i] && id[i] <= '\u{d7ff}') || ('\u{e000}' <= id[i]
        && id[i] <= '\u{fffd}') || ('\u{10000}' <= id[i] && id[i] <= '\u{10ffff}')) by {
        if i < prefix.len() {
            assert(id.take(prefix.len() as int)[i] == id[i]);
            assert(prefix[i] == id[i]);
        } else {
            assert(id.skip(prefix.len() as int)[i - prefix.len()] == id[i]);
        }
    }
}

/// A child list of well-formed elements (and no text) passes the child
/// check.
proof fn lemma_children_valid_all(schema: SpecSchema, def: SpecElementDef, ns: Seq<SpecNode>)
    requires
        forall|i: int| 0 <= i < ns.len() ==> match #[trigger] ns[i] {
            SpecNode::Element(c) => def.children.contains(c.name) && s_elem_valid(
                schema,
                c,
                c.name,
            ),
            SpecNode::Text(_) => true,
        },
    ensures
        s_children_valid(schema, def, ns),
    decreases ns.len(),
{
    if ns.len() > 0 {
        assert forall|i: int| 0 <= i < ns.drop_first().len() implies match #[trigger] ns.drop_first()[i] {
            SpecNode::Element(c) => def.children.contains(c.name) && s_elem_valid(
                schema,
                c,
                c.name,
            ),
            SpecNode::Text(_) => true,
        } by {
            assert(ns.drop_first()[i] == ns[i + 1]);
        }
        lemma_children_valid_all(schema, def, ns.drop_first());
    }
}

/// A child list of key-distinct elements is key-distinct.
proof fn lemma_nodes_distinct_all(ns: Seq<SpecNode>)
    requires
        forall|i: int| 0 <= i < ns.len() ==> match #[trigger] ns[i] {
            SpecNode::Element(c) => attrs_distinct(c),
            SpecNode::Text(_) => true,
        },
    ensures
        nodes_attrs_distinct(ns),
    decreases ns.len(),
{
    if ns.len() > 0 {
        assert forall|i: int| 0 <= i < ns.drop_first().len() implies match #[trigger] ns.drop_first()[i] {
            SpecNode::Element(c) => attrs_distinct(c),
            SpecNode::Text(_) => true,
        } by {
            assert(ns.drop_first()[i] == ns[i + 1]);
        }
        lemma_nodes_distinct_all(ns.drop_first());
    }
}

/// A child list of writable elements is writable.
proof fn lemma_writable_children_all(ns: Seq<ParsedNode>)
    requires
        forall|i: int| 0 <= i < ns.len() ==> #[trigger] ns[i] is Element && writable(
            ns[i]->Element_0,
        ),
    ensures
        writable_elem_children(ns),
    decreases ns.len(),
{
    if ns.len() > 0 {
        assert forall|i: int|
            0 <= i < ns.drop_first().len() implies #[trigger] ns.drop_first()[i] is Element
                && writable(ns.drop_first()[i]->Element_0) by {
            assert(ns.drop_first()[i] == ns[i + 1]);
        }
        lemma_writable_children_all(ns.drop_first());
    }
}

/// A child list of elements within the reader's limits is within them.
proof fn lemma_limits_children_all(ns: Seq<crate::xml::SpecNode>)
    requires
        forall|i: int| 0 <= i < ns.len() ==> match #[trigger] ns[i] {
            crate::xml::SpecNode::Element(c) => within_read_limits(c),
            crate::xml::SpecNode::Text(t) => t.len() < 0x8000000,
        },
    ensures
        nodes_within_read_limits(ns),
    decreases ns.len(),
{
    if ns.len() > 0 {
        assert forall|i: int| 0 <= i < ns.drop_first().len() implies match #[trigger] ns.drop_first()[i] {
            crate::xml::SpecNode::Element(c) => within_read_limits(c),
            crate::xml::SpecNode::Text(t) => t.len() < 0x8000000,
        } by {
            assert(ns.drop_first()[i] == ns[i + 1]);
        }
        lemma_limits_children_all(ns.drop_first());
    }
}

/// Powers of ten.
pub open spec fn pow10(k: nat) -> int
    decreases k,
{
    if k == 0 {
        1
    } else {
        10 * pow10((k - 1) as nat)
    }
}

/// A number below the `k`-th power of ten renders in at most `k` digits.
proof fn lemma_digits_len(n: int, k: nat)
    requires
        1 <= k,
        0 <= n < pow10(k),
    ensures
        crate::text::spec_u64_digits(n).len() <= k,
    decreases k,
{
    if n >= 10 {
        assert(k >= 2) by {
            if k == 1 {
                assert(pow10(1) == 10);
            }
        }
        assert(n / 10 < pow10((k - 1) as nat)) by {
            assert(pow10(k) == 10 * pow10((k - 1) as nat));
            assert(n < 10 * pow10((k - 1) as nat));
        }
        lemma_digits_len(n / 10, (k - 1) as nat);
    }
}

/// Sixty-four-bit numbers render in at most twenty digits.
proof fn lemma_digits_len_u64(n: int)
    requires
        0 <= n <= u64::MAX,
    ensures
        crate::text::spec_u64_digits(n).len() <= 20,
{
    assert(u64::MAX < pow10(20)) by {
        reveal_with_fuel(pow10, 21);
    }
    lemma_digits_len(n, 20);
}

/// A rendered decimal's length is bounded by its scale plus the mantissa's
/// digits and the sign and point.
proof fn lemma_decimal_len(d: crate::decimal::Decimal)
    ensures
        crate::decimal::spec_decimal_str(d).len() <= 23 + d.scale,
{
    lemma_digits_len_u64(d.mantissa as int);
}

/// A successful attribute lookup finds one of the listed keys.
proof fn lemma_attr_lookup_dom(attrs: Seq<(Seq<char>, Seq<char>)>, k: Seq<char>)
    ensures
        s_attr_lookup(attrs, k) matches Some(v) ==> exists|i: int|
            0 <= i < attrs.len() && #[trigger] attrs[i] == (k, v),
    decreases attrs.len(),
{
    if attrs.len() > 0 {
        if attrs[0].0 == k {
            assert(attrs[0] == (k, s_attr_lookup(attrs, k)->0));
        } else {
            lemma_attr_lookup_dom(attrs.drop_first(), k);
            if s_attr_lookup(attrs, k) is Some {
                let v = s_attr_lookup(attrs, k)->0;
                let i = choose|i: int|
                    0 <= i < attrs.drop_first().len() && #[trigger] attrs.drop_first()[i] == (k, v);
                assert(attrs[i + 1] == (k, v));
            }
        }
    }
}

/// The unfolding of `parsed_nodes` one node at a time.
proof fn lemma_parsed_nodes_index(ns: Seq<SpecNode>)
    ensures
        parsed_nodes(ns).len() == ns.len(),
        forall|i: int| 0 <= i < ns.len() ==> #[trigger] parsed_nodes(ns)[i] == (match ns[i] {
            SpecNode::Element(c) => ParsedNode::Element(parsed_model(c)),
            SpecNode::Text(t) => ParsedNode::Text(t),
        }),
    decreases ns.len(),
{
    if ns.len() > 0 {
        lemma_parsed_nodes_index(ns.drop_first());
        assert forall|i: int| 0 <= i < ns.len() implies #[trigger] parsed_nodes(ns)[i] == (
        match ns[i] {
            SpecNode::Element(c) => ParsedNode::Element(parsed_model(c)),
            SpecNode::Text(t) => ParsedNode::Text(t),
        }) by {
            if i > 0 {
                assert(parsed_nodes(ns)[i] == parsed_nodes(ns.drop_first())[i - 1]);
                assert(ns.drop_first()[i - 1] == ns[i]);
            }
        }
    }
}

/// The `material` block is well formed.
proof fn lemma_material_good(text: Seq<char>)
    requires
        xml_safe_text(text),
    ensures
        elem_good(crate::builder::spec_material(text), "material"@),
{
    lemma_qti_lookup();
    reveal_strlit("material");
    reveal_strlit("mattext");
    reveal_strlit("texttype");
    reveal_strlit("text/plain");
    reveal_strlit("text/html");
    reveal_strlit("schemaLocation");
    reveal_strlit("xsi:schemaLocation");
    reveal_strlit("xmlns");
    let e = crate::builder::spec_material(text);
    let mt = e.children[0]->Element_0;
    // structural validity
    let def_mat = s_find_def(spec_qti_defs(), "material"@)->0;
    let def_mt = s_find_def(spec_qti_defs(), "mattext"@)->0;
    assert(def_mat.children[0] == "mattext"@);
    assert(def_mat.children.contains("mattext"@));
    assert(s_attr_lookup(mt.attrs, "texttype"@) == Some("text/html"@));
    assert(def_mt.attributes[0].values->0[1] == "text/html"@);
    assert(def_mt.attributes[0].values->0.contains("text/html"@));
    assert forall|i: int| 0 <= i < def_mt.attributes.len() implies s_attr_ok(
        mt,
        #[trigger] def_mt.attributes[i],
    ) by {}
    lemma_children_valid_all(spec_qti_schema(), def_mt, mt.children);
    assert(s_elem_valid(spec_qti_schema(), mt, "mattext"@));
    lemma_children_valid_all(spec_qti_schema(), def_mat, e.children);
    assert forall|i: int| 0 <= i < def_mat.attributes.len() implies s_attr_ok(
        e,
        #[trigger] def_mat.attributes[i],
    ) by {}
    assert(s_elem_valid(spec_qti_schema(), e, "material"@));
    // distinct keys
    lemma_nodes_distinct_all(mt.children);
    assert(attrs_distinct(mt));
    lemma_nodes_distinct_all(e.children);
    assert(attrs_distinct(e));
    // writable
    let pm = parsed_model(mt);
    assert(xml_name_ok("mattext"@));
    assert("texttype"@.len() == 8);
    assert("schemaLocation"@.len() == 14 && "xsi:schemaLocation"@.len() == 18);
    reveal_strlit("xmlns");
    assert("xmlns"@.len() == 5);
    assert(xml_text_ok("text/html"@));
    lemma_plain_entry_ok("texttype"@, "text/html"@);
    lemma_keys_ok(mt);
    lemma_parsed_nodes_index(mt.children);
    assert(pm.children.len() == 1 && pm.children[0] is Text);
    assert(writable(pm));
    let pe = parsed_model(e);
    assert(xml_name_ok("material"@));
    lemma_keys_ok(e);
    lemma_parsed_nodes_index(e.children);
    assert(pe.children[0] == ParsedNode::Element(parsed_model(mt)));
    lemma_writable_children_all(pe.children);
    assert(writable(pe));
    lemma_limits_children_all(mt.children);
    assert(within_read_limits(mt));
    lemma_limits_children_all(e.children);
    assert(within_read_limits(e));
}

/// Well-formed attribute entries and XML-safe values make a well-formed
/// parsed attribute map.
proof fn lemma_keys_ok(e: SpecElement)
    requires
        forall|i: int|
            0 <= i < e.attrs.len() ==> attr_entry_ok(
                (#[trigger] e.attrs[i]).0,
                e.attrs[i].1,
            ) && e.attrs[i].0 != "schemaLocation"@ && xml_text_ok(e.attrs[i].1),
        (exists|i: int|
            0 <= i < e.attrs.len() && (#[trigger] e.attrs[i]).0 == "xsi:schemaLocation"@)
            ==> s_attr_lookup(e.attrs, "xmlns:xsi"@) is Some,
    ensures
        forall|k: Seq<char>|
            #[trigger] parsed_model(e).attrs.contains_key(k) ==> attr_entry_ok(
                k,
                parsed_model(e).attrs[k],
            ) && xml_text_ok(parsed_model(e).attrs[k]),
        !parsed_model(e).attrs.contains_key("schemaLocation"@),
        parsed_model(e).attrs.contains_key("xsi:schemaLocation"@) ==> parsed_model(
            e,
        ).attrs.contains_key("xmlns:xsi"@),
{
    assert forall|k: Seq<char>| #[trigger] parsed_model(e).attrs.contains_key(
        k,
    ) implies attr_entry_ok(k, parsed_model(e).attrs[k]) && xml_text_ok(
        parsed_model(e).attrs[k],
    ) by {
        lemma_attr_lookup_dom(e.attrs, k);
    }
    if parsed_model(e).attrs.contains_key("schemaLocation"@) {
        lemma_attr_lookup_dom(e.attrs, "schemaLocation"@);
        assert(false);
    }
    if parsed_model(e).attrs.contains_key("xsi:schemaLocation"@) {
        lemma_attr_lookup_dom(e.attrs, "xsi:schemaLocation"@);
    }
}

/// The `qtimetadatafield` block is well formed.
proof fn lemma_metadata_field_good(label: Seq<char>, entry: Seq<char>)
    requires
        xml_safe_text(label),
        xml_safe_text(entry),
    ensures
        elem_good(crate::builder::spec_metadata_field(label, entry), "qtimetadatafield"@),
{
    lemma_qti_lookup();
    reveal_strlit("qtimetadatafield");
    reveal_strlit("fieldlabel");
    reveal_strlit("fieldentry");
    let e = crate::builder::spec_metadata_field(label, entry);
    let fl = e.children[0]->Element_0;
    let fe = e.children[1]->Element_0;
    let def = s_find_def(spec_qti_defs(), "qtimetadatafield"@)->0;
    let def_fl = s_find_def(spec_qti_defs(), "fieldlabel"@)->0;
    let def_fe = s_find_def(spec_qti_defs(), "fieldentry"@)->0;
    assert(def.children[0] == "fieldlabel"@ && def.children[1] == "fieldentry"@);
    assert(def.children.contains("fieldlabel"@) && def.children.contains("fieldentry"@));
    lemma_children_valid_all(spec_qti_schema(), def_fl, fl.children);
    lemma_children_valid_all(spec_qti_schema(), def_fe, fe.children);
    assert(s_elem_valid(spec_qti_schema(), fl, "fieldlabel"@));
    assert(s_elem_valid(spec_qti_schema(), fe, "fieldentry"@));
    lemma_children_valid_all(spec_qti_schema(), def, e.children);
    assert(s_elem_valid(spec_qti_schema(), e, "qtimetadatafield"@));
    lemma_nodes_distinct_all(fl.children);
    lemma_nodes_distinct_all(fe.children);
    lemma_nodes_distinct_all(e.children);
    assert(attrs_distinct(e));
    assert(xml_name_ok("qtimetadatafield"@));
    assert(xml_name_ok("fieldlabel"@));
    assert(xml_name_ok("fieldentry"@));
    lemma_keys_ok(fl);
    lemma_keys_ok(fe);
    lemma_keys_ok(e);
    lemma_parsed_nodes_index(fl.children);
    lemma_parsed_nodes_index(fe.children);
    assert(writable(parsed_model(fl)));
    assert(writable(parsed_model(fe)));
    lemma_parsed_nodes_index(e.children);
    assert(parsed_model(e).children[0] == ParsedNode::Element(parsed_model(fl)));
    assert(parsed_model(e).children[1] == ParsedNode::Element(parsed_model(fe)));
    lemma_writable_children_all(parsed_model(e).children);
    assert(writable(parsed_model(e)));
    lemma_limits_children_all(fl.children);
    lemma_limits_children_all(fe.children);
    assert(within_read_limits(fl) && within_read_limits(fe));
    lemma_limits_children_all(e.children);
    assert(within_read_limits(e));
}

proof fn lemma_metadata_field_good_all()
    ensures
        forall|label: Seq<char>, entry: Seq<char>|
            xml_safe_text(label) && xml_safe_text(entry) ==> elem_good(
                #[trigger] crate::builder::spec_metadata_field(label, entry),
                "qtimetadatafield"@,
            ),
{
    assert forall|label: Seq<char>, entry: Seq<char>|
        xml_safe_text(label) && xml_safe_text(entry) implies elem_good(
        #[trigger] crate::builder::spec_metadata_field(label, entry),
        "qtimetadatafield"@,
    ) by {
        lemma_metadata_field_good(label, entry);
    }
}

proof fn lemma_material_good_all()
    ensures
        forall|text: Seq<char>|
            xml_safe_text(text) ==> elem_good(
                #[trigger] crate::builder::spec_material(text),
                "material"@,
            ),
{
    assert forall|text: Seq<char>| xml_safe_text(text) implies elem_good(
        #[trigger] crate::builder::spec_material(text),
        "material"@,
    ) by {
        lemma_material_good(text);
    }
}

/// The `response_label` of a choice is well formed.
proof fn lemma_response_label_good(id: Seq<char>, text: Seq<char>)
    requires
        xml_safe_text(id),
        xml_safe_text(text),
    ensures
        elem_good(crate::builder::spec_response_label(id, text), "response_label"@),
{
    lemma_qti_lookup();
    lemma_material_good(text);
    reveal_strlit("response_label");
    reveal_strlit("material");
    reveal_strlit("ident");
    reveal_strlit("schemaLocation");
    reveal_strlit("xsi:schemaLocation");
    assert("xsi:schemaLocation"@.len() == 18);
    let e = crate::builder::spec_response_label(id, text);
    let def = s_find_def(spec_qti_defs(), "response_label"@)->0;
    assert(def.children[0] == "material"@);
    assert(def.children.contains("material"@));
    lemma_children_valid_all(spec_qti_schema(), def, e.children);
    assert(s_attr_lookup(e.attrs, "ident"@) == Some(id));
    assert forall|i: int| 0 <= i < def.attributes.len() implies s_attr_ok(
        e,
        #[trigger] def.attributes[i],
    ) by {}
    assert(s_elem_valid(spec_qti_schema(), e, "response_label"@));
    lemma_nodes_distinct_all(e.children);
    assert(attrs_distinct(e));
    assert(xml_name_ok("response_label"@));
    assert(xml_name_ok("ident"@));
    assert("ident"@.len() == 5 && "schemaLocation"@.len() == 14);
    reveal_strlit("xmlns");
    assert("ident"@[0] != "xmlns"@[0]);
    lemma_plain_entry_ok("ident"@, id);
    lemma_keys_ok(e);
    lemma_parsed_nodes_index(e.children);
    lemma_writable_children_all(parsed_model(e).children);
    assert(writable(parsed_model(e)));
    lemma_limits_children_all(e.children);
    assert(within_read_limits(e));
}

proof fn lemma_response_label_good_all()
    ensures
        forall|id: Seq<char>, text: Seq<char>|
            xml_safe_text(id) && xml_safe_text(text) ==> elem_good(
                #[trigger] crate::builder::spec_response_label(id, text),
                "response_label"@,
            ),
{
    assert forall|id: Seq<char>, text: Seq<char>|
        xml_safe_text(id) && xml_safe_text(text) implies elem_good(
        #[trigger] crate::builder::spec_response_label(id, text),
        "response_label"@,
    ) by {
        lemma_response_label_good(id, text);
    }
}

proof fn lemma_render_choice_good(entries: Seq<(Seq<char>, Seq<char>)>, shuffle: bool)
    requires
        forall|i: int|
            0 <= i < entries.len() ==> xml_safe_text((#[trigger] entries[i]).0) && xml_safe_text(
                entries[i].1,
            ),
    ensures
        elem_good(crate::builder::spec_render_choice(entries, shuffle), "render_choice"@),
{
    lemma_qti_lookup();
    lemma_response_label_good_all();
    reveal_strlit("render_choice");
    reveal_strlit("response_label");
    reveal_strlit("shuffle");
    reveal_strlit("Yes");
    reveal_strlit("No");
    reveal_strlit("schemaLocation");
    reveal_strlit("xsi:schemaLocation");
    assert("xsi:schemaLocation"@.len() == 18);
    assert(xml_text_ok("Yes"@));
    let e = crate::builder::spec_render_choice(entries, shuffle);
    let def = s_find_def(spec_qti_defs(), "render_choice"@)->0;
    assert(def.children[0] == "response_label"@);
    assert(def.children.contains("response_label"@));
    assert forall|i: int| 0 <= i < e.children.len() implies match #[trigger] e.children[i] {
        SpecNode::Element(c) => def.children.contains(c.name) && s_elem_valid(
            spec_qti_schema(),
            c,
            c.name,
        ),
        SpecNode::Text(_) => true,
    } by {
        assert(e.children[i] == SpecNode::Element(
            crate::builder::spec_response_label(entries[i].0, entries[i].1),
        ));
    }
    lemma_children_valid_all(spec_qti_schema(), def, e.children);
    if shuffle {
        assert(s_attr_lookup(e.attrs, "shuffle"@) == Some("Yes"@));
        assert(def.attributes[0].values->0[0] == "Yes"@);
        assert(def.attributes[0].values->0.contains("Yes"@));
    } else {
        reveal_with_fuel(s_attr_lookup, 5);
    }
    assert forall|i: int| 0 <= i < def.attributes.len() implies s_attr_ok(
        e,
        #[trigger] def.attributes[i],
    ) by {}
    assert(s_elem_valid(spec_qti_schema(), e, "render_choice"@));
    assert forall|i: int| 0 <= i < e.children.len() implies match #[trigger] e.children[i] {
        SpecNode::Element(c) => attrs_distinct(c),
        SpecNode::Text(_) => true,
    } by {
        assert(e.children[i] == SpecNode::Element(
            crate::builder::spec_response_label(entries[i].0, entries[i].1),
        ));
    }
    lemma_nodes_distinct_all(e.children);
    assert(attrs_distinct(e));
    assert(xml_name_ok("render_choice"@));
    assert(xml_name_ok("shuffle"@));
    assert("shuffle"@.len() == 7 && "schemaLocation"@.len() == 14);
    reveal_strlit("xmlns");
    assert("xmlns"@.len() == 5);
    lemma_plain_entry_ok("shuffle"@, "Yes"@);
    lemma_keys_ok(e);
    lemma_parsed_nodes_index(e.children);
    assert forall|i: int|
        0 <= i < parsed_model(e).children.len() implies #[trigger] parsed_model(e).children[i]
            is Element && writable(parsed_model(e).children[i]->Element_0) by {
        assert(e.children[i] == SpecNode::Element(
            crate::builder::spec_response_label(entries[i].0, entries[i].1),
        ));
    }
    lemma_writable_children_all(parsed_model(e).children);
    assert(writable(parsed_model(e)));
    assert forall|i: int| 0 <= i < e.children.len() implies match #[trigger] e.children[i] {
        SpecNode::Element(c) => within_read_limits(c),
        SpecNode::Text(t) => t.len() < 0x8000000,
    } by {
        assert(e.children[i] == SpecNode::Element(
            crate::builder::spec_response_label(entries[i].0, entries[i].1),
        ));
    }
    lemma_limits_children_all(e.children);
    assert(within_read_limits(e));
}

proof fn lemma_response_lid_good(
    qid: Seq<char>,
    card: Seq<char>,
    entries: Seq<(Seq<char>, Seq<char>)>,
    shuffle: bool,
)
    requires
        card == "Single"@ || card == "Multiple"@,
        xml_safe_text(qid),
        forall|i: int|
            0 <= i < entries.len() ==> xml_safe_text((#[trigger] entries[i]).0) && xml_safe_text(
                entries[i].1,
            ),
    ensures
        elem_good(crate::builder::spec_response_lid(qid, card, entries, shuffle), "response_lid"@),
{
    lemma_qti_lookup();
    lemma_render_choice_good(entries, shuffle);
    reveal_strlit("response_");
    reveal_strlit("xsi:schemaLocation");
    assert("xsi:schemaLocation"@.len() == 18);
    assert(xml_text_ok("response_"@) && xml_text_ok("Single"@) && xml_text_ok("Multiple"@)) by {
        reveal_strlit("Single");
        reveal_strlit("Multiple");
    }
    lemma_text_ok_concat("response_"@, qid);
    reveal_strlit("response_lid");
    reveal_strlit("render_choice");
    reveal_strlit("ident");
    reveal_strlit("rcardinality");
    reveal_strlit("rtiming");
    reveal_strlit("Single");
    reveal_strlit("Multiple");
    reveal_strlit("schemaLocation");
    reveal_with_fuel(s_attr_lookup, 5);
    let e = crate::builder::spec_response_lid(qid, card, entries, shuffle);
    let def = s_find_def(spec_qti_defs(), "response_lid"@)->0;
    assert(def.children[0] == "render_choice"@);
    assert(def.children.contains("render_choice"@));
    lemma_children_valid_all(spec_qti_schema(), def, e.children);
    assert("ident"@.len() == 5 && "rcardinality"@.len() == 12 && "rtiming"@.len() == 7);
    assert(s_attr_lookup(e.attrs, "ident"@) is Some);
    assert(s_attr_lookup(e.attrs, "rcardinality"@) == Some(card));
    assert(s_attr_lookup(e.attrs, "rtiming"@) is None);
    assert(def.attributes[1].values->0[0] == "Single"@);
    assert(def.attributes[1].values->0[1] == "Multiple"@);
    assert(def.attributes[1].values->0.contains(card));
    assert forall|i: int| 0 <= i < def.attributes.len() implies s_attr_ok(
        e,
        #[trigger] def.attributes[i],
    ) by {}
    assert(s_elem_valid(spec_qti_schema(), e, "response_lid"@));
    lemma_nodes_distinct_all(e.children);
    assert(attrs_distinct(e));
    assert(xml_name_ok("response_lid"@));
    assert(xml_name_ok("ident"@) && xml_name_ok("rcardinality"@));
    assert("schemaLocation"@.len() == 14);
    reveal_strlit("xmlns");
    assert("ident"@[0] != "xmlns"@[0]);
    lemma_plain_entry_ok("ident"@, crate::builder::spec_response_ident(qid));
    lemma_plain_entry_ok("rcardinality"@, card);
    lemma_keys_ok(e);
    lemma_parsed_nodes_index(e.children);
    lemma_writable_children_all(parsed_model(e).children);
    assert(writable(parsed_model(e)));
    lemma_limits_children_all(e.children);
    assert(within_read_limits(e));
}

proof fn lemma_response_str_good(qid: Seq<char>, qt: crate::types::QuestionType)
    requires
        xml_safe_text(qid),
    ensures
        elem_good(crate::builder::spec_response_str(qid, qt), "response_str"@),
{
    lemma_qti_lookup();
    reveal_strlit("response_");
    reveal_strlit("xsi:schemaLocation");
    assert("xsi:schemaLocation"@.len() == 18);
    lemma_text_ok_concat("response_"@, qid);
    reveal_strlit("response_str");
    reveal_strlit("render_fib");
    reveal_strlit("ident");
    reveal_strlit("rcardinality");
    reveal_strlit("rows");
    reveal_strlit("columns");
    reveal_strlit("Single");
    reveal_strlit("Multiple");
    reveal_strlit("40");
    reveal_strlit("10");
    reveal_strlit("80");
    reveal_strlit("schemaLocation");
    reveal_with_fuel(s_attr_lookup, 5);
    assert(xml_text_ok("Single"@) && xml_text_ok("40"@) && xml_text_ok("10"@) && xml_text_ok(
        "80"@,
    ));
    let e = crate::builder::spec_response_str(qid, qt);
    let fib = e.children[0]->Element_0;
    let def = s_find_def(spec_qti_defs(), "response_str"@)->0;
    let def_fib = s_find_def(spec_qti_defs(), "render_fib"@)->0;
    assert("rows"@.len() == 4 && "columns"@.len() == 7 && "schemaLocation"@.len() == 14);
    assert forall|i: int| 0 <= i < def_fib.attributes.len() implies s_attr_ok(
        fib,
        #[trigger] def_fib.attributes[i],
    ) by {
        match qt {
            crate::types::QuestionType::ShortAnswer { .. } => {},
            crate::types::QuestionType::Essay { .. } => {},
            _ => {},
        }
    }
    lemma_children_valid_all(spec_qti_schema(), def_fib, fib.children);
    assert(s_elem_valid(spec_qti_schema(), fib, "render_fib"@));
    assert(def.children[0] == "render_fib"@);
    assert(def.children.contains("render_fib"@));
    lemma_children_valid_all(spec_qti_schema(), def, e.children);
    assert("ident"@.len() == 5 && "rcardinality"@.len() == 12);
    assert(s_attr_lookup(e.attrs, "ident"@) is Some);
    assert(s_attr_lookup(e.attrs, "rcardinality"@) == Some("Single"@));
    assert(def.attributes[1].values->0[0] == "Single"@);
    assert(def.attributes[1].values->0.contains("Single"@));
    assert forall|i: int| 0 <= i < def.attributes.len() implies s_attr_ok(
        e,
        #[trigger] def.attributes[i],
    ) by {}
    assert(s_elem_valid(spec_qti_schema(), e, "response_str"@));
    assert forall|i: int, j: int|
        0 <= i < j < fib.attrs.len() implies (#[trigger] fib.attrs[i]).0 != (
    #[trigger] fib.attrs[j]).0 by {
        assert("rows"@[0] != "columns"@[0]);
    }
    assert(attrs_distinct(fib));
    lemma_nodes_distinct_all(fib.children);
    lemma_nodes_distinct_all(e.children);
    assert(attrs_distinct(e));
    assert(xml_name_ok("response_str"@) && xml_name_ok("render_fib"@));
    assert(xml_name_ok("ident"@) && xml_name_ok("rcardinality"@));
    assert(xml_name_ok("rows"@) && xml_name_ok("columns"@));
    reveal_strlit("xmlns");
    assert("ident"@[0] != "xmlns"@[0]);
    lemma_plain_entry_ok("rows"@, "10"@);
    lemma_plain_entry_ok("columns"@, "40"@);
    lemma_plain_entry_ok("columns"@, "80"@);
    lemma_plain_entry_ok("ident"@, crate::builder::spec_response_ident(qid));
    lemma_plain_entry_ok("rcardinality"@, "Single"@);
    lemma_keys_ok(fib);
    lemma_parsed_nodes_index(fib.children);
    assert(parsed_model(fib).children.len() == 0);
    assert(writable(parsed_model(fib)));
    lemma_keys_ok(e);
    lemma_parsed_nodes_index(e.children);
    lemma_writable_children_all(parsed_model(e).children);
    assert(writable(parsed_model(e)));
    lemma_limits_children_all(fib.children);
    assert(within_read_limits(fib));
    lemma_limits_children_all(e.children);
    assert(within_read_limits(e));
}

proof fn lemma_response_num_good(qid: Seq<char>)
    requires
        xml_safe_text(qid),
    ensures
        elem_good(crate::builder::spec_response_num(qid), "response_num"@),
{
    lemma_qti_lookup();
    reveal_strlit("response_");
    reveal_strlit("xsi:schemaLocation");
    assert("xsi:schemaLocation"@.len() == 18);
    lemma_text_ok_concat("response_"@, qid);
    reveal_strlit("response_num");
    reveal_strlit("render_fib");
    reveal_strlit("ident");
    reveal_strlit("rcardinality");
    reveal_strlit("numtype");
    reveal_strlit("Single");
    reveal_strlit("Multiple");
    reveal_strlit("Decimal");
    reveal_strlit("schemaLocation");
    reveal_with_fuel(s_attr_lookup, 6);
    assert(xml_text_ok("Single"@) && xml_text_ok("Decimal"@));
    let e = crate::builder::spec_response_num(qid);
    let fib = e.children[0]->Element_0;
    let def = s_find_def(spec_qti_defs(), "response_num"@)->0;
    let def_fib = s_find_def(spec_qti_defs(), "render_fib"@)->0;
    lemma_children_valid_all(spec_qti_schema(), def_fib, fib.children);
    reveal_strlit("rows");
    reveal_strlit("columns");
    assert("rows"@.len() == 4 && "columns"@.len() == 7);
    assert(s_elem_valid(spec_qti_schema(), fib, "render_fib"@));
    assert(def.children[0] == "render_fib"@);
    assert(def.children.contains("render_fib"@));
    lemma_children_valid_all(spec_qti_schema(), def, e.children);
    assert("ident"@.len() == 5 && "rcardinality"@.len() == 12 && "numtype"@.len() == 7);
    assert(s_attr_lookup(e.attrs, "ident"@) is Some);
    assert(s_attr_lookup(e.attrs, "rcardinality"@) == Some("Single"@));
    assert(def.attributes[1].values->0[0] == "Single"@);
    assert(def.attributes[1].values->0.contains("Single"@));
    assert forall|i: int| 0 <= i < def.attributes.len() implies s_attr_ok(
        e,
        #[trigger] def.attributes[i],
    ) by {}
    assert(s_elem_valid(spec_qti_schema(), e, "response_num"@));
    assert forall|i: int, j: int|
        0 <= i < j < e.attrs.len() implies (#[trigger] e.attrs[i]).0 != (
    #[trigger] e.attrs[j]).0 by {
        assert("rcardinality"@[0] != "numtype"@[0]);
    }
    lemma_nodes_distinct_all(fib.children);
    lemma_nodes_distinct_all(e.children);
    assert(attrs_distinct(e));
    assert(xml_name_ok("response_num"@) && xml_name_ok("render_fib"@));
    assert(xml_name_ok("ident"@) && xml_name_ok("rcardinality"@) && xml_name_ok("numtype"@));
    assert("schemaLocation"@.len() == 14);
    reveal_strlit("xmlns");
    assert("ident"@[0] != "xmlns"@[0]);
    lemma_plain_entry_ok("ident"@, crate::builder::spec_response_ident(qid));
    lemma_plain_entry_ok("rcardinality"@, "Single"@);
    lemma_plain_entry_ok("numtype"@, "Decimal"@);
    lemma_keys_ok(fib);
    lemma_parsed_nodes_index(fib.children);
    assert(writable(parsed_model(fib)));
    lemma_keys_ok(e);
    lemma_parsed_nodes_index(e.children);
    lemma_writable_children_all(parsed_model(e).children);
    assert(writable(parsed_model(e)));
    lemma_limits_children_all(fib.children);
    assert(within_read_limits(fib));
    lemma_limits_children_all(e.children);
    assert(within_read_limits(e));
}

proof fn lemma_outcomes_good(points: crate::decimal::Decimal)
    requires
        points.scale < 0x1000000,
    ensures
        elem_good(crate::builder::spec_outcomes(points), "outcomes"@),
{
    lemma_qti_lookup();
    lemma_text_ok_decimal(points);
    lemma_decimal_len(points);
    reveal_strlit("xsi:schemaLocation");
    reveal_strlit("0");
    reveal_strlit("SCORE");
    reveal_strlit("Decimal");
    reveal_strlit("xmlns");
    assert("xsi:schemaLocation"@.len() == 18 && "xmlns"@.len() == 5);
    assert(xml_text_ok("0"@) && xml_text_ok("SCORE"@) && xml_text_ok("Decimal"@));
    reveal_strlit("outcomes");
    reveal_strlit("decvar");
    reveal_strlit("maxvalue");
    reveal_strlit("minvalue");
    reveal_strlit("varname");
    reveal_strlit("vartype");
    reveal_strlit("schemaLocation");
    reveal_with_fuel(s_attr_lookup, 6);
    let e = crate::builder::spec_outcomes(points);
    let dv = e.children[0]->Element_0;
    let def = s_find_def(spec_qti_defs(), "outcomes"@)->0;
    let def_dv = s_find_def(spec_qti_defs(), "decvar"@)->0;
    assert("maxvalue"@.len() == 8 && "minvalue"@.len() == 8 && "varname"@.len() == 7
        && "vartype"@.len() == 7);
    assert("maxvalue"@[1] != "minvalue"@[1]);
    assert("varname"@[3] != "vartype"@[3]);
    assert(s_attr_lookup(dv.attrs, "varname"@) is Some);
    assert(s_attr_lookup(dv.attrs, "vartype"@) is Some);
    assert(s_attr_lookup(dv.attrs, "minvalue"@) is Some);
    assert(s_attr_lookup(dv.attrs, "maxvalue"@) is Some);
    assert forall|i: int| 0 <= i < def_dv.attributes.len() implies s_attr_ok(
        dv,
        #[trigger] def_dv.attributes[i],
    ) by {}
    lemma_children_valid_all(spec_qti_schema(), def_dv, dv.children);
    assert(s_elem_valid(spec_qti_schema(), dv, "decvar"@));
    assert(def.children[0] == "decvar"@);
    assert(def.children.contains("decvar"@));
    lemma_children_valid_all(spec_qti_schema(), def, e.children);
    assert(s_elem_valid(spec_qti_schema(), e, "outcomes"@));
    assert forall|i: int, j: int|
        0 <= i < j < dv.attrs.len() implies (#[trigger] dv.attrs[i]).0 != (
    #[trigger] dv.attrs[j]).0 by {}
    assert(attrs_distinct(dv));
    lemma_nodes_distinct_all(dv.children);
    lemma_nodes_distinct_all(e.children);
    assert(attrs_distinct(e));
    assert(xml_name_ok("outcomes"@) && xml_name_ok("decvar"@));
    assert(xml_name_ok("maxvalue"@) && xml_name_ok("minvalue"@) && xml_name_ok("varname"@)
        && xml_name_ok("vartype"@));
    assert("schemaLocation"@.len() == 14);
    lemma_plain_entry_ok("maxvalue"@, crate::decimal::spec_decimal_str(points));
    lemma_plain_entry_ok("minvalue"@, "0"@);
    lemma_plain_entry_ok("varname"@, "SCORE"@);
    lemma_plain_entry_ok("vartype"@, "Decimal"@);
    lemma_keys_ok(dv);
    lemma_parsed_nodes_index(dv.children);
    assert(writable(parsed_model(dv)));
    lemma_keys_ok(e);
    lemma_parsed_nodes_index(e.children);
    lemma_writable_children_all(parsed_model(e).children);
    assert(writable(parsed_model(e)));
    lemma_limits_children_all(dv.children);
    assert(within_read_limits(dv)) by {
        assert(crate::decimal::spec_decimal_str(points).len() <= 23 + points.scale);
    }
    lemma_limits_children_all(e.children);
    assert(within_read_limits(e));
}

proof fn lemma_setvar_good(action: Seq<char>, score: Seq<char>)
    requires
        action == "Set"@ || action == "Add"@,
        xml_text_ok(score),
        score.len() < 0x8000000,
    ensures
        elem_good(crate::builder::spec_setvar(action, score), "setvar"@),
{
    lemma_qti_lookup();
    reveal_strlit("xsi:schemaLocation");
    assert("xsi:schemaLocation"@.len() == 18);
    reveal_strlit("setvar");
    reveal_strlit("action");
    reveal_strlit("varname");
    reveal_strlit("Set");
    reveal_strlit("Add");
    reveal_strlit("Subtract");
    reveal_strlit("SCORE");
    reveal_strlit("schemaLocation");
    reveal_with_fuel(s_attr_lookup, 5);
    assert(xml_text_ok(action) && xml_text_ok("SCORE"@));
    let e = crate::builder::spec_setvar(action, score);
    let def = s_find_def(spec_qti_defs(), "setvar"@)->0;
    assert("action"@.len() == 6 && "varname"@.len() == 7);
    assert(s_attr_lookup(e.attrs, "varname"@) is Some);
    assert(s_attr_lookup(e.attrs, "action"@) == Some(action));
    assert(def.attributes[1].values->0[0] == "Set"@);
    assert(def.attributes[1].values->0[1] == "Add"@);
    assert(def.attributes[1].values->0.contains(action));
    assert forall|i: int| 0 <= i < def.attributes.len() implies s_attr_ok(
        e,
        #[trigger] def.attributes[i],
    ) by {}
    lemma_children_valid_all(spec_qti_schema(), def, e.children);
    assert(s_elem_valid(spec_qti_schema(), e, "setvar"@));
    assert(attrs_distinct(e)) by {
        lemma_nodes_distinct_all(e.children);
    }
    assert(xml_name_ok("setvar"@) && xml_name_ok("action"@) && xml_name_ok("varname"@));
    assert("schemaLocation"@.len() == 14);
    reveal_strlit("xmlns");
    assert("xmlns"@.len() == 5);
    lemma_plain_entry_ok("action"@, action);
    lemma_plain_entry_ok("varname"@, "SCORE"@);
    lemma_keys_ok(e);
    lemma_parsed_nodes_index(e.children);
    assert(parsed_model(e).children.len() == 1 && parsed_model(e).children[0] is Text);
    assert(writable(parsed_model(e)));
    lemma_limits_children_all(e.children);
    assert(within_read_limits(e));
}

proof fn lemma_conditionvar_good(qid: Seq<char>, extra: Seq<(Seq<char>, Seq<char>)>, value: Seq<char>)
    requires
        extra == Seq::<(Seq<char>, Seq<char>)>::empty() || extra == seq![("case"@, "No"@)],
        xml_safe_text(qid),
        xml_safe_text(value),
    ensures
        elem_good(crate::builder::spec_conditionvar(qid, extra, value), "conditionvar"@),
{
    lemma_qti_lookup();
    reveal_strlit("response_");
    reveal_strlit("xsi:schemaLocation");
    assert("xsi:schemaLocation"@.len() == 18);
    lemma_text_ok_concat("response_"@, qid);
    reveal_strlit("conditionvar");
    reveal_strlit("varequal");
    reveal_strlit("respident");
    reveal_strlit("case");
    reveal_strlit("Yes");
    reveal_strlit("No");
    reveal_strlit("schemaLocation");
    reveal_with_fuel(s_attr_lookup, 5);
    assert(xml_text_ok("No"@));
    let e = crate::builder::spec_conditionvar(qid, extra, value);
    let ve = e.children[0]->Element_0;
    let def = s_find_def(spec_qti_defs(), "conditionvar"@)->0;
    let def_ve = s_find_def(spec_qti_defs(), "varequal"@)->0;
    assert("respident"@.len() == 9 && "case"@.len() == 4);
    if extra == seq![("case"@, "No"@)] {
        assert(ve.attrs =~= seq![("respident"@, crate::builder::spec_response_ident(qid)), (
        "case"@, "No"@)]);
        assert(s_attr_lookup(ve.attrs, "case"@) == Some("No"@));
        assert(def_ve.attributes[1].values->0[1] == "No"@);
        assert(def_ve.attributes[1].values->0.contains("No"@));
    } else {
        assert(ve.attrs =~= seq![("respident"@, crate::builder::spec_response_ident(qid))]);
    }
    assert(s_attr_lookup(ve.attrs, "respident"@) is Some);
    assert forall|i: int| 0 <= i < def_ve.attributes.len() implies s_attr_ok(
        ve,
        #[trigger] def_ve.attributes[i],
    ) by {}
    lemma_children_valid_all(spec_qti_schema(), def_ve, ve.children);
    assert(s_elem_valid(spec_qti_schema(), ve, "varequal"@));
    assert(def.children[0] == "varequal"@);
    assert(def.children.contains("varequal"@));
    lemma_children_valid_all(spec_qti_schema(), def, e.children);
    assert(s_elem_valid(spec_qti_schema(), e, "conditionvar"@));
    assert forall|i: int, j: int|
        0 <= i < j < ve.attrs.len() implies (#[trigger] ve.attrs[i]).0 != (
    #[trigger] ve.attrs[j]).0 by {}
    assert(attrs_distinct(ve)) by {
        lemma_nodes_distinct_all(ve.children);
    }
    lemma_nodes_distinct_all(e.children);
    assert(attrs_distinct(e));
    assert(xml_name_ok("conditionvar"@) && xml_name_ok("varequal"@));
    assert(xml_name_ok("respident"@) && xml_name_ok("case"@));
    assert("schemaLocation"@.len() == 14);
    reveal_strlit("xmlns");
    assert("xmlns"@.len() == 5);
    lemma_plain_entry_ok("respident"@, crate::builder::spec_response_ident(qid));
    lemma_plain_entry_ok("case"@, "No"@);
    lemma_keys_ok(ve);
    lemma_parsed_nodes_index(ve.children);
    assert(parsed_model(ve).children.len() == 1 && parsed_model(ve).children[0] is Text);
    assert(writable(parsed_model(ve)));
    lemma_keys_ok(e);
    lemma_parsed_nodes_index(e.children);
    lemma_writable_children_all(parsed_model(e).children);
    assert(writable(parsed_model(e)));
    lemma_limits_children_all(ve.children);
    assert(within_read_limits(ve));
    lemma_limits_children_all(e.children);
    assert(within_read_limits(e));
}

proof fn lemma_itemfeedback_good(ident: Seq<char>, text: Seq<char>)
    requires
        xml_safe_text(ident),
        xml_safe_text(text),
    ensures
        elem_good(crate::builder::spec_itemfeedback(ident, text), "itemfeedback"@),
{
    lemma_qti_lookup();
    lemma_material_good(text);
    reveal_strlit("xsi:schemaLocation");
    assert("xsi:schemaLocation"@.len() == 18);
    reveal_strlit("itemfeedback");
    reveal_strlit("material");
    reveal_strlit("ident");
    reveal_strlit("schemaLocation");
    reveal_with_fuel(s_attr_lookup, 5);
    let e = crate::builder::spec_itemfeedback(ident, text);
    let def = s_find_def(spec_qti_defs(), "itemfeedback"@)->0;
    assert(def.children[0] == "material"@);
    assert(def.children.contains("material"@));
    lemma_children_valid_all(spec_qti_schema(), def, e.children);
    assert(s_attr_lookup(e.attrs, "ident"@) == Some(ident));
    assert forall|i: int| 0 <= i < def.attributes.len() implies s_attr_ok(
        e,
        #[trigger] def.attributes[i],
    ) by {}
    assert(s_elem_valid(spec_qti_schema(), e, "itemfeedback"@));
    lemma_nodes_distinct_all(e.children);
    assert(attrs_distinct(e));
    assert(xml_name_ok("itemfeedback"@) && xml_name_ok("ident"@));
    assert("ident"@.len() == 5 && "schemaLocation"@.len() == 14);
    reveal_strlit("xmlns");
    assert("ident"@[0] != "xmlns"@[0]);
    lemma_plain_entry_ok("ident"@, ident);
    lemma_keys_ok(e);
    lemma_parsed_nodes_index(e.children);
    lemma_writable_children_all(parsed_model(e).children);
    assert(writable(parsed_model(e)));
    lemma_limits_children_all(e.children);
    assert(within_read_limits(e));
}

proof fn lemma_condition_mc_good(
    qid: Seq<char>,
    cid: Seq<char>,
    correct: bool,
    points: crate::decimal::Decimal,
    has_feedback: bool,
)
    requires
        xml_safe_text(qid),
        xml_safe_text(cid),
        points.scale < 0x1000000,
    ensures
        elem_good(
            crate::builder::spec_condition_mc(qid, cid, correct, points, has_feedback),
            "respcondition"@,
        ),
{
    lemma_qti_lookup();
    reveal_strlit("0");
    assert(xml_text_ok("0"@));
    lemma_text_ok_decimal(points);
    lemma_decimal_len(points);
    lemma_conditionvar_good(qid, Seq::empty(), cid);
    lemma_setvar_good("Set"@, if correct {
        crate::decimal::spec_decimal_str(points)
    } else {
        "0"@
    });
    reveal_strlit("respcondition");
    reveal_strlit("conditionvar");
    reveal_strlit("setvar");
    reveal_strlit("displayfeedback");
    reveal_strlit("continue");
    reveal_strlit("linkrefid");
    reveal_strlit("Yes");
    reveal_strlit("No");
    reveal_strlit("Set");
    reveal_strlit("correct");
    reveal_strlit("schemaLocation");
    reveal_strlit("xsi:schemaLocation");
    reveal_with_fuel(s_attr_lookup, 5);
    assert("xsi:schemaLocation"@.len() == 18);
    assert(xml_text_ok("No"@) && xml_text_ok("correct"@));
    let e = crate::builder::spec_condition_mc(qid, cid, correct, points, has_feedback);
    let def = s_find_def(spec_qti_defs(), "respcondition"@)->0;
    let def_df = s_find_def(spec_qti_defs(), "displayfeedback"@)->0;
    assert(def.children[0] == "conditionvar"@ && def.children[1] == "setvar"@ && def.children[2]
        == "displayfeedback"@);
    assert(def.children.contains("conditionvar"@) && def.children.contains("setvar"@)
        && def.children.contains("displayfeedback"@));
    assert("continue"@.len() == 8 && "linkrefid"@.len() == 9 && "schemaLocation"@.len() == 14);
    if correct && has_feedback {
        let df = e.children[2]->Element_0;
        assert(s_attr_lookup(df.attrs, "linkrefid"@) is Some);
        assert forall|i: int| 0 <= i < def_df.attributes.len() implies s_attr_ok(
            df,
            #[trigger] def_df.attributes[i],
        ) by {}
        lemma_children_valid_all(spec_qti_schema(), def_df, df.children);
        assert(s_elem_valid(spec_qti_schema(), df, "displayfeedback"@));
        assert(attrs_distinct(df)) by {
            lemma_nodes_distinct_all(df.children);
        }
        assert(xml_name_ok("linkrefid"@));
        reveal_strlit("xmlns");
        assert("xmlns"@.len() == 5);
        lemma_plain_entry_ok("linkrefid"@, "correct"@);
        lemma_keys_ok(df);
        lemma_parsed_nodes_index(df.children);
        assert(writable(parsed_model(df)));
        lemma_limits_children_all(df.children);
        assert(within_read_limits(df));
    }
    lemma_children_valid_all(spec_qti_schema(), def, e.children);
    assert(s_attr_lookup(e.attrs, "continue"@) == Some("No"@));
    assert(def.attributes[0].values->0[1] == "No"@);
    assert(def.attributes[0].values->0.contains("No"@));
    assert forall|i: int| 0 <= i < def.attributes.len() implies s_attr_ok(
        e,
        #[trigger] def.attributes[i],
    ) by {}
    assert(s_elem_valid(spec_qti_schema(), e, "respcondition"@));
    lemma_nodes_distinct_all(e.children);
    assert(attrs_distinct(e));
    assert(xml_name_ok("respcondition"@) && xml_name_ok("continue"@));
    reveal_strlit("xmlns");
    assert("xmlns"@.len() == 5);
    lemma_plain_entry_ok("continue"@, "No"@);
    lemma_keys_ok(e);
    lemma_parsed_nodes_index(e.children);
    lemma_writable_children_all(parsed_model(e).children);
    assert(writable(parsed_model(e)));
    lemma_limits_children_all(e.children);
    assert(within_read_limits(e));
}

proof fn lemma_condition_ma_good(
    qid: Seq<char>,
    c: crate::types::Choice,
    points: crate::decimal::Decimal,
    partial_credit: bool,
)
    requires
        xml_safe_text(qid),
        xml_safe_text(c.id@),
        points.scale < 0x1000000,
    ensures
        elem_good(crate::builder::spec_condition_ma(qid, c, points, partial_credit), "respcondition"@),
{
    lemma_qti_lookup();
    reveal_strlit("0");
    assert(xml_text_ok("0"@));
    lemma_text_ok_decimal(points);
    lemma_text_ok_decimal(crate::decimal::spec_halved(points));
    lemma_decimal_len(points);
    lemma_decimal_len(crate::decimal::spec_halved(points));
    lemma_conditionvar_good(qid, Seq::empty(), c.id@);
    lemma_setvar_good("Add"@, if partial_credit && c.correct {
        crate::decimal::spec_decimal_str(crate::decimal::spec_halved(points))
    } else if c.correct {
        crate::decimal::spec_decimal_str(points)
    } else {
        "0"@
    });
    reveal_strlit("respcondition");
    reveal_strlit("conditionvar");
    reveal_strlit("setvar");
    reveal_strlit("continue");
    reveal_strlit("Yes");
    reveal_strlit("No");
    reveal_strlit("Add");
    reveal_strlit("schemaLocation");
    reveal_strlit("xsi:schemaLocation");
    reveal_with_fuel(s_attr_lookup, 5);
    assert("xsi:schemaLocation"@.len() == 18);
    assert(xml_text_ok("Yes"@));
    let e = crate::builder::spec_condition_ma(qid, c, points, partial_credit);
    let def = s_find_def(spec_qti_defs(), "respcondition"@)->0;
    assert(def.children[0] == "conditionvar"@ && def.children[1] == "setvar"@);
    assert(def.children.contains("conditionvar"@) && def.children.contains("setvar"@));
    lemma_children_valid_all(spec_qti_schema(), def, e.children);
    assert(s_attr_lookup(e.attrs, "continue"@) == Some("Yes"@));
    assert(def.attributes[0].values->0[0] == "Yes"@);
    assert(def.attributes[0].values->0.contains("Yes"@));
    assert forall|i: int| 0 <= i < def.attributes.len() implies s_attr_ok(
        e,
        #[trigger] def.attributes[i],
    ) by {}
    assert(s_elem_valid(spec_qti_schema(), e, "respcondition"@));
    lemma_nodes_distinct_all(e.children);
    assert(attrs_distinct(e));
    assert(xml_name_ok("respcondition"@) && xml_name_ok("continue"@));
    assert("continue"@.len() == 8 && "schemaLocation"@.len() == 14);
    reveal_strlit("xmlns");
    assert("xmlns"@.len() == 5);
    lemma_plain_entry_ok("continue"@, "Yes"@);
    lemma_keys_ok(e);
    lemma_parsed_nodes_index(e.children);
    lemma_writable_children_all(parsed_model(e).children);
    assert(writable(parsed_model(e)));
    lemma_limits_children_all(e.children);
    assert(within_read_limits(e));
}

proof fn lemma_condition_sa_good(
    qid: Seq<char>,
    ans: crate::types::AcceptableAnswer,
    points: crate::decimal::Decimal,
)
    requires
        xml_safe_text(qid),
        xml_safe_text(ans.text@),
        points.scale < 0x1000000,
        ans.weight.scale < 0x1000000,
    ensures
        elem_good(crate::builder::spec_condition_sa(qid, ans, points), "respcondition"@),
{
    lemma_qti_lookup();
    lemma_text_ok_decimal(crate::decimal::spec_times(points, ans.weight));
    lemma_decimal_len(crate::decimal::spec_times(points, ans.weight));
    lemma_conditionvar_good(qid, seq![("case"@, "No"@)], ans.text@);
    lemma_setvar_good(
        "Set"@,
        crate::decimal::spec_decimal_str(crate::decimal::spec_times(points, ans.weight)),
    );
    reveal_strlit("respcondition");
    reveal_strlit("conditionvar");
    reveal_strlit("setvar");
    reveal_strlit("Set");
    reveal_strlit("No");
    reveal_strlit("schemaLocation");
    reveal_strlit("xsi:schemaLocation");
    reveal_with_fuel(s_attr_lookup, 5);
    assert("xsi:schemaLocation"@.len() == 18);
    let e = crate::builder::spec_condition_sa(qid, ans, points);
    let def = s_find_def(spec_qti_defs(), "respcondition"@)->0;
    assert(def.children[0] == "conditionvar"@ && def.children[1] == "setvar"@);
    assert(def.children.contains("conditionvar"@) && def.children.contains("setvar"@));
    lemma_children_valid_all(spec_qti_schema(), def, e.children);
    assert forall|i: int| 0 <= i < def.attributes.len() implies s_attr_ok(
        e,
        #[trigger] def.attributes[i],
    ) by {}
    assert(s_elem_valid(spec_qti_schema(), e, "respcondition"@));
    lemma_nodes_distinct_all(e.children);
    assert(attrs_distinct(e));
    assert(xml_name_ok("respcondition"@));
    lemma_keys_ok(e);
    lemma_parsed_nodes_index(e.children);
    lemma_writable_children_all(parsed_model(e).children);
    assert(writable(parsed_model(e)));
    lemma_limits_children_all(e.children);
    assert(within_read_limits(e));
}

proof fn lemma_condition_default_good(qid: Seq<char>)
    ensures
        elem_good(crate::builder::spec_condition_default(qid), "respcondition"@),
{
    assert(xml_safe_text("0"@)) by {
        reveal_strlit("0");
    }
    lemma_qti_lookup();
    reveal_strlit("0");
    assert(xml_text_ok("0"@));
    lemma_setvar_good("Set"@, "0"@);
    reveal_strlit("respcondition");
    reveal_strlit("conditionvar");
    reveal_strlit("setvar");
    reveal_strlit("Set");
    reveal_strlit("schemaLocation");
    reveal_strlit("xsi:schemaLocation");
    reveal_with_fuel(s_attr_lookup, 5);
    assert("xsi:schemaLocation"@.len() == 18);
    let e = crate::builder::spec_condition_default(qid);
    let cv = e.children[0]->Element_0;
    let def = s_find_def(spec_qti_defs(), "respcondition"@)->0;
    let def_cv = s_find_def(spec_qti_defs(), "conditionvar"@)->0;
    lemma_children_valid_all(spec_qti_schema(), def_cv, cv.children);
    assert(s_elem_valid(spec_qti_schema(), cv, "conditionvar"@));
    assert(attrs_distinct(cv)) by {
        lemma_nodes_distinct_all(cv.children);
    }
    lemma_keys_ok(cv);
    lemma_parsed_nodes_index(cv.children);
    assert(xml_name_ok("conditionvar"@));
    assert(parsed_model(cv).children.len() == 0);
    assert(writable(parsed_model(cv)));
    lemma_limits_children_all(cv.children);
    assert(within_read_limits(cv));
    assert(def.children[0] == "conditionvar"@ && def.children[1] == "setvar"@);
    assert(def.children.contains("conditionvar"@) && def.children.contains("setvar"@));
    lemma_children_valid_all(spec_qti_schema(), def, e.children);
    assert forall|i: int| 0 <= i < def.attributes.len() implies s_attr_ok(
        e,
        #[trigger] def.attributes[i],
    ) by {}
    assert(s_elem_valid(spec_qti_schema(), e, "respcondition"@));
    lemma_nodes_distinct_all(e.children);
    assert(attrs_distinct(e));
    assert(xml_name_ok("respcondition"@));
    lemma_keys_ok(e);
    lemma_parsed_nodes_index(e.children);
    lemma_writable_children_all(parsed_model(e).children);
    assert(writable(parsed_model(e)));
    lemma_limits_children_all(e.children);
    assert(within_read_limits(e));
}

proof fn lemma_qtimetadata_good(a: crate::types::Assessment)
    ensures
        elem_good(crate::builder::spec_qtimetadata(a), "qtimetadata"@),
{
    lemma_qti_lookup();
    reveal_strlit("qtimetadata");
    reveal_strlit("qtimetadatafield");
    reveal_strlit("schemaLocation");
    reveal_strlit("xsi:schemaLocation");
    reveal_strlit("time_limit");
    reveal_strlit("shuffle_questions");
    reveal_strlit("shuffle_answers");
    reveal_strlit("true");
    reveal_with_fuel(s_attr_lookup, 3);
    assert("xsi:schemaLocation"@.len() == 18);
    assert(xml_safe_text("time_limit"@) && xml_safe_text("shuffle_questions"@) && xml_safe_text(
        "shuffle_answers"@,
    ) && xml_safe_text("true"@));
    let e = crate::builder::spec_qtimetadata(a);
    let def = s_find_def(spec_qti_defs(), "qtimetadata"@)->0;
    assert(def.children[0] == "qtimetadatafield"@);
    assert(def.children.contains("qtimetadatafield"@));
    assert forall|i: int| 0 <= i < e.children.len() implies (match #[trigger] e.children[i] {
        SpecNode::Element(c) => def.children.contains(c.name) && s_elem_valid(
            spec_qti_schema(),
            c,
            c.name,
        ) && attrs_distinct(c) && writable(parsed_model(c)) && within_read_limits(c),
        SpecNode::Text(_) => true,
    }) by {
        let c0 = Seq::<SpecNode>::empty();
        let c1 = match a.time_limit {
            Some(t) => c0.push(
                SpecNode::Element(
                    crate::builder::spec_metadata_field(
                        "time_limit"@,
                        crate::text::spec_u64_digits(t as int),
                    ),
                ),
            ),
            None => c0,
        };
        let c2 = if a.metadata.shuffle_questions {
            c1.push(
                SpecNode::Element(crate::builder::spec_metadata_field("shuffle_questions"@, "true"@)),
            )
        } else {
            c1
        };
        let c3 = if a.metadata.shuffle_answers {
            c2.push(
                SpecNode::Element(crate::builder::spec_metadata_field("shuffle_answers"@, "true"@)),
            )
        } else {
            c2
        };
        assert(e.children == c3);
        if i < c1.len() {
            assert(a.time_limit is Some && c3[i] == c1[0]);
            lemma_text_ok_digits(a.time_limit->0 as int);
            lemma_digits_len_u64(a.time_limit->0 as int);
            lemma_metadata_field_good(
                "time_limit"@,
                crate::text::spec_u64_digits(a.time_limit->0 as int),
            );
        } else if i < c2.len() {
            assert(a.metadata.shuffle_questions && c3[i] == c2[i]);
            lemma_metadata_field_good("shuffle_questions"@, "true"@);
        } else {
            assert(a.metadata.shuffle_answers && c3[i] == c3[c2.len() as int]);
            lemma_metadata_field_good("shuffle_answers"@, "true"@);
        }
    }
    lemma_children_valid_all(spec_qti_schema(), def, e.children);
    assert(s_elem_valid(spec_qti_schema(), e, "qtimetadata"@));
    lemma_nodes_distinct_all(e.children);
    assert(attrs_distinct(e));
    assert(xml_name_ok("qtimetadata"@));
    lemma_keys_ok(e);
    lemma_parsed_nodes_index(e.children);
    assert forall|i: int|
        0 <= i < parsed_model(e).children.len() implies #[trigger] parsed_model(e).children[i]
            is Element && writable(parsed_model(e).children[i]->Element_0) by {}
    lemma_writable_children_all(parsed_model(e).children);
    assert(writable(parsed_model(e)));
    lemma_limits_children_all(e.children);
    assert(within_read_limits(e));
}

proof fn lemma_itemmetadata_good(q: crate::types::Question)
    requires
        q.points.scale < 0x1000000,
    ensures
        elem_good(crate::builder::spec_itemmetadata(q), "itemmetadata"@),
{
    lemma_qti_lookup();
    reveal_strlit("itemmetadata");
    reveal_strlit("qtimetadatafield");
    reveal_strlit("schemaLocation");
    reveal_strlit("xsi:schemaLocation");
    reveal_strlit("question_type");
    reveal_strlit("points_possible");
    reveal_strlit("multiple_choice_question");
    reveal_strlit("true_false_question");
    reveal_strlit("multiple_answers_question");
    reveal_strlit("short_answer_question");
    reveal_strlit("numerical_question");
    reveal_strlit("essay_question");
    reveal_strlit("file_upload_question");
    reveal_with_fuel(s_attr_lookup, 3);
    assert("xsi:schemaLocation"@.len() == 18);
    assert(xml_safe_text("question_type"@) && xml_safe_text("points_possible"@));
    assert(xml_safe_text(crate::builder::spec_qtype_label(q.question_type))) by {
        match q.question_type {
            crate::types::QuestionType::MultipleChoice { .. } => {},
            crate::types::QuestionType::TrueFalse { .. } => {},
            crate::types::QuestionType::MultipleAnswer { .. } => {},
            crate::types::QuestionType::ShortAnswer { .. } => {},
            crate::types::QuestionType::Numerical { .. } => {},
            crate::types::QuestionType::Essay { .. } => {},
            crate::types::QuestionType::FileUpload { .. } => {},
        }
    }
    lemma_text_ok_decimal(q.points);
    lemma_decimal_len(q.points);
    lemma_metadata_field_good("question_type"@, crate::builder::spec_qtype_label(q.question_type));
    lemma_metadata_field_good("points_possible"@, crate::decimal::spec_decimal_str(q.points));
    let e = crate::builder::spec_itemmetadata(q);
    let def = s_find_def(spec_qti_defs(), "itemmetadata"@)->0;
    assert(def.children[0] == "qtimetadatafield"@);
    assert(def.children.contains("qtimetadatafield"@));
    lemma_children_valid_all(spec_qti_schema(), def, e.children);
    assert(s_elem_valid(spec_qti_schema(), e, "itemmetadata"@));
    lemma_nodes_distinct_all(e.children);
    assert(attrs_distinct(e));
    assert(xml_name_ok("itemmetadata"@));
    lemma_keys_ok(e);
    lemma_parsed_nodes_index(e.children);
    lemma_writable_children_all(parsed_model(e).children);
    assert(writable(parsed_model(e)));
    lemma_limits_children_all(e.children);
    assert(within_read_limits(e));
}

proof fn lemma_presentation_good(q: crate::types::Question, tfa: Seq<char>, tfb: Seq<char>)
    requires
        q_xml_safe(q),
        xml_safe_text(tfa),
        xml_safe_text(tfb),
    ensures
        elem_good(crate::builder::spec_presentation(q, tfa, tfb), "presentation"@),
{
    lemma_qti_lookup();
    lemma_material_good(q.text@);
    reveal_strlit("True");
    reveal_strlit("False");
    assert(xml_safe_text("True"@) && xml_safe_text("False"@));
    reveal_strlit("presentation");
    reveal_strlit("material");
    reveal_strlit("response_lid");
    reveal_strlit("response_str");
    reveal_strlit("response_num");
    reveal_strlit("Single");
    reveal_strlit("Multiple");
    reveal_strlit("schemaLocation");
    reveal_with_fuel(s_attr_lookup, 3);
    let e = crate::builder::spec_presentation(q, tfa, tfb);
    let resp = crate::builder::spec_presentation_response(q, tfa, tfb);
    let def = s_find_def(spec_qti_defs(), "presentation"@)->0;
    assert(def.children[0] == "material"@ && def.children[1] == "response_lid"@
        && def.children[2] == "response_str"@ && def.children[3] == "response_num"@);
    assert(def.children.contains("material"@) && def.children.contains("response_lid"@)
        && def.children.contains("response_str"@) && def.children.contains("response_num"@));
    match q.question_type {
        crate::types::QuestionType::MultipleChoice { choices, shuffle } => {
            assert forall|i: int|
                0 <= i < crate::builder::spec_choice_entries(choices@).len() implies xml_safe_text(
                (#[trigger] crate::builder::spec_choice_entries(choices@)[i]).0,
            ) && xml_safe_text(crate::builder::spec_choice_entries(choices@)[i].1) by {
                assert(xml_safe_text(choices@[i].id@) && xml_safe_text(choices@[i].text@));
            }
            lemma_response_lid_good(
                q.id@,
                crate::builder::spec_cardinality(q.question_type),
                crate::builder::spec_choice_entries(choices@),
                shuffle,
            );
        },
        crate::types::QuestionType::MultipleAnswer { choices, .. } => {
            assert forall|i: int|
                0 <= i < crate::builder::spec_choice_entries(choices@).len() implies xml_safe_text(
                (#[trigger] crate::builder::spec_choice_entries(choices@)[i]).0,
            ) && xml_safe_text(crate::builder::spec_choice_entries(choices@)[i].1) by {
                assert(xml_safe_text(choices@[i].id@) && xml_safe_text(choices@[i].text@));
            }
            lemma_response_lid_good(
                q.id@,
                crate::builder::spec_cardinality(q.question_type),
                crate::builder::spec_choice_entries(choices@),
                false,
            );
        },
        crate::types::QuestionType::TrueFalse { .. } => {
            lemma_response_lid_good(
                q.id@,
                crate::builder::spec_cardinality(q.question_type),
                seq![(tfa, "True"@), (tfb, "False"@)],
                false,
            );
        },
        crate::types::QuestionType::ShortAnswer { .. } => {
            lemma_response_str_good(q.id@, q.question_type);
        },
        crate::types::QuestionType::Numerical { .. } => {
            lemma_response_num_good(q.id@);
        },
        crate::types::QuestionType::Essay { .. } => {
            lemma_response_str_good(q.id@, q.question_type);
        },
        crate::types::QuestionType::FileUpload { .. } => {
            lemma_response_str_good(q.id@, q.question_type);
        },
    }
    assert(def.children.contains(resp.name) && s_elem_valid(spec_qti_schema(), resp, resp.name)
        && attrs_distinct(resp) && writable(parsed_model(resp)) && within_read_limits(resp));
    lemma_children_valid_all(spec_qti_schema(), def, e.children);
    assert(s_elem_valid(spec_qti_schema(), e, "presentation"@));
    lemma_nodes_distinct_all(e.children);
    assert(attrs_distinct(e));
    assert(xml_name_ok("presentation"@));
    lemma_keys_ok(e);
    lemma_parsed_nodes_index(e.children);
    lemma_writable_children_all(parsed_model(e).children);
    assert(writable(parsed_model(e)));
    lemma_limits_children_all(e.children);
    assert(within_read_limits(e));
}

proof fn lemma_resprocessing_good(q: crate::types::Question, tfa: Seq<char>, tfb: Seq<char>)
    requires
        q_xml_safe(q),
        xml_safe_text(tfa),
        xml_safe_text(tfb),
    ensures
        elem_good(crate::builder::spec_resprocessing(q, tfa, tfb), "resprocessing"@),
{
    lemma_qti_lookup();
    lemma_outcomes_good(q.points);
    reveal_strlit("resprocessing");
    reveal_strlit("outcomes");
    reveal_strlit("respcondition");
    reveal_strlit("schemaLocation");
    reveal_with_fuel(s_attr_lookup, 3);
    let e = crate::builder::spec_resprocessing(q, tfa, tfb);
    let conds = crate::builder::spec_conditions(q, tfa, tfb);
    let def = s_find_def(spec_qti_defs(), "resprocessing"@)->0;
    assert(def.children[0] == "outcomes"@ && def.children[1] == "respcondition"@);
    assert(def.children.contains("outcomes"@) && def.children.contains("respcondition"@));
    assert forall|i: int|
        0 <= i < conds.len() implies #[trigger] conds[i] is Element && conds[i]->Element_0.name
            == "respcondition"@ && s_elem_valid(
            spec_qti_schema(),
            conds[i]->Element_0,
            "respcondition"@,
        ) && attrs_distinct(conds[i]->Element_0) && writable(
            parsed_model(conds[i]->Element_0),
        ) && within_read_limits(conds[i]->Element_0) by {
        match q.question_type {
            crate::types::QuestionType::MultipleChoice { choices, .. } => {
                assert(xml_safe_text(choices@[i].id@));
                lemma_condition_mc_good(
                    q.id@,
                    choices@[i].id@,
                    choices@[i].correct,
                    q.points,
                    q.feedback is Some,
                );
            },
            crate::types::QuestionType::TrueFalse { correct_answer } => {
                if i == 0 {
                    lemma_condition_mc_good(q.id@, tfa, correct_answer, q.points, q.feedback is Some);
                } else {
                    lemma_condition_mc_good(
                        q.id@,
                        tfb,
                        !correct_answer,
                        q.points,
                        q.feedback is Some,
                    );
                }
            },
            crate::types::QuestionType::MultipleAnswer { choices, partial_credit } => {
                assert(xml_safe_text(choices@[i].id@));
                lemma_condition_ma_good(q.id@, choices@[i], q.points, partial_credit);
            },
            crate::types::QuestionType::ShortAnswer { answers, .. } => {
                assert(xml_safe_text(answers@[i].text@));
                lemma_condition_sa_good(q.id@, answers@[i], q.points);
            },
            _ => {
                lemma_condition_default_good(q.id@);
            },
        }
    }
    assert forall|i: int| 0 <= i < e.children.len() implies match #[trigger] e.children[i] {
        SpecNode::Element(c) => def.children.contains(c.name) && s_elem_valid(
            spec_qti_schema(),
            c,
            c.name,
        ) && attrs_distinct(c) && writable(parsed_model(c)) && within_read_limits(c),
        SpecNode::Text(_) => true,
    } by {
        if i >= 1 {
            assert(e.children[i] == conds[i - 1]);
        }
    }
    lemma_children_valid_all(spec_qti_schema(), def, e.children);
    assert(s_elem_valid(spec_qti_schema(), e, "resprocessing"@));
    lemma_nodes_distinct_all(e.children);
    assert(attrs_distinct(e));
    assert(xml_name_ok("resprocessing"@));
    lemma_keys_ok(e);
    lemma_parsed_nodes_index(e.children);
    assert forall|i: int|
        0 <= i < parsed_model(e).children.len() implies #[trigger] parsed_model(e).children[i]
            is Element && writable(parsed_model(e).children[i]->Element_0) by {
        if i >= 1 {
            assert(e.children[i] == conds[i - 1]);
        }
    }
    lemma_writable_children_all(parsed_model(e).children);
    assert(writable(parsed_model(e)));
    lemma_limits_children_all(e.children);
    assert(within_read_limits(e));
}

proof fn lemma_item_good(q: crate::types::Question, ext: bool, tfa: Seq<char>, tfb: Seq<char>)
    requires
        q_xml_safe(q),
        xml_safe_text(tfa),
        xml_safe_text(tfb),
    ensures
        elem_good(crate::builder::spec_item(q, ext, tfa, tfb), "item"@),
{
    lemma_qti_lookup();
    lemma_presentation_good(q, tfa, tfb);
    lemma_resprocessing_good(q, tfa, tfb);
    if ext {
        lemma_itemmetadata_good(q);
    }
    reveal_strlit("item");
    reveal_strlit("itemmetadata");
    reveal_strlit("presentation");
    reveal_strlit("resprocessing");
    reveal_strlit("itemfeedback");
    reveal_strlit("ident");
    reveal_strlit("title");
    reveal_strlit("maxattempts");
    reveal_strlit("correct");
    reveal_strlit("incorrect");
    reveal_strlit("schemaLocation");
    reveal_strlit("xsi:schemaLocation");
    reveal_strlit("Question ");
    reveal_with_fuel(s_attr_lookup, 5);
    assert("xsi:schemaLocation"@.len() == 18);
    assert(xml_safe_text("correct"@) && xml_safe_text("incorrect"@) && xml_safe_text(
        "Question "@,
    ));
    assert(xml_safe_text(crate::builder::spec_item_title(q))) by {
        if q.title@.len() > 0 {
        } else if q.id@.len() >= 15 {
            lemma_text_ok_subrange(q.id@, 9, 15);
            lemma_text_ok_concat("Question "@, q.id@.subrange(9, 15));
        } else {
            lemma_text_ok_concat("Question "@, q.id@);
        }
    }
    let e = crate::builder::spec_item(q, ext, tfa, tfb);
    let fb = crate::builder::spec_item_feedback_children(q);
    let def = s_find_def(spec_qti_defs(), "item"@)->0;
    assert(def.children[0] == "itemmetadata"@ && def.children[1] == "presentation"@
        && def.children[2] == "resprocessing"@ && def.children[3] == "itemfeedback"@);
    assert(def.children.contains("itemmetadata"@) && def.children.contains("presentation"@)
        && def.children.contains("resprocessing"@) && def.children.contains("itemfeedback"@));
    assert forall|i: int|
        0 <= i < fb.len() implies #[trigger] fb[i] is Element && fb[i]->Element_0.name
            == "itemfeedback"@ && s_elem_valid(
            spec_qti_schema(),
            fb[i]->Element_0,
            "itemfeedback"@,
        ) && attrs_distinct(fb[i]->Element_0) && writable(parsed_model(fb[i]->Element_0))
            && within_read_limits(fb[i]->Element_0) by {
        match q.feedback {
            Some(f) => {
                let c0 = Seq::<SpecNode>::empty();
                let c1 = match f.correct {
                    Some(t) => c0.push(
                        SpecNode::Element(crate::builder::spec_itemfeedback("correct"@, t@)),
                    ),
                    None => c0,
                };
                if i < c1.len() {
                    assert(f.correct is Some && fb[i] == c1[0]);
                    assert(xml_safe_text(f.correct->0@));
                    lemma_itemfeedback_good("correct"@, f.correct->0@);
                } else {
                    assert(f.incorrect is Some && fb[i] == fb[c1.len() as int]);
                    assert(xml_safe_text(f.incorrect->0@));
                    lemma_itemfeedback_good("incorrect"@, f.incorrect->0@);
                }
            },
            None => {},
        }
    }
    let meta_len: int = if ext {
        1
    } else {
        0
    };
    assert forall|i: int| 0 <= i < e.children.len() implies match #[trigger] e.children[i] {
        SpecNode::Element(c) => def.children.contains(c.name) && s_elem_valid(
            spec_qti_schema(),
            c,
            c.name,
        ) && attrs_distinct(c) && writable(parsed_model(c)) && within_read_limits(c),
        SpecNode::Text(_) => true,
    } by {
        if i >= meta_len + 2 {
            assert(e.children[i] == fb[i - meta_len - 2]);
        }
    }
    lemma_children_valid_all(spec_qti_schema(), def, e.children);
    assert("ident"@.len() == 5 && "title"@.len() == 5 && "maxattempts"@.len() == 11);
    assert("ident"@[0] != "title"@[0]);
    assert(s_attr_lookup(e.attrs, "ident"@) is Some);
    assert(s_attr_lookup(e.attrs, "title"@) is Some);
    assert(s_attr_lookup(e.attrs, "maxattempts"@) is None);
    assert forall|i: int| 0 <= i < def.attributes.len() implies s_attr_ok(
        e,
        #[trigger] def.attributes[i],
    ) by {}
    assert(s_elem_valid(spec_qti_schema(), e, "item"@));
    assert forall|i: int, j: int|
        0 <= i < j < e.attrs.len() implies (#[trigger] e.attrs[i]).0 != (
    #[trigger] e.attrs[j]).0 by {}
    assert forall|i: int| 0 <= i < e.children.len() implies match #[trigger] e.children[i] {
        SpecNode::Element(c) => attrs_distinct(c),
        SpecNode::Text(_) => true,
    } by {
        if i >= meta_len + 2 {
            assert(e.children[i] == fb[i - meta_len - 2]);
        }
    }
    lemma_nodes_distinct_all(e.children);
    assert(attrs_distinct(e));
    assert(xml_name_ok("item"@) && xml_name_ok("ident"@) && xml_name_ok("title"@));
    assert("schemaLocation"@.len() == 14);
    reveal_strlit("xmlns");
    assert("ident"@[0] != "xmlns"@[0] && "title"@[0] != "xmlns"@[0]);
    lemma_plain_entry_ok("ident"@, q.id@);
    lemma_plain_entry_ok("title"@, crate::builder::spec_item_title(q));
    lemma_keys_ok(e);
    lemma_parsed_nodes_index(e.children);
    assert forall|i: int|
        0 <= i < parsed_model(e).children.len() implies #[trigger] parsed_model(e).children[i]
            is Element && writable(parsed_model(e).children[i]->Element_0) by {
        if i >= meta_len + 2 {
            assert(e.children[i] == fb[i - meta_len - 2]);
        }
    }
    lemma_writable_children_all(parsed_model(e).children);
    assert(writable(parsed_model(e)));
    assert forall|i: int| 0 <= i < e.children.len() implies match #[trigger] e.children[i] {
        SpecNode::Element(c) => within_read_limits(c),
        SpecNode::Text(t) => t.len() < 0x8000000,
    } by {
        if i >= meta_len + 2 {
            assert(e.children[i] == fb[i - meta_len - 2]);
        }
    }
    lemma_limits_children_all(e.children);
    assert(within_read_limits(e));
}

proof fn lemma_item_good_all()
    ensures
        forall|q: crate::types::Question, ext: bool, tfa: Seq<char>, tfb: Seq<char>|
            q_xml_safe(q) && xml_safe_text(tfa) && xml_safe_text(tfb) ==> elem_good(
                #[trigger] crate::builder::spec_item(q, ext, tfa, tfb),
                "item"@,
            ),
{
    assert forall|q: crate::types::Question, ext: bool, tfa: Seq<char>, tfb: Seq<char>|
        q_xml_safe(q) && xml_safe_text(tfa) && xml_safe_text(tfb) implies elem_good(
        #[trigger] crate::builder::spec_item(q, ext, tfa, tfb),
        "item"@,
    ) by {
        lemma_item_good(q, ext, tfa, tfb);
    }
}

proof fn lemma_section_good(
    a: crate::types::Assessment,
    ext: bool,
    sid: Seq<char>,
    tf: Seq<(Seq<char>, Seq<char>)>,
)
    requires
        assessment_xml_safe(a),
        xml_safe_text(sid),
        tf.len() == a.questions@.len(),
        forall|i: int|
            0 <= i < tf.len() ==> xml_safe_text((#[trigger] tf[i]).0) && xml_safe_text(tf[i].1),
    ensures
        elem_good(crate::builder::spec_section(a, ext, sid, tf), "section"@),
{
    lemma_qti_lookup();
    lemma_item_good_all();
    reveal_strlit("Main Section");
    reveal_strlit("xsi:schemaLocation");
    assert("xsi:schemaLocation"@.len() == 18);
    assert(xml_safe_text("Main Section"@));
    reveal_strlit("section");
    reveal_strlit("item");
    reveal_strlit("ident");
    reveal_strlit("title");
    reveal_strlit("Main Section");
    reveal_strlit("schemaLocation");
    reveal_with_fuel(s_attr_lookup, 5);
    let e = crate::builder::spec_section(a, ext, sid, tf);
    let def = s_find_def(spec_qti_defs(), "section"@)->0;
    assert(def.children[0] == "item"@);
    assert(def.children.contains("item"@));
    assert forall|i: int| 0 <= i < e.children.len() implies match #[trigger] e.children[i] {
        SpecNode::Element(c) => def.children.contains(c.name) && s_elem_valid(
            spec_qti_schema(),
            c,
            c.name,
        ) && attrs_distinct(c) && writable(parsed_model(c)) && within_read_limits(c),
        SpecNode::Text(_) => true,
    } by {
        assert(q_xml_safe(a.questions@[i]));
        assert(xml_safe_text(tf[i].0) && xml_safe_text(tf[i].1));
        assert(e.children[i] == SpecNode::Element(
            crate::builder::spec_item(a.questions@[i], ext, tf[i].0, tf[i].1),
        ));
    }
    lemma_children_valid_all(spec_qti_schema(), def, e.children);
    assert("ident"@.len() == 5 && "title"@.len() == 5);
    assert("ident"@[0] != "title"@[0]);
    assert(s_attr_lookup(e.attrs, "ident"@) is Some);
    assert(s_attr_lookup(e.attrs, "title"@) is Some);
    assert forall|i: int| 0 <= i < def.attributes.len() implies s_attr_ok(
        e,
        #[trigger] def.attributes[i],
    ) by {}
    assert(s_elem_valid(spec_qti_schema(), e, "section"@));
    assert forall|i: int| 0 <= i < e.children.len() implies match #[trigger] e.children[i] {
        SpecNode::Element(c) => attrs_distinct(c),
        SpecNode::Text(_) => true,
    } by {
        assert(q_xml_safe(a.questions@[i]));
        assert(xml_safe_text(tf[i].0) && xml_safe_text(tf[i].1));
        assert(e.children[i] == SpecNode::Element(
            crate::builder::spec_item(a.questions@[i], ext, tf[i].0, tf[i].1),
        ));
    }
    lemma_nodes_distinct_all(e.children);
    assert(attrs_distinct(e));
    assert(xml_name_ok("section"@) && xml_name_ok("ident"@) && xml_name_ok("title"@));
    assert("schemaLocation"@.len() == 14);
    reveal_strlit("xmlns");
    assert("ident"@[0] != "xmlns"@[0] && "title"@[0] != "xmlns"@[0]);
    lemma_plain_entry_ok("ident"@, sid);
    lemma_plain_entry_ok("title"@, "Main Section"@);
    lemma_keys_ok(e);
    lemma_parsed_nodes_index(e.children);
    assert forall|i: int|
        0 <= i < parsed_model(e).children.len() implies #[trigger] parsed_model(e).children[i]
            is Element && writable(parsed_model(e).children[i]->Element_0) by {
        assert(e.children[i] == SpecNode::Element(
            crate::builder::spec_item(a.questions@[i], ext, tf[i].0, tf[i].1),
        ));
    }
    lemma_writable_children_all(parsed_model(e).children);
    assert(writable(parsed_model(e)));
    lemma_limits_children_all(e.children);
    assert(within_read_limits(e));
}

proof fn lemma_assessment_elem_good(
    a: crate::types::Assessment,
    ext: bool,
    sid: Seq<char>,
    tf: Seq<(Seq<char>, Seq<char>)>,
)
    requires
        assessment_xml_safe(a),
        xml_safe_text(sid),
        tf.len() == a.questions@.len(),
        forall|i: int|
            0 <= i < tf.len() ==> xml_safe_text((#[trigger] tf[i]).0) && xml_safe_text(tf[i].1),
    ensures
        elem_good(crate::builder::spec_assessment_elem(a, ext, sid, tf), "assessment"@),
{
    lemma_qti_lookup();
    lemma_section_good(a, ext, sid, tf);
    reveal_strlit("xsi:schemaLocation");
    assert("xsi:schemaLocation"@.len() == 18);
    if ext {
        lemma_qtimetadata_good(a);
    }
    reveal_strlit("assessment");
    reveal_strlit("qtimetadata");
    reveal_strlit("section");
    reveal_strlit("ident");
    reveal_strlit("title");
    reveal_strlit("schemaLocation");
    reveal_with_fuel(s_attr_lookup, 5);
    let e = crate::builder::spec_assessment_elem(a, ext, sid, tf);
    let def = s_find_def(spec_qti_defs(), "assessment"@)->0;
    assert(def.children[0] == "qtimetadata"@ && def.children[1] == "section"@);
    assert(def.children.contains("qtimetadata"@) && def.children.contains("section"@));
    lemma_children_valid_all(spec_qti_schema(), def, e.children);
    assert("ident"@.len() == 5 && "title"@.len() == 5);
    assert("ident"@[0] != "title"@[0]);
    assert(s_attr_lookup(e.attrs, "ident"@) is Some);
    assert(s_attr_lookup(e.attrs, "title"@) is Some);
    assert forall|i: int| 0 <= i < def.attributes.len() implies s_attr_ok(
        e,
        #[trigger] def.attributes[i],
    ) by {}
    assert(s_elem_valid(spec_qti_schema(), e, "assessment"@));
    lemma_nodes_distinct_all(e.children);
    assert(attrs_distinct(e));
    assert(xml_name_ok("assessment"@) && xml_name_ok("ident"@) && xml_name_ok("title"@));
    assert("schemaLocation"@.len() == 14);
    reveal_strlit("xmlns");
    assert("ident"@[0] != "xmlns"@[0] && "title"@[0] != "xmlns"@[0]);
    lemma_plain_entry_ok("ident"@, a.identifier@);
    lemma_plain_entry_ok("title"@, a.title@);
    lemma_keys_ok(e);
    lemma_parsed_nodes_index(e.children);
    lemma_writable_children_all(parsed_model(e).children);
    assert(writable(parsed_model(e)));
    lemma_limits_children_all(e.children);
    assert(within_read_limits(e));
}

/// Every tree the builder produces is well formed: it passes the
/// structural check, its attribute keys are distinct, and its serialised
/// form is read back predictably.
pub proof fn lemma_built_good(
    a: crate::types::Assessment,
    ext: bool,
    sid: Seq<char>,
    tf: Seq<(Seq<char>, Seq<char>)>,
)
    requires
        assessment_xml_safe(a),
        crate::types::is_generated_id(sid, "section_"@),
        tf.len() == a.questions@.len(),
        forall|i: int|
            0 <= i < tf.len() ==> crate::types::is_generated_id((#[trigger] tf[i]).0, "choice_"@)
                && crate::types::is_generated_id(tf[i].1, "choice_"@),
    ensures
        s_doc_valid(spec_qti_schema(), crate::builder::spec_questestinterop(a, ext, sid, tf)),
        attrs_distinct(crate::builder::spec_questestinterop(a, ext, sid, tf)),
        writable(parsed_model(crate::builder::spec_questestinterop(a, ext, sid, tf))),
        within_read_limits(crate::builder::spec_questestinterop(a, ext, sid, tf)),
{
    lemma_qti_lookup();
    reveal_strlit("section_");
    reveal_strlit("choice_");
    assert(xml_text_ok("section_"@) && xml_text_ok("choice_"@));
    lemma_text_ok_generated(sid, "section_"@);
    assert(xml_safe_text(sid));
    assert forall|i: int|
        0 <= i < tf.len() implies xml_safe_text((#[trigger] tf[i]).0) && xml_safe_text(tf[i].1) by {
        lemma_text_ok_generated(tf[i].0, "choice_"@);
        lemma_text_ok_generated(tf[i].1, "choice_"@);
    }
    lemma_assessment_elem_good(a, ext, sid, tf);
    reveal_strlit("questestinterop");
    reveal_strlit("assessment");
    reveal_strlit("xmlns");
    reveal_strlit("xmlns:xsi");
    reveal_strlit("xsi:schemaLocation");
    reveal_strlit("schemaLocation");
    reveal_with_fuel(s_attr_lookup, 5);
    let e = crate::builder::spec_questestinterop(a, ext, sid, tf);
    let def = s_find_def(spec_qti_defs(), "questestinterop"@)->0;
    assert(def.children[0] == "assessment"@);
    assert(def.children.contains("assessment"@));
    lemma_children_valid_all(spec_qti_schema(), def, e.children);
    assert(s_starts_with("xmlns"@, "xmlns"@)) by {
        assert("xmlns"@.take(5) =~= "xmlns"@);
    }
    assert(s_starts_with("xmlns:xsi"@, "xmlns"@)) by {
        assert("xmlns:xsi"@.take(5) =~= "xmlns"@);
    }
    assert forall|i: int| 0 <= i < def.attributes.len() implies s_attr_ok(
        e,
        #[trigger] def.attributes[i],
    ) by {}
    assert(s_elem_valid(spec_qti_schema(), e, "questestinterop"@));
    assert(spec_qti_schema().root == "questestinterop"@);
    assert("xmlns"@.len() == 5 && "xmlns:xsi"@.len() == 9 && "xsi:schemaLocation"@.len() == 18
        && "schemaLocation"@.len() == 14);
    assert forall|i: int, j: int|
        0 <= i < j < e.attrs.len() implies (#[trigger] e.attrs[i]).0 != (
    #[trigger] e.attrs[j]).0 by {}
    lemma_nodes_distinct_all(e.children);
    assert(attrs_distinct(e));
    assert(xml_name_ok("questestinterop"@));
    reveal_strlit("xmlns:");
    reveal_strlit("xsi");
    assert(s_starts_with("xmlns:xsi"@, "xmlns:"@)) by {
        assert("xmlns:xsi"@.take(6) =~= "xmlns:"@);
    }
    assert("xmlns:xsi"@.skip(6) =~= "xsi"@);
    assert(xml_name_ok("xsi"@));
    reveal_strlit("http://www.imsglobal.org/xsd/ims_qtiasiv1p2");
    reveal_strlit("http://www.w3.org/2001/XMLSchema-instance");
    reveal_strlit(
        "http://www.imsglobal.org/xsd/ims_qtiasiv1p2 http://www.imsglobal.org/xsd/ims_qtiasiv1p2p1.xsd",
    );
    reveal_strlit("xml");
    reveal_strlit("http://www.w3.org/XML/1998/namespace");
    reveal_strlit("http://www.w3.org/2000/xmlns/");
    assert("xml"@.len() == 3 && "http://www.w3.org/XML/1998/namespace"@.len() == 36
        && "http://www.w3.org/2000/xmlns/"@.len() == 29
        && "http://www.imsglobal.org/xsd/ims_qtiasiv1p2"@.len() == 43
        && "http://www.w3.org/2001/XMLSchema-instance"@.len() == 41);
    assert(attr_entry_ok("xmlns"@, "http://www.imsglobal.org/xsd/ims_qtiasiv1p2"@));
    assert(attr_entry_ok("xmlns:xsi"@, "http://www.w3.org/2001/XMLSchema-instance"@)) by {
        assert("xmlns:xsi"@.take(6) =~= "xmlns:"@);
        assert("xmlns:xsi"@.skip(6) =~= "xsi"@);
        assert(xml_name_ok("xsi"@));
        assert("xsi"@[1] != "xml"@[1]);
    }
    assert forall|i: int|
        0 <= i < e.attrs.len() implies attr_entry_ok(
        (#[trigger] e.attrs[i]).0,
        e.attrs[i].1,
    ) && e.attrs[i].0 != "schemaLocation"@ && xml_text_ok(e.attrs[i].1) by {}
    assert(s_attr_lookup(e.attrs, "xmlns:xsi"@) is Some) by {
        reveal_with_fuel(s_attr_lookup, 5);
    }
    lemma_keys_ok(e);
    lemma_parsed_nodes_index(e.children);
    lemma_writable_children_all(parsed_model(e).children);
    assert(writable(parsed_model(e)));
    lemma_limits_children_all(e.children);
    assert(within_read_limits(e));
}

/// Re-parsing a serialised built document and running the structural check
/// always succeeds: for any tree the builder produced, any tree read back
/// from its serialised form passes the check against the QTI table.
pub proof fn lemma_generated_document_revalidates(
    a: crate::types::Assessment,
    ext: bool,
    t: SpecElement,
    p: ParsedElement,
    q: SpecElement,
)
    requires
        assessment_xml_safe(a),
        crate::builder::builds_questestinterop(a, ext, t),
        rt_related(parsed_model(t), p),
        parsed_model(q) == p,
    ensures
        s_doc_valid(spec_qti_schema(), q),
{
    let (sid, tf) = choose|sid: Seq<char>, tf: Seq<(Seq<char>, Seq<char>)>|
        crate::types::is_generated_id(sid, "section_"@) && tf.len() == a.questions@.len() && (
        forall|i: int|
            0 <= i < tf.len() ==> crate::types::is_generated_id((#[trigger] tf[i]).0, "choice_"@)
                && crate::types::is_generated_id(tf[i].1, "choice_"@)) && t =~~= #[trigger] crate::builder::spec_questestinterop(a, ext, sid, tf);
    lemma_built_good(a, ext, sid, tf);
    let schema = spec_qti_schema();
    lemma_model_valid(schema, t, schema.root);
    lemma_qti_schema_plain();
    lemma_rt_preserves_valid(schema, parsed_model(t), p, schema.root);
    lemma_model_valid(schema, q, schema.root);
}

/// The package manifest of an XML-safe identifier is key-distinct and
/// writable.
pub proof fn lemma_manifest_good(ident: Seq<char>)
    requires
        xml_text_ok(ident),
    ensures
        attrs_distinct(crate::generator::spec_manifest(ident)),
        writable(parsed_model(crate::generator::spec_manifest(ident))),
{
    reveal_strlit("manifest");
    reveal_strlit("metadata");
    reveal_strlit("schema");
    reveal_strlit("schemaversion");
    reveal_strlit("organizations");
    reveal_strlit("resources");
    reveal_strlit("resource");
    reveal_strlit("file");
    reveal_strlit("identifier");
    reveal_strlit("type");
    reveal_strlit("href");
    reveal_strlit("xmlns");
    reveal_strlit("xmlns:");
    reveal_strlit("xmlns:lom");
    reveal_strlit("xmlns:lomimscc");
    reveal_strlit("xmlns:xsi");
    reveal_strlit("lom");
    reveal_strlit("lomimscc");
    reveal_strlit("xsi");
    reveal_strlit("xsi:schemaLocation");
    reveal_strlit("schemaLocation");
    reveal_strlit("_manifest");
    reveal_strlit("_resource");
    reveal_strlit(".xml");
    reveal_strlit("IMS Content");
    reveal_strlit("1.1.3");
    reveal_strlit("imsqti_xmlv1p2");
    reveal_strlit("http://www.imsglobal.org/xsd/imsccv1p1/imscp_v1p1");
    reveal_strlit("http://ltsc.ieee.org/xsd/imsccv1p1/LOM/resource");
    reveal_strlit("http://ltsc.ieee.org/xsd/imsccv1p1/LOM/manifest");
    reveal_strlit("http://www.w3.org/2001/XMLSchema-instance");
    reveal_strlit(
        "http://www.imsglobal.org/xsd/imsccv1p1/imscp_v1p1 http://www.imsglobal.org/profile/cc/ccv1p1/ccv1p1_imscp_v1p2_v1p0.xsd",
    );
    reveal_with_fuel(s_attr_lookup, 8);
    assert("identifier"@.len() == 10 && "xmlns"@.len() == 5 && "xmlns:lom"@.len() == 9
        && "xmlns:lomimscc"@.len() == 14 && "xmlns:xsi"@.len() == 9
        && "xsi:schemaLocation"@.len() == 18 && "schemaLocation"@.len() == 14 && "type"@.len()
        == 4 && "href"@.len() == 4);
    assert("xmlns:lom"@[6] != "xmlns:xsi"@[6]);
    lemma_text_ok_concat(ident, "_manifest"@);
    lemma_text_ok_concat(ident, "_resource"@);
    lemma_text_ok_concat(ident, ".xml"@);
    let m = crate::generator::spec_manifest(ident);
    let metadata = m.children[0]->Element_0;
    let schema_e = metadata.children[0]->Element_0;
    let schemaversion = metadata.children[1]->Element_0;
    let organizations = m.children[1]->Element_0;
    let resources = m.children[2]->Element_0;
    let resource = resources.children[0]->Element_0;
    let file = resource.children[0]->Element_0;
    // key distinctness throughout
    lemma_nodes_distinct_all(schema_e.children);
    lemma_nodes_distinct_all(schemaversion.children);
    assert(attrs_distinct(schema_e) && attrs_distinct(schemaversion));
    lemma_nodes_distinct_all(metadata.children);
    assert(attrs_distinct(metadata));
    lemma_nodes_distinct_all(organizations.children);
    assert(attrs_distinct(organizations));
    lemma_nodes_distinct_all(file.children);
    assert(attrs_distinct(file));
    assert forall|i: int, j: int|
        0 <= i < j < resource.attrs.len() implies (#[trigger] resource.attrs[i]).0 != (
    #[trigger] resource.attrs[j]).0 by {
        assert("type"@[0] != "href"@[0]);
    }
    lemma_nodes_distinct_all(resource.children);
    assert(attrs_distinct(resource));
    lemma_nodes_distinct_all(resources.children);
    assert(attrs_distinct(resources));
    assert forall|i: int, j: int|
        0 <= i < j < m.attrs.len() implies (#[trigger] m.attrs[i]).0 != (
    #[trigger] m.attrs[j]).0 by {}
    lemma_nodes_distinct_all(m.children);
    assert(attrs_distinct(m));
    // writability throughout
    assert(xml_name_ok("manifest"@) && xml_name_ok("metadata"@) && xml_name_ok("schema"@)
        && xml_name_ok("schemaversion"@) && xml_name_ok("organizations"@) && xml_name_ok(
        "resources"@,
    ) && xml_name_ok("resource"@) && xml_name_ok("file"@));
    assert(xml_name_ok("identifier"@) && xml_name_ok("type"@) && xml_name_ok("href"@));
    assert(xml_text_ok("IMS Content"@) && xml_text_ok("1.1.3"@) && xml_text_ok(
        "imsqti_xmlv1p2"@,
    ));
    assert(xml_text_ok("http://www.imsglobal.org/xsd/imsccv1p1/imscp_v1p1"@) && xml_text_ok(
        "http://ltsc.ieee.org/xsd/imsccv1p1/LOM/resource"@,
    ) && xml_text_ok("http://ltsc.ieee.org/xsd/imsccv1p1/LOM/manifest"@) && xml_text_ok(
        "http://www.w3.org/2001/XMLSchema-instance"@,
    ) && xml_text_ok(
        "http://www.imsglobal.org/xsd/imsccv1p1/imscp_v1p1 http://www.imsglobal.org/profile/cc/ccv1p1/ccv1p1_imscp_v1p2_v1p0.xsd"@,
    ));
    reveal_strlit("xml");
    reveal_strlit("http://www.w3.org/XML/1998/namespace");
    reveal_strlit("http://www.w3.org/2000/xmlns/");
    assert("xml"@.len() == 3 && "http://www.w3.org/XML/1998/namespace"@.len() == 36
        && "http://www.w3.org/2000/xmlns/"@.len() == 29
        && "http://www.imsglobal.org/xsd/imsccv1p1/imscp_v1p1"@.len() == 49
        && "http://ltsc.ieee.org/xsd/imsccv1p1/LOM/resource"@.len() == 47
        && "http://ltsc.ieee.org/xsd/imsccv1p1/LOM/manifest"@.len() == 47
        && "http://www.w3.org/2001/XMLSchema-instance"@.len() == 41);
    assert(attr_entry_ok("xmlns"@, "http://www.imsglobal.org/xsd/imsccv1p1/imscp_v1p1"@));
    assert(attr_entry_ok("xmlns:lom"@, "http://ltsc.ieee.org/xsd/imsccv1p1/LOM/resource"@)) by {
        assert("xmlns:lom"@.take(6) =~= "xmlns:"@);
        assert("xmlns:lom"@.skip(6) =~= "lom"@);
        assert(xml_name_ok("lom"@));
        assert("lom"@[1] != "xml"@[1]);
    }
    assert(attr_entry_ok(
        "xmlns:lomimscc"@,
        "http://ltsc.ieee.org/xsd/imsccv1p1/LOM/manifest"@,
    )) by {
        assert("xmlns:lomimscc"@.take(6) =~= "xmlns:"@);
        assert("xmlns:lomimscc"@.skip(6) =~= "lomimscc"@);
        assert(xml_name_ok("lomimscc"@));
    }
    assert(attr_entry_ok("xmlns:xsi"@, "http://www.w3.org/2001/XMLSchema-instance"@)) by {
        assert("xmlns:xsi"@.take(6) =~= "xmlns:"@);
        assert("xmlns:xsi"@.skip(6) =~= "xsi"@);
        assert(xml_name_ok("xsi"@));
        assert("xsi"@[1] != "xml"@[1]);
    }
    lemma_plain_entry_ok("identifier"@, ident + "_manifest"@);
    lemma_plain_entry_ok("identifier"@, ident + "_resource"@);
    lemma_plain_entry_ok("type"@, "imsqti_xmlv1p2"@);
    lemma_plain_entry_ok("href"@, ident + ".xml"@);
    lemma_keys_ok(schema_e);
    lemma_parsed_nodes_index(schema_e.children);
    assert(writable(parsed_model(schema_e)));
    lemma_keys_ok(schemaversion);
    lemma_parsed_nodes_index(schemaversion.children);
    assert(writable(parsed_model(schemaversion)));
    lemma_keys_ok(metadata);
    lemma_parsed_nodes_index(metadata.children);
    lemma_writable_children_all(parsed_model(metadata).children);
    assert(writable(parsed_model(metadata)));
    lemma_keys_ok(organizations);
    lemma_parsed_nodes_index(organizations.children);
    assert(parsed_model(organizations).children.len() == 0);
    assert(writable(parsed_model(organizations)));
    lemma_keys_ok(file);
    lemma_parsed_nodes_index(file.children);
    assert(parsed_model(file).children.len() == 0);
    assert(writable(parsed_model(file)));
    lemma_keys_ok(resource);
    lemma_parsed_nodes_index(resource.children);
    lemma_writable_children_all(parsed_model(resource).children);
    assert(writable(parsed_model(resource)));
    lemma_keys_ok(resources);
    lemma_parsed_nodes_index(resources.children);
    lemma_writable_children_all(parsed_model(resources).children);
    assert(writable(parsed_model(resources)));
    assert(s_attr_lookup(m.attrs, "xmlns:xsi"@) is Some);
    lemma_keys_ok(m);
    lemma_parsed_nodes_index(m.children);
    lemma_writable_children_all(parsed_model(m).children);
    assert(writable(parsed_model(m)));
}

} // verus!
