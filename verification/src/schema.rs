//! The hand-authored QTI 1.2 schema table — every legal element, its
//! attributes and its legal children — and the structural check of an
//! element tree against it.

use vstd::prelude::*;
use crate::error::QtiError;
use crate::text::{s_starts_with, str_starts_with};
use crate::xml::{SpecElement, SpecNode, XmlElement, XmlNode, node_view, lemma_nodes_view, s_attr_lookup};

verus! {

/// The definition of one attribute: its name, whether it is required, and
/// its legal values where they are enumerated.
pub struct AttributeDef {
    pub name: String,
    pub required: bool,
    pub values: Option<Vec<String>>,
}

/// The definition of one element: its attributes and its legal immediate
/// child element names.
pub struct ElementDef {
    pub name: String,
    pub attributes: Vec<AttributeDef>,
    pub required: bool,
    pub children: Vec<String>,
}

/// The schema: a root element name and a table of element definitions.
pub struct QtiSchema {
    pub root: String,
    pub elements: Vec<ElementDef>,
}

#[verifier::ext_equal]
pub ghost struct SpecAttributeDef {
    pub name: Seq<char>,
    pub required: bool,
    pub values: Option<Seq<Seq<char>>>,
}

#[verifier::ext_equal]
pub ghost struct SpecElementDef {
    pub name: Seq<char>,
    pub attributes: Seq<SpecAttributeDef>,
    pub required: bool,
    pub children: Seq<Seq<char>>,
}

#[verifier::ext_equal]
pub ghost struct SpecSchema {
    pub root: Seq<char>,
    pub elements: Seq<SpecElementDef>,
}

impl View for AttributeDef {
    type V = SpecAttributeDef;

    open spec fn view(&self) -> SpecAttributeDef {
        SpecAttributeDef {
            name: self.name@,
            required: self.required,
            values: match self.values {
                Some(v) => Some(Seq::new(v@.len(), |i: int| v@[i]@)),
                None => None,
            },
        }
    }
}

impl View for ElementDef {
    type V = SpecElementDef;

    open spec fn view(&self) -> SpecElementDef {
        SpecElementDef {
            name: self.name@,
            attributes: Seq::new(self.attributes@.len(), |i: int| self.attributes@[i]@),
            required: self.required,
            children: Seq::new(self.children@.len(), |i: int| self.children@[i]@),
        }
    }
}

impl View for QtiSchema {
    type V = SpecSchema;

    open spec fn view(&self) -> SpecSchema {
        SpecSchema {
            root: self.root@,
            elements: Seq::new(self.elements@.len(), |i: int| self.elements@[i]@),
        }
    }
}

/// The first element definition with the given name.
pub open spec fn s_find_def(defs: Seq<SpecElementDef>, name: Seq<char>) -> Option<SpecElementDef>
    decreases defs.len(),
{
    if defs.len() == 0 {
        None
    } else if defs[0].name == name {
        Some(defs[0])
    } else {
        s_find_def(defs.drop_first(), name)
    }
}

/// One attribute definition holds of an element: a namespace-declaration
/// attribute is exempt; otherwise a required attribute must be present, and
/// a present attribute with an enumerated value set must hold a legal value.
pub open spec fn s_attr_ok(e: SpecElement, ad: SpecAttributeDef) -> bool {
    if s_starts_with(ad.name, "xmlns"@) {
        true
    } else {
        &&& (ad.required ==> s_attr_lookup(e.attrs, ad.name) is Some)
        &&& match s_attr_lookup(e.attrs, ad.name) {
            Some(v) => match ad.values {
                Some(vals) => vals.contains(v),
                None => true,
            },
            None => true,
        }
    }
}

/// Structural conformance of an element: it carries the expected name, a
/// definition for it exists, every attribute definition holds, every child
/// element's name is legal for it, and every child element conforms in turn.
/// Text children are not constrained.
pub open spec fn s_elem_valid(schema: SpecSchema, e: SpecElement, expected: Seq<char>) -> bool
    decreases e,
{
    &&& e.name == expected
    &&& match s_find_def(schema.elements, e.name) {
        None => false,
        Some(def) => {
            &&& forall|i: int| 0 <= i < def.attributes.len() ==> s_attr_ok(e, #[trigger] def.attributes[i])
            &&& s_children_valid(schema, def, e.children)
        },
    }
}

pub open spec fn s_children_valid(schema: SpecSchema, def: SpecElementDef, ns: Seq<SpecNode>) -> bool
    decreases ns,
{
    if ns.len() == 0 {
        true
    } else {
        &&& match ns[0] {
            SpecNode::Element(c) => def.children.contains(c.name) && s_elem_valid(schema, c, c.name),
            SpecNode::Text(_) => true,
        }
        &&& s_children_valid(schema, def, ns.drop_first())
    }
}

/// A whole document conforms when its root conforms as the schema's root
/// element.
pub open spec fn s_doc_valid(schema: SpecSchema, e: SpecElement) -> bool {
    s_elem_valid(schema, e, schema.root)
}

fn vec_contains_string(v: &Vec<String>, x: &String) -> (r: bool)
    ensures
        r == Seq::new(v@.len(), |i: int| v@[i]@).contains(x@),
{
    let ghost views = Seq::new(v@.len(), |i: int| v@[i]@);
    let n = v.len();
    let mut i: usize = 0;
    while i < n
        invariant
            n == v@.len(),
            0 <= i <= n,
            views == Seq::new(v@.len(), |j: int| v@[j]@),
            forall|j: int| 0 <= j < i ==> views[j] != x@,
        decreases n - i,
    {
        if v[i].eq(x) {
            proof {
                assert(views[i as int] == x@);
            }
            return true;
        }
        i = i + 1;
    }
    proof {
        assert forall|j: int| 0 <= j < views.len() implies views[j] != x@ by {}
        if views.contains(x@) {
            let j = choose|j: int| 0 <= j < views.len() && views[j] == x@;
            assert(false);
        }
    }
    false
}


/// An attribute definition without enumerated values.
pub open spec fn s_attr_def(name: Seq<char>, required: bool) -> SpecAttributeDef {
    SpecAttributeDef { name, required, values: None }
}

/// An attribute definition with enumerated legal values.
pub open spec fn s_attr_def_enum(name: Seq<char>, required: bool, values: Seq<Seq<char>>) -> SpecAttributeDef {
    SpecAttributeDef { name, required, values: Some(values) }
}

/// The table of element definitions behind [`QtiSchema::qti_1_2_schema`].
pub open spec fn spec_qti_defs() -> Seq<SpecElementDef> {
    seq![
        SpecElementDef {
            name: "questestinterop"@,
            attributes: seq![
                s_attr_def_enum("xmlns"@, true, seq!["http://www.imsglobal.org/xsd/ims_qtiasiv1p2"@]),
                s_attr_def_enum("xmlns:xsi"@, true, seq!["http://www.w3.org/2001/XMLSchema-instance"@]),
            ],
            required: true,
            children: seq!["assessment"@],
        },
        SpecElementDef {
            name: "qtimetadata"@,
            attributes: seq![],
            required: false,
            children: seq!["qtimetadatafield"@],
        },
        SpecElementDef {
            name: "itemmetadata"@,
            attributes: seq![],
            required: false,
            children: seq!["qtimetadatafield"@],
        },
        SpecElementDef {
            name: "qtimetadatafield"@,
            attributes: seq![],
            required: false,
            children: seq!["fieldlabel"@, "fieldentry"@],
        },
        SpecElementDef {
            name: "fieldlabel"@,
            attributes: seq![],
            required: false,
            children: seq![],
        },
        SpecElementDef {
            name: "fieldentry"@,
            attributes: seq![],
            required: false,
            children: seq![],
        },
        SpecElementDef {
            name: "assessment"@,
            attributes: seq![
                s_attr_def("ident"@, true),
                s_attr_def("title"@, true),
            ],
            required: true,
            children: seq!["qtimetadata"@, "section"@],
        },
        SpecElementDef {
            name: "section"@,
            attributes: seq![
                s_attr_def("ident"@, true),
                s_attr_def("title"@, false),
            ],
            required: true,
            children: seq!["item"@],
        },
        SpecElementDef {
            name: "item"@,
            attributes: seq![
                s_attr_def("ident"@, true),
                s_attr_def("title"@, false),
                s_attr_def("maxattempts"@, false),
            ],
            required: true,
            children: seq!["itemmetadata"@, "presentation"@, "resprocessing"@, "itemfeedback"@],
        },
        SpecElementDef {
            name: "presentation"@,
            attributes: seq![],
            required: true,
            children: seq!["material"@, "response_lid"@, "response_str"@, "response_num"@, "response_grp"@],
        },
        SpecElementDef {
            name: "response_lid"@,
            attributes: seq![
                s_attr_def("ident"@, true),
                s_attr_def_enum("rcardinality"@, false, seq!["Single"@, "Multiple"@]),
                s_attr_def_enum("rtiming"@, false, seq!["No"@, "Yes"@]),
            ],
            required: false,
            children: seq!["render_choice"@],
        },
        SpecElementDef {
            name: "render_choice"@,
            attributes: seq![
                s_attr_def_enum("shuffle"@, false, seq!["Yes"@, "No"@]),
            ],
            required: false,
            children: seq!["response_label"@],
        },
        SpecElementDef {
            name: "response_label"@,
            attributes: seq![
                s_attr_def("ident"@, true),
            ],
            required: false,
            children: seq!["material"@],
        },
        SpecElementDef {
            name: "material"@,
            attributes: seq![],
            required: false,
            children: seq!["mattext"@, "matimage"@],
        },
        SpecElementDef {
            name: "mattext"@,
            attributes: seq![
                s_attr_def_enum("texttype"@, false, seq!["text/plain"@, "text/html"@]),
            ],
            required: false,
            children: seq![],
        },
        SpecElementDef {
            name: "resprocessing"@,
            attributes: seq![],
            required: true,
            children: seq!["outcomes"@, "respcondition"@],
        },
        SpecElementDef {
            name: "outcomes"@,
            attributes: seq![],
            required: false,
            children: seq!["decvar"@],
        },
        SpecElementDef {
            name: "decvar"@,
            attributes: seq![
                s_attr_def("varname"@, true),
                s_attr_def("vartype"@, false),
                s_attr_def("minvalue"@, false),
                s_attr_def("maxvalue"@, false),
            ],
            required: false,
            children: seq![],
        },
        SpecElementDef {
            name: "respcondition"@,
            attributes: seq![
                s_attr_def_enum("continue"@, false, seq!["Yes"@, "No"@]),
            ],
            required: false,
            children: seq!["conditionvar"@, "setvar"@, "displayfeedback"@],
        },
        SpecElementDef {
            name: "conditionvar"@,
            attributes: seq![],
            required: false,
            children: seq!["varequal"@, "and"@, "or"@, "not"@],
        },
        SpecElementDef {
            name: "varequal"@,
            attributes: seq![
                s_attr_def("respident"@, true),
                s_attr_def_enum("case"@, false, seq!["Yes"@, "No"@]),
            ],
            required: false,
            children: seq![],
        },
        SpecElementDef {
            name: "setvar"@,
            attributes: seq![
                s_attr_def("varname"@, true),
                s_attr_def_enum("action"@, false, seq!["Set"@, "Add"@, "Subtract"@]),
            ],
            required: false,
            children: seq![],
        },
        SpecElementDef {
            name: "displayfeedback"@,
            attributes: seq![
                s_attr_def("linkrefid"@, true),
            ],
            required: false,
            children: seq![],
        },
        SpecElementDef {
            name: "itemfeedback"@,
            attributes: seq![
                s_attr_def("ident"@, true),
            ],
            required: false,
            children: seq!["material"@],
        },
        SpecElementDef {
            name: "response_str"@,
            attributes: seq![
                s_attr_def("ident"@, true),
                s_attr_def_enum("rcardinality"@, false, seq!["Single"@, "Multiple"@]),
            ],
            required: false,
            children: seq!["render_fib"@],
        },
        SpecElementDef {
            name: "response_num"@,
            attributes: seq![
                s_attr_def("ident"@, true),
                s_attr_def_enum("rcardinality"@, false, seq!["Single"@, "Multiple"@]),
                s_attr_def("numtype"@, false),
            ],
            required: false,
            children: seq!["render_fib"@],
        },
        SpecElementDef {
            name: "render_fib"@,
            attributes: seq![
                s_attr_def("rows"@, false),
                s_attr_def("columns"@, false),
            ],
            required: false,
            children: seq![],
        },
    ]
}

/// The full schema value.
pub open spec fn spec_qti_schema() -> SpecSchema {
    SpecSchema { root: "questestinterop"@, elements: spec_qti_defs() }
}

fn attr_plain(name: &str, required: bool) -> (r: AttributeDef)
    ensures
        r@ =~~= s_attr_def(name@, required),
{
    AttributeDef { name: name.to_owned(), required, values: None }
}

fn attr_enum(name: &str, required: bool, values: Vec<String>) -> (r: AttributeDef)
    ensures
        r@ =~~= s_attr_def_enum(name@, required, Seq::new(values@.len(), |i: int| values@[i]@)),
{
    AttributeDef { name: name.to_owned(), required, values: Some(values) }
}

fn strings1(a: &str) -> (r: Vec<String>)
    ensures
        Seq::new(r@.len(), |i: int| r@[i]@) =~~= seq![a@],
{
    let mut v: Vec<String> = Vec::new();
    v.push(a.to_owned());
    v
}

fn strings2(a: &str, b: &str) -> (r: Vec<String>)
    ensures
        Seq::new(r@.len(), |i: int| r@[i]@) =~~= seq![a@, b@],
{
    let mut v: Vec<String> = Vec::new();
    v.push(a.to_owned());
    v.push(b.to_owned());
    v
}


fn strings3(a: &str, b: &str, c: &str) -> (r: Vec<String>)
    ensures
        Seq::new(r@.len(), |i: int| r@[i]@) =~~= seq![a@, b@, c@],
{
    let mut v: Vec<String> = Vec::new();
    v.push(a.to_owned());
    v.push(b.to_owned());
    v.push(c.to_owned());
    v
}

fn strings4(a: &str, b: &str, c: &str, d: &str) -> (r: Vec<String>)
    ensures
        Seq::new(r@.len(), |i: int| r@[i]@) =~~= seq![a@, b@, c@, d@],
{
    let mut v: Vec<String> = Vec::new();
    v.push(a.to_owned());
    v.push(b.to_owned());
    v.push(c.to_owned());
    v.push(d.to_owned());
    v
}

fn strings5(a: &str, b: &str, c: &str, d: &str, e: &str) -> (r: Vec<String>)
    ensures
        Seq::new(r@.len(), |i: int| r@[i]@) =~~= seq![a@, b@, c@, d@, e@],
{
    let mut v: Vec<String> = Vec::new();
    v.push(a.to_owned());
    v.push(b.to_owned());
    v.push(c.to_owned());
    v.push(d.to_owned());
    v.push(e.to_owned());
    v
}

impl QtiSchema {
    /// The hand-authored QTI 1.2 schema table, sufficient to validate the
    /// shapes that the builder produces.
    #[verifier::rlimit(60)]
    pub fn qti_1_2_schema() -> (r: QtiSchema)
        ensures
            r@ =~~= spec_qti_schema(),
    {
        let mut elements: Vec<ElementDef> = Vec::new();

        let mut ats: Vec<AttributeDef> = Vec::new();
        ats.push(attr_enum("xmlns", true, strings1("http://www.imsglobal.org/xsd/ims_qtiasiv1p2")));
        ats.push(attr_enum("xmlns:xsi", true, strings1("http://www.w3.org/2001/XMLSchema-instance")));
        let d = ElementDef {
            name: "questestinterop".to_owned(),
            attributes: ats,
            required: true,
            children: strings1("assessment"),
        };
        proof {
            assert(d@ =~~= spec_qti_defs()[0]);
        }
        elements.push(d);

        let d = ElementDef {
            name: "qtimetadata".to_owned(),
            attributes: Vec::new(),
            required: false,
            children: strings1("qtimetadatafield"),
        };
        proof {
            assert(d@ =~~= spec_qti_defs()[1]);
        }
        elements.push(d);

        let d = ElementDef {
            name: "itemmetadata".to_owned(),
            attributes: Vec::new(),
            required: false,
            children: strings1("qtimetadatafield"),
        };
        proof {
            assert(d@ =~~= spec_qti_defs()[2]);
        }
        elements.push(d);

        let d = ElementDef {
            name: "qtimetadatafield".to_owned(),
            attributes: Vec::new(),
            required: false,
            children: strings2("fieldlabel", "fieldentry"),
        };
        proof {
            assert(d@ =~~= spec_qti_defs()[3]);
        }
        elements.push(d);

        let d = ElementDef {
            name: "fieldlabel".to_owned(),
            attributes: Vec::new(),
            required: false,
            children: Vec::new(),
        };
        proof {
            assert(d@ =~~= spec_qti_defs()[4]);
        }
        elements.push(d);

        let d = ElementDef {
            name: "fieldentry".to_owned(),
            attributes: Vec::new(),
            required: false,
            children: Vec::new(),
        };
        proof {
            assert(d@ =~~= spec_qti_defs()[5]);
        }
        elements.push(d);

        let mut ats: Vec<AttributeDef> = Vec::new();
        ats.push(attr_plain("ident", true));
        ats.push(attr_plain("title", true));
        let d = ElementDef {
            name: "assessment".to_owned(),
            attributes: ats,
            required: true,
            children: strings2("qtimetadata", "section"),
        };
        proof {
            assert(d@ =~~= spec_qti_defs()[6]);
        }
        elements.push(d);

        let mut ats: Vec<AttributeDef> = Vec::new();
        ats.push(attr_plain("ident", true));
        ats.push(attr_plain("title", false));
        let d = ElementDef {
            name: "section".to_owned(),
            attributes: ats,
            required: true,
            children: strings1("item"),
        };
        proof {
            assert(d@ =~~= spec_qti_defs()[7]);
        }
        elements.push(d);

        let mut ats: Vec<AttributeDef> = Vec::new();
        ats.push(attr_plain("ident", true));
        ats.push(attr_plain("title", false));
        ats.push(attr_plain("maxattempts", false));
        let d = ElementDef {
            name: "item".to_owned(),
            attributes: ats,
            required: true,
            children: strings4("itemmetadata", "presentation", "resprocessing", "itemfeedback"),
        };
        proof {
            assert(d@ =~~= spec_qti_defs()[8]);
        }
        elements.push(d);

        let d = ElementDef {
            name: "presentation".to_owned(),
            attributes: Vec::new(),
            required: true,
            children: strings5("material", "response_lid", "response_str", "response_num", "response_grp"),
        };
        proof {
            assert(d@ =~~= spec_qti_defs()[9]);
        }
        elements.push(d);

        let mut ats: Vec<AttributeDef> = Vec::new();
        ats.push(attr_plain("ident", true));
        ats.push(attr_enum("rcardinality", false, strings2("Single", "Multiple")));
        ats.push(attr_enum("rtiming", false, strings2("No", "Yes")));
        let d = ElementDef {
            name: "response_lid".to_owned(),
            attributes: ats,
            required: false,
            children: strings1("render_choice"),
        };
        proof {
            assert(d@ =~~= spec_qti_defs()[10]);
        }
        elements.push(d);

        let mut ats: Vec<AttributeDef> = Vec::new();
        ats.push(attr_enum("shuffle", false, strings2("Yes", "No")));
        let d = ElementDef {
            name: "render_choice".to_owned(),
            attributes: ats,
            required: false,
            children: strings1("response_label"),
        };
        proof {
            assert(d@ =~~= spec_qti_defs()[11]);
        }
        elements.push(d);

        let mut ats: Vec<AttributeDef> = Vec::new();
        ats.push(attr_plain("ident", true));
        let d = ElementDef {
            name: "response_label".to_owned(),
            attributes: ats,
            required: false,
            children: strings1("material"),
        };
        proof {
            assert(d@ =~~= spec_qti_defs()[12]);
        }
        elements.push(d);

        let d = ElementDef {
            name: "material".to_owned(),
            attributes: Vec::new(),
            required: false,
            children: strings2("mattext", "matimage"),
        };
        proof {
            assert(d@ =~~= spec_qti_defs()[13]);
        }
        elements.push(d);

        let mut ats: Vec<AttributeDef> = Vec::new();
        ats.push(attr_enum("texttype", false, strings2("text/plain", "text/html")));
        let d = ElementDef {
            name: "mattext".to_owned(),
            attributes: ats,
            required: false,
            children: Vec::new(),
        };
        proof {
            assert(d@ =~~= spec_qti_defs()[14]);
        }
        elements.push(d);

        let d = ElementDef {
            name: "resprocessing".to_owned(),
            attributes: Vec::new(),
            required: true,
            children: strings2("outcomes", "respcondition"),
        };
        proof {
            assert(d@ =~~= spec_qti_defs()[15]);
        }
        elements.push(d);

        let d = ElementDef {
            name: "outcomes".to_owned(),
            attributes: Vec::new(),
            required: false,
            children: strings1("decvar"),
        };
        proof {
            assert(d@ =~~= spec_qti_defs()[16]);
        }
        elements.push(d);

        let mut ats: Vec<AttributeDef> = Vec::new();
        ats.push(attr_plain("varname", true));
        ats.push(attr_plain("vartype", false));
        ats.push(attr_plain("minvalue", false));
        ats.push(attr_plain("maxvalue", false));
        let d = ElementDef {
            name: "decvar".to_owned(),
            attributes: ats,
            required: false,
            children: Vec::new(),
        };
        proof {
            assert(d@ =~~= spec_qti_defs()[17]);
        }
        elements.push(d);

        let mut ats: Vec<AttributeDef> = Vec::new();
        ats.push(attr_enum("continue", false, strings2("Yes", "No")));
        let d = ElementDef {
            name: "respcondition".to_owned(),
            attributes: ats,
            required: false,
            children: strings3("conditionvar", "setvar", "displayfeedback"),
        };
        proof {
            assert(d@ =~~= spec_qti_defs()[18]);
        }
        elements.push(d);

        let d = ElementDef {
            name: "conditionvar".to_owned(),
            attributes: Vec::new(),
            required: false,
            children: strings4("varequal", "and", "or", "not"),
        };
        proof {
            assert(d@ =~~= spec_qti_defs()[19]);
        }
        elements.push(d);

        let mut ats: Vec<AttributeDef> = Vec::new();
        ats.push(attr_plain("respident", true));
        ats.push(attr_enum("case", false, strings2("Yes", "No")));
        let d = ElementDef {
            name: "varequal".to_owned(),
            attributes: ats,
            required: false,
            children: Vec::new(),
        };
        proof {
            assert(d@ =~~= spec_qti_defs()[20]);
        }
        elements.push(d);

        let mut ats: Vec<AttributeDef> = Vec::new();
        ats.push(attr_plain("varname", true));
        ats.push(attr_enum("action", false, strings3("Set", "Add", "Subtract")));
        let d = ElementDef {
            name: "setvar".to_owned(),
            attributes: ats,
            required: false,
            children: Vec::new(),
        };
        proof {
            assert(d@ =~~= spec_qti_defs()[21]);
        }
        elements.push(d);

        let mut ats: Vec<AttributeDef> = Vec::new();
        ats.push(attr_plain("linkrefid", true));
        let d = ElementDef {
            name: "displayfeedback".to_owned(),
            attributes: ats,
            required: false,
            children: Vec::new(),
        };
        proof {
            assert(d@ =~~= spec_qti_defs()[22]);
        }
        elements.push(d);

        let mut ats: Vec<AttributeDef> = Vec::new();
        ats.push(attr_plain("ident", true));
        let d = ElementDef {
            name: "itemfeedback".to_owned(),
            attributes: ats,
            required: false,
            children: strings1("material"),
        };
        proof {
            assert(d@ =~~= spec_qti_defs()[23]);
        }
        elements.push(d);

        let mut ats: Vec<AttributeDef> = Vec::new();
        ats.push(attr_plain("ident", true));
        ats.push(attr_enum("rcardinality", false, strings2("Single", "Multiple")));
        let d = ElementDef {
            name: "response_str".to_owned(),
            attributes: ats,
            required: false,
            children: strings1("render_fib"),
        };
        proof {
            assert(d@ =~~= spec_qti_defs()[24]);
        }
        elements.push(d);

        let mut ats: Vec<AttributeDef> = Vec::new();
        ats.push(attr_plain("ident", true));
        ats.push(attr_enum("rcardinality", false, strings2("Single", "Multiple")));
        ats.push(attr_plain("numtype", false));
        let d = ElementDef {
            name: "response_num".to_owned(),
            attributes: ats,
            required: false,
            children: strings1("render_fib"),
        };
        proof {
            assert(d@ =~~= spec_qti_defs()[25]);
        }
        elements.push(d);

        let mut ats: Vec<AttributeDef> = Vec::new();
        ats.push(attr_plain("rows", false));
        ats.push(attr_plain("columns", false));
        let d = ElementDef {
            name: "render_fib".to_owned(),
            attributes: ats,
            required: false,
            children: Vec::new(),
        };
        proof {
            assert(d@ =~~= spec_qti_defs()[26]);
        }
        elements.push(d);

        let r = QtiSchema { root: "questestinterop".to_owned(), elements };
        proof {
            assert(r@.elements[0] =~~= spec_qti_defs()[0]);
            assert(r@.elements[1] =~~= spec_qti_defs()[1]);
            assert(r@.elements[2] =~~= spec_qti_defs()[2]);
            assert(r@.elements[3] =~~= spec_qti_defs()[3]);
            assert(r@.elements[4] =~~= spec_qti_defs()[4]);
            assert(r@.elements[5] =~~= spec_qti_defs()[5]);
            assert(r@.elements[6] =~~= spec_qti_defs()[6]);
            assert(r@.elements[7] =~~= spec_qti_defs()[7]);
            assert(r@.elements[8] =~~= spec_qti_defs()[8]);
            assert(r@.elements[9] =~~= spec_qti_defs()[9]);
            assert(r@.elements[10] =~~= spec_qti_defs()[10]);
            assert(r@.elements[11] =~~= spec_qti_defs()[11]);
            assert(r@.elements[12] =~~= spec_qti_defs()[12]);
            assert(r@.elements[13] =~~= spec_qti_defs()[13]);
            assert(r@.elements[14] =~~= spec_qti_defs()[14]);
            assert(r@.elements[15] =~~= spec_qti_defs()[15]);
            assert(r@.elements[16] =~~= spec_qti_defs()[16]);
            assert(r@.elements[17] =~~= spec_qti_defs()[17]);
            assert(r@.elements[18] =~~= spec_qti_defs()[18]);
            assert(r@.elements[19] =~~= spec_qti_defs()[19]);
            assert(r@.elements[20] =~~= spec_qti_defs()[20]);
            assert(r@.elements[21] =~~= spec_qti_defs()[21]);
            assert(r@.elements[22] =~~= spec_qti_defs()[22]);
            assert(r@.elements[23] =~~= spec_qti_defs()[23]);
            assert(r@.elements[24] =~~= spec_qti_defs()[24]);
            assert(r@.elements[25] =~~= spec_qti_defs()[25]);
            assert(r@.elements[26] =~~= spec_qti_defs()[26]);
            assert(r@.elements =~~= spec_qti_defs());
            assert(r@ =~~= spec_qti_schema());
        }
        r
    }

    /// Accepts schema text for interface compatibility; the fixed QTI 1.2
    /// table stands in until XSD interpretation exists.
    pub fn from_xsd_string(_xsd: &str) -> (r: Result<QtiSchema, QtiError>)
        ensures
            r matches Ok(s) && s@ =~~= spec_qti_schema(),
    {
        Ok(QtiSchema::qti_1_2_schema())
    }

    /// The first element definition with the given name.
    fn find_def(&self, name: &String) -> (r: Option<&ElementDef>)
        ensures
            match r {
                Some(d) => s_find_def(self@.elements, name@) == Some(d@),
                None => s_find_def(self@.elements, name@) is None,
            },
    {
        proof {
            assert(self@.elements.skip(0) =~= self@.elements);
        }
        let n = self.elements.len();
        let mut i: usize = 0;
        while i < n
            invariant
                n == self.elements@.len(),
                0 <= i <= n,
                self@.elements.len() == n,
                forall|j: int| 0 <= j < n ==> #[trigger] self@.elements[j] == self.elements@[j]@,
                s_find_def(self@.elements, name@) == s_find_def(self@.elements.skip(i as int), name@),
            decreases n - i,
        {
            proof {
                assert(self@.elements.skip(i as int).drop_first() =~= self@.elements.skip(i + 1));
                assert(self@.elements.skip(i as int)[0] == self@.elements[i as int]);
            }
            if self.elements[i].name.eq(name) {
                return Some(&self.elements[i]);
            }
            i = i + 1;
        }
        proof {
            assert(self@.elements.skip(n as int) =~= Seq::<SpecElementDef>::empty());
        }
        None
    }

    /// Structural validation of a whole document against the schema.
    pub fn validate(&self, element: &XmlElement) -> (r: Result<(), QtiError>)
        ensures
            r is Ok <==> s_doc_valid(self@, element@),
            r is Err ==> r->Err_0 is ValidationError,
    {
        self.validate_element(element, &self.root)
    }

    /// Structural validation of one element, expected to carry the given
    /// name; fails fast on the first violation, naming it.
    fn validate_element(&self, element: &XmlElement, expected_name: &String) -> (r: Result<
        (),
        QtiError,
    >)
        ensures
            r is Ok <==> s_elem_valid(self@, element@, expected_name@),
            r is Err ==> r->Err_0 is ValidationError,
        decreases *element,
    {
        if !element.name.eq(expected_name) {
            let mut m = String::from_str("Expected element '");
            m.append(expected_name.as_str());
            m.append("', found '");
            m.append(element.name.as_str());
            m.append("'");
            return Err(QtiError::ValidationError(m));
        }
        let def = match self.find_def(&element.name) {
            Some(d) => d,
            None => {
                let mut m = String::from_str("Unknown element: ");
                m.append(element.name.as_str());
                return Err(QtiError::ValidationError(m));
            },
        };
        let ghost sdef = def@;
        let na = def.attributes.len();
        let mut ai: usize = 0;
        while ai < na
            invariant
                na == def.attributes@.len(),
                0 <= ai <= na,
                sdef == def@,
                s_find_def(self@.elements, element@.name) == Some(sdef),
                sdef.attributes.len() == na,
                forall|j: int| 0 <= j < na ==> #[trigger] sdef.attributes[j] == def.attributes@[j]@,
                forall|j: int| 0 <= j < ai ==> s_attr_ok(element@, #[trigger] sdef.attributes[j]),
            decreases na - ai,
        {
            let ad = &def.attributes[ai];
            proof {
                assert(sdef.attributes[ai as int] == def.attributes@[ai as int]@);
            }
            if !str_starts_with(ad.name.as_str(), "xmlns") {
                let found = element.get_attribute(ad.name.as_str());
                if ad.required && found.is_none() {
                    proof {
                        assert(!s_attr_ok(element@, sdef.attributes[ai as int]));
                    }
                    let mut m = String::from_str("Missing required attribute '");
                    m.append(ad.name.as_str());
                    m.append("' on element '");
                    m.append(element.name.as_str());
                    m.append("'");
                    return Err(QtiError::ValidationError(m));
                }
                if let Some(value) = found {
                    if let Some(valid_values) = &ad.values {
                        if !vec_contains_string(valid_values, value) {
                            proof {
                                assert(ad@.values == Some(
                                    Seq::new(valid_values@.len(), |i: int| valid_values@[i]@),
                                ));
                                assert(!s_attr_ok(element@, sdef.attributes[ai as int]));
                            }
                            let mut m = String::from_str("Invalid value '");
                            m.append(value.as_str());
                            m.append("' for attribute '");
                            m.append(ad.name.as_str());
                            m.append("' on element '");
                            m.append(element.name.as_str());
                            m.append("'");
                            return Err(QtiError::ValidationError(m));
                        }
                    }
                }
            }
            ai = ai + 1;
        }
        let ghost sdefc = sdef;
        let nc = element.children.len();
        let mut ci: usize = 0;
        proof {
            lemma_nodes_view(element.children@);
            assert(element@.children.skip(0) =~= element@.children);
        }
        while ci < nc
            invariant
                nc == element.children@.len(),
                0 <= ci <= nc,
                sdef == sdefc,
                sdef == def@,
                s_find_def(self@.elements, element@.name) == Some(sdef),
                element@.children.len() == nc,
                forall|j: int|
                    0 <= j < nc ==> #[trigger] element@.children[j] == node_view(
                        element.children@[j],
                    ),
                forall|j: int| 0 <= j < sdef.attributes.len() ==> s_attr_ok(element@, #[trigger] sdef.attributes[j]),
                s_children_valid(self@, sdef, element@.children) <==> s_children_valid(
                    self@,
                    sdef,
                    element@.children.skip(ci as int),
                ),
            decreases nc - ci,
        {
            proof {
                assert(element@.children.skip(ci as int).drop_first() =~= element@.children.skip(
                    ci + 1,
                ));
                assert(element@.children.skip(ci as int)[0] == element@.children[ci as int]);
            }
            match &element.children[ci] {
                XmlNode::Element(child) => {
                    proof {
                        assert(element.children@[ci as int] == XmlNode::Element(*child));
                        assert(element@.children[ci as int] == SpecNode::Element(child@));
                        assert(child@.name == child.name@);
                    }
                    if !vec_contains_string(&def.children, &child.name) {
                        proof {
                            assert(sdef.children =~= Seq::new(
                                def.children@.len(),
                                |i: int| def.children@[i]@,
                            ));
                            assert(!s_children_valid(
                                self@,
                                sdef,
                                element@.children.skip(ci as int),
                            ));
                        }
                        let mut m = String::from_str("Unexpected child element '");
                        m.append(child.name.as_str());
                        m.append("' in '");
                        m.append(element.name.as_str());
                        m.append("'");
                        return Err(QtiError::ValidationError(m));
                    }
                    let sub = self.validate_element(child, &child.name);
                    proof {
                        assert(sdef.children =~= Seq::new(
                            def.children@.len(),
                            |i: int| def.children@[i]@,
                        ));
                    }
                    match sub {
                        Ok(()) => {
                            proof {
                                assert(s_elem_valid(self@, child@, child@.name));
                            }
                        },
                        Err(e) => {
                            proof {
                                assert(!s_children_valid(
                                    self@,
                                    sdef,
                                    element@.children.skip(ci as int),
                                ));
                            }
                            return Err(e);
                        },
                    }
                },
                XmlNode::Text(_) => {},
            }
            ci = ci + 1;
        }
        proof {
            assert(element@.children.skip(nc as int) =~= Seq::<SpecNode>::empty());
        }
        Ok(())
    }
}

} // verus!
