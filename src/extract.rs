//! Extraction of a class model from Java source: the declaration classifier and the
//! class, interface, enum and record extractors, over the matches of fixed tree patterns.

use vstd::prelude::*;
use vstd::string::*;
use crate::types::{lemma_take_step, pair_view, ClassInfo, ClassView, ClassType, ClassField, ClassMethod, FieldView, MethodView, string_seq_view};
use crate::diagram::{class_block, class_head};
use crate::grammar::{Capture, ExtractError, match_view, matches_view, java_query_captures, java_top_level_kinds, parse_java, run_query, top_level_kinds};

verus! {

/// The top-level declaration kinds that an extractor handles.
#[derive(PartialEq, Eq, Structural, Clone, Copy, Debug)]
pub enum Declaration {
    Class,
    Interface,
    Enum,
    Record,
}

pub open spec fn declaration_of(kind: Seq<char>) -> Option<Declaration> {
    if kind == "class_declaration"@ {
        Some(Declaration::Class)
    } else if kind == "interface_declaration"@ {
        Some(Declaration::Interface)
    } else if kind == "enum_declaration"@ {
        Some(Declaration::Enum)
    } else if kind == "record_declaration"@ {
        Some(Declaration::Record)
    } else {
        None
    }
}

/// The first of the node kinds that is a type declaration, if any.
pub open spec fn first_declaration(kinds: Seq<Seq<char>>) -> Option<Declaration>
    decreases kinds.len(),
{
    if kinds.len() == 0 {
        None
    } else {
        match first_declaration(kinds.drop_last()) {
            Some(d) => Some(d),
            None => declaration_of(kinds.last()),
        }
    }
}

/// All captures of a sequence of matches, in order.
pub open spec fn all_captures(ms: Seq<Seq<(u32, Seq<char>, usize)>>) -> Seq<(u32, Seq<char>, usize)>
    decreases ms.len(),
{
    if ms.len() == 0 {
        Seq::empty()
    } else {
        all_captures(ms.drop_last()) + ms.last()
    }
}

/// The texts of the captures with index `idx`, in order.
pub open spec fn texts_with(cs: Seq<(u32, Seq<char>, usize)>, idx: u32) -> Seq<Seq<char>>
    decreases cs.len(),
{
    if cs.len() == 0 {
        Seq::empty()
    } else {
        texts_with(cs.drop_last(), idx) + if cs.last().0 == idx {
            seq![cs.last().1]
        } else {
            Seq::empty()
        }
    }
}

/// The texts of the captures with index `idx` over all matches.
pub open spec fn captured(ms: Seq<Seq<(u32, Seq<char>, usize)>>, idx: u32) -> Seq<Seq<char>> {
    texts_with(all_captures(ms), idx)
}

pub open spec fn first_or_empty(s: Seq<Seq<char>>) -> Seq<char> {
    if s.len() > 0 {
        s[0]
    } else {
        Seq::empty()
    }
}

pub open spec fn first_opt(s: Seq<Seq<char>>) -> Option<Seq<char>> {
    if s.len() > 0 {
        Some(s[0])
    } else {
        None
    }
}

/// The text of the last capture with index `idx` in one match, or empty if none.
pub open spec fn text_at(m: Seq<(u32, Seq<char>, usize)>, idx: u32) -> Seq<char>
    decreases m.len(),
{
    if m.len() == 0 {
        Seq::empty()
    } else if m.last().0 == idx {
        m.last().1
    } else {
        text_at(m.drop_last(), idx)
    }
}

/// A field declaration match: visibility at 0, type at 1, name at 2.
pub open spec fn field_of_match(m: Seq<(u32, Seq<char>, usize)>) -> FieldView {
    FieldView { name: text_at(m, 2), field_type: text_at(m, 1), visibility: text_at(m, 0) }
}

/// The start of the last capture with index `idx` in one match, if any.
pub open spec fn start_at(m: Seq<(u32, Seq<char>, usize)>, idx: u32) -> Option<usize>
    decreases m.len(),
{
    if m.len() == 0 {
        None
    } else if m.last().0 == idx {
        Some(m.last().2)
    } else {
        start_at(m.drop_last(), idx)
    }
}

/// A parameter match: method name at 0, type at 1, name at 2; gives `(name, type)`.
pub open spec fn param_of_match(m: Seq<(u32, Seq<char>, usize)>) -> (Seq<char>, Seq<char>) {
    (text_at(m, 2), text_at(m, 1))
}

/// The parameters, in order, of the method whose name node starts at `key`.
pub open spec fn params_for(key: Option<usize>, pms: Seq<Seq<(u32, Seq<char>, usize)>>) -> Seq<(Seq<char>, Seq<char>)>
    decreases pms.len(),
{
    if pms.len() == 0 {
        Seq::empty()
    } else {
        let rest = params_for(key, pms.drop_last());
        if key is Some && start_at(pms.last(), 0) == key {
            rest.push(param_of_match(pms.last()))
        } else {
            rest
        }
    }
}

/// A method declaration match: visibility at 0, return type at 1, name at 2; its parameters
/// are the parameter matches of the same name node.
pub open spec fn method_of_match(m: Seq<(u32, Seq<char>, usize)>, pms: Seq<Seq<(u32, Seq<char>, usize)>>) -> MethodView {
    MethodView {
        name: text_at(m, 2),
        return_type: text_at(m, 1),
        visibility: text_at(m, 0),
        parameters: params_for(start_at(m, 2), pms),
    }
}

/// The package named by the first package declaration match, or empty.
pub open spec fn package_of(ms: Seq<Seq<(u32, Seq<char>, usize)>>) -> Seq<char> {
    first_or_empty(captured(ms, 0))
}

fn declaration_for(kind: &String) -> (r: Option<Declaration>)
    ensures
        r == declaration_of(kind@),
{
    if *kind == String::from_str("class_declaration") {
        Some(Declaration::Class)
    } else if *kind == String::from_str("interface_declaration") {
        Some(Declaration::Interface)
    } else if *kind == String::from_str("enum_declaration") {
        Some(Declaration::Enum)
    } else if *kind == String::from_str("record_declaration") {
        Some(Declaration::Record)
    } else {
        None
    }
}

/// Picks the first top-level node kind that is a type declaration.
pub fn classify(kinds: &Vec<String>) -> (r: Option<Declaration>)
    ensures
        r == first_declaration(string_seq_view(kinds@)),
{
    let ghost kv = string_seq_view(kinds@);
    let mut found: Option<Declaration> = None;
    let mut i: usize = 0;
    while i < kinds.len()
        invariant
            0 <= i <= kinds.len(),
            kv == string_seq_view(kinds@),
            found == first_declaration(kv.take(i as int)),
        decreases kinds.len() - i,
    {
        proof { lemma_take_step(kv, i as int); }
        if found.is_none() {
            found = declaration_for(&kinds[i]);
        }
        i += 1;
    }
    assert(kv.take(i as int) =~= kv);
    found
}

/// The texts of the captures with index `idx` over all matches, in order.
pub fn captured_texts(ms: &Vec<Vec<Capture>>, idx: u32) -> (r: Vec<String>)
    ensures
        string_seq_view(r@) == captured(matches_view(ms@), idx),
{
    let ghost mv = matches_view(ms@);
    let mut out: Vec<String> = Vec::new();
    let mut i: usize = 0;
    assert(string_seq_view(out@) =~= texts_with(all_captures(mv.take(0)), idx));
    while i < ms.len()
        invariant
            0 <= i <= ms.len(),
            mv == matches_view(ms@),
            string_seq_view(out@) == texts_with(all_captures(mv.take(i as int)), idx),
        decreases ms.len() - i,
    {
        let m = &ms[i];
        let ghost prefix = all_captures(mv.take(i as int));
        let ghost cur = mv[i as int];
        assert(prefix + cur.take(0) =~= prefix);
        let mut j: usize = 0;
        while j < m.len()
            invariant
                0 <= j <= m.len(),
                i < ms.len(),
                m == &ms[i as int],
                mv == matches_view(ms@),
                cur == match_view(*m),
                string_seq_view(out@) == texts_with(prefix + cur.take(j as int), idx),
            decreases m.len() - j,
        {
            assert((prefix + cur.take(j + 1)).drop_last() =~= prefix + cur.take(j as int));
            assert((prefix + cur.take(j + 1)).last() == cur[j as int]);
            if m[j].index == idx {
                out.push(m[j].text.clone());
            }
            assert(string_seq_view(out@) =~= texts_with(prefix + cur.take(j + 1), idx));
            j += 1;
        }
        proof { lemma_take_step(mv, i as int); }
        assert(cur.take(j as int) =~= cur);
        i += 1;
    }
    assert(mv.take(i as int) =~= mv);
    out
}

fn text_in_match(m: &Vec<Capture>, idx: u32) -> (r: String)
    ensures
        r@ == text_at(match_view(*m), idx),
{
    let ghost mv = match_view(*m);
    let mut out = String::new();
    let mut j: usize = 0;
    while j < m.len()
        invariant
            0 <= j <= m.len(),
            mv == match_view(*m),
            out@ == text_at(mv.take(j as int), idx),
        decreases m.len() - j,
    {
        proof { lemma_take_step(mv, j as int); }
        if m[j].index == idx {
            out = m[j].text.clone();
        }
        j += 1;
    }
    assert(mv.take(j as int) =~= mv);
    out
}

fn start_in_match(m: &Vec<Capture>, idx: u32) -> (r: Option<usize>)
    ensures
        r == start_at(match_view(*m), idx),
{
    let ghost mv = match_view(*m);
    let mut out: Option<usize> = None;
    let mut j: usize = 0;
    while j < m.len()
        invariant
            0 <= j <= m.len(),
            mv == match_view(*m),
            out == start_at(mv.take(j as int), idx),
        decreases m.len() - j,
    {
        proof { lemma_take_step(mv, j as int); }
        if m[j].index == idx {
            out = Some(m[j].start);
        }
        j += 1;
    }
    assert(mv.take(j as int) =~= mv);
    out
}

fn params_for_method(key: Option<usize>, pms: &Vec<Vec<Capture>>) -> (r: Vec<(String, String)>)
    ensures
        r@.map_values(|p: (String, String)| pair_view(p)) == params_for(key, matches_view(pms@)),
{
    let ghost mv = matches_view(pms@);
    let mut out: Vec<(String, String)> = Vec::new();
    assert(out@.map_values(|p: (String, String)| pair_view(p)) =~= params_for(key, mv.take(0)));
    let mut i: usize = 0;
    while i < pms.len()
        invariant
            0 <= i <= pms.len(),
            mv == matches_view(pms@),
            out@.map_values(|p: (String, String)| pair_view(p)) == params_for(key, mv.take(i as int)),
        decreases pms.len() - i,
    {
        proof { lemma_take_step(mv, i as int); }
        let m = &pms[i];
        assert(mv.take(i + 1).last() == match_view(*m));
        if key.is_some() && start_in_match(m, 0) == key {
            let p = (text_in_match(m, 2), text_in_match(m, 1));
            out.push(p);
        }
        assert(out@.map_values(|p: (String, String)| pair_view(p)) =~= params_for(key, mv.take(i + 1)));
        i += 1;
    }
    assert(mv.take(i as int) =~= mv);
    out
}

/// The fields of a sequence of field declaration matches, one per match.
pub fn fields_from_matches(ms: &Vec<Vec<Capture>>) -> (r: Vec<ClassField>)
    ensures
        r@.map_values(|f: ClassField| f@) == matches_view(ms@).map_values(
            |m: Seq<(u32, Seq<char>, usize)>| field_of_match(m),
        ),
{
    let ghost mv = matches_view(ms@);
    let mut out: Vec<ClassField> = Vec::new();
    let mut i: usize = 0;
    while i < ms.len()
        invariant
            0 <= i <= ms.len(),
            mv == matches_view(ms@),
            out@.len() == i,
            out@.map_values(|f: ClassField| f@) == mv.take(i as int).map_values(
                |m: Seq<(u32, Seq<char>, usize)>| field_of_match(m),
            ),
        decreases ms.len() - i,
    {
        let m = &ms[i];
        assert(mv.take(i + 1)[i as int] == match_view(*m));
        let f = ClassField {
            name: text_in_match(m, 2),
            field_type: text_in_match(m, 1),
            visibility: text_in_match(m, 0),
        };
        let ghost prev = out@;
        out.push(f);
        assert forall|k: int| 0 <= k < i + 1 implies #[trigger] out@[k]@ == field_of_match(mv.take(i + 1)[k]) by {
            if k < i {
                assert(prev.map_values(|f: ClassField| f@)[k] == mv.take(i as int).map_values(
                    |m: Seq<(u32, Seq<char>, usize)>| field_of_match(m),
                )[k]);
            }
        }
        assert(out@.map_values(|f: ClassField| f@) =~= mv.take(i + 1).map_values(
            |m: Seq<(u32, Seq<char>, usize)>| field_of_match(m),
        ));
        i += 1;
    }
    assert(mv.take(i as int) =~= mv);
    out
}

/// The methods of a sequence of method declaration matches, one per match, each with the
/// parameter matches of its name node.
pub fn methods_from_matches(ms: &Vec<Vec<Capture>>, pms: &Vec<Vec<Capture>>) -> (r: Vec<ClassMethod>)
    ensures
        r@.map_values(|f: ClassMethod| f@) == method_views(matches_view(ms@), matches_view(pms@)),
{
    let ghost pv = matches_view(pms@);
    let ghost mv = matches_view(ms@);
    let mut out: Vec<ClassMethod> = Vec::new();
    let mut i: usize = 0;
    while i < ms.len()
        invariant
            0 <= i <= ms.len(),
            mv == matches_view(ms@),
            pv == matches_view(pms@),
            out@.len() == i,
            out@.map_values(|f: ClassMethod| f@) == mv.take(i as int).map_values(
                |m: Seq<(u32, Seq<char>, usize)>| method_of_match(m, pv),
            ),
        decreases ms.len() - i,
    {
        let m = &ms[i];
        assert(mv.take(i + 1)[i as int] == match_view(*m));
        let f = ClassMethod {
            name: text_in_match(m, 2),
            return_type: text_in_match(m, 1),
            visibility: text_in_match(m, 0),
            parameters: params_for_method(start_in_match(m, 2), pms),
        };
        let ghost prev = out@;
        out.push(f);
        assert forall|k: int| 0 <= k < i + 1 implies #[trigger] out@[k]@ == method_of_match(mv.take(i + 1)[k], pv) by {
            if k < i {
                assert(prev.map_values(|f: ClassMethod| f@)[k] == mv.take(i as int).map_values(
                    |m: Seq<(u32, Seq<char>, usize)>| method_of_match(m, pv),
                )[k]);
            }
        }
        assert(out@.map_values(|f: ClassMethod| f@) =~= mv.take(i + 1).map_values(
            |m: Seq<(u32, Seq<char>, usize)>| method_of_match(m, pv),
        ));
        i += 1;
    }
    assert(mv.take(i as int) =~= mv);
    out
}

/// Finds the package declaration.
pub const PACKAGE_PATTERN: &'static str = "(package_declaration (scoped_identifier) @package)";

/// Finds a class: abstract modifier at 0, name at 1, superclass at 2, interfaces at 3.
pub const CLASS_PATTERN: &'static str = "(class_declaration
    (modifiers \"abstract\" @abstract)?
    name: (identifier) @name
    superclass: (superclass (type_identifier) @extends)?
    interfaces: (super_interfaces (type_list (type_identifier) @implements))?)";

/// Finds an interface: name at 0, extended interfaces at 1.
pub const INTERFACE_PATTERN: &'static str = "(interface_declaration
    name: (identifier) @name
    (extends_interfaces (type_list (type_identifier) @extends))?)";

/// Finds an enum's name at 0.
pub const ENUM_PATTERN: &'static str = "(enum_declaration name: (identifier) @name)";

/// Finds each enum constant: the enum's name at 0, the constant's name at 1.
pub const ENUM_CONSTANT_PATTERN: &'static str = "(enum_declaration
    name: (identifier) @enum
    body: (enum_body (enum_constant name: (identifier) @constant)))";

/// Finds a record's name at 0.
pub const RECORD_PATTERN: &'static str = "(record_declaration name: (identifier) @name)";

/// Finds each record component: the record's name at 0, the component's type at 1 and name at 2.
pub const RECORD_COMPONENT_PATTERN: &'static str = "(record_declaration
    name: (identifier) @record
    parameters: (formal_parameters
        (formal_parameter type: (_) @type name: (identifier) @name)))";

/// Finds each field: visibility at 0, type at 1, name at 2.
pub const FIELD_PATTERN: &'static str = "(field_declaration
    (modifiers [\"public\" \"private\" \"protected\"] @visibility)?
    type: (_) @type
    declarator: (variable_declarator name: (identifier) @name))";

/// Finds each method: visibility at 0, return type at 1, name at 2.
pub const METHOD_PATTERN: &'static str = "(method_declaration
    (modifiers [\"public\" \"private\" \"protected\"] @visibility)?
    type: (_) @return_type
    name: (identifier) @name)";

/// Finds each method parameter: the method's name at 0, the parameter's type at 1 and name at 2.
pub const PARAMETER_PATTERN: &'static str = "(method_declaration
    name: (identifier) @method
    parameters: (formal_parameters
        (formal_parameter type: (_) @type name: (identifier) @name)))";

/// The patterns that the library runs.
pub open spec fn is_library_pattern(p: Seq<char>) -> bool {
    p == PACKAGE_PATTERN@ || p == CLASS_PATTERN@ || p == INTERFACE_PATTERN@ || p == ENUM_PATTERN@
        || p == ENUM_CONSTANT_PATTERN@ || p == RECORD_PATTERN@ || p == RECORD_COMPONENT_PATTERN@
        || p == FIELD_PATTERN@ || p == METHOD_PATTERN@ || p == PARAMETER_PATTERN@
}

/// The start of the first declaration's name node: the name capture of the first match.
pub open spec fn head_key(head: Seq<Seq<(u32, Seq<char>, usize)>>, name_idx: u32) -> Option<usize> {
    if head.len() > 0 {
        start_at(head[0], name_idx)
    } else {
        None
    }
}

/// The texts of the captures with index `idx` in the matches whose name capture starts at `key`.
pub open spec fn captured_in(ms: Seq<Seq<(u32, Seq<char>, usize)>>, name_idx: u32, key: Option<usize>, idx: u32) -> Seq<Seq<char>>
    decreases ms.len(),
{
    if ms.len() == 0 {
        Seq::empty()
    } else {
        captured_in(ms.drop_last(), name_idx, key, idx) + if key is Some && start_at(ms.last(), name_idx)
            == key {
            texts_with(ms.last(), idx)
        } else {
            Seq::empty()
        }
    }
}

/// The texts of the captures with index `idx` that belong to the first declaration matched.
pub open spec fn declared(head: Seq<Seq<(u32, Seq<char>, usize)>>, name_idx: u32, idx: u32) -> Seq<Seq<char>> {
    captured_in(head, name_idx, head_key(head, name_idx), idx)
}

pub open spec fn field_views(ms: Seq<Seq<(u32, Seq<char>, usize)>>) -> Seq<FieldView> {
    ms.map_values(|m: Seq<(u32, Seq<char>, usize)>| field_of_match(m))
}

pub open spec fn method_views(ms: Seq<Seq<(u32, Seq<char>, usize)>>, pms: Seq<Seq<(u32, Seq<char>, usize)>>) -> Seq<MethodView> {
    ms.map_values(|m: Seq<(u32, Seq<char>, usize)>| method_of_match(m, pms))
}

pub open spec fn constant_field(name: Seq<char>) -> FieldView {
    FieldView { name, field_type: Seq::empty(), visibility: Seq::empty() }
}

pub open spec fn component_field(p: (Seq<char>, Seq<char>)) -> FieldView {
    FieldView { name: p.0, field_type: p.1, visibility: Seq::empty() }
}

/// The class described by the matches of the package, class, field, method and parameter patterns.
pub open spec fn class_view(
    pkg: Seq<Seq<(u32, Seq<char>, usize)>>,
    head: Seq<Seq<(u32, Seq<char>, usize)>>,
    fields: Seq<Seq<(u32, Seq<char>, usize)>>,
    methods: Seq<Seq<(u32, Seq<char>, usize)>>,
    params: Seq<Seq<(u32, Seq<char>, usize)>>,
) -> ClassView {
    ClassView {
        name: first_or_empty(declared(head, 1, 1)),
        package: package_of(pkg),
        fields: field_views(fields),
        methods: method_views(methods, params),
        extends: first_opt(declared(head, 1, 2)),
        implements: declared(head, 1, 3),
        class_type: if declared(head, 1, 0).len() > 0 {
            ClassType::AbstractClass
        } else {
            ClassType::Class
        },
    }
}

/// All but the first of a sequence.
pub open spec fn rest(s: Seq<Seq<char>>) -> Seq<Seq<char>> {
    if s.len() > 0 {
        s.subrange(1, s.len() as int)
    } else {
        Seq::empty()
    }
}

/// The interface described by the matches of the package, interface, field, method and
/// parameter patterns: the first extended interface fills `extends`, the others `implements`.
pub open spec fn interface_view(
    pkg: Seq<Seq<(u32, Seq<char>, usize)>>,
    head: Seq<Seq<(u32, Seq<char>, usize)>>,
    fields: Seq<Seq<(u32, Seq<char>, usize)>>,
    methods: Seq<Seq<(u32, Seq<char>, usize)>>,
    params: Seq<Seq<(u32, Seq<char>, usize)>>,
) -> ClassView {
    ClassView {
        name: first_or_empty(declared(head, 0, 0)),
        package: package_of(pkg),
        fields: field_views(fields),
        methods: method_views(methods, params),
        extends: first_opt(declared(head, 0, 1)),
        implements: rest(declared(head, 0, 1)),
        class_type: ClassType::Interface,
    }
}

/// The enum described by the matches of the package, enum and constant patterns.
pub open spec fn enum_view(
    pkg: Seq<Seq<(u32, Seq<char>, usize)>>,
    head: Seq<Seq<(u32, Seq<char>, usize)>>,
    constants: Seq<Seq<(u32, Seq<char>, usize)>>,
) -> ClassView {
    ClassView {
        name: first_or_empty(declared(head, 0, 0)),
        package: package_of(pkg),
        fields: captured_in(constants, 0, head_key(head, 0), 1).map_values(|c: Seq<char>| constant_field(c)),
        methods: Seq::empty(),
        extends: None,
        implements: Seq::empty(),
        class_type: ClassType::Enum,
    }
}

/// The record described by the matches of the package, record and component patterns.
pub open spec fn record_view(
    pkg: Seq<Seq<(u32, Seq<char>, usize)>>,
    head: Seq<Seq<(u32, Seq<char>, usize)>>,
    components: Seq<Seq<(u32, Seq<char>, usize)>>,
) -> ClassView {
    ClassView {
        name: first_or_empty(declared(head, 0, 0)),
        package: package_of(pkg),
        fields: params_for(head_key(head, 0), components).map_values(
            |p: (Seq<char>, Seq<char>)| component_field(p),
        ),
        methods: Seq::empty(),
        extends: None,
        implements: Seq::empty(),
        class_type: ClassType::Record,
    }
}

/// A model without a name is no model: its declaration was not found.
pub open spec fn named(v: ClassView) -> Result<ClassView, ExtractError> {
    if v.name.len() == 0 {
        Err(ExtractError::NoDeclarationFound)
    } else {
        Ok(v)
    }
}

pub open spec fn result_view(r: Result<ClassInfo, ExtractError>) -> Result<ClassView, ExtractError> {
    match r {
        Ok(c) => Ok(c@),
        Err(e) => Err(e),
    }
}

fn append_texts(out: &mut Vec<String>, m: &Vec<Capture>, idx: u32)
    ensures
        string_seq_view(final(out)@) == string_seq_view(old(out)@) + texts_with(match_view(*m), idx),
{
    let ghost mv = match_view(*m);
    let ghost base = string_seq_view(out@);
    let mut j: usize = 0;
    assert(base + texts_with(mv.take(0), idx) =~= base);
    while j < m.len()
        invariant
            0 <= j <= m.len(),
            mv == match_view(*m),
            string_seq_view(out@) == base + texts_with(mv.take(j as int), idx),
        decreases m.len() - j,
    {
        proof { lemma_take_step(mv, j as int); }
        let ghost prev = string_seq_view(out@);
        assert(mv[j as int] == m@[j as int]@);
        if m[j].index == idx {
            let t = m[j].text.clone();
            out.push(t);
            assert(string_seq_view(out@) =~= prev.push(t@));
        }
        assert(string_seq_view(out@) =~= base + texts_with(mv.take(j + 1), idx));
        j += 1;
    }
    assert(mv.take(j as int) =~= mv);
}

/// The texts of the captures with index `idx` in the matches whose name capture (at
/// `name_idx`) starts at `key`, in order.
pub fn captured_texts_in(ms: &Vec<Vec<Capture>>, name_idx: u32, key: Option<usize>, idx: u32) -> (r: Vec<String>)
    ensures
        string_seq_view(r@) == captured_in(matches_view(ms@), name_idx, key, idx),
{
    let ghost mv = matches_view(ms@);
    let mut out: Vec<String> = Vec::new();
    assert(string_seq_view(out@) =~= captured_in(mv.take(0), name_idx, key, idx));
    let mut i: usize = 0;
    while i < ms.len()
        invariant
            0 <= i <= ms.len(),
            mv == matches_view(ms@),
            string_seq_view(out@) == captured_in(mv.take(i as int), name_idx, key, idx),
        decreases ms.len() - i,
    {
        proof { lemma_take_step(mv, i as int); }
        let m = &ms[i];
        assert(mv.take(i + 1).last() == match_view(*m));
        let ghost before = string_seq_view(out@);
        if key.is_some() && start_in_match(m, name_idx) == key {
            append_texts(&mut out, m, idx);
        }
        assert(string_seq_view(out@) =~= captured_in(mv.take(i + 1), name_idx, key, idx));
        i += 1;
    }
    assert(mv.take(i as int) =~= mv);
    out
}

fn key_of(head: &Vec<Vec<Capture>>, name_idx: u32) -> (r: Option<usize>)
    ensures
        r == head_key(matches_view(head@), name_idx),
{
    if head.len() > 0 {
        start_in_match(&head[0], name_idx)
    } else {
        None
    }
}

/// The texts of the captures with index `idx` that belong to the first declaration matched.
pub fn declared_texts(head: &Vec<Vec<Capture>>, name_idx: u32, idx: u32) -> (r: Vec<String>)
    ensures
        string_seq_view(r@) == declared(matches_view(head@), name_idx, idx),
{
    let key = key_of(head, name_idx);
    captured_texts_in(head, name_idx, key, idx)
}

fn first_of(texts: &Vec<String>) -> (r: Option<String>)
    ensures
        match r {
            Some(t) => first_opt(string_seq_view(texts@)) == Some(t@),
            None => first_opt(string_seq_view(texts@)) is None,
        },
{
    if texts.len() > 0 {
        Some(texts[0].clone())
    } else {
        None
    }
}

fn first_or_new(texts: &Vec<String>) -> (r: String)
    ensures
        r@ == first_or_empty(string_seq_view(texts@)),
{
    if texts.len() > 0 {
        texts[0].clone()
    } else {
        String::new()
    }
}

fn check_named(c: ClassInfo) -> (r: Result<ClassInfo, ExtractError>)
    ensures
        result_view(r) == named(c@),
{
    if c.name.as_str().unicode_len() == 0 {
        Err(ExtractError::NoDeclarationFound)
    } else {
        Ok(c)
    }
}

/// Builds a class from the matches of the package, class, field, method and parameter
/// patterns; the header comes from the matches of the first class declaration.
pub fn parse_java_class(
    pkg: &Vec<Vec<Capture>>,
    head: &Vec<Vec<Capture>>,
    fields: &Vec<Vec<Capture>>,
    methods: &Vec<Vec<Capture>>,
    params: &Vec<Vec<Capture>>,
) -> (r: Result<ClassInfo, ExtractError>)
    ensures
        result_view(r) == named(class_view(
            matches_view(pkg@),
            matches_view(head@),
            matches_view(fields@),
            matches_view(methods@),
            matches_view(params@),
        )),
{
    let is_abstract = declared_texts(head, 1, 0).len() > 0;
    let implements = declared_texts(head, 1, 3);
    let c = ClassInfo {
        name: first_or_new(&declared_texts(head, 1, 1)),
        package: first_or_new(&captured_texts(pkg, 0)),
        fields: fields_from_matches(fields),
        methods: methods_from_matches(methods, params),
        extends: first_of(&declared_texts(head, 1, 2)),
        implements,
        class_type: if is_abstract { ClassType::AbstractClass } else { ClassType::Class },
    };
    assert(c@ == class_view(matches_view(pkg@), matches_view(head@), matches_view(fields@), matches_view(methods@), matches_view(params@)));
    check_named(c)
}

/// Builds an interface from the matches of the package, interface, field, method and parameter
/// patterns; the extended interfaces are those of the first interface declaration.
pub fn parse_java_interface(
    pkg: &Vec<Vec<Capture>>,
    head: &Vec<Vec<Capture>>,
    fields: &Vec<Vec<Capture>>,
    methods: &Vec<Vec<Capture>>,
    params: &Vec<Vec<Capture>>,
) -> (r: Result<ClassInfo, ExtractError>)
    ensures
        result_view(r) == named(interface_view(
            matches_view(pkg@),
            matches_view(head@),
            matches_view(fields@),
            matches_view(methods@),
            matches_view(params@),
        )),
{
    let supers = declared_texts(head, 0, 1);
    let ghost sv = string_seq_view(supers@);
    let mut implements: Vec<String> = Vec::new();
    if supers.len() > 0 {
        let mut k: usize = 1;
        while k < supers.len()
            invariant
                1 <= k <= supers.len(),
                sv == string_seq_view(supers@),
                implements@.len() == k - 1,
                forall|j: int| 0 <= j < k - 1 ==> #[trigger] implements@[j]@ == sv[j + 1],
            decreases supers.len() - k,
        {
            implements.push(supers[k].clone());
            k += 1;
        }
    }
    assert(string_seq_view(implements@) =~= rest(sv));
    let c = ClassInfo {
        name: first_or_new(&declared_texts(head, 0, 0)),
        package: first_or_new(&captured_texts(pkg, 0)),
        fields: fields_from_matches(fields),
        methods: methods_from_matches(methods, params),
        extends: first_of(&supers),
        implements,
        class_type: ClassType::Interface,
    };
    assert(c@ == interface_view(matches_view(pkg@), matches_view(head@), matches_view(fields@), matches_view(methods@), matches_view(params@)));
    check_named(c)
}

/// Builds an enum from the matches of the package, enum and constant patterns; each constant of
/// the first enum declaration becomes a field without type or visibility.
pub fn parse_java_enum(
    pkg: &Vec<Vec<Capture>>,
    head: &Vec<Vec<Capture>>,
    constants: &Vec<Vec<Capture>>,
) -> (r: Result<ClassInfo, ExtractError>)
    ensures
        result_view(r) == named(enum_view(matches_view(pkg@), matches_view(head@), matches_view(constants@))),
{
    let key = key_of(head, 0);
    let names = captured_texts_in(constants, 0, key, 1);
    let ghost nv = string_seq_view(names@);
    let mut fields: Vec<ClassField> = Vec::new();
    let mut k: usize = 0;
    while k < names.len()
        invariant
            0 <= k <= names.len(),
            nv == string_seq_view(names@),
            fields@.len() == k,
            forall|j: int| 0 <= j < k ==> #[trigger] fields@[j]@ == constant_field(nv[j]),
        decreases names.len() - k,
    {
        fields.push(ClassField { name: names[k].clone(), field_type: String::new(), visibility: String::new() });
        k += 1;
    }
    assert(fields@.map_values(|f: ClassField| f@) =~= nv.map_values(|c: Seq<char>| constant_field(c)));
    let c = ClassInfo {
        name: first_or_new(&declared_texts(head, 0, 0)),
        package: first_or_new(&captured_texts(pkg, 0)),
        fields,
        methods: Vec::new(),
        extends: None,
        implements: Vec::new(),
        class_type: ClassType::Enum,
    };
    assert(c@.methods =~= Seq::empty());
    assert(c@.implements =~= Seq::empty());
    assert(c@ == enum_view(matches_view(pkg@), matches_view(head@), matches_view(constants@)));
    check_named(c)
}

/// Builds a record from the matches of the package, record and component patterns; each
/// component of the first record declaration becomes a field without visibility.
pub fn parse_java_record(
    pkg: &Vec<Vec<Capture>>,
    head: &Vec<Vec<Capture>>,
    components: &Vec<Vec<Capture>>,
) -> (r: Result<ClassInfo, ExtractError>)
    ensures
        result_view(r) == named(record_view(matches_view(pkg@), matches_view(head@), matches_view(components@))),
{
    let key = key_of(head, 0);
    let pairs = params_for_method(key, components);
    let ghost pv = pairs@.map_values(|p: (String, String)| pair_view(p));
    let mut fields: Vec<ClassField> = Vec::new();
    let mut k: usize = 0;
    while k < pairs.len()
        invariant
            0 <= k <= pairs.len(),
            pv == pairs@.map_values(|p: (String, String)| pair_view(p)),
            fields@.len() == k,
            forall|j: int| 0 <= j < k ==> #[trigger] fields@[j]@ == component_field(pv[j]),
        decreases pairs.len() - k,
    {
        fields.push(ClassField { name: pairs[k].0.clone(), field_type: pairs[k].1.clone(), visibility: String::new() });
        k += 1;
    }
    assert(fields@.map_values(|f: ClassField| f@) =~= pv.map_values(|p: (Seq<char>, Seq<char>)| component_field(p)));
    let c = ClassInfo {
        name: first_or_new(&declared_texts(head, 0, 0)),
        package: first_or_new(&captured_texts(pkg, 0)),
        fields,
        methods: Vec::new(),
        extends: None,
        implements: Vec::new(),
        class_type: ClassType::Record,
    };
    assert(c@.methods =~= Seq::empty());
    assert(c@.implements =~= Seq::empty());
    assert(c@ == record_view(matches_view(pkg@), matches_view(head@), matches_view(components@)));
    check_named(c)
}

/// The outcome of extracting the first top-level declaration of a source text.
pub open spec fn extracted(source: Seq<char>) -> Result<ClassView, ExtractError> {
    let pkg = java_query_captures(source, PACKAGE_PATTERN@);
    let fields = java_query_captures(source, FIELD_PATTERN@);
    let methods = java_query_captures(source, METHOD_PATTERN@);
    let params = java_query_captures(source, PARAMETER_PATTERN@);
    match first_declaration(java_top_level_kinds(source)) {
        None => Err(ExtractError::NoDeclarationFound),
        Some(Declaration::Class) => named(
            class_view(pkg, java_query_captures(source, CLASS_PATTERN@), fields, methods, params),
        ),
        Some(Declaration::Interface) => named(
            interface_view(pkg, java_query_captures(source, INTERFACE_PATTERN@), fields, methods, params),
        ),
        Some(Declaration::Enum) => named(
            enum_view(
                pkg,
                java_query_captures(source, ENUM_PATTERN@),
                java_query_captures(source, ENUM_CONSTANT_PATTERN@),
            ),
        ),
        Some(Declaration::Record) => named(
            record_view(
                pkg,
                java_query_captures(source, RECORD_PATTERN@),
                java_query_captures(source, RECORD_COMPONENT_PATTERN@),
            ),
        ),
    }
}

/// Extracts the class model of the first top-level type declaration of Java source text.
pub fn parse_java_source(source: &String) -> (r: Result<ClassInfo, ExtractError>)
    ensures
        result_view(r) == extracted(source@),
{
    let tree = parse_java(source)?;
    let kinds = top_level_kinds(&tree);
    let decl = match classify(&kinds) {
        Some(d) => d,
        None => return Err(ExtractError::NoDeclarationFound),
    };
    let pkg = run_query(&tree, PACKAGE_PATTERN)?;
    match decl {
        Declaration::Class => {
            let head = run_query(&tree, CLASS_PATTERN)?;
            let fields = run_query(&tree, FIELD_PATTERN)?;
            let methods = run_query(&tree, METHOD_PATTERN)?;
            let params = run_query(&tree, PARAMETER_PATTERN)?;
            parse_java_class(&pkg, &head, &fields, &methods, &params)
        },
        Declaration::Interface => {
            let head = run_query(&tree, INTERFACE_PATTERN)?;
            let fields = run_query(&tree, FIELD_PATTERN)?;
            let methods = run_query(&tree, METHOD_PATTERN)?;
            let params = run_query(&tree, PARAMETER_PATTERN)?;
            parse_java_interface(&pkg, &head, &fields, &methods, &params)
        },
        Declaration::Enum => {
            let head = run_query(&tree, ENUM_PATTERN)?;
            let constants = run_query(&tree, ENUM_CONSTANT_PATTERN)?;
            parse_java_enum(&pkg, &head, &constants)
        },
        Declaration::Record => {
            let head = run_query(&tree, RECORD_PATTERN)?;
            let components = run_query(&tree, RECORD_COMPONENT_PATTERN)?;
            parse_java_record(&pkg, &head, &components)
        },
    }
}

/// Extraction is a function of the source text: two extractions of one text have the same
/// outcome, the same model or the same error.
pub proof fn lemma_extraction_idempotent(
    source: Seq<char>,
    first: Result<ClassView, ExtractError>,
    second: Result<ClassView, ExtractError>,
)
    requires
        first == extracted(source),
        second == extracted(source),
    ensures
        first == second,
{
}

/// The model keeps declaration order: its i-th field is made from the i-th field match and its
/// i-th method from the i-th method match, for classes and interfaces alike.
pub proof fn lemma_members_in_match_order(
    pkg: Seq<Seq<(u32, Seq<char>, usize)>>,
    head: Seq<Seq<(u32, Seq<char>, usize)>>,
    fields: Seq<Seq<(u32, Seq<char>, usize)>>,
    methods: Seq<Seq<(u32, Seq<char>, usize)>>,
    params: Seq<Seq<(u32, Seq<char>, usize)>>,
)
    ensures
        class_view(pkg, head, fields, methods, params).fields.len() == fields.len(),
        class_view(pkg, head, fields, methods, params).methods.len() == methods.len(),
        interface_view(pkg, head, fields, methods, params).fields == class_view(pkg, head, fields, methods, params).fields,
        interface_view(pkg, head, fields, methods, params).methods == class_view(pkg, head, fields, methods, params).methods,
        forall|i: int| 0 <= i < fields.len() ==> #[trigger] class_view(pkg, head, fields, methods, params).fields[i]
            == field_of_match(fields[i]),
        forall|i: int| 0 <= i < methods.len() ==> #[trigger] class_view(pkg, head, fields, methods, params).methods[i]
            == method_of_match(methods[i], params),
{
}

/// A record without components has no fields, and its class block holds no member line.
pub proof fn lemma_empty_record_block(pkg: Seq<Seq<(u32, Seq<char>, usize)>>, head: Seq<Seq<(u32, Seq<char>, usize)>>)
    ensures
        record_view(pkg, head, Seq::empty()).fields.len() == 0,
        class_block(record_view(pkg, head, Seq::empty())) == class_head(
            record_view(pkg, head, Seq::empty()),
        ) + "    }\n"@,
{
    let v = record_view(pkg, head, Seq::empty());
    assert(crate::diagram::field_lines(v.fields) =~= Seq::empty());
    assert(crate::diagram::method_lines(v.methods) =~= Seq::empty());
    assert(class_block(v) =~= class_head(v) + "    }\n"@);
}

} // verus!
