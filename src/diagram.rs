//! Relationship inference over a batch of classes, and rendering of the batch as Mermaid
//! class-diagram text.

use vstd::prelude::*;
use vstd::string::*;
use crate::types::{lemma_take_step, ClassInfo, ClassView, ClassType, FieldView, MethodView, ClassField, ClassMethod, classes_view};

verus! {

/// A directed, typed edge between two class names.
pub struct Relationship {
    pub from: String,
    pub to: String,
    pub type_: String,
}

/// The mathematical content of a `Relationship`.
pub struct RelView {
    pub from: Seq<char>,
    pub to: Seq<char>,
    pub kind: Seq<char>,
}

impl View for Relationship {
    type V = RelView;

    open spec fn view(&self) -> RelView {
        RelView { from: self.from@, to: self.to@, kind: self.type_@ }
    }
}

/// A batch of classes together with the edges drawn between them.
pub struct ClassDiagram {
    pub classes: Vec<ClassInfo>,
    pub relationships: Vec<Relationship>,
}

pub open spec fn rels_view(rs: Seq<Relationship>) -> Seq<RelView> {
    rs.map_values(|r: Relationship| r@)
}

pub open spec fn edge(from: Seq<char>, to: Seq<char>, kind: Seq<char>) -> RelView {
    RelView { from, to, kind }
}

/// One `extends` edge for each class that names a superclass, in batch order.
pub open spec fn extends_rels(cs: Seq<ClassView>) -> Seq<RelView>
    decreases cs.len(),
{
    if cs.len() == 0 {
        Seq::empty()
    } else {
        let c = cs.last();
        extends_rels(cs.drop_last()) + match c.extends {
            Some(e) => seq![edge(c.name, e, "extends"@)],
            None => Seq::empty(),
        }
    }
}

/// One `implements` edge for each implemented interface, in batch and declaration order.
pub open spec fn implements_rels(cs: Seq<ClassView>) -> Seq<RelView>
    decreases cs.len(),
{
    if cs.len() == 0 {
        Seq::empty()
    } else {
        let c = cs.last();
        implements_rels(cs.drop_last()) + c.implements.map_values(
            |i: Seq<char>| edge(c.name, i, "implements"@),
        )
    }
}

pub open spec fn is_class_name(cs: Seq<ClassView>, n: Seq<char>) -> bool {
    exists|k: int| 0 <= k < cs.len() && #[trigger] cs[k].name == n
}

/// The `association` edges of one class: a field whose type is the name of a class of `all`.
pub open spec fn field_assocs(from: Seq<char>, fs: Seq<FieldView>, all: Seq<ClassView>) -> Seq<RelView>
    decreases fs.len(),
{
    if fs.len() == 0 {
        Seq::empty()
    } else {
        let t = fs.last().field_type;
        field_assocs(from, fs.drop_last(), all) + if is_class_name(all, t) {
            seq![edge(from, t, "association"@)]
        } else {
            Seq::empty()
        }
    }
}

pub open spec fn association_rels(cs: Seq<ClassView>, all: Seq<ClassView>) -> Seq<RelView>
    decreases cs.len(),
{
    if cs.len() == 0 {
        Seq::empty()
    } else {
        association_rels(cs.drop_last(), all) + field_assocs(cs.last().name, cs.last().fields, all)
    }
}

/// All edges of a batch: every `extends`, then every `implements`, then every association.
pub open spec fn relationships_of(cs: Seq<ClassView>) -> Seq<RelView> {
    extends_rels(cs) + implements_rels(cs) + association_rels(cs, cs)
}

fn push_edge(rels: &mut Vec<Relationship>, from: &String, to: &String, kind: &str)
    ensures
        rels_view(final(rels)@) == rels_view(old(rels)@).push(edge(from@, to@, kind@)),
{
    let r = Relationship { from: from.clone(), to: to.clone(), type_: String::from_str(kind) };
    rels.push(r);
    assert(rels_view(rels@) =~= rels_view(old(rels)@).push(edge(from@, to@, kind@)));
}

fn has_class_named(classes: &Vec<ClassInfo>, n: &String) -> (r: bool)
    ensures
        r == is_class_name(classes_view(classes@), n@),
{
    let ghost cv = classes_view(classes@);
    let mut k: usize = 0;
    while k < classes.len()
        invariant
            0 <= k <= classes.len(),
            cv == classes_view(classes@),
            forall|j: int| 0 <= j < k ==> cv[j].name != n@,
        decreases classes.len() - k,
    {
        if classes[k].name == *n {
            assert(cv[k as int].name == n@);
            return true;
        }
        k += 1;
    }
    false
}

/// Infers the edges of a batch of classes.
pub fn infer_relationships(classes: &Vec<ClassInfo>) -> (r: Vec<Relationship>)
    ensures
        rels_view(r@) == relationships_of(classes_view(classes@)),
{
    let ghost cv = classes_view(classes@);
    let mut rels: Vec<Relationship> = Vec::new();
    assert(rels_view(rels@) =~= Seq::empty());
    let mut i: usize = 0;
    while i < classes.len()
        invariant
            0 <= i <= classes.len(),
            cv == classes_view(classes@),
            rels_view(rels@) == extends_rels(cv.take(i as int)),
        decreases classes.len() - i,
    {
        proof { lemma_take_step(cv, i as int); }
        let c = &classes[i];
        match &c.extends {
            Some(e) => {
                push_edge(&mut rels, &c.name, e, "extends");
                assert(rels_view(rels@) =~= extends_rels(cv.take(i + 1)));
            },
            None => {
                assert(rels_view(rels@) =~= extends_rels(cv.take(i + 1)));
            },
        }
        i += 1;
    }
    assert(cv.take(cv.len() as int) =~= cv);
    let ghost ext = rels_view(rels@);
    i = 0;
    assert(rels_view(rels@) =~= ext + implements_rels(cv.take(0)));
    while i < classes.len()
        invariant
            0 <= i <= classes.len(),
            cv == classes_view(classes@),
            rels_view(rels@) == ext + implements_rels(cv.take(i as int)),
        decreases classes.len() - i,
    {
        proof { lemma_take_step(cv, i as int); }
        let c = &classes[i];
        let ghost base = rels_view(rels@);
        let ghost imps = cv[i as int].implements;
        let mut j: usize = 0;
        while j < c.implements.len()
            invariant
                0 <= j <= c.implements.len(),
                i < classes.len(),
                c == &classes[i as int],
                imps == crate::types::string_seq_view(c.implements@),
                imps == cv[i as int].implements,
                imps.len() == c.implements.len(),
                rels_view(rels@) == base + imps.take(j as int).map_values(
                    |x: Seq<char>| edge(c.name@, x, "implements"@),
                ),
            decreases c.implements.len() - j,
        {
            push_edge(&mut rels, &c.name, &c.implements[j], "implements");
            assert(imps[j as int] == c.implements[j as int]@);
            assert(rels_view(rels@) =~= base + imps.take(j + 1).map_values(
                |x: Seq<char>| edge(c.name@, x, "implements"@),
            ));
            j += 1;
        }
        assert(imps.take(j as int) =~= imps);
        assert(rels_view(rels@) =~= ext + implements_rels(cv.take(i + 1)));
        i += 1;
    }
    let ghost inh = rels_view(rels@);
    i = 0;
    assert(rels_view(rels@) =~= inh + association_rels(cv.take(0), cv));
    while i < classes.len()
        invariant
            0 <= i <= classes.len(),
            cv == classes_view(classes@),
            inh == ext + implements_rels(cv),
            rels_view(rels@) == inh + association_rels(cv.take(i as int), cv),
        decreases classes.len() - i,
    {
        proof { lemma_take_step(cv, i as int); }
        let c = &classes[i];
        let ghost base = rels_view(rels@);
        let ghost fs = cv[i as int].fields;
        let mut j: usize = 0;
        while j < c.fields.len()
            invariant
                0 <= j <= c.fields.len(),
                i < classes.len(),
                c == &classes[i as int],
                fs == c.fields@.map_values(|f: ClassField| f@),
                cv == classes_view(classes@),
                fs == cv[i as int].fields,
                fs.len() == c.fields.len(),
                rels_view(rels@) == base + field_assocs(c.name@, fs.take(j as int), cv),
            decreases c.fields.len() - j,
        {
            proof { lemma_take_step(fs, j as int); }
            let t = &c.fields[j].field_type;
            assert(fs.take(j + 1).last().field_type == t@);
            if has_class_named(classes, t) {
                push_edge(&mut rels, &c.name, t, "association");
            }
            assert(rels_view(rels@) =~= base + field_assocs(c.name@, fs.take(j + 1), cv));
            j += 1;
        }
        assert(fs.take(j as int) =~= fs);
        assert(rels_view(rels@) =~= inh + association_rels(cv.take(i + 1), cv));
        i += 1;
    }
    assert(cv.take(cv.len() as int) =~= cv);
    rels
}

/// The glyph drawn before a member of the given visibility.
pub open spec fn glyph(v: Seq<char>) -> Seq<char> {
    if v == "public"@ {
        "+"@
    } else if v == "private"@ {
        "-"@
    } else if v == "protected"@ {
        "#"@
    } else {
        Seq::empty()
    }
}

/// The arrow drawn for an edge of the given kind.
pub open spec fn arrow(k: Seq<char>) -> Seq<char> {
    if k == "extends"@ || k == "implements"@ {
        "<|--"@
    } else if k == "association"@ {
        "-->"@
    } else if k == "composition"@ {
        "*--"@
    } else if k == "aggregation"@ {
        "o--"@
    } else {
        "--"@
    }
}

pub open spec fn field_line(f: FieldView) -> Seq<char> {
    "        "@ + glyph(f.visibility) + " "@ + f.name + ": "@ + f.field_type + "\n"@
}

pub open spec fn param_text(p: (Seq<char>, Seq<char>)) -> Seq<char> {
    p.0 + ": "@ + p.1
}

/// The parameters as `name: type`, joined by `", "`.
pub open spec fn params_text(ps: Seq<(Seq<char>, Seq<char>)>) -> Seq<char>
    decreases ps.len(),
{
    if ps.len() == 0 {
        Seq::empty()
    } else if ps.len() == 1 {
        param_text(ps[0])
    } else {
        params_text(ps.drop_last()) + ", "@ + param_text(ps.last())
    }
}

pub open spec fn method_line(m: MethodView) -> Seq<char> {
    "        "@ + glyph(m.visibility) + " "@ + m.name + ": "@ + m.return_type + "("@
        + params_text(m.parameters) + ")\n"@
}

pub open spec fn field_lines(fs: Seq<FieldView>) -> Seq<char>
    decreases fs.len(),
{
    if fs.len() == 0 {
        Seq::empty()
    } else {
        field_lines(fs.drop_last()) + field_line(fs.last())
    }
}

pub open spec fn method_lines(ms: Seq<MethodView>) -> Seq<char>
    decreases ms.len(),
{
    if ms.len() == 0 {
        Seq::empty()
    } else {
        method_lines(ms.drop_last()) + method_line(ms.last())
    }
}

/// The marker line's content: a stereotype for interfaces only.
pub open spec fn stereotype(k: ClassType) -> Seq<char> {
    if k == ClassType::Interface {
        "<<interface>>"@
    } else {
        Seq::empty()
    }
}

pub open spec fn class_head(c: ClassView) -> Seq<char> {
    "class "@ + c.name + " {\n"@ + "    "@ + stereotype(c.class_type) + "\n"@
}

pub open spec fn class_block(c: ClassView) -> Seq<char> {
    class_head(c) + field_lines(c.fields) + method_lines(c.methods) + "    }\n"@
}

pub open spec fn class_blocks(cs: Seq<ClassView>) -> Seq<char>
    decreases cs.len(),
{
    if cs.len() == 0 {
        Seq::empty()
    } else {
        class_blocks(cs.drop_last()) + class_block(cs.last())
    }
}

pub open spec fn rel_line(r: RelView) -> Seq<char> {
    "    "@ + r.from + " "@ + arrow(r.kind) + " "@ + r.to + "\n"@
}

pub open spec fn rel_lines(rs: Seq<RelView>) -> Seq<char>
    decreases rs.len(),
{
    if rs.len() == 0 {
        Seq::empty()
    } else {
        rel_lines(rs.drop_last()) + rel_line(rs.last())
    }
}

/// The header, with the direction directive when `vertical` is set.
pub open spec fn header(vertical: bool) -> Seq<char> {
    if vertical {
        "classDiagram\n"@ + "    direction LR\n"@
    } else {
        "classDiagram\n"@
    }
}

/// The diagram text of a batch of classes and edges.
pub open spec fn mermaid_text(cs: Seq<ClassView>, rs: Seq<RelView>, vertical: bool) -> Seq<char> {
    header(vertical) + class_blocks(cs) + rel_lines(rs)
}

fn glyph_for(v: &String) -> (r: String)
    ensures
        r@ == glyph(v@),
{
    if *v == String::from_str("public") {
        String::from_str("+")
    } else if *v == String::from_str("private") {
        String::from_str("-")
    } else if *v == String::from_str("protected") {
        String::from_str("#")
    } else {
        String::new()
    }
}

fn arrow_for(k: &String) -> (r: String)
    ensures
        r@ == arrow(k@),
{
    if *k == String::from_str("extends") || *k == String::from_str("implements") {
        String::from_str("<|--")
    } else if *k == String::from_str("association") {
        String::from_str("-->")
    } else if *k == String::from_str("composition") {
        String::from_str("*--")
    } else if *k == String::from_str("aggregation") {
        String::from_str("o--")
    } else {
        String::from_str("--")
    }
}

fn render_field(out: &mut String, f: &ClassField)
    ensures
        final(out)@ == old(out)@ + field_line(f@),
{
    let g = glyph_for(&f.visibility);
    let mut line = String::from_str("        ");
    line.append(g.as_str());
    line.append(" ");
    line.append(f.name.as_str());
    line.append(": ");
    line.append(f.field_type.as_str());
    line.append("\n");
    out.append(line.as_str());
    assert(out@ =~= old(out)@ + field_line(f@));
}

fn render_params(ps: &Vec<(String, String)>) -> (r: String)
    ensures
        r@ == params_text(ps@.map_values(|p: (String, String)| crate::types::pair_view(p))),
{
    let ghost pv = ps@.map_values(|p: (String, String)| crate::types::pair_view(p));
    let mut out = String::new();
    let mut j: usize = 0;
    while j < ps.len()
        invariant
            0 <= j <= ps.len(),
            pv == ps@.map_values(|p: (String, String)| crate::types::pair_view(p)),
            out@ == params_text(pv.take(j as int)),
        decreases ps.len() - j,
    {
        proof { lemma_take_step(pv, j as int); }
        let ghost before = out@;
        if j > 0 {
            out.append(", ");
        }
        out.append(ps[j].0.as_str());
        out.append(": ");
        out.append(ps[j].1.as_str());
        if j == 0 {
            assert(pv.take(1)[0] == pv[0]);
            assert(out@ =~= params_text(pv.take(1)));
        } else {
            assert(out@ =~= params_text(pv.take(j + 1)));
        }
        j += 1;
    }
    assert(pv.take(pv.len() as int) =~= pv);
    out
}

fn render_method(out: &mut String, m: &ClassMethod)
    ensures
        final(out)@ == old(out)@ + method_line(m@),
{
    let g = glyph_for(&m.visibility);
    let ps = render_params(&m.parameters);
    let mut line = String::from_str("        ");
    line.append(g.as_str());
    line.append(" ");
    line.append(m.name.as_str());
    line.append(": ");
    line.append(m.return_type.as_str());
    line.append("(");
    line.append(ps.as_str());
    line.append(")\n");
    out.append(line.as_str());
    assert(out@ =~= old(out)@ + method_line(m@));
}

fn render_class(out: &mut String, c: &ClassInfo)
    ensures
        final(out)@ == old(out)@ + class_block(c@),
{
    let ghost cv = c@;
    let mut block = String::from_str("class ");
    block.append(c.name.as_str());
    block.append(" {\n");
    block.append("    ");
    match c.class_type {
        ClassType::Interface => block.append("<<interface>>"),
        _ => {},
    }
    block.append("\n");
    assert(block@ =~= class_head(cv) + field_lines(cv.fields.take(0)));
    let mut j: usize = 0;
    while j < c.fields.len()
        invariant
            0 <= j <= c.fields.len(),
            cv == c@,
            block@ == class_head(cv) + field_lines(cv.fields.take(j as int)),
        decreases c.fields.len() - j,
    {
        proof { lemma_take_step(cv.fields, j as int); }
        render_field(&mut block, &c.fields[j]);
        assert(block@ =~= class_head(cv) + field_lines(cv.fields.take(j + 1)));
        j += 1;
    }
    assert(cv.fields.take(j as int) =~= cv.fields);
    let ghost head = block@;
    assert(block@ =~= head + method_lines(cv.methods.take(0)));
    j = 0;
    while j < c.methods.len()
        invariant
            0 <= j <= c.methods.len(),
            cv == c@,
            block@ == head + method_lines(cv.methods.take(j as int)),
        decreases c.methods.len() - j,
    {
        proof { lemma_take_step(cv.methods, j as int); }
        render_method(&mut block, &c.methods[j]);
        assert(block@ =~= head + method_lines(cv.methods.take(j + 1)));
        j += 1;
    }
    assert(cv.methods.take(j as int) =~= cv.methods);
    block.append("    }\n");
    out.append(block.as_str());
    assert(out@ =~= old(out)@ + class_block(cv));
}

fn render_rel(out: &mut String, r: &Relationship)
    ensures
        final(out)@ == old(out)@ + rel_line(r@),
{
    let a = arrow_for(&r.type_);
    let mut line = String::from_str("    ");
    line.append(r.from.as_str());
    line.append(" ");
    line.append(a.as_str());
    line.append(" ");
    line.append(r.to.as_str());
    line.append("\n");
    out.append(line.as_str());
    assert(out@ =~= old(out)@ + rel_line(r@));
}

/// Renders a diagram as Mermaid class-diagram text.
pub fn to_mermaid(diagram: &ClassDiagram, vertical: bool) -> (r: String)
    ensures
        r@ == mermaid_text(
            classes_view(diagram.classes@),
            rels_view(diagram.relationships@),
            vertical,
        ),
{
    let ghost cv = classes_view(diagram.classes@);
    let ghost rv = rels_view(diagram.relationships@);
    let mut out = String::from_str("classDiagram\n");
    if vertical {
        out.append("    direction LR\n");
    }
    assert(out@ =~= header(vertical) + class_blocks(cv.take(0)));
    let mut i: usize = 0;
    while i < diagram.classes.len()
        invariant
            0 <= i <= diagram.classes.len(),
            cv == classes_view(diagram.classes@),
            out@ == header(vertical) + class_blocks(cv.take(i as int)),
        decreases diagram.classes.len() - i,
    {
        proof { lemma_take_step(cv, i as int); }
        render_class(&mut out, &diagram.classes[i]);
        assert(out@ =~= header(vertical) + class_blocks(cv.take(i + 1)));
        i += 1;
    }
    assert(cv.take(i as int) =~= cv);
    let ghost body = out@;
    assert(out@ =~= body + rel_lines(rv.take(0)));
    i = 0;
    while i < diagram.relationships.len()
        invariant
            0 <= i <= diagram.relationships.len(),
            rv == rels_view(diagram.relationships@),
            out@ == body + rel_lines(rv.take(i as int)),
        decreases diagram.relationships.len() - i,
    {
        proof { lemma_take_step(rv, i as int); }
        render_rel(&mut out, &diagram.relationships[i]);
        assert(out@ =~= body + rel_lines(rv.take(i + 1)));
        i += 1;
    }
    assert(rv.take(i as int) =~= rv);
    out
}

/// Infers the edges of a batch of classes and renders the batch with them.
pub fn generate_diagram(classes: Vec<ClassInfo>, vertical: bool) -> (r: String)
    ensures
        r@ == mermaid_text(
            classes_view(classes@),
            relationships_of(classes_view(classes@)),
            vertical,
        ),
{
    let relationships = infer_relationships(&classes);
    let diagram = ClassDiagram { classes, relationships };
    to_mermaid(&diagram, vertical)
}

/// The direction flag changes the header alone: with or without it, the text is the header
/// followed by the same class blocks and edge lines, and the two headers differ only by the
/// direction directive.
pub proof fn lemma_direction_changes_header_only(cs: Seq<ClassView>, rs: Seq<RelView>)
    ensures
        mermaid_text(cs, rs, true) == "classDiagram\n"@ + "    direction LR\n"@ + (class_blocks(cs)
            + rel_lines(rs)),
        mermaid_text(cs, rs, false) == "classDiagram\n"@ + (class_blocks(cs) + rel_lines(rs)),
{
    assert(mermaid_text(cs, rs, true) =~= "classDiagram\n"@ + "    direction LR\n"@ + (class_blocks(cs)
        + rel_lines(rs)));
    assert(mermaid_text(cs, rs, false) =~= "classDiagram\n"@ + (class_blocks(cs) + rel_lines(rs)));
}

/// A class with no supertypes whose single field has the class's own type yields exactly one
/// edge: an association from the class to itself.
pub proof fn lemma_self_association(c: ClassView)
    requires
        c.extends is None,
        c.implements.len() == 0,
        c.fields.len() == 1,
        c.fields[0].field_type == c.name,
    ensures
        relationships_of(seq![c]) == seq![edge(c.name, c.name, "association"@)],
{
    let cs = seq![c];
    assert(cs.drop_last() =~= Seq::<ClassView>::empty());
    assert(cs.last() == c);
    assert(extends_rels(cs.drop_last()) =~= Seq::<RelView>::empty());
    assert(implements_rels(cs.drop_last()) =~= Seq::<RelView>::empty());
    assert(association_rels(cs.drop_last(), cs) =~= Seq::<RelView>::empty());
    assert(field_assocs(c.name, c.fields.drop_last(), cs) =~= Seq::<RelView>::empty());
    assert(extends_rels(cs) =~= Seq::<RelView>::empty());
    assert(c.implements.map_values(|i: Seq<char>| edge(c.name, i, "implements"@)) =~= Seq::<RelView>::empty());
    assert(implements_rels(cs) =~= Seq::<RelView>::empty());
    assert(c.fields.drop_last() =~= Seq::<FieldView>::empty());
    assert(cs[0].name == c.name);
    assert(is_class_name(cs, c.name));
    assert(field_assocs(c.name, c.fields, cs) =~= seq![edge(c.name, c.name, "association"@)]);
    assert(association_rels(cs, cs) =~= seq![edge(c.name, c.name, "association"@)]);
    assert(relationships_of(cs) =~= seq![edge(c.name, c.name, "association"@)]);
}

/// Edges never add class blocks: the text is the text of the classes alone followed by one
/// line per edge, and each edge line starts with indentation where a block starts with `class`.
pub proof fn lemma_edges_add_no_blocks(cs: Seq<ClassView>, rs: Seq<RelView>, vertical: bool)
    ensures
        mermaid_text(cs, rs, vertical) == mermaid_text(cs, Seq::empty(), vertical) + rel_lines(rs),
        mermaid_text(cs, Seq::empty(), vertical) == header(vertical) + class_blocks(cs),
        forall|k: int| 0 <= k < rs.len() ==> (#[trigger] rel_line(rs[k])).take(4) == "    "@,
        forall|k: int| 0 <= k < cs.len() ==> (#[trigger] class_block(cs[k])).take(6) == "class "@,
{
    assert(rel_lines(Seq::<RelView>::empty()) =~= Seq::<char>::empty());
    assert(mermaid_text(cs, Seq::empty(), vertical) =~= header(vertical) + class_blocks(cs));
    assert(mermaid_text(cs, rs, vertical) =~= mermaid_text(cs, Seq::empty(), vertical) + rel_lines(rs));
    reveal_strlit("    ");
    assert forall|k: int| 0 <= k < rs.len() implies (#[trigger] rel_line(rs[k])).take(4) == "    "@ by {
        assert(rel_line(rs[k]).take(4) =~= "    "@);
    }
    reveal_strlit("class ");
    assert forall|k: int| 0 <= k < cs.len() implies (#[trigger] class_block(cs[k])).take(6) == "class "@ by {
        assert(class_block(cs[k]).take(6) =~= "class "@);
    }
}

proof fn lemma_extends_rels_has(cs: Seq<ClassView>, i: int)
    requires
        0 <= i < cs.len(),
        cs[i].extends is Some,
    ensures
        extends_rels(cs).contains(edge(cs[i].name, cs[i].extends->Some_0, "extends"@)),
    decreases cs.len(),
{
    let e = edge(cs[i].name, cs[i].extends->Some_0, "extends"@);
    let prev = extends_rels(cs.drop_last());
    if i == cs.len() - 1 {
        assert(extends_rels(cs)[prev.len() as int] == e);
    } else {
        lemma_extends_rels_has(cs.drop_last(), i);
        let k = choose|k: int| 0 <= k < prev.len() && prev[k] == e;
        assert(extends_rels(cs)[k] == e);
    }
}

/// Every superclass that a class of the batch names gets an `extends` edge, whether or not a
/// class of that name is in the batch.
pub proof fn lemma_extends_edge_kept(cs: Seq<ClassView>, i: int)
    requires
        0 <= i < cs.len(),
        cs[i].extends is Some,
    ensures
        relationships_of(cs).contains(edge(cs[i].name, cs[i].extends->Some_0, "extends"@)),
{
    let e = edge(cs[i].name, cs[i].extends->Some_0, "extends"@);
    lemma_extends_rels_has(cs, i);
    let k = choose|k: int| 0 <= k < extends_rels(cs).len() && extends_rels(cs)[k] == e;
    assert(relationships_of(cs)[k] == e);
}

} // verus!
