//! The class model: classes, fields, methods, and the entries of a project's file tree and
//! registry, with the mathematical views that the contracts speak of.

use vstd::prelude::*;

verus! {

/// One attribute of a class: a declared field, a record component or an enum constant.
pub struct ClassField {
    pub name: String,
    pub field_type: String,
    pub visibility: String,
}

/// One method of a class, with its parameters as `(name, type)` pairs in declaration order.
pub struct ClassMethod {
    pub name: String,
    pub return_type: String,
    pub visibility: String,
    pub parameters: Vec<(String, String)>,
}

/// The kind of a type declaration.
#[derive(PartialEq, Eq, Structural, Clone, Copy, Debug)]
pub enum ClassType {
    Class,
    AbstractClass,
    Interface,
    Enum,
    Record,
}

/// The normalized structure of one Java type declaration.
pub struct ClassInfo {
    pub name: String,
    pub package: String,
    pub fields: Vec<ClassField>,
    pub methods: Vec<ClassMethod>,
    pub extends: Option<String>,
    pub implements: Vec<String>,
    pub class_type: ClassType,
}

/// A node of a project's file tree: a `.java` file, or a folder that holds one.
pub struct FileNode {
    pub name: String,
    pub path: String,
    pub kind: String,
    pub children: Vec<FileNode>,
}

/// An entry of the registry of recently opened projects.
pub struct Project {
    pub id: u16,
    pub name: String,
    pub path: String,
    pub last_opened: u128,
}

/// The mathematical content of a `ClassField`.
pub struct FieldView {
    pub name: Seq<char>,
    pub field_type: Seq<char>,
    pub visibility: Seq<char>,
}

/// The mathematical content of a `ClassMethod`.
pub struct MethodView {
    pub name: Seq<char>,
    pub return_type: Seq<char>,
    pub visibility: Seq<char>,
    pub parameters: Seq<(Seq<char>, Seq<char>)>,
}

/// The mathematical content of a `ClassInfo`.
pub struct ClassView {
    pub name: Seq<char>,
    pub package: Seq<char>,
    pub fields: Seq<FieldView>,
    pub methods: Seq<MethodView>,
    pub extends: Option<Seq<char>>,
    pub implements: Seq<Seq<char>>,
    pub class_type: ClassType,
}

pub open spec fn pair_view(p: (String, String)) -> (Seq<char>, Seq<char>) {
    (p.0@, p.1@)
}

pub open spec fn string_seq_view(s: Seq<String>) -> Seq<Seq<char>> {
    s.map_values(|x: String| x@)
}

impl View for ClassField {
    type V = FieldView;

    open spec fn view(&self) -> FieldView {
        FieldView { name: self.name@, field_type: self.field_type@, visibility: self.visibility@ }
    }
}

impl View for ClassMethod {
    type V = MethodView;

    open spec fn view(&self) -> MethodView {
        MethodView {
            name: self.name@,
            return_type: self.return_type@,
            visibility: self.visibility@,
            parameters: self.parameters@.map_values(|p: (String, String)| pair_view(p)),
        }
    }
}

impl View for ClassInfo {
    type V = ClassView;

    open spec fn view(&self) -> ClassView {
        ClassView {
            name: self.name@,
            package: self.package@,
            fields: self.fields@.map_values(|f: ClassField| f@),
            methods: self.methods@.map_values(|m: ClassMethod| m@),
            extends: match self.extends {
                Some(e) => Some(e@),
                None => None,
            },
            implements: string_seq_view(self.implements@),
            class_type: self.class_type,
        }
    }
}

/// The views of a sequence of classes.
pub open spec fn classes_view(cs: Seq<ClassInfo>) -> Seq<ClassView> {
    cs.map_values(|c: ClassInfo| c@)
}

/// Facts on one step of a loop over a prefix of `s`.
pub proof fn lemma_take_step<T>(s: Seq<T>, i: int)
    requires
        0 <= i < s.len(),
    ensures
        s.take(i + 1).drop_last() == s.take(i),
        s.take(i + 1).last() == s[i],
        s.take(i + 1).len() > 0,
{
    assert(s.take(i + 1).drop_last() =~= s.take(i));
}

} // verus!
