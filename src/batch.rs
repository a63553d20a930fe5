//! One diagram request: the files in submission order, stopping at the first that fails.

use vstd::prelude::*;
use vstd::string::*;
use crate::types::{ClassInfo, ClassView, classes_view};
use crate::grammar::ExtractError;
use crate::extract::{extracted, parse_java_source};
use crate::diagram::{generate_diagram, mermaid_text, relationships_of};

verus! {

/// A file submitted for a diagram: its path, and its text if it could be read.
pub struct SourceFile {
    pub path: String,
    pub contents: Option<String>,
}

/// The outcome of extracting one submitted file.
pub open spec fn file_outcome(f: SourceFile) -> Result<ClassView, ExtractError> {
    match f.contents {
        Some(c) => extracted(c@),
        None => Err(ExtractError::Io),
    }
}

/// The model of a file whose extraction succeeds.
pub open spec fn file_model(f: SourceFile) -> ClassView {
    file_outcome(f)->Ok_0
}

pub open spec fn error_text(e: ExtractError) -> Seq<char> {
    match e {
        ExtractError::Io => "the file could not be read"@,
        ExtractError::Decode => "the source is not valid UTF-8"@,
        ExtractError::NoDeclarationFound => "No class found"@,
        ExtractError::UnsupportedDeclaration => "Unsupported class type"@,
        ExtractError::GrammarInit => "the Java grammar could not be loaded"@,
    }
}

/// The message of a batch that stopped at the file `path`.
pub open spec fn failure_message(path: Seq<char>, e: ExtractError) -> Seq<char> {
    "Failed to parse "@ + path + ": "@ + error_text(e)
}

/// Every file before index `i` yields a model.
pub open spec fn all_ok_before(files: Seq<SourceFile>, i: int) -> bool {
    forall|j: int| 0 <= j < i ==> (#[trigger] file_outcome(files[j])) is Ok
}

/// The outcome of a batch: the models of all files in order, or the message for the first file
/// that fails.
pub open spec fn batch_result(files: Seq<SourceFile>) -> Result<Seq<ClassView>, Seq<char>>
    decreases files.len(),
{
    if files.len() == 0 {
        Ok(Seq::empty())
    } else {
        match batch_result(files.drop_last()) {
            Err(m) => Err(m),
            Ok(ms) => match file_outcome(files.last()) {
                Ok(v) => Ok(ms.push(v)),
                Err(e) => Err(failure_message(files.last().path@, e)),
            },
        }
    }
}

/// The outcome of a batch as text: the diagram of all models, or the first failure.
pub open spec fn batch_text(files: Seq<SourceFile>, vertical: bool) -> Result<Seq<char>, Seq<char>> {
    match batch_result(files) {
        Ok(ms) => Ok(mermaid_text(ms, relationships_of(ms), vertical)),
        Err(m) => Err(m),
    }
}

proof fn lemma_ok_prefix(files: Seq<SourceFile>, k: int)
    requires
        0 <= k <= files.len(),
        all_ok_before(files, k),
    ensures
        batch_result(files.take(k)) == Ok::<Seq<ClassView>, Seq<char>>(
            files.take(k).map_values(|f: SourceFile| file_model(f)),
        ),
    decreases k,
{
    if k == 0 {
        assert(files.take(0).map_values(|f: SourceFile| file_model(f)) =~= Seq::<ClassView>::empty());
    } else {
        lemma_ok_prefix(files, k - 1);
        assert(files.take(k).drop_last() =~= files.take(k - 1));
        assert(files.take(k).last() == files[k - 1]);
        assert(file_outcome(files[k - 1]) is Ok);
        assert(files.take(k).map_values(|f: SourceFile| file_model(f)) =~= files.take(k - 1).map_values(
            |f: SourceFile| file_model(f),
        ).push(file_model(files[k - 1])));
    }
}

proof fn lemma_err_persists(files: Seq<SourceFile>, k: int)
    requires
        0 <= k <= files.len(),
        batch_result(files.take(k)) is Err,
    ensures
        batch_result(files) == batch_result(files.take(k)),
    decreases files.len(),
{
    if files.len() == k {
        assert(files.take(k) =~= files);
    } else {
        assert(files.drop_last().take(k) =~= files.take(k));
        lemma_err_persists(files.drop_last(), k);
    }
}

/// The first failing file decides the batch: if every file before index `i` yields a model and
/// the file at `i` fails with `e`, the batch fails with the message for that file and `e`.
pub proof fn lemma_first_failure_wins(files: Seq<SourceFile>, i: int, e: ExtractError)
    requires
        0 <= i < files.len(),
        all_ok_before(files, i),
        file_outcome(files[i]) == Err::<ClassView, ExtractError>(e),
    ensures
        batch_result(files) == Err::<Seq<ClassView>, Seq<char>>(failure_message(files[i].path@, e)),
{
    lemma_ok_prefix(files, i);
    assert(files.take(i + 1).drop_last() =~= files.take(i));
    assert(files.take(i + 1).last() == files[i]);
    lemma_err_persists(files, i + 1);
}

/// Files after the first failing one do not matter: two batches that agree up to and including
/// a file that stops the batch have the same outcome.
pub proof fn lemma_later_files_ignored(a: Seq<SourceFile>, b: Seq<SourceFile>, k: int, vertical: bool)
    requires
        0 <= k < a.len(),
        k < b.len(),
        a.take(k + 1) == b.take(k + 1),
        batch_result(a.take(k + 1)) is Err,
    ensures
        batch_text(a, vertical) == batch_text(b, vertical),
{
    lemma_err_persists(a, k + 1);
    lemma_err_persists(b, k + 1);
}

/// A batch whose files all yield models renders the models in submission order.
pub proof fn lemma_all_ok_renders(files: Seq<SourceFile>, vertical: bool)
    requires
        all_ok_before(files, files.len() as int),
    ensures
        batch_text(files, vertical) == Ok::<Seq<char>, Seq<char>>(mermaid_text(
            files.map_values(|f: SourceFile| file_model(f)),
            relationships_of(files.map_values(|f: SourceFile| file_model(f))),
            vertical,
        )),
{
    lemma_ok_prefix(files, files.len() as int);
    assert(files.take(files.len() as int) =~= files);
}

impl ExtractError {
    /// A short description of the failure.
    pub fn describe(&self) -> (r: String)
        ensures
            r@ == error_text(*self),
    {
        match self {
            ExtractError::Io => String::from_str("the file could not be read"),
            ExtractError::Decode => String::from_str("the source is not valid UTF-8"),
            ExtractError::NoDeclarationFound => String::from_str("No class found"),
            ExtractError::UnsupportedDeclaration => String::from_str("Unsupported class type"),
            ExtractError::GrammarInit => String::from_str("the Java grammar could not be loaded"),
        }
    }
}

fn failure(path: &String, e: ExtractError) -> (r: String)
    ensures
        r@ == failure_message(path@, e),
{
    let mut msg = String::from_str("Failed to parse ");
    msg.append(path.as_str());
    msg.append(": ");
    let d = e.describe();
    msg.append(d.as_str());
    msg
}

/// Extracts one more file of a batch: its model joins `classes`, or the message for its
/// failure comes back and `classes` is left as it was.
pub fn batch_step(classes: &mut Vec<ClassInfo>, file: &SourceFile) -> (r: Option<String>)
    ensures
        match file_outcome(*file) {
            Ok(v) => r is None && classes_view(final(classes)@) == classes_view(old(classes)@).push(v),
            Err(e) => r is Some && r->Some_0@ == failure_message(file.path@, e) && final(classes)@ == old(
                classes,
            )@,
        },
{
    let outcome = match &file.contents {
        Some(c) => parse_java_source(c),
        None => Err(ExtractError::Io),
    };
    match outcome {
        Ok(c) => {
            classes.push(c);
            assert(classes_view(classes@) =~= classes_view(old(classes)@).push(c@));
            None
        },
        Err(e) => Some(failure(&file.path, e)),
    }
}

/// Extracts every file in order and renders the batch; the first file that fails stops the
/// batch, and the error names it.
pub fn generate_mermaid_class_diagram(files: &Vec<SourceFile>, vertical: bool) -> (r: Result<String, String>)
    ensures
        match r {
            Ok(t) => batch_text(files@, vertical) == Ok::<Seq<char>, Seq<char>>(t@),
            Err(m) => batch_text(files@, vertical) == Err::<Seq<char>, Seq<char>>(m@),
        },
{
    let mut classes: Vec<ClassInfo> = Vec::new();
    assert(classes_view(classes@) =~= Seq::<ClassView>::empty());
    let mut i: usize = 0;
    while i < files.len()
        invariant
            0 <= i <= files.len(),
            batch_result(files@.take(i as int)) == Ok::<Seq<ClassView>, Seq<char>>(classes_view(classes@)),
        decreases files.len() - i,
    {
        assert(files@.take(i + 1).drop_last() =~= files@.take(i as int));
        assert(files@.take(i + 1).last() == files@[i as int]);
        match batch_step(&mut classes, &files[i]) {
            Some(msg) => {
                proof { lemma_err_persists(files@, i + 1); }
                return Err(msg);
            },
            None => {},
        }
        i += 1;
    }
    assert(files@.take(i as int) =~= files@);
    Ok(generate_diagram(classes, vertical))
}

} // verus!
