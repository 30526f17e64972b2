//! Assembly of the generated file, and the rule for overwriting it.
use vstd::prelude::*;
use crate::class::{has_trigger, ClassModel};
use crate::codegen::{
    mixin_spec, abstract_class_spec, impl_class_spec, detect_default_spec, generate_mixin, generate_abstract_class,
    generate_impl_class, generate_detect_default_class_and_constant,
};
use crate::parser::{views_of_top, ParsedFile, TopLevelItems, TopLevelModel};
use crate::pieces::opt_text;
use crate::text::{chars_of, contains_char, matches_at, same_text, string_from_range};
use crate::validate::{
    has_diagnostics_import, validate_spec, ErrorModel, GenerateError, ValidatedClass, ValidatedFile, ValidClassModel,
};

verus! {

/// The first bytes of every generated file; an existing file that does not
/// start with them is not overwritten unless forced.
pub const GENERATED_FILE_HEADER: &'static str = "// coverage:ignore-file\n// GENERATED CODE - DO NOT MODIFY BY HAND\n";

/// The banner that follows the `part of` declaration.
pub const GENERATOR_INFO_TEXT: &'static str = "// **************************************************************************\n// Generated with Icegen\n// **************************************************************************";

/// A parsed source file with its path and file name.
#[derive(Debug, PartialEq, Eq)]
pub struct DartFile {
    pub path: String,
    pub file_name: String,
    pub parsed_file: ParsedFile,
}

/// The parsed source files of a directory tree, generated files excluded.
#[derive(Debug, PartialEq, Eq)]
pub struct ParsedDartFiles {
    pub code_files: Vec<DartFile>,
}

/// The options of a run: where the sources are, and whether files that do
/// not look generated may be overwritten.
#[derive(Debug, PartialEq, Eq, Clone)]
pub struct ArgsConfig {
    pub code_dir: String,
    pub force: bool,
}

/// Whether `c` has the Unicode White_Space property, as `char::is_whitespace`
/// and `str::trim_end` use it.
pub open spec fn is_white_space(c: char) -> bool {
    let u = c as u32;
    (0x09 <= u && u <= 0x0D) || u == 0x20 || u == 0x85 || u == 0xA0 || u == 0x1680
        || (0x2000 <= u && u <= 0x200A) || u == 0x2028 || u == 0x2029 || u == 0x202F || u == 0x205F || u == 0x3000
}

/// Whether `c` has the Unicode White_Space property.
pub fn is_whitespace(c: char) -> (r: bool)
    ensures
        r == is_white_space(c),
{
    let u = c as u32;
    (0x09 <= u && u <= 0x0D) || u == 0x20 || u == 0x85 || u == 0xA0 || u == 0x1680
        || (0x2000 <= u && u <= 0x200A) || u == 0x2028 || u == 0x2029 || u == 0x202F || u == 0x205F || u == 0x3000
}

/// `s` without its trailing whitespace.
pub open spec fn trim_end_spec(s: Seq<char>) -> Seq<char>
    decreases s.len(),
{
    if s.len() > 0 && is_white_space(s.last()) {
        trim_end_spec(s.drop_last())
    } else {
        s
    }
}

/// A paragraph: the text between two newlines.
pub open spec fn paragraph(p: Seq<char>) -> Seq<char> {
    "\n"@ + p + "\n"@
}

/// Text assembled from paragraphs.
pub struct StringEditor {
    pub content: String,
}

impl StringEditor {
    /// An editor that starts with `content`.
    pub fn new(content: String) -> (r: StringEditor)
        ensures
            r.content@ == content@,
    {
        StringEditor { content }
    }

    /// Appends `paragraph` between two newlines.
    pub fn add_paragraph(&mut self, paragraph: &str)
        ensures
            final(self).content@ == old(self).content@ + crate::output::paragraph(paragraph@),
    {
        self.content.append("\n");
        self.content.append(paragraph);
        self.content.append("\n");
    }

    /// The text without trailing whitespace, then one newline.
    pub fn trim_end_and_add_final_newline(self) -> (r: String)
        ensures
            r@ == trim_end_spec(self.content@) + "\n"@,
    {
        let s = chars_of(self.content.as_str());
        let mut k: usize = s.len();
        assert(s@.take(k as int) =~= s@);
        while k > 0 && is_whitespace(s[k - 1])
            invariant
                k <= s@.len(),
                s@ == self.content@,
                trim_end_spec(s@) == trim_end_spec(s@.take(k as int)),
            decreases k,
        {
            assert(s@.take(k as int).drop_last() =~= s@.take(k - 1));
            k = k - 1;
        }
        let mut out = string_from_range(&s, 0, k);
        assert(s@.subrange(0, k as int) =~= s@.take(k as int));
        out.append("\n");
        out
    }

    /// Appends the text of `editor`.
    pub fn append(&mut self, editor: &StringEditor)
        ensures
            final(self).content@ == old(self).content@ + editor.content@,
    {
        self.content.append(editor.content.as_str());
    }
}

/// The declaration that ties the generated file to its source file.
pub open spec fn part_of_spec(file_name: Seq<char>) -> Seq<char> {
    "part of '"@ + file_name + "';"@
}

pub open spec fn bad_file_name(file_name: Seq<char>) -> bool {
    file_name.contains('\'') || file_name.contains('$')
}

/// `part of '<file name>';`, refused for a file name with a quote or a dollar sign.
pub fn generate_part_of_statement(file: &DartFile) -> (r: Result<String, GenerateError>)
    ensures
        bad_file_name(file.file_name@) ==> (r matches Err(e) && e@ == ErrorModel::InvalidFileName(file.file_name@)),
        !bad_file_name(file.file_name@) ==> (r matches Ok(t) && t@ == part_of_spec(file.file_name@)),
{
    let name = file.file_name.as_str();
    if contains_char(name, '\'') || contains_char(name, '$') {
        return Err(GenerateError::InvalidFileName { file_name: file.file_name.clone() });
    }
    let mut out = String::new();
    out.append("part of '");
    out.append(name);
    out.append("';");
    assert(out@ =~= part_of_spec(file.file_name@));
    Ok(out)
}

pub open spec fn has_nullable(v: ValidClassModel) -> bool {
    exists|k: int| 0 <= k < v.factory.params.len() && (#[trigger] v.factory.params[k]).nullable
}

/// The three blocks generated for a class, and whether it has a nullable field.
#[verifier::opaque]
pub open spec fn class_code_spec(diag: bool, c: ClassModel) -> Result<(Seq<char>, bool), ErrorModel> {
    match validate_spec(c) {
        Err(e) => Err(e),
        Ok(v) => if v.name.contains('$') {
            Err(ErrorModel::DollarInClassName(v.name))
        } else {
            Ok((paragraph(mixin_spec(v)) + paragraph(abstract_class_spec(v)) + paragraph(impl_class_spec(diag, v)), has_nullable(v)))
        },
    }
}

/// The code of the triggered classes among `items[..n]`, in order, and
/// whether any of them has a nullable field; or the first error.
pub open spec fn classes_spec(diag: bool, items: Seq<TopLevelModel>, n: int) -> Result<(Seq<char>, bool), ErrorModel>
    decreases n,
{
    if n <= 0 || n > items.len() {
        Ok((Seq::empty(), false))
    } else {
        match classes_spec(diag, items, n - 1) {
            Err(e) => Err(e),
            Ok((t, b)) => match items[n - 1] {
                TopLevelModel::Class(c) => if has_trigger(c.annotations) {
                    match class_code_spec(diag, c) {
                        Err(e) => Err(e),
                        Ok((t2, b2)) => Ok((t + t2, b || b2)),
                    }
                } else {
                    Ok((t, b))
                },
                TopLevelModel::Import(_) => Ok((t, b)),
            },
        }
    }
}

/// The generated file for source file `file_name` with items `items`: the
/// header, the `part of` declaration, the banner, the sentinel declaration
/// when some field is nullable, and each triggered class's blocks; trailing
/// whitespace is trimmed and one newline ends it.
pub open spec fn file_spec(file_name: Seq<char>, items: Seq<TopLevelModel>) -> Result<Seq<char>, ErrorModel> {
    match classes_spec(has_diagnostics_import(items), items, items.len() as int) {
        Err(e) => Err(e),
        Ok(r) => if bad_file_name(file_name) {
            Err(ErrorModel::InvalidFileName(file_name))
        } else {
            Ok(file_text_spec(file_name, r.0, r.1))
        },
    }
}

/// The generated text around the classes' code `code`.
pub open spec fn file_text_spec(file_name: Seq<char>, code: Seq<char>, nullable: bool) -> Seq<char> {
    trim_end_spec(GENERATED_FILE_HEADER@ + paragraph(part_of_spec(file_name)) + paragraph(GENERATOR_INFO_TEXT@)
        + opt_text(nullable, paragraph(detect_default_spec())) + code) + "\n"@
}

/// Validates one class and appends its three blocks to `editor`; records
/// whether it has a nullable field.
fn generate_data_class(
    file: &ValidatedFile,
    class: &crate::class::ClassDefinition,
    editor: &mut StringEditor,
    nullable_named_parameter_exists: &mut bool,
) -> (r: Result<(), GenerateError>)
    ensures
        match class_code_spec(file.flutter_foundation_import_exists, class@) {
            Ok((t, b)) => r is Ok && final(editor).content@ == old(editor).content@ + t
                && *final(nullable_named_parameter_exists) == (*old(nullable_named_parameter_exists) || b),
            Err(e) => r matches Err(x) && x@ == e,
        },
{
    proof {
        reveal(class_code_spec);
    }
    let validated = match ValidatedClass::validate(class) {
        Ok(v) => v,
        Err(e) => return Err(e),
    };
    let mixin = match generate_mixin(&validated) {
        Ok(m) => m,
        Err(e) => return Err(e),
    };
    editor.add_paragraph(mixin.as_str());
    let abs = match generate_abstract_class(&validated) {
        Ok(a) => a,
        Err(e) => return Err(e),
    };
    editor.add_paragraph(abs.as_str());
    let imp = match generate_impl_class(file, &validated) {
        Ok(i) => i,
        Err(e) => return Err(e),
    };
    editor.add_paragraph(imp.as_str());
    let has = validated.nullable_named_parameter_exists();
    *nullable_named_parameter_exists = *nullable_named_parameter_exists || has;
    Ok(())
}

/// The generated file for a parsed source file.
pub fn generate_data_class_file(file: &DartFile) -> (r: Result<String, GenerateError>)
    ensures
        match file_spec(file.file_name@, views_of_top(file.parsed_file.items@)) {
            Ok(t) => r matches Ok(x) && x@ == t,
            Err(e) => r matches Err(x) && x@ == e,
        },
{
    let validated = match ValidatedFile::validate(&file.parsed_file) {
        Ok(v) => v,
        Err(e) => return Err(e),
    };
    let ghost items = views_of_top(file.parsed_file.items@);
    let ghost diag = has_diagnostics_import(items);
    let mut nullable = false;
    let mut code = StringEditor::new(String::new());
    let its = &file.parsed_file.items;
    let mut k: usize = 0;
    while k < its.len()
        invariant
            its == &file.parsed_file.items,
            items == views_of_top(its@),
            items == views_of_top(file.parsed_file.items@),
            diag == has_diagnostics_import(items),
            validated.flutter_foundation_import_exists == diag,
            k <= its@.len(),
            classes_spec(diag, items, k as int) == Ok::<(Seq<char>, bool), ErrorModel>((code.content@, nullable)),
        decreases its.len() - k,
    {
        assert(items[k as int] == its@[k as int]@);
        match &its[k] {
            TopLevelItems::Class(class) => {
                if class.contains_freezed_annotation() {
                    match generate_data_class(&validated, class, &mut code, &mut nullable) {
                        Ok(()) => {},
                        Err(e) => {
                            proof {
                                assert(items[k as int] == TopLevelModel::Class(class@));
                                assert(classes_spec(diag, items, k + 1) == Err::<(Seq<char>, bool), ErrorModel>(e@));
                                lemma_classes_err_stable(diag, items, k + 1, items.len() as int);
                                assert(classes_spec(diag, items, items.len() as int) == Err::<(Seq<char>, bool), ErrorModel>(e@));
                                assert(file_spec(file.file_name@, items) == Err::<Seq<char>, ErrorModel>(e@));
                            }
                            return Err(e);
                        },
                    }
                }
            },
            TopLevelItems::Import(_) => {},
        }
        k = k + 1;
    }
    let mut editor = StringEditor::new(GENERATED_FILE_HEADER.to_owned());
    let part = match generate_part_of_statement(file) {
        Ok(p) => p,
        Err(e) => return Err(e),
    };
    editor.add_paragraph(part.as_str());
    editor.add_paragraph(GENERATOR_INFO_TEXT);
    let ghost before = editor.content@;
    if nullable {
        let d = generate_detect_default_class_and_constant();
        editor.add_paragraph(d.as_str());
    }
    proof {
        if !nullable {
            assert(editor.content@ =~= before + opt_text(false, paragraph(detect_default_spec())));
        }
    }
    editor.append(&code);
    Ok(editor.trim_end_and_add_final_newline())
}

proof fn lemma_classes_err_stable(diag: bool, items: Seq<TopLevelModel>, n: int, m: int)
    requires
        0 < n <= m <= items.len(),
        classes_spec(diag, items, n) is Err,
    ensures
        classes_spec(diag, items, m) == classes_spec(diag, items, n),
    decreases m - n,
{
    if n < m {
        lemma_classes_err_stable(diag, items, n, m - 1);
    }
}

/// What to do with the generated file.
#[derive(Debug, PartialEq, Eq, Clone, Copy)]
pub enum WriteAction {
    /// It already holds the new content: write nothing.
    Skip,
    /// Write the new content.
    Write,
}

/// The overwrite rule: nothing to do when the file already holds the new
/// content; otherwise write, except over an existing file that does not start
/// with the generated header when not forced.
pub open spec fn update_spec(existing: Option<Seq<char>>, generated: Seq<char>, force: bool) -> Option<WriteAction> {
    match existing {
        None => Some(WriteAction::Write),
        Some(cur) => if cur == generated {
            Some(WriteAction::Skip)
        } else if !force && !crate::text::starts_at(cur, 0, GENERATED_FILE_HEADER@) {
            None
        } else {
            Some(WriteAction::Write)
        },
    }
}

/// Decides whether to write `generated` to the file at `path`, which holds
/// `existing` if it exists. Refuses to overwrite a file that does not look
/// generated unless `force` is set.
pub fn decide_update(path: &str, existing: Option<&str>, generated: &str, force: bool) -> (r: Result<WriteAction, GenerateError>)
    ensures
        match update_spec(match existing { Some(x) => Some(x@), None => None }, generated@, force) {
            Some(a) => r == Ok::<WriteAction, GenerateError>(a),
            None => r matches Err(e) && e@ == ErrorModel::NotGeneratedFile(path@),
        },
{
    match existing {
        None => Ok(WriteAction::Write),
        Some(cur) => {
            if same_text(cur, generated) {
                return Ok(WriteAction::Skip);
            }
            let c = chars_of(cur);
            let h = chars_of(GENERATED_FILE_HEADER);
            if !force && !matches_at(&c, 0, &h) {
                return Err(GenerateError::NotGeneratedFile { path: path.to_owned() });
            }
            Ok(WriteAction::Write)
        },
    }
}

/// Regenerating from an unchanged source gives the text that the generated
/// file already holds, and then nothing is written, forced or not.
pub proof fn lemma_regeneration_writes_nothing(file_name: Seq<char>, items: Seq<TopLevelModel>, existing: Seq<char>, force: bool)
    requires
        file_spec(file_name, items) == Ok::<Seq<char>, ErrorModel>(existing),
    ensures
        file_spec(file_name, items) matches Ok(t) && update_spec(Some(existing), t, force) == Some(WriteAction::Skip),
{
}

} // verus!
