//! Validation: from a parsed file and class to a consistent model for generation.
use vstd::prelude::*;
use crate::annotation::{is_default_name, AnnotationModel};
use crate::class::{ClassDefinition, ClassItem, ClassItemModel, ClassModel, FactoryConstructor, FactoryModel, PrivateConstructor};
use crate::import::DIAGNOSTICS_IMPORT_PATH;
use crate::lexer::Identifier;
use crate::parameters::{count_defaults, views_of_parameters, NamedParameter, NamedParameterModel};
use crate::parser::{views_of_top, ParsedFile, TopLevelItems, TopLevelModel};

verus! {

/// What an error reports.
pub enum ErrorModel {
    MultipleFactoryConstructors(Seq<char>),
    MultiplePrivateConstructors(Seq<char>),
    NoFactoryConstructor(Seq<char>),
    NoNamedParameters(Seq<char>),
    MultipleDefaultAnnotations(Seq<char>, Seq<char>),
    DollarInClassName(Seq<char>),
    InvalidFileName(Seq<char>),
    NotGeneratedFile(Seq<char>),
}

/// Why generation for a file failed.
#[derive(Debug, PartialEq, Eq, Clone)]
pub enum GenerateError {
    /// A class declares more than one factory constructor.
    MultipleFactoryConstructors { class_name: String },
    /// A class declares more than one private constructor.
    MultiplePrivateConstructors { class_name: String },
    /// A class declares no factory constructor.
    NoFactoryConstructor { class_name: String },
    /// The factory constructor of a class has no named parameters.
    NoNamedParameters { class_name: String },
    /// A parameter carries more than one default-value annotation.
    MultipleDefaultAnnotations { parameter: String, class_name: String },
    /// A class name holds a dollar sign.
    DollarInClassName { class_name: String },
    /// A file name holds a quote or a dollar sign.
    InvalidFileName { file_name: String },
    /// An existing file in the place of the generated file does not start
    /// with the generated header.
    NotGeneratedFile { path: String },
}

impl View for GenerateError {
    type V = ErrorModel;

    open spec fn view(&self) -> ErrorModel {
        match self {
            GenerateError::MultipleFactoryConstructors { class_name } => ErrorModel::MultipleFactoryConstructors(class_name@),
            GenerateError::MultiplePrivateConstructors { class_name } => ErrorModel::MultiplePrivateConstructors(class_name@),
            GenerateError::NoFactoryConstructor { class_name } => ErrorModel::NoFactoryConstructor(class_name@),
            GenerateError::NoNamedParameters { class_name } => ErrorModel::NoNamedParameters(class_name@),
            GenerateError::MultipleDefaultAnnotations { parameter, class_name } => ErrorModel::MultipleDefaultAnnotations(parameter@, class_name@),
            GenerateError::DollarInClassName { class_name } => ErrorModel::DollarInClassName(class_name@),
            GenerateError::InvalidFileName { file_name } => ErrorModel::InvalidFileName(file_name@),
            GenerateError::NotGeneratedFile { path } => ErrorModel::NotGeneratedFile(path@),
        }
    }
}

/// The class an error is about, when it is about one.
pub open spec fn error_class(e: ErrorModel) -> Option<Seq<char>> {
    match e {
        ErrorModel::MultipleFactoryConstructors(n) => Some(n),
        ErrorModel::MultiplePrivateConstructors(n) => Some(n),
        ErrorModel::NoFactoryConstructor(n) => Some(n),
        ErrorModel::NoNamedParameters(n) => Some(n),
        ErrorModel::MultipleDefaultAnnotations(_, n) => Some(n),
        ErrorModel::DollarInClassName(n) => Some(n),
        ErrorModel::InvalidFileName(_) => None,
        ErrorModel::NotGeneratedFile(_) => None,
    }
}

/// The validated model of a file.
#[derive(Debug, PartialEq, Eq, Clone, Copy)]
pub struct ValidatedFile {
    pub flutter_foundation_import_exists: bool,
}

pub open spec fn has_diagnostics_import(items: Seq<TopLevelModel>) -> bool {
    exists|k: int| 0 <= k < items.len() && (#[trigger] items[k] matches TopLevelModel::Import(p) && p == DIAGNOSTICS_IMPORT_PATH@)
}

impl ValidatedFile {
    /// Records whether the file imports the diagnostics foundation library.
    /// This never fails.
    pub fn validate(parsed_file: &ParsedFile) -> (r: Result<ValidatedFile, GenerateError>)
        ensures
            r == Ok::<ValidatedFile, GenerateError>(ValidatedFile {
                flutter_foundation_import_exists: has_diagnostics_import(views_of_top(parsed_file.items@)),
            }),
    {
        let mut found = false;
        let mut k: usize = 0;
        while k < parsed_file.items.len()
            invariant
                k <= parsed_file.items@.len(),
                found == exists|m: int| 0 <= m < k && (#[trigger] views_of_top(parsed_file.items@)[m] matches TopLevelModel::Import(p) && p == DIAGNOSTICS_IMPORT_PATH@),
            decreases parsed_file.items.len() - k,
        {
            match &parsed_file.items[k] {
                TopLevelItems::Import(i) => {
                    if i.is_flutter_foundation_import() {
                        found = true;
                    }
                },
                TopLevelItems::Class(_) => {},
            }
            assert(views_of_top(parsed_file.items@)[k as int] == parsed_file.items@[k as int]@);
            k = k + 1;
        }
        Ok(ValidatedFile { flutter_foundation_import_exists: found })
    }
}

/// Index of the first parameter in `ps[from..]` with more than one
/// default-value annotation.
pub open spec fn first_multiple_default(ps: Seq<NamedParameterModel>, from: int) -> Option<int>
    decreases ps.len() - from,
{
    if from < 0 || from >= ps.len() {
        None
    } else if count_defaults(ps[from].annotations, ps[from].annotations.len() as int) >= 2 {
        Some(from)
    } else {
        first_multiple_default(ps, from + 1)
    }
}

/// What is wrong with a factory constructor of class `name`, if anything.
pub open spec fn factory_error(f: FactoryModel, name: Seq<char>) -> Option<ErrorModel> {
    if f.params.len() == 0 {
        Some(ErrorModel::NoNamedParameters(name))
    } else {
        match first_multiple_default(f.params, 0) {
            Some(k) => Some(ErrorModel::MultipleDefaultAnnotations(f.params[k].name, name)),
            None => None,
        }
    }
}

/// The state after going through `items[..n]` in order: the private
/// constructor's constness and the factory constructor found so far, or the
/// first error met.
pub open spec fn scan_items(items: Seq<ClassItemModel>, name: Seq<char>, n: int) -> Result<(Option<bool>, Option<FactoryModel>), ErrorModel>
    decreases n,
{
    if n <= 0 || n > items.len() {
        Ok((None, None))
    } else {
        match scan_items(items, name, n - 1) {
            Err(e) => Err(e),
            Ok((p, f)) => match items[n - 1] {
                ClassItemModel::Factory(fm) => if f is Some {
                    Err(ErrorModel::MultipleFactoryConstructors(name))
                } else {
                    match factory_error(fm, name) {
                        Some(e) => Err(e),
                        None => Ok((p, Some(fm))),
                    }
                },
                ClassItemModel::Private(c) => if p is Some {
                    Err(ErrorModel::MultiplePrivateConstructors(name))
                } else {
                    Ok((Some(c), f))
                },
            },
        }
    }
}

/// What a validated class holds.
pub struct ValidClassModel {
    pub name: Seq<char>,
    pub private_constructor: Option<bool>,
    pub factory: FactoryModel,
}

/// Validation of a class: its items in order, then the need for a factory constructor.
pub open spec fn validate_spec(c: ClassModel) -> Result<ValidClassModel, ErrorModel> {
    match scan_items(c.items, c.name, c.items.len() as int) {
        Err(e) => Err(e),
        Ok((_, None)) => Err(ErrorModel::NoFactoryConstructor(c.name)),
        Ok((p, Some(f))) => Ok(ValidClassModel { name: c.name, private_constructor: p, factory: f }),
    }
}

/// A validated class always has parameters, each with at most one default.
pub open spec fn valid_class(m: ValidClassModel) -> bool {
    &&& m.factory.params.len() > 0
    &&& forall|k: int| 0 <= k < m.factory.params.len()
        ==> count_defaults(#[trigger] m.factory.params[k].annotations, m.factory.params[k].annotations.len() as int) <= 1
}

/// A class that passed validation: one factory constructor with named
/// parameters, and at most one private constructor.
pub struct ValidatedClass {
    name: Identifier,
    private_constructor: Option<PrivateConstructor>,
    factory_constructor: FactoryConstructor,
}

impl View for ValidatedClass {
    type V = ValidClassModel;

    closed spec fn view(&self) -> ValidClassModel {
        ValidClassModel {
            name: self.name@,
            private_constructor: match self.private_constructor {
                Some(p) => Some(p.is_const),
                None => None,
            },
            factory: self.factory_constructor@,
        }
    }
}

pub open spec fn option_factory_view(f: Option<FactoryConstructor>) -> Option<FactoryModel> {
    match f {
        Some(x) => Some(x@),
        None => None,
    }
}

proof fn lemma_first_multiple_default_none(ps: Seq<NamedParameterModel>, from: int)
    requires
        0 <= from,
        first_multiple_default(ps, from) is None,
    ensures
        forall|k: int| from <= k < ps.len() ==> count_defaults(#[trigger] ps[k].annotations, ps[k].annotations.len() as int) <= 1,
    decreases ps.len() - from,
{
    if from < ps.len() {
        lemma_first_multiple_default_none(ps, from + 1);
    }
}

proof fn lemma_scan_valid(items: Seq<ClassItemModel>, name: Seq<char>, n: int)
    requires
        scan_items(items, name, n) matches Ok((_, Some(f))),
    ensures
        scan_items(items, name, n) matches Ok((_, Some(f))) && f.params.len() > 0
            && first_multiple_default(f.params, 0) is None,
    decreases n,
{
    if 0 < n <= items.len() {
        match scan_items(items, name, n - 1) {
            Ok((_, Some(_))) => lemma_scan_valid(items, name, n - 1),
            _ => {},
        }
    }
}

impl ValidatedClass {
    /// The class name.
    pub fn name(&self) -> (r: &Identifier)
        ensures
            r@ == self@.name,
    {
        &self.name
    }

    /// Whether the class declares a private constructor.
    pub fn private_constructor_exists(&self) -> (r: bool)
        ensures
            r == self@.private_constructor is Some,
    {
        self.private_constructor.is_some()
    }

    /// Whether the class declares a `const` private constructor.
    pub fn private_constructor_is_const(&self) -> (r: bool)
        ensures
            r == (self@.private_constructor == Some(true)),
    {
        match &self.private_constructor {
            Some(p) => p.is_const,
            None => false,
        }
    }

    /// The factory parameters in declaration order; there is at least one.
    pub fn factory_constructor_params(&self) -> (r: &Vec<NamedParameter>)
        ensures
            views_of_parameters(r@) == self@.factory.params,
            valid_class(self@),
    {
        proof {
            use_type_invariant(self);
        }
        &self.factory_constructor.params
    }

    /// Whether the factory constructor is `const`.
    pub fn factory_constructor_is_const(&self) -> (r: bool)
        ensures
            r == self@.factory.is_const,
    {
        self.factory_constructor.is_const
    }

    /// Whether some factory parameter has a nullable type.
    pub fn nullable_named_parameter_exists(&self) -> (r: bool)
        ensures
            r == exists|k: int| 0 <= k < self@.factory.params.len() && (#[trigger] self@.factory.params[k]).nullable,
    {
        let params = &self.factory_constructor.params;
        let mut k: usize = 0;
        while k < params.len()
            invariant
                params == &self.factory_constructor.params,
                self@.factory.params == views_of_parameters(params@),
                k <= params@.len(),
                forall|m: int| 0 <= m < k ==> !(#[trigger] views_of_parameters(params@)[m]).nullable,
            decreases params.len() - k,
        {
            if params[k].parameter_type.nullable {
                assert(views_of_parameters(params@)[k as int].nullable);
                return true;
            }
            k = k + 1;
        }
        false
    }

    #[verifier::type_invariant]
    closed spec fn inv(&self) -> bool {
        valid_class(self@)
    }

    /// Checks a class: at most one factory and one private constructor, a
    /// factory constructor that has named parameters, each with at most one
    /// default-value annotation. Errors name the class.
    pub fn validate(class_info: &ClassDefinition) -> (r: Result<ValidatedClass, GenerateError>)
        ensures
            match validate_spec(class_info@) {
                Ok(m) => r matches Ok(v) && v@ == m,
                Err(e) => r matches Err(x) && x@ == e,
            },
    {
        let items = &class_info.item_info.items;
        let ghost name = class_info@.name;
        let mut private_constructor: Option<PrivateConstructor> = None;
        let mut factory_constructor: Option<FactoryConstructor> = None;
        let mut k: usize = 0;
        while k < items.len()
            invariant
                items == &class_info.item_info.items,
                k <= items@.len(),
                name == class_info.name@,
                class_info@.items == crate::class::views_of_items(items@),
                scan_items(class_info@.items, name, k as int) == Ok::<(Option<bool>, Option<FactoryModel>), ErrorModel>((
                    match private_constructor {
                        Some(p) => Some(p.is_const),
                        None => None,
                    },
                    option_factory_view(factory_constructor),
                )),
            decreases items.len() - k,
        {
            assert(class_info@.items[k as int] == items@[k as int]@);
            match &items[k] {
                ClassItem::FactoryConstructor(constructor) => {
                    if factory_constructor.is_some() {
                        proof {
                            lemma_scan_err_stable(class_info@.items, name, k + 1, class_info@.items.len() as int);
                        }
                        return Err(GenerateError::MultipleFactoryConstructors { class_name: class_info.name.name.clone() });
                    }
                    match Self::validate_factory_constructor(constructor, class_info) {
                        Err(e) => {
                            proof {
                                lemma_scan_err_stable(class_info@.items, name, k + 1, class_info@.items.len() as int);
                            }
                            return Err(e);
                        },
                        Ok(()) => {},
                    }
                    factory_constructor = Some(constructor.duplicate());
                },
                ClassItem::PrivateConstructor(constructor) => {
                    if private_constructor.is_some() {
                        proof {
                            lemma_scan_err_stable(class_info@.items, name, k + 1, class_info@.items.len() as int);
                        }
                        return Err(GenerateError::MultiplePrivateConstructors { class_name: class_info.name.name.clone() });
                    }
                    private_constructor = Some(*constructor);
                },
            }
            k = k + 1;
        }
        assert(crate::class::views_of_items(items@).len() == items@.len());
        match factory_constructor {
            None => Err(GenerateError::NoFactoryConstructor { class_name: class_info.name.name.clone() }),
            Some(factory_constructor) => {
                proof {
                    lemma_scan_valid(class_info@.items, name, k as int);
                    lemma_first_multiple_default_none(factory_constructor@.params, 0);
                }
                Ok(ValidatedClass { name: class_info.name.duplicate(), private_constructor, factory_constructor })
            },
        }
    }

    /// Checks that a factory constructor has named parameters and that none
    /// carries more than one default-value annotation.
    fn validate_factory_constructor(constructor: &FactoryConstructor, class_info: &ClassDefinition) -> (r: Result<(), GenerateError>)
        ensures
            match factory_error(constructor@, class_info@.name) {
                Some(e) => r matches Err(x) && x@ == e,
                None => r is Ok,
            },
    {
        if constructor.params.len() == 0 {
            return Err(GenerateError::NoNamedParameters { class_name: class_info.name.name.clone() });
        }
        let params = &constructor.params;
        let mut k: usize = 0;
        while k < params.len()
            invariant
                params == &constructor.params,
                k <= params@.len(),
                first_multiple_default(constructor@.params, 0) == first_multiple_default(constructor@.params, k as int),
            decreases params.len() - k,
        {
            let param = &params[k];
            let ghost anns = constructor@.params[k as int].annotations;
            assert(constructor@.params[k as int] == params@[k as int]@);
            assert(anns == crate::annotation::views_of_annotations(param.annotations@));
            let mut found = false;
            let mut m: usize = 0;
            while m < param.annotations.len()
                invariant
                    m <= param.annotations@.len(),
                    k < params@.len(),
                    params == &constructor.params,
                    constructor@.params[k as int] == param@,
                    anns == constructor@.params[k as int].annotations,
                    first_multiple_default(constructor@.params, 0) == first_multiple_default(constructor@.params, k as int),
                    anns == crate::annotation::views_of_annotations(param.annotations@),
                    count_defaults(anns, m as int) <= 1,
                    found == (count_defaults(anns, m as int) == 1),
                decreases param.annotations.len() - m,
            {
                let is_default = param.annotations[m].is_default_annotation();
                assert(anns[m as int] == param.annotations@[m as int]@);
                if is_default {
                    if found {
                        proof {
                            assert(count_defaults(anns, m + 1) == 2);
                            lemma_count_defaults_monotone(anns, m + 1, anns.len() as int);
                            assert(first_multiple_default(constructor@.params, k as int) == Some(k as int));
                            assert(constructor@.params[k as int].name == param.name@);
                        }
                        return Err(GenerateError::MultipleDefaultAnnotations {
                            parameter: param.name.name.clone(),
                            class_name: class_info.name.name.clone(),
                        });
                    }
                    found = true;
                }
                m = m + 1;
            }
            k = k + 1;
        }
        Ok(())
    }
}

proof fn lemma_scan_err_stable(items: Seq<ClassItemModel>, name: Seq<char>, n: int, m: int)
    requires
        0 < n <= m <= items.len(),
        scan_items(items, name, n) is Err,
    ensures
        scan_items(items, name, m) == scan_items(items, name, n),
    decreases m - n,
{
    if n < m {
        lemma_scan_err_stable(items, name, n, m - 1);
    }
}

proof fn lemma_count_defaults_monotone(a: Seq<AnnotationModel>, m: int, n: int)
    requires
        0 <= m <= n <= a.len(),
    ensures
        count_defaults(a, m) <= count_defaults(a, n),
    decreases n - m,
{
    if m < n {
        lemma_count_defaults_monotone(a, m, n - 1);
    }
}

/// How many of `items[..n]` are factory constructors.
pub open spec fn count_factories(items: Seq<ClassItemModel>, n: int) -> nat
    decreases n,
{
    if n <= 0 || n > items.len() {
        0
    } else {
        count_factories(items, n - 1) + if items[n - 1] is Factory { 1nat } else { 0nat }
    }
}

/// How many of `items[..n]` are private constructors.
pub open spec fn count_privates(items: Seq<ClassItemModel>, n: int) -> nat
    decreases n,
{
    if n <= 0 || n > items.len() {
        0
    } else {
        count_privates(items, n - 1) + if items[n - 1] is Private { 1nat } else { 0nat }
    }
}

/// A factory constructor that validation accepts: it has named parameters,
/// none with more than one default-value annotation.
pub open spec fn acceptable_factory(f: FactoryModel) -> bool {
    &&& f.params.len() > 0
    &&& forall|j: int| 0 <= j < f.params.len()
        ==> count_defaults(#[trigger] f.params[j].annotations, f.params[j].annotations.len() as int) <= 1
}

proof fn lemma_counts_sum(items: Seq<ClassItemModel>, n: int)
    requires
        0 <= n <= items.len(),
    ensures
        count_factories(items, n) + count_privates(items, n) == n,
    decreases n,
{
    if n > 0 {
        lemma_counts_sum(items, n - 1);
    }
}

proof fn lemma_first_multiple_default_some(ps: Seq<NamedParameterModel>, from: int, j: int)
    requires
        0 <= from <= j < ps.len(),
        count_defaults(ps[j].annotations, ps[j].annotations.len() as int) >= 2,
    ensures
        first_multiple_default(ps, from) is Some,
    decreases j - from,
{
    if from < j && count_defaults(ps[from].annotations, ps[from].annotations.len() as int) < 2 {
        lemma_first_multiple_default_some(ps, from + 1, j);
    }
}

proof fn lemma_acceptable_factory(f: FactoryModel, name: Seq<char>)
    requires
        acceptable_factory(f),
    ensures
        factory_error(f, name) is None,
{
    lemma_first_multiple_default_none_converse(f.params, 0);
}

proof fn lemma_first_multiple_default_none_converse(ps: Seq<NamedParameterModel>, from: int)
    requires
        0 <= from,
        forall|j: int| 0 <= j < ps.len() ==> count_defaults(#[trigger] ps[j].annotations, ps[j].annotations.len() as int) <= 1,
    ensures
        first_multiple_default(ps, from) is None,
    decreases ps.len() - from,
{
    if from < ps.len() {
        lemma_first_multiple_default_none_converse(ps, from + 1);
    }
}

/// A class with exactly one factory constructor, which has named parameters
/// none of which carries two default-value annotations, and at most one
/// private constructor, passes validation; the validated model keeps that
/// factory constructor, so its parameters stay in declaration order.
pub proof fn lemma_valid_class_passes(c: ClassModel)
    requires
        count_factories(c.items, c.items.len() as int) == 1,
        count_privates(c.items, c.items.len() as int) <= 1,
        forall|j: int| 0 <= j < c.items.len() ==> (#[trigger] c.items[j] matches ClassItemModel::Factory(f) ==> acceptable_factory(f)),
    ensures
        validate_spec(c) matches Ok(m) && m.name == c.name
            && forall|j: int| 0 <= j < c.items.len() ==> (#[trigger] c.items[j] matches ClassItemModel::Factory(f) ==> m.factory == f),
{
    let items = c.items;
    lemma_counts_sum(items, items.len() as int);
    if items.len() == 1 {
        let f = items[0]->Factory_0;
        assert(count_factories(items, 1) == count_factories(items, 0) + if items[0] is Factory { 1nat } else { 0nat });
        assert(items[0] is Factory);
        assert(c.items[0] matches ClassItemModel::Factory(f) ==> acceptable_factory(f));
        lemma_acceptable_factory(f, c.name);
        assert(scan_items(items, c.name, 0) == Ok::<(Option<bool>, Option<FactoryModel>), ErrorModel>((None, None)));
        assert(scan_items(items, c.name, 1) == Ok::<(Option<bool>, Option<FactoryModel>), ErrorModel>((None, Some(f))));
    } else {
        assert(items.len() == 2);
        match items[0] {
            ClassItemModel::Factory(f) => {
                assert(c.items[0] matches ClassItemModel::Factory(f) ==> acceptable_factory(f));
                lemma_acceptable_factory(f, c.name);
                assert(count_factories(items, 2) == count_factories(items, 1) + if items[1] is Factory { 1nat } else { 0nat });
                assert(items[1] is Private);
                assert(scan_items(items, c.name, 0) == Ok::<(Option<bool>, Option<FactoryModel>), ErrorModel>((None, None)));
                assert(scan_items(items, c.name, 1) == Ok::<(Option<bool>, Option<FactoryModel>), ErrorModel>((None, Some(f))));
            },
            ClassItemModel::Private(p) => {
                assert(count_factories(items, 1) == count_factories(items, 0) + if items[0] is Factory { 1nat } else { 0nat });
                assert(count_factories(items, 1) == 0);
                assert(count_factories(items, 2) == count_factories(items, 1) + if items[1] is Factory { 1nat } else { 0nat });
                assert(items[1] is Factory);
                let f = items[1]->Factory_0;
                assert(scan_items(items, c.name, 0) == Ok::<(Option<bool>, Option<FactoryModel>), ErrorModel>((None, None)));
                assert(c.items[1] matches ClassItemModel::Factory(f) ==> acceptable_factory(f));
                lemma_acceptable_factory(f, c.name);
                assert(scan_items(items, c.name, 1) == Ok::<(Option<bool>, Option<FactoryModel>), ErrorModel>((Some(p), None)));
            },
        }
    }
}

proof fn lemma_scan_counts(items: Seq<ClassItemModel>, name: Seq<char>, n: int)
    requires
        0 <= n <= items.len(),
    ensures
        match scan_items(items, name, n) {
            Ok((_, f)) => (f is Some <==> count_factories(items, n) == 1) && count_factories(items, n) <= 1,
            Err(e) => error_class(e) == Some(name),
        },
    decreases n,
{
    if n > 0 {
        lemma_scan_counts(items, name, n - 1);
    }
}

/// A class with no factory constructor, or with two or more, fails
/// validation, and the error names the class.
pub proof fn lemma_factory_count_not_one_fails(c: ClassModel)
    requires
        count_factories(c.items, c.items.len() as int) == 0 || count_factories(c.items, c.items.len() as int) >= 2,
    ensures
        validate_spec(c) matches Err(e) && error_class(e) == Some(c.name),
        count_factories(c.items, c.items.len() as int) == 0 && count_privates(c.items, c.items.len() as int) <= 1
            ==> validate_spec(c) == Err::<ValidClassModel, ErrorModel>(ErrorModel::NoFactoryConstructor(c.name)),
{
    lemma_scan_counts(c.items, c.name, c.items.len() as int);
    if count_factories(c.items, c.items.len() as int) == 0 && count_privates(c.items, c.items.len() as int) <= 1 {
        lemma_no_factory_scan(c.items, c.name, c.items.len() as int);
    }
}

proof fn lemma_no_factory_scan(items: Seq<ClassItemModel>, name: Seq<char>, n: int)
    requires
        0 <= n <= items.len(),
        count_factories(items, n) == 0,
        count_privates(items, n) <= 1,
    ensures
        scan_items(items, name, n) matches Ok((p, None)) && (p is Some <==> count_privates(items, n) == 1),
    decreases n,
{
    if n > 0 {
        lemma_no_factory_scan(items, name, n - 1);
    }
}

proof fn lemma_scan_two_factories(items: Seq<ClassItemModel>, name: Seq<char>, n: int)
    requires
        0 <= n <= items.len(),
        count_privates(items, n) <= 1,
        forall|j: int| 0 <= j < items.len() ==> (#[trigger] items[j] matches ClassItemModel::Factory(f) ==> acceptable_factory(f)),
    ensures
        count_factories(items, n) <= 1 ==> (scan_items(items, name, n) matches Ok((p, f))
            && (p is Some <==> count_privates(items, n) == 1) && (f is Some <==> count_factories(items, n) == 1)),
        count_factories(items, n) >= 2 ==> scan_items(items, name, n) == Err::<(Option<bool>, Option<FactoryModel>), ErrorModel>(
            ErrorModel::MultipleFactoryConstructors(name)),
    decreases n,
{
    if n > 0 {
        assert(count_privates(items, n - 1) <= count_privates(items, n));
        lemma_scan_two_factories(items, name, n - 1);
        if count_factories(items, n - 1) <= 1 {
            match items[n - 1] {
                ClassItemModel::Factory(f) => {
                    assert(items[n - 1] matches ClassItemModel::Factory(f) ==> acceptable_factory(f));
                    lemma_acceptable_factory(f, name);
                },
                ClassItemModel::Private(_) => {},
            }
        }
    }
}

/// A class with two or more factory constructors, each with named parameters
/// none of which carries two default-value annotations, and at most one
/// private constructor, fails with the error for multiple factory
/// constructors, naming the class.
pub proof fn lemma_two_factories_error(c: ClassModel)
    requires
        count_factories(c.items, c.items.len() as int) >= 2,
        count_privates(c.items, c.items.len() as int) <= 1,
        forall|j: int| 0 <= j < c.items.len() ==> (#[trigger] c.items[j] matches ClassItemModel::Factory(f) ==> acceptable_factory(f)),
    ensures
        validate_spec(c) == Err::<ValidClassModel, ErrorModel>(ErrorModel::MultipleFactoryConstructors(c.name)),
{
    lemma_scan_two_factories(c.items, c.name, c.items.len() as int);
}

/// A class one of whose factory constructors has a parameter with two or more
/// default-value annotations fails validation, and the error names the class.
pub proof fn lemma_duplicate_default_fails(c: ClassModel, k: int, j: int)
    requires
        0 <= k < c.items.len(),
        c.items[k] matches ClassItemModel::Factory(f) && 0 <= j < f.params.len()
            && count_defaults(f.params[j].annotations, f.params[j].annotations.len() as int) >= 2,
    ensures
        validate_spec(c) matches Err(e) && error_class(e) == Some(c.name),
{
    let items = c.items;
    let f = items[k]->Factory_0;
    lemma_first_multiple_default_some(f.params, 0, j);
    lemma_scan_counts(items, c.name, k);
    assert(scan_items(items, c.name, k + 1) is Err);
    lemma_scan_err_stable(items, c.name, k + 1, items.len() as int);
    lemma_scan_counts(items, c.name, items.len() as int);
}

} // verus!
