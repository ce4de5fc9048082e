//! What the class derive decides about a struct.
//!
//! From the declaration of a struct, its `#[class(...)]` attribute and the
//! `#[base]` and `#[export(...)]` attributes of its fields, [`transform`]
//! works out what is to be generated for the class: its name, its base
//! class, whether it gets a generated constructor, and which of its fields
//! is the base and which are exported. Writing the generated code out is left
//! to the caller.

use vstd::prelude::*;
use crate::declaration::{
    single_path_segment,
    value_tokens,
    Attribute,
    Declaration,
    NamedField,
    Struct,
    StructFields,
};
use crate::util::{
    is_single_path,
    kv_distinct,
    kv_get,
    kv_group,
    kv_keys,
    kv_remove,
    parse_kv_group,
    path_is_single,
    same_text,
    texts,
    KvEntryView,
    KvError,
    KvMap,
    KvValue,
    KvValueView,
};

verus! {

/// The part of a declaration that an error points at.
#[derive(Copy, Clone, Debug, PartialEq, Eq, Structural)]
pub enum Site {
    /// The declaration as a whole.
    Declaration,
    /// The fields of the struct.
    Fields,
    /// An attribute of the struct, by its place among them.
    StructAttribute { attribute: usize },
    /// An attribute of a field, by the place of the field and its own place
    /// among the attributes of the field.
    FieldAttribute { field: usize, attribute: usize },
}

/// What is wrong with a declaration.
#[derive(Clone, Debug, PartialEq, Eq)]
pub enum ErrorKind {
    /// The declaration is not a struct.
    NotAStruct,
    /// The struct has more than one `#[class]` attribute.
    SeveralClassAttributes,
    /// The key `base` does not have an identifier for its value.
    InvalidBase,
    /// The key `init` has a value.
    InitHasValue,
    /// The attribute holds keys that it does not know; they are listed.
    UnknownKeys(Vec<String>),
    /// The struct is a tuple struct.
    TupleStruct,
    /// There is more than one `#[base]`; the name is that of the field that
    /// has the first.
    SeveralBaseFields(String),
    /// An `#[export]` attribute lacks the key that is named.
    MissingKey(String),
    /// The key that is named does not have a literal for its value.
    NonLiteralValue(String),
    /// The tokens of the attribute are no list of keys and values.
    KeyValue(KvError),
}

/// An error of the class derive: what is wrong, and where.
#[derive(Clone, Debug, PartialEq, Eq)]
pub struct ParseError {
    /// What is wrong.
    pub kind: ErrorKind,
    /// The part of the declaration that is at fault.
    pub site: Site,
}

/// The model of an [`ErrorKind`].
pub enum ErrorKindView {
    NotAStruct,
    SeveralClassAttributes,
    InvalidBase,
    InitHasValue,
    UnknownKeys(Seq<Seq<char>>),
    TupleStruct,
    SeveralBaseFields(Seq<char>),
    MissingKey(Seq<char>),
    NonLiteralValue(Seq<char>),
    KeyValue(KvError),
}

/// The model of a [`ParseError`].
pub struct ParseErrorView {
    pub kind: ErrorKindView,
    pub site: Site,
}

impl View for ErrorKind {
    type V = ErrorKindView;

    open spec fn view(&self) -> ErrorKindView {
        match *self {
            ErrorKind::NotAStruct => ErrorKindView::NotAStruct,
            ErrorKind::SeveralClassAttributes => ErrorKindView::SeveralClassAttributes,
            ErrorKind::InvalidBase => ErrorKindView::InvalidBase,
            ErrorKind::InitHasValue => ErrorKindView::InitHasValue,
            ErrorKind::UnknownKeys(keys) => ErrorKindView::UnknownKeys(texts(keys@)),
            ErrorKind::TupleStruct => ErrorKindView::TupleStruct,
            ErrorKind::SeveralBaseFields(name) => ErrorKindView::SeveralBaseFields(name@),
            ErrorKind::MissingKey(key) => ErrorKindView::MissingKey(key@),
            ErrorKind::NonLiteralValue(key) => ErrorKindView::NonLiteralValue(key@),
            ErrorKind::KeyValue(error) => ErrorKindView::KeyValue(error),
        }
    }
}

impl View for ParseError {
    type V = ParseErrorView;

    open spec fn view(&self) -> ParseErrorView {
        ParseErrorView { kind: self.kind@, site: self.site }
    }
}

/// What the `#[class(...)]` attribute of a struct says.
#[derive(Clone, Debug, PartialEq, Eq)]
pub struct ClassAttributes {
    /// The name of the base class.
    pub base_ty: String,
    /// Whether the class gets a generated constructor.
    pub has_generated_init: bool,
}

/// The model of [`ClassAttributes`].
pub struct ClassAttributesView {
    pub base_ty: Seq<char>,
    pub has_generated_init: bool,
}

impl View for ClassAttributes {
    type V = ClassAttributesView;

    open spec fn view(&self) -> ClassAttributesView {
        ClassAttributesView {
            base_ty: self.base_ty@,
            has_generated_init: self.has_generated_init,
        }
    }
}

/// A field of the struct: its name and its type.
#[derive(Clone, Debug, PartialEq, Eq)]
pub struct Field {
    /// The name of the field.
    pub name: String,
    /// The type of the field, by its source text.
    pub ty: String,
}

/// The model of a [`Field`].
pub struct FieldView {
    pub name: Seq<char>,
    pub ty: Seq<char>,
}

impl View for Field {
    type V = FieldView;

    open spec fn view(&self) -> FieldView {
        FieldView { name: self.name@, ty: self.ty@ }
    }
}

/// The field that a declared field stands for.
pub open spec fn field_of(field: NamedField) -> FieldView {
    FieldView { name: field.name@, ty: field.ty@ }
}

impl Field {
    /// The field that `field` declares.
    pub fn new(field: &NamedField) -> (made: Self)
        ensures
            made@ == field_of(*field),
    {
        Field { name: field.name.clone(), ty: field.ty.clone() }
    }
}

/// A field that is exported as a property, with what its `#[export(...)]`
/// attribute says. The three texts are literals as they stand in the source,
/// a string literal with its quotes.
#[derive(Clone, Debug, PartialEq, Eq)]
pub struct ExportedField {
    /// The field.
    pub field: Field,
    /// The name of the getter.
    pub getter: String,
    /// The name of the setter.
    pub setter: String,
    /// The variant type of the property.
    pub variant_type: String,
}

/// The model of an [`ExportedField`].
pub struct ExportedFieldView {
    pub field: FieldView,
    pub getter: Seq<char>,
    pub setter: Seq<char>,
    pub variant_type: Seq<char>,
}

impl View for ExportedField {
    type V = ExportedFieldView;

    open spec fn view(&self) -> ExportedFieldView {
        ExportedFieldView {
            field: self.field@,
            getter: self.getter@,
            setter: self.setter@,
            variant_type: self.variant_type@,
        }
    }
}

/// The error of `kind` at `site`.
pub open spec fn fault(kind: ErrorKindView, site: Site) -> ParseErrorView {
    ParseErrorView { kind, site }
}

/// The literal beside `key` in `entries`: an error where the key is missing
/// or has another kind of value beside it.
pub open spec fn required_literal(entries: Seq<KvEntryView>, key: Seq<char>, site: Site) -> Result<
    Seq<char>,
    ParseErrorView,
> {
    match kv_get(entries, key) {
        Some(KvValueView::Lit(text)) => Ok(text),
        Some(_) => Err(fault(ErrorKindView::NonLiteralValue(key), site)),
        None => Err(fault(ErrorKindView::MissingKey(key), site)),
    }
}

/// Nothing where `entries` is empty, and the error that lists its keys where
/// it is not.
pub open spec fn kv_empty(entries: Seq<KvEntryView>, site: Site) -> Result<(), ParseErrorView> {
    if entries.len() == 0 {
        Ok(())
    } else {
        Err(fault(ErrorKindView::UnknownKeys(kv_keys(entries)), site))
    }
}

/// The exported field that `entries` describe for `field`: the literals
/// beside `getter`, `setter` and `variant_type`, which are asked for in this
/// order, and no other key.
pub open spec fn exported_field(field: FieldView, entries: Seq<KvEntryView>, site: Site) -> Result<
    ExportedFieldView,
    ParseErrorView,
> {
    let without_getter = kv_remove(entries, "getter"@);
    let without_setter = kv_remove(without_getter, "setter"@);
    let rest = kv_remove(without_setter, "variant_type"@);
    match required_literal(entries, "getter"@, site) {
        Err(error) => Err(error),
        Ok(getter) => match required_literal(without_getter, "setter"@, site) {
            Err(error) => Err(error),
            Ok(setter) => match required_literal(without_setter, "variant_type"@, site) {
                Err(error) => Err(error),
                Ok(variant_type) => match kv_empty(rest, site) {
                    Err(error) => Err(error),
                    Ok(()) => Ok(ExportedFieldView { field, getter, setter, variant_type }),
                },
            },
        },
    }
}

/// Makes sure that no key is left in `map`: the answer is `Ok` for an empty
/// map and otherwise the error that lists the keys, at `site`.
pub fn ensure_kv_empty(map: KvMap, site: Site) -> (result: Result<(), ParseError>)
    ensures
        match result {
            Ok(()) => kv_empty(map@, site) is Ok,
            Err(error) => kv_empty(map@, site) == Err::<(), ParseErrorView>(error@),
        },
{
    if map.is_empty() {
        Ok(())
    } else {
        Err(ParseError { kind: ErrorKind::UnknownKeys(map.keys()), site })
    }
}

impl ExportedField {
    /// The exported field that the keys and values of an `#[export(...)]`
    /// attribute describe for `field`. The keys `getter`, `setter` and
    /// `variant_type` must each have a literal beside them, and there must
    /// be no other key. The first of these that fails, in this order, is the
    /// error, at `site`.
    pub fn new_from_kv(field: Field, site: Site, map: KvMap) -> (result: Result<
        ExportedField,
        ParseError,
    >)
        ensures
            match result {
                Ok(exported) => exported_field(field@, map@, site) == Ok::<
                    ExportedFieldView,
                    ParseErrorView,
                >(exported@),
                Err(error) => exported_field(field@, map@, site) == Err::<
                    ExportedFieldView,
                    ParseErrorView,
                >(error@),
            },
    {
        let mut map = map;
        let getter = match Self::require_key_value(&mut map, "getter", site) {
            Ok(getter) => getter,
            Err(error) => {
                return Err(error);
            },
        };
        let setter = match Self::require_key_value(&mut map, "setter", site) {
            Ok(setter) => setter,
            Err(error) => {
                return Err(error);
            },
        };
        let variant_type = match Self::require_key_value(&mut map, "variant_type", site) {
            Ok(variant_type) => variant_type,
            Err(error) => {
                return Err(error);
            },
        };
        match ensure_kv_empty(map, site) {
            Ok(()) => Ok(ExportedField { field, getter, setter, variant_type }),
            Err(error) => Err(error),
        }
    }

    /// Takes `key` out of `map` and hands back the literal that stood beside
    /// it. Where the key is missing, or something else than a literal stood
    /// beside it, the answer is the error, at `site`.
    pub fn require_key_value(map: &mut KvMap, key: &str, site: Site) -> (result: Result<
        String,
        ParseError,
    >)
        ensures
            final(map)@ == kv_remove(old(map)@, key@),
            kv_distinct(final(map)@),
            match result {
                Ok(text) => required_literal(old(map)@, key@, site) == Ok::<
                    Seq<char>,
                    ParseErrorView,
                >(text@),
                Err(error) => required_literal(old(map)@, key@, site) == Err::<
                    Seq<char>,
                    ParseErrorView,
                >(error@),
            },
    {
        match map.remove(key) {
            Some(KvValue::Lit(text)) => Ok(text),
            Some(_) => Err(ParseError { kind: ErrorKind::NonLiteralValue(key.to_owned()), site }),
            None => Err(ParseError { kind: ErrorKind::MissingKey(key.to_owned()), site }),
        }
    }
}

/// Whether `attribute` is a `#[class]` attribute.
pub open spec fn is_class_attribute(attribute: Attribute) -> bool {
    is_single_path(attribute.path@, "class"@)
}

/// The place of the first `#[class]` attribute at or behind `from`, and the
/// number of attributes where there is none.
pub open spec fn next_class_attribute(attributes: Seq<Attribute>, from: int) -> int
    decreases attributes.len() - from,
{
    if from >= attributes.len() {
        attributes.len() as int
    } else if is_class_attribute(attributes[from]) {
        from
    } else {
        next_class_attribute(attributes, from + 1)
    }
}

/// The `#[class]` attribute among `attributes`: its place and its keys and
/// values, or nothing where there is none. The keys and values of the first
/// one must be well formed, and then there must be no second one.
pub open spec fn class_attribute(attributes: Seq<Attribute>) -> Result<
    Option<(usize, Seq<KvEntryView>)>,
    ParseErrorView,
> {
    let first = next_class_attribute(attributes, 0);
    let second = next_class_attribute(attributes, first + 1);
    if first >= attributes.len() {
        Ok(None)
    } else {
        match kv_group(value_tokens(attributes[first].value)) {
            Err(error) => Err(
                fault(
                    ErrorKindView::KeyValue(error),
                    Site::StructAttribute { attribute: first as usize },
                ),
            ),
            Ok(entries) => if second < attributes.len() {
                Err(
                    fault(
                        ErrorKindView::SeveralClassAttributes,
                        Site::StructAttribute { attribute: second as usize },
                    ),
                )
            } else {
                Ok(Some((first as usize, entries)))
            },
        }
    }
}

/// Where no attribute from `from` up to `to` is a `#[class]` attribute and
/// the one at `to` is, or `to` is the end, the search from `from` ends at
/// `to`.
pub proof fn lemma_next_class_attribute(attributes: Seq<Attribute>, from: int, to: int)
    requires
        0 <= from <= to <= attributes.len(),
        forall|j: int| from <= j < to ==> !is_class_attribute(attributes[j]),
        to == attributes.len() || is_class_attribute(attributes[to]),
    ensures
        next_class_attribute(attributes, from) == to,
    decreases to - from,
{
    if from < to {
        assert(!is_class_attribute(attributes[from]));
        lemma_next_class_attribute(attributes, from + 1, to);
    }
}

/// Finds the `#[class(...)]` attribute among `attributes` and reads its keys
/// and values. The answer holds the place of the attribute and its map, or
/// nothing where there is no such attribute. A fault in the keys and values
/// of the first such attribute is an error, and so is a second such
/// attribute.
pub fn parse_class_attr(attributes: &Vec<Attribute>) -> (result: Result<
    Option<(usize, KvMap)>,
    ParseError,
>)
    ensures
        match result {
            Ok(Some((at, map))) => class_attribute(attributes@) == Ok::<
                Option<(usize, Seq<KvEntryView>)>,
                ParseErrorView,
            >(Some((at, map@))),
            Ok(None) => class_attribute(attributes@) == Ok::<
                Option<(usize, Seq<KvEntryView>)>,
                ParseErrorView,
            >(None),
            Err(error) => class_attribute(attributes@) == Err::<
                Option<(usize, Seq<KvEntryView>)>,
                ParseErrorView,
            >(error@),
        },
{
    let mut godot_attr: Option<(usize, KvMap)> = None;
    let mut i: usize = 0;
    while i < attributes.len()
        invariant
            i <= attributes.len(),
            match godot_attr {
                None => forall|j: int| 0 <= j < i ==> !is_class_attribute(attributes@[j]),
                Some((first, map)) => {
                    &&& first < i
                    &&& next_class_attribute(attributes@, 0) == first
                    &&& kv_group(value_tokens(attributes@[first as int].value)) == Ok::<
                        Seq<KvEntryView>,
                        KvError,
                    >(map@)
                    &&& forall|j: int| first < j < i ==> !is_class_attribute(attributes@[j])
                },
            },
        decreases attributes.len() - i,
    {
        let attr = &attributes[i];
        if path_is_single(&attr.path, "class") {
            match &godot_attr {
                Some((first, _)) => {
                    proof {
                        lemma_next_class_attribute(attributes@, first + 1, i as int);
                    }
                    return Err(
                        ParseError {
                            kind: ErrorKind::SeveralClassAttributes,
                            site: Site::StructAttribute { attribute: i },
                        },
                    );
                },
                None => {
                    proof {
                        lemma_next_class_attribute(attributes@, 0, i as int);
                    }
                },
            }
            match parse_kv_group(&attr.value) {
                Ok(map) => {
                    godot_attr = Some((i, map));
                },
                Err(error) => {
                    return Err(
                        ParseError {
                            kind: ErrorKind::KeyValue(error),
                            site: Site::StructAttribute { attribute: i },
                        },
                    );
                },
            }
        }
        i = i + 1;
    }
    proof {
        match godot_attr {
            None => {
                lemma_next_class_attribute(attributes@, 0, attributes@.len() as int);
            },
            Some((first, _)) => {
                lemma_next_class_attribute(attributes@, first + 1, attributes@.len() as int);
            },
        }
    }
    Ok(godot_attr)
}

/// What the attributes of `class` say about the class.
///
/// Without a `#[class]` attribute the base class is `RefCounted` and there
/// is no generated constructor. The key `base` names another base class, by
/// an identifier; the key `init`, which stands alone, asks for a generated
/// constructor. The keys are looked at in this order, and no other key may
/// be left.
pub open spec fn struct_attributes(class: Struct) -> Result<ClassAttributesView, ParseErrorView> {
    match class_attribute(class.attributes@) {
        Err(error) => Err(error),
        Ok(None) => Ok(
            ClassAttributesView { base_ty: "RefCounted"@, has_generated_init: false },
        ),
        Ok(Some((at, entries))) => {
            let site = Site::StructAttribute { attribute: at };
            let base = kv_get(entries, "base"@);
            let without_base = kv_remove(entries, "base"@);
            let init = kv_get(without_base, "init"@);
            let rest = kv_remove(without_base, "init"@);
            if base is Some && !(base->Some_0 is Ident) {
                Err(fault(ErrorKindView::InvalidBase, site))
            } else if init is Some && !(init->Some_0 is Absent) {
                Err(fault(ErrorKindView::InitHasValue, site))
            } else {
                match kv_empty(rest, site) {
                    Err(error) => Err(error),
                    Ok(()) => Ok(
                        ClassAttributesView {
                            base_ty: match base {
                                Some(KvValueView::Ident(name)) => name,
                                _ => "RefCounted"@,
                            },
                            has_generated_init: init is Some,
                        },
                    ),
                }
            }
        },
    }
}

/// Reads the name of the base class and whether there is a generated
/// constructor from the attributes of `class`.
pub fn parse_struct_attributes(class: &Struct) -> (result: Result<ClassAttributes, ParseError>)
    ensures
        match result {
            Ok(attributes) => struct_attributes(*class) == Ok::<
                ClassAttributesView,
                ParseErrorView,
            >(attributes@),
            Err(error) => struct_attributes(*class) == Err::<
                ClassAttributesView,
                ParseErrorView,
            >(error@),
        },
{
    let mut base: String = "RefCounted".to_owned();
    let mut has_generated_init = false;
    match parse_class_attr(&class.attributes) {
        Err(error) => {
            return Err(error);
        },
        Ok(None) => {},
        Ok(Some((at, map))) => {
            let site = Site::StructAttribute { attribute: at };
            let mut map = map;
            match map.remove("base") {
                Some(KvValue::Ident(override_base)) => {
                    base = override_base;
                },
                Some(_) => {
                    return Err(ParseError { kind: ErrorKind::InvalidBase, site });
                },
                None => {},
            }
            match map.remove("init") {
                Some(KvValue::Absent) => {
                    has_generated_init = true;
                },
                Some(_) => {
                    return Err(ParseError { kind: ErrorKind::InitHasValue, site });
                },
                None => {},
            }
            match ensure_kv_empty(map, site) {
                Ok(()) => {},
                Err(error) => {
                    return Err(error);
                },
            }
        },
    }
    Ok(ClassAttributes { base_ty: base, has_generated_init })
}

/// What the fields of a struct and their attributes say.
#[derive(Clone, Debug, PartialEq, Eq)]
pub struct Fields {
    /// The names of the fields that are not the base, in their order.
    pub all_field_names: Vec<String>,
    /// The field that is marked `#[base]`, if there is one.
    pub base_field: Option<Field>,
    /// The fields that are exported, one for each `#[export(...)]`, in
    /// their order.
    pub exported_fields: Vec<ExportedField>,
}

/// The model of [`Fields`].
pub struct FieldsView {
    pub all_field_names: Seq<Seq<char>>,
    pub base_field: Option<FieldView>,
    pub exported_fields: Seq<ExportedFieldView>,
}

/// The models of a sequence of exported fields.
pub open spec fn exported_views(fields: Seq<ExportedField>) -> Seq<ExportedFieldView> {
    fields.map_values(|field: ExportedField| field@)
}

/// The model of a field that may be missing.
pub open spec fn field_view(field: Option<Field>) -> Option<FieldView> {
    match field {
        Some(field) => Some(field@),
        None => None,
    }
}

impl View for Fields {
    type V = FieldsView;

    open spec fn view(&self) -> FieldsView {
        FieldsView {
            all_field_names: texts(self.all_field_names@),
            base_field: field_view(self.base_field),
            exported_fields: exported_views(self.exported_fields@),
        }
    }
}

/// Whether `attribute` is `#[base]`.
pub open spec fn is_base_attribute(attribute: Attribute) -> bool {
    single_path_segment(attribute.path@) == Some("base"@)
}

/// Whether `attribute` is an `#[export]` attribute.
pub open spec fn is_export_attribute(attribute: Attribute) -> bool {
    single_path_segment(attribute.path@) == Some("export"@)
}

/// Whether one of the first `n` attributes of `field` is `#[base]`.
pub open spec fn has_base_attribute(field: NamedField, n: int) -> bool {
    exists|j: int| 0 <= j < n && j < field.attributes@.len() && is_base_attribute(
        #[trigger] field.attributes@[j],
    )
}

/// What is known of the fields once `attribute` of `field` has been looked
/// at, where `found` was known before.
///
/// A `#[base]` makes the field the base, and is an error where there is a
/// base already. An `#[export(...)]` adds the exported field that its keys
/// and values describe. Any other attribute changes nothing.
pub open spec fn after_attribute(
    found: FieldsView,
    field: NamedField,
    attribute: Attribute,
    site: Site,
) -> Result<FieldsView, ParseErrorView> {
    if is_base_attribute(attribute) {
        match found.base_field {
            Some(previous) => Err(fault(ErrorKindView::SeveralBaseFields(previous.name), site)),
            None => Ok(FieldsView { base_field: Some(field_of(field)), ..found }),
        }
    } else if is_export_attribute(attribute) {
        match kv_group(value_tokens(attribute.value)) {
            Err(error) => Err(fault(ErrorKindView::KeyValue(error), site)),
            Ok(entries) => match exported_field(field_of(field), entries, site) {
                Err(error) => Err(error),
                Ok(exported) => Ok(
                    FieldsView {
                        exported_fields: found.exported_fields.push(exported),
                        ..found
                    },
                ),
            },
        }
    } else {
        Ok(found)
    }
}

/// What is known of the fields once the first `n` attributes of `field`,
/// which is the field at `index`, have been looked at one after another, or
/// the first error among them.
pub open spec fn after_attributes(found: FieldsView, field: NamedField, index: usize, n: int)
    -> Result<FieldsView, ParseErrorView>
    decreases n,
{
    if n <= 0 {
        Ok(found)
    } else {
        match after_attributes(found, field, index, n - 1) {
            Err(error) => Err(error),
            Ok(found) => after_attribute(
                found,
                field,
                field.attributes@[n - 1],
                Site::FieldAttribute { field: index, attribute: (n - 1) as usize },
            ),
        }
    }
}

/// What is known of the fields once `field`, which is the field at `index`,
/// has been looked at: what its attributes say, and its name among the
/// names unless it is marked `#[base]`.
pub open spec fn after_field(found: FieldsView, field: NamedField, index: usize) -> Result<
    FieldsView,
    ParseErrorView,
> {
    match after_attributes(found, field, index, field.attributes@.len() as int) {
        Err(error) => Err(error),
        Ok(found) => Ok(
            if has_base_attribute(field, field.attributes@.len() as int) {
                found
            } else {
                FieldsView { all_field_names: found.all_field_names.push(field.name@), ..found }
            },
        ),
    }
}

/// What the first `n` of `fields` say, looked at one after another, or the
/// first error among them.
pub open spec fn after_fields(fields: Seq<NamedField>, n: int) -> Result<
    FieldsView,
    ParseErrorView,
>
    decreases n,
{
    if n <= 0 {
        Ok(
            FieldsView {
                all_field_names: Seq::empty(),
                base_field: None,
                exported_fields: Seq::empty(),
            },
        )
    } else {
        match after_fields(fields, n - 1) {
            Err(error) => Err(error),
            Ok(found) => after_field(found, fields[n - 1], (n - 1) as usize),
        }
    }
}

/// What the fields of `class` say. A struct without fields says nothing, and
/// a tuple struct is an error.
pub open spec fn struct_fields(class: Struct) -> Result<FieldsView, ParseErrorView> {
    match class.fields {
        StructFields::Unit => after_fields(Seq::empty(), 0),
        StructFields::Tuple => Err(fault(ErrorKindView::TupleStruct, Site::Fields)),
        StructFields::Named(fields) => after_fields(fields@, fields@.len() as int),
    }
}

/// An error among the first fields is the error of all of them.
pub proof fn lemma_fields_fail(fields: Seq<NamedField>, n: int)
    requires
        0 <= n <= fields.len(),
        after_fields(fields, n) is Err,
    ensures
        after_fields(fields, fields.len() as int) == after_fields(fields, n),
    decreases fields.len() - n,
{
    if n < fields.len() {
        lemma_fields_fail(fields, n + 1);
    }
}

/// An error among the first attributes of a field is the error of all of
/// them.
pub proof fn lemma_attributes_fail(found: FieldsView, field: NamedField, index: usize, n: int)
    requires
        0 <= n <= field.attributes@.len(),
        after_attributes(found, field, index, n) is Err,
    ensures
        after_attributes(found, field, index, field.attributes@.len() as int) == after_attributes(
            found,
            field,
            index,
            n,
        ),
    decreases field.attributes@.len() - n,
{
    if n < field.attributes@.len() {
        lemma_attributes_fail(found, field, index, n + 1);
    }
}

/// Reads the fields of `class`: the names of all fields but the base, the
/// field that is marked `#[base]`, and the fields that are exported. The
/// fields and their attributes are looked at in their order, and the first
/// error among them is the answer.
pub fn parse_fields(class: &Struct) -> (result: Result<Fields, ParseError>)
    ensures
        match result {
            Ok(fields) => struct_fields(*class) == Ok::<FieldsView, ParseErrorView>(fields@),
            Err(error) => struct_fields(*class) == Err::<FieldsView, ParseErrorView>(error@),
        },
{
    let mut all_field_names: Vec<String> = Vec::new();
    let mut exported_fields: Vec<ExportedField> = Vec::new();
    let mut base_field: Option<Field> = None;
    let fields: &[NamedField] = match &class.fields {
        StructFields::Unit => &[],
        StructFields::Tuple => {
            return Err(ParseError { kind: ErrorKind::TupleStruct, site: Site::Fields });
        },
        StructFields::Named(fields) => fields.as_slice(),
    };
    assert(texts(all_field_names@) =~= Seq::<Seq<char>>::empty());
    assert(exported_views(exported_fields@) =~= Seq::<ExportedFieldView>::empty());
    let mut f: usize = 0;
    while f < fields.len()
        invariant
            f <= fields.len(),
            struct_fields(*class) == after_fields(fields@, fields@.len() as int),
            after_fields(fields@, f as int) == Ok::<FieldsView, ParseErrorView>(
                FieldsView {
                    all_field_names: texts(all_field_names@),
                    base_field: field_view(base_field),
                    exported_fields: exported_views(exported_fields@),
                },
            ),
        decreases fields.len() - f,
    {
        let field = &fields[f];
        let ghost before = FieldsView {
            all_field_names: texts(all_field_names@),
            base_field: field_view(base_field),
            exported_fields: exported_views(exported_fields@),
        };
        let mut is_base = false;
        let mut a: usize = 0;
        while a < field.attributes.len()
            invariant
                a <= field.attributes.len(),
                f < fields.len(),
                *field == fields@[f as int],
                struct_fields(*class) == after_fields(fields@, fields@.len() as int),
                after_fields(fields@, f as int) == Ok::<FieldsView, ParseErrorView>(before),
                is_base == has_base_attribute(*field, a as int),
                before.all_field_names == texts(all_field_names@),
                after_attributes(before, *field, f, a as int) == Ok::<FieldsView, ParseErrorView>(
                    FieldsView {
                        all_field_names: texts(all_field_names@),
                        base_field: field_view(base_field),
                        exported_fields: exported_views(exported_fields@),
                    },
                ),
            decreases field.attributes.len() - a,
        {
            let attr = &field.attributes[a];
            let site = Site::FieldAttribute { field: f, attribute: a };
            let ghost found = FieldsView {
                all_field_names: texts(all_field_names@),
                base_field: field_view(base_field),
                exported_fields: exported_views(exported_fields@),
            };
            let mut failed: Option<ParseError> = None;
            match attr.get_single_path_segment() {
                Some(path) => {
                    if same_text(path.as_str(), "base") {
                        is_base = true;
                        match &base_field {
                            Some(prev_base) => {
                                failed = Some(
                                    ParseError {
                                        kind: ErrorKind::SeveralBaseFields(
                                            prev_base.name.clone(),
                                        ),
                                        site,
                                    },
                                );
                            },
                            None => {
                                base_field = Some(Field::new(field));
                            },
                        }
                    } else if same_text(path.as_str(), "export") {
                        match parse_kv_group(&attr.value) {
                            Ok(export_kv) => {
                                match ExportedField::new_from_kv(
                                    Field::new(field),
                                    site,
                                    export_kv,
                                ) {
                                    Ok(exported_field) => {
                                        exported_fields.push(exported_field);
                                        assert(exported_views(exported_fields@)
                                            =~= found.exported_fields.push(exported_field@));
                                    },
                                    Err(error) => {
                                        failed = Some(error);
                                    },
                                }
                            },
                            Err(error) => {
                                failed = Some(ParseError { kind: ErrorKind::KeyValue(error), site });
                            },
                        }
                    }
                },
                None => {},
            }
            proof {
                assert(field.attributes@[a as int] == *attr);
                if is_base_attribute(*attr) {
                    assert(has_base_attribute(*field, a + 1));
                } else if has_base_attribute(*field, a + 1) {
                    let j = choose|j: int|
                        0 <= j < a + 1 && j < field.attributes@.len() && is_base_attribute(
                            #[trigger] field.attributes@[j],
                        );
                    assert(j < a);
                }
            }
            match failed {
                Some(error) => {
                    proof {
                        assert(after_attributes(before, *field, f, a + 1) == Err::<
                            FieldsView,
                            ParseErrorView,
                        >(error@));
                        lemma_attributes_fail(before, *field, f, a + 1);
                        assert(after_fields(fields@, f + 1) == Err::<FieldsView, ParseErrorView>(
                            error@,
                        ));
                        lemma_fields_fail(fields@, f + 1);
                    }
                    return Err(error);
                },
                None => {},
            }
            a = a + 1;
        }
        if !is_base {
            all_field_names.push(field.name.clone());
            assert(texts(all_field_names@) =~= before.all_field_names.push(field.name@));
        }
        f = f + 1;
    }
    Ok(Fields { all_field_names, base_field, exported_fields })
}

/// What is to be generated for a class.
#[derive(Clone, Debug, PartialEq, Eq)]
pub struct GodotClass {
    /// The name of the class, which is the name of the struct.
    pub class_name: String,
    /// The name of the base class.
    pub base_ty: String,
    /// The name of the macro that states what the class inherits:
    /// `inherits_transitive_` and the name of the base class.
    pub inherits_macro: String,
    /// Whether the class gets a generated constructor.
    pub has_generated_init: bool,
    /// The fields of the class.
    pub fields: Fields,
}

/// The model of a [`GodotClass`].
pub struct GodotClassView {
    pub class_name: Seq<char>,
    pub base_ty: Seq<char>,
    pub inherits_macro: Seq<char>,
    pub has_generated_init: bool,
    pub fields: FieldsView,
}

impl View for GodotClass {
    type V = GodotClassView;

    open spec fn view(&self) -> GodotClassView {
        GodotClassView {
            class_name: self.class_name@,
            base_ty: self.base_ty@,
            inherits_macro: self.inherits_macro@,
            has_generated_init: self.has_generated_init,
            fields: self.fields@,
        }
    }
}

/// What is to be generated for `declaration`.
///
/// The declaration must be a struct. Its attributes are read first and its
/// fields second, so an error in the attributes comes before one in the
/// fields.
pub open spec fn class_of(declaration: Declaration) -> Result<GodotClassView, ParseErrorView> {
    match declaration {
        Declaration::Other => Err(fault(ErrorKindView::NotAStruct, Site::Declaration)),
        Declaration::Struct(class) => match struct_attributes(class) {
            Err(error) => Err(error),
            Ok(attributes) => match struct_fields(class) {
                Err(error) => Err(error),
                Ok(fields) => Ok(
                    GodotClassView {
                        class_name: class.name@,
                        base_ty: attributes.base_ty,
                        inherits_macro: "inherits_transitive_"@ + attributes.base_ty,
                        has_generated_init: attributes.has_generated_init,
                        fields,
                    },
                ),
            },
        },
    }
}

/// Works out what is to be generated for the class that `declaration`
/// declares, or what is wrong with the declaration.
pub fn transform(declaration: &Declaration) -> (result: Result<GodotClass, ParseError>)
    ensures
        match result {
            Ok(class) => class_of(*declaration) == Ok::<GodotClassView, ParseErrorView>(class@),
            Err(error) => class_of(*declaration) == Err::<GodotClassView, ParseErrorView>(
                error@,
            ),
        },
{
    let class = match declaration.as_struct() {
        Some(class) => class,
        None => {
            return Err(ParseError { kind: ErrorKind::NotAStruct, site: Site::Declaration });
        },
    };
    let struct_cfg = match parse_struct_attributes(class) {
        Ok(struct_cfg) => struct_cfg,
        Err(error) => {
            return Err(error);
        },
    };
    let fields = match parse_fields(class) {
        Ok(fields) => fields,
        Err(error) => {
            return Err(error);
        },
    };
    let inherits_macro = "inherits_transitive_".to_owned().concat(struct_cfg.base_ty.as_str());
    Ok(
        GodotClass {
            class_name: class.name.clone(),
            base_ty: struct_cfg.base_ty,
            inherits_macro,
            has_generated_init: struct_cfg.has_generated_init,
            fields,
        },
    )
}

impl ExportedField {
    /// The variant type without the quotes of its literal: all of the text
    /// but its first and its last character.
    pub fn variant_type_source(&self) -> (source: String)
        requires
            self.variant_type@.len() >= 2,
        ensures
            source@ == self.variant_type@.subrange(1, self.variant_type@.len() - 1),
    {
        let text = self.variant_type.as_str();
        let len: usize = text.unicode_len();
        text.substring_char(1, len - 1).to_owned()
    }
}

} // verus!
