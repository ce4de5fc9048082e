//! A struct declaration as plain values.
//!
//! This is what the class derive reads of a declaration: the names, the
//! attributes with their tokens, and the kind of the fields. Whoever parses
//! the source text fills these types in, token by token.

use vstd::prelude::*;

verus! {

/// One token of an attribute.
#[derive(Clone, Debug, PartialEq, Eq)]
pub enum Token {
    /// An identifier, by its text.
    Ident(String),
    /// A punctuation character.
    Punct(char),
    /// A literal, by its source text: a string literal keeps its quotes.
    Literal(String),
    /// A delimited group of tokens, of which nothing is read.
    Group,
}

/// What follows the path of an attribute.
#[derive(Clone, Debug, PartialEq, Eq)]
pub enum AttributeValue {
    /// The tokens between parentheses, as in `#[hello(world)]`.
    Group(Vec<Token>),
    /// The tokens after an equals sign, as in `#[hello = world]`.
    Equals(Vec<Token>),
    /// Nothing, as in `#[hello]`.
    Empty,
}

/// An attribute.
#[derive(Clone, Debug, PartialEq, Eq)]
pub struct Attribute {
    /// The tokens of the path: one identifier for `hello`, several tokens
    /// for `a::b`.
    pub path: Vec<Token>,
    /// Everything that comes after the path.
    pub value: AttributeValue,
}

/// A named field of a struct.
#[derive(Clone, Debug, PartialEq, Eq)]
pub struct NamedField {
    /// The attributes of the field.
    pub attributes: Vec<Attribute>,
    /// The name of the field.
    pub name: String,
    /// The type of the field, by its source text.
    pub ty: String,
}

/// The fields of a struct.
#[derive(Clone, Debug, PartialEq, Eq)]
pub enum StructFields {
    /// No fields: `struct Unit;`.
    Unit,
    /// Fields without names: `struct Tuple(i32, f32);`.
    Tuple,
    /// Fields with names.
    Named(Vec<NamedField>),
}

/// The declaration of a struct.
#[derive(Clone, Debug, PartialEq, Eq)]
pub struct Struct {
    /// The attributes of the struct.
    pub attributes: Vec<Attribute>,
    /// The name of the struct.
    pub name: String,
    /// The fields of the struct.
    pub fields: StructFields,
}

/// A declaration.
#[derive(Clone, Debug, PartialEq, Eq)]
pub enum Declaration {
    /// A struct.
    Struct(Struct),
    /// Anything else: an enum, a function, a module.
    Other,
}

/// The texts of the identifiers among `path`, in their order.
pub open spec fn path_idents(path: Seq<Token>) -> Seq<Seq<char>>
    decreases path.len(),
{
    if path.len() == 0 {
        Seq::empty()
    } else {
        match path.last() {
            Token::Ident(name) => path_idents(path.drop_last()).push(name@),
            _ => path_idents(path.drop_last()),
        }
    }
}

/// The one identifier of `path`, where it has exactly one.
pub open spec fn single_path_segment(path: Seq<Token>) -> Option<Seq<char>> {
    if path_idents(path).len() == 1 {
        Some(path_idents(path)[0])
    } else {
        None
    }
}

/// The tokens of an attribute's value: those of the group or after the
/// equals sign, and none for an attribute without a value.
pub open spec fn value_tokens(value: AttributeValue) -> Seq<Token> {
    match value {
        AttributeValue::Group(tokens) => tokens@,
        AttributeValue::Equals(tokens) => tokens@,
        AttributeValue::Empty => Seq::empty(),
    }
}

impl AttributeValue {
    /// The tokens of the value: those of the group or after the equals
    /// sign, and none for an attribute without a value.
    pub fn get_value_tokens(&self) -> (tokens: &[Token])
        ensures
            tokens@ == value_tokens(*self),
    {
        match self {
            AttributeValue::Group(tokens) => tokens.as_slice(),
            AttributeValue::Equals(tokens) => tokens.as_slice(),
            AttributeValue::Empty => &[],
        }
    }
}

impl Attribute {
    /// The identifier of the path where the path holds exactly one, as in
    /// `#[hello(...)]`, and nothing where it holds none or several, as in
    /// `#[hello::world(...)]`.
    pub fn get_single_path_segment(&self) -> (segment: Option<&String>)
        ensures
            match segment {
                Some(name) => single_path_segment(self.path@) == Some(name@),
                None => single_path_segment(self.path@) is None,
            },
    {
        let mut found: Option<&String> = None;
        let mut count: usize = 0;
        let mut i: usize = 0;
        while i < self.path.len()
            invariant
                i <= self.path.len(),
                count == path_idents(self.path@.take(i as int)).len(),
                count <= i,
                count >= 1 ==> (found matches Some(name) && name@ == path_idents(
                    self.path@.take(i as int),
                )[0]),
            decreases self.path.len() - i,
        {
            proof {
                assert(self.path@.take(i + 1).drop_last() =~= self.path@.take(i as int));
            }
            match &self.path[i] {
                Token::Ident(name) => {
                    if count == 0 {
                        found = Some(name);
                    }
                    count = count + 1;
                },
                _ => {},
            }
            i = i + 1;
        }
        proof {
            assert(self.path@.take(i as int) =~= self.path@);
        }
        if count == 1 {
            found
        } else {
            None
        }
    }
}

impl Declaration {
    /// The struct that is declared, if it is one.
    pub fn as_struct(&self) -> (class: Option<&Struct>)
        ensures
            class == match *self {
                Declaration::Struct(class) => Some(&class),
                Declaration::Other => None,
            },
    {
        match self {
            Declaration::Struct(class) => Some(class),
            Declaration::Other => None,
        }
    }
}

} // verus!
