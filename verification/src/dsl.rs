use vstd::prelude::*;

verus! {

/// A primitive value of the registry-typed memory: one number lane, a
/// batch of lanes, one byte string, or a batch of byte strings.
#[derive(Debug)]
pub enum Element {
    Num(i32),
    ManyNum(Vec<i32>),
    Str(Vec<u8>),
    ManyStr(Vec<Vec<u8>>),
}

/// The shape a registered data type expects of its elements.
pub enum ElementType {
    Num,
    ManyNum(usize),
    Str,
    ManyStr(usize),
}

impl Element {
    /// Whether this element fits a declared shape.
    pub fn match_type(&self, element_type: &ElementType) -> (r: bool)
        ensures
            r == match (self, element_type) {
                (Element::Num(_), ElementType::Num) => true,
                (Element::ManyNum(v), ElementType::ManyNum(l)) => v@.len() == l,
                (Element::Str(_), ElementType::Str) => true,
                (Element::ManyStr(v), ElementType::ManyStr(l)) => v@.len() == l,
                _ => false,
            },
    {
        match (self, element_type) {
            (Element::Num(_), ElementType::Num) => true,
            (Element::ManyNum(v), ElementType::ManyNum(l)) => v.len() == *l,
            (Element::Str(_), ElementType::Str) => true,
            (Element::ManyStr(v), ElementType::ManyStr(l)) => v.len() == *l,
            _ => false,
        }
    }

    /// The footprint of this element on the stack.
    pub fn len(&self) -> (r: usize)
        ensures
            r == match self {
                Element::Num(_) => 1int,
                Element::ManyNum(v) => v@.len() as int,
                Element::Str(_) => 1int,
                Element::ManyStr(v) => v@.len() as int,
            },
    {
        match self {
            Element::Num(_) => 1,
            Element::ManyNum(v) => v.len(),
            Element::Str(_) => 1,
            Element::ManyStr(v) => v.len(),
        }
    }
}

impl ElementType {
    /// The footprint a declared shape occupies on the stack.
    pub fn len(&self) -> (r: usize)
        ensures
            r == match self {
                ElementType::Num => 1int,
                ElementType::Str => 1int,
                ElementType::ManyNum(v) => v as int,
                ElementType::ManyStr(v) => v as int,
            },
    {
        match self {
            ElementType::Num => 1,
            ElementType::Str => 1,
            ElementType::ManyNum(v) => *v,
            ElementType::ManyStr(v) => *v,
        }
    }
}

/// One entry of the registry-typed memory: a declared type name, the
/// element, and an optional description.
#[derive(Debug)]
pub struct MemoryEntry {
    pub data_type: String,
    pub data: Element,
    pub description: Option<String>,
}

impl MemoryEntry {
    /// An entry without a description.
    pub fn new(data_type: &str, data: Element) -> (r: MemoryEntry)
        ensures
            r.data_type@ == data_type@,
            r.data == data,
            r.description is None,
    {
        MemoryEntry { data_type: data_type.to_owned(), data, description: None }
    }

    /// An entry with a description.
    pub fn new_with_description(data_type: &str, data: Element, description: &str) -> (r:
        MemoryEntry)
        ensures
            r.data_type@ == data_type@,
            r.data == data,
            r.description matches Some(d) && d@ == description@,
    {
        MemoryEntry {
            data_type: data_type.to_owned(),
            data,
            description: Some(description.to_owned()),
        }
    }
}

} // verus!
