//! Machine-readable description of the message schema: for each message
//! type, its variants with their names, tag indices, and field names and
//! types. Tooling on either side of the boundary can use these descriptors
//! to generate or validate bindings without sharing a compiler.

use vstd::prelude::*;

verus! {

/// The type of one field on the wire.
#[derive(Debug, Clone, Copy, PartialEq, Eq, Structural)]
pub enum FieldType {
    /// Little-endian 16-bit unsigned integer.
    UInt16,
    /// Little-endian 32-bit unsigned integer.
    UInt32,
    /// Little-endian IEEE-754 single-precision float.
    Float32,
    /// Compact-length-prefixed UTF-8 string.
    Text,
    /// A nested [`crate::messages::Team`] value.
    TeamField,
    /// A nested [`crate::messages::ControllerToSessionCommand`] value.
    CommandField,
    /// A nested [`crate::messages::GameToControllerEvent`] value.
    EventField,
}

/// One field of a variant or struct: its name (empty for the unnamed
/// payload of a newtype variant) and its type.
#[derive(Debug)]
pub struct FieldDescriptor {
    pub name: String,
    pub ty: FieldType,
}

/// One enum variant: its name, its wire tag (the zero-based declaration
/// index), and its fields in declaration order.
#[derive(Debug)]
pub struct VariantDescriptor {
    pub name: String,
    pub tag: u64,
    pub fields: Vec<FieldDescriptor>,
}

/// The variants of [`crate::messages::Team`].
pub fn team_schema() -> (r: Vec<VariantDescriptor>)
    ensures
        r@.len() == 2,
        r@[0].name@ == "Blue"@ && r@[0].tag == 0 && r@[0].fields@.len() == 0,
        r@[1].name@ == "Red"@ && r@[1].tag == 1 && r@[1].fields@.len() == 0,
{
    let mut r: Vec<VariantDescriptor> = Vec::new();
    r.push(VariantDescriptor { name: "Blue".to_owned(), tag: 0, fields: Vec::new() });
    r.push(VariantDescriptor { name: "Red".to_owned(), tag: 1, fields: Vec::new() });
    r
}

/// The variants of [`crate::messages::ControllerToSessionCommand`].
pub fn cmd_schema() -> (r: Vec<VariantDescriptor>)
    ensures
        r@.len() == 2,
        r@[0].name@ == "Action1"@ && r@[0].tag == 0 && r@[0].fields@.len() == 0,
        r@[1].name@ == "Move"@ && r@[1].tag == 1 && r@[1].fields@.len() == 2,
        r@[1].fields@[0].name@ == "x"@ && r@[1].fields@[0].ty == FieldType::Float32,
        r@[1].fields@[1].name@ == "y"@ && r@[1].fields@[1].ty == FieldType::Float32,
{
    let mut r: Vec<VariantDescriptor> = Vec::new();
    r.push(VariantDescriptor { name: "Action1".to_owned(), tag: 0, fields: Vec::new() });
    let mut mf: Vec<FieldDescriptor> = Vec::new();
    mf.push(FieldDescriptor { name: "x".to_owned(), ty: FieldType::Float32 });
    mf.push(FieldDescriptor { name: "y".to_owned(), ty: FieldType::Float32 });
    r.push(VariantDescriptor { name: "Move".to_owned(), tag: 1, fields: mf });
    r
}

/// The variants of [`crate::messages::GameToControllerEvent`].
pub fn g2c_schema() -> (r: Vec<VariantDescriptor>)
    ensures
        r@.len() == 3,
        r@[0].name@ == "Action2"@ && r@[0].tag == 0 && r@[0].fields@.len() == 0,
        r@[1].name@ == "Event1"@ && r@[1].tag == 1 && r@[1].fields@.len() == 0,
        r@[2].name@ == "IncreaseScore"@ && r@[2].tag == 2 && r@[2].fields@.len() == 1,
        r@[2].fields@[0].name@ == ""@ && r@[2].fields@[0].ty == FieldType::TeamField,
{
    let mut r: Vec<VariantDescriptor> = Vec::new();
    r.push(VariantDescriptor { name: "Action2".to_owned(), tag: 0, fields: Vec::new() });
    r.push(VariantDescriptor { name: "Event1".to_owned(), tag: 1, fields: Vec::new() });
    let mut sf: Vec<FieldDescriptor> = Vec::new();
    sf.push(FieldDescriptor { name: "".to_owned(), ty: FieldType::TeamField });
    r.push(VariantDescriptor { name: "IncreaseScore".to_owned(), tag: 2, fields: sf });
    r
}

/// The variants of [`crate::messages::SessionToControllerEvent`] over
/// [`crate::messages::GameToControllerEvent`].
pub fn s2c_schema() -> (r: Vec<VariantDescriptor>)
    ensures
        r@.len() == 2,
        r@[0].name@ == "SetPushInterval"@ && r@[0].tag == 0 && r@[0].fields@.len() == 1,
        r@[0].fields@[0].name@ == ""@ && r@[0].fields@[0].ty == FieldType::UInt32,
        r@[1].name@ == "GameToControllerEvent"@ && r@[1].tag == 1 && r@[1].fields@.len() == 1,
        r@[1].fields@[0].name@ == ""@ && r@[1].fields@[0].ty == FieldType::EventField,
{
    let mut r: Vec<VariantDescriptor> = Vec::new();
    let mut pf: Vec<FieldDescriptor> = Vec::new();
    pf.push(FieldDescriptor { name: "".to_owned(), ty: FieldType::UInt32 });
    r.push(VariantDescriptor { name: "SetPushInterval".to_owned(), tag: 0, fields: pf });
    let mut ef: Vec<FieldDescriptor> = Vec::new();
    ef.push(FieldDescriptor { name: "".to_owned(), ty: FieldType::EventField });
    r.push(VariantDescriptor { name: "GameToControllerEvent".to_owned(), tag: 1, fields: ef });
    r
}

/// The variants of [`crate::messages::SessionToGameEvent`] over
/// [`crate::messages::ControllerToSessionCommand`].
pub fn s2g_schema() -> (r: Vec<VariantDescriptor>)
    ensures
        r@.len() == 4,
        r@[0].name@ == "SetId"@ && r@[0].tag == 0 && r@[0].fields@.len() == 1,
        r@[0].fields@[0].name@ == ""@ && r@[0].fields@[0].ty == FieldType::Text,
        r@[1].name@ == "NewPlayer"@ && r@[1].tag == 1 && r@[1].fields@.len() == 1,
        r@[1].fields@[0].name@ == ""@ && r@[1].fields@[0].ty == FieldType::UInt16,
        r@[2].name@ == "PlayerLeft"@ && r@[2].tag == 2 && r@[2].fields@.len() == 1,
        r@[2].fields@[0].name@ == ""@ && r@[2].fields@[0].ty == FieldType::UInt16,
        r@[3].name@ == "ControllerCommand"@ && r@[3].tag == 3 && r@[3].fields@.len() == 2,
        r@[3].fields@[0].name@ == "id"@ && r@[3].fields@[0].ty == FieldType::UInt16,
        r@[3].fields@[1].name@ == "command"@ && r@[3].fields@[1].ty == FieldType::CommandField,
{
    let mut r: Vec<VariantDescriptor> = Vec::new();
    let mut idf: Vec<FieldDescriptor> = Vec::new();
    idf.push(FieldDescriptor { name: "".to_owned(), ty: FieldType::Text });
    r.push(VariantDescriptor { name: "SetId".to_owned(), tag: 0, fields: idf });
    let mut npf: Vec<FieldDescriptor> = Vec::new();
    npf.push(FieldDescriptor { name: "".to_owned(), ty: FieldType::UInt16 });
    r.push(VariantDescriptor { name: "NewPlayer".to_owned(), tag: 1, fields: npf });
    let mut plf: Vec<FieldDescriptor> = Vec::new();
    plf.push(FieldDescriptor { name: "".to_owned(), ty: FieldType::UInt16 });
    r.push(VariantDescriptor { name: "PlayerLeft".to_owned(), tag: 2, fields: plf });
    let mut ccf: Vec<FieldDescriptor> = Vec::new();
    ccf.push(FieldDescriptor { name: "id".to_owned(), ty: FieldType::UInt16 });
    ccf.push(FieldDescriptor { name: "command".to_owned(), ty: FieldType::CommandField });
    r.push(VariantDescriptor { name: "ControllerCommand".to_owned(), tag: 3, fields: ccf });
    r
}

/// The fields of [`crate::messages::GameToSessionMessage`] over
/// [`crate::messages::GameToControllerEvent`]: a struct, encoded as its
/// fields in declaration order with no tag.
pub fn g2s_schema() -> (r: Vec<FieldDescriptor>)
    ensures
        r@.len() == 2,
        r@[0].name@ == "id"@ && r@[0].ty == FieldType::UInt16,
        r@[1].name@ == "event"@ && r@[1].ty == FieldType::EventField,
{
    let mut r: Vec<FieldDescriptor> = Vec::new();
    r.push(FieldDescriptor { name: "id".to_owned(), ty: FieldType::UInt16 });
    r.push(FieldDescriptor { name: "event".to_owned(), ty: FieldType::EventField });
    r
}

} // verus!
