//! Type descriptor letters.

use vstd::prelude::*;

verus! {

pub const VOID: char = 'V';

pub const BOOLEAN: char = 'Z';

pub const BYTE: char = 'B';

pub const SHORT: char = 'S';

pub const CHAR: char = 'C';

pub const INT: char = 'I';

pub const LONG: char = 'J';

pub const FLOAT: char = 'F';

pub const DOUBLE: char = 'D';

pub const OBJECT: char = 'L';

pub const ARRAY: char = '[';

/// Whether `descriptor` is the letter of a primitive type or of `void`.
pub open spec fn is_primitive_letter(descriptor: char) -> bool {
    descriptor == 'V' || descriptor == 'Z' || descriptor == 'B' || descriptor == 'S' || descriptor
        == 'C' || descriptor == 'I' || descriptor == 'J' || descriptor == 'F' || descriptor == 'D'
}

/// Java name of the primitive type that a descriptor letter stands for, and
/// `unknown` for any other character.
pub open spec fn primitive_name(descriptor: char) -> Seq<char> {
    if descriptor == 'V' {
        "void"@
    } else if descriptor == 'Z' {
        "boolean"@
    } else if descriptor == 'B' {
        "byte"@
    } else if descriptor == 'S' {
        "short"@
    } else if descriptor == 'C' {
        "char"@
    } else if descriptor == 'I' {
        "int"@
    } else if descriptor == 'J' {
        "long"@
    } else if descriptor == 'F' {
        "float"@
    } else if descriptor == 'D' {
        "double"@
    } else {
        "unknown"@
    }
}

/// Convert type descriptor character to Java type name.
pub fn descriptor_to_java(descriptor: char) -> (name: &'static str)
    ensures
        name@ == primitive_name(descriptor),
{
    if descriptor == VOID {
        "void"
    } else if descriptor == BOOLEAN {
        "boolean"
    } else if descriptor == BYTE {
        "byte"
    } else if descriptor == SHORT {
        "short"
    } else if descriptor == CHAR {
        "char"
    } else if descriptor == INT {
        "int"
    } else if descriptor == LONG {
        "long"
    } else if descriptor == FLOAT {
        "float"
    } else if descriptor == DOUBLE {
        "double"
    } else {
        "unknown"
    }
}

} // verus!
