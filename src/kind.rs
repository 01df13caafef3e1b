use vstd::prelude::*;

verus! {

// Node kind tags. The numbering is a wire contract shared with the decoder:
// an existing value never changes and is never reused, and new kinds are
// appended after the last one.

/// A node the parser recovered from an error, or a construct whose inner
/// structure is not encoded (a destructuring pattern): a leaf the decoder can
/// recognise and skip.
pub const INVALID: u8 = 0;
pub const PROGRAM: u8 = 1;
pub const IMPORT: u8 = 2;
pub const IMPORT_DECL: u8 = 3;
pub const EXPORT_DECL: u8 = 4;
pub const EXPORT_NAMED: u8 = 5;
pub const EXPORT_DEFAULT_DECL: u8 = 6;
pub const EXPORT_DEFAULT_EXPR: u8 = 7;
pub const EXPORT_ALL: u8 = 8;
pub const TS_IMPORT_EQUALS: u8 = 9;
pub const TS_EXPORT_ASSIGNMENT: u8 = 10;
pub const TS_NAMESPACE_EXPORT: u8 = 11;
pub const CLASS: u8 = 12;
pub const FN: u8 = 13;
pub const VAR: u8 = 14;
pub const USING: u8 = 15;
pub const TS_INTERFACE: u8 = 16;
pub const TS_TYPE_ALIAS: u8 = 17;
pub const TS_ENUM: u8 = 18;
pub const TS_MODULE: u8 = 19;
pub const BLOCK: u8 = 20;
pub const EMPTY: u8 = 21;
pub const DEBUGGER: u8 = 22;
pub const WITH: u8 = 23;
pub const RETURN: u8 = 24;
pub const LABELED: u8 = 25;
pub const BREAK: u8 = 26;
pub const CONTINUE: u8 = 27;
pub const IF: u8 = 28;
pub const SWITCH: u8 = 29;
pub const SWITCH_CASE: u8 = 30;
pub const THROW: u8 = 31;
pub const TRY: u8 = 32;
pub const WHILE: u8 = 33;
pub const DO_WHILE: u8 = 34;
pub const FOR: u8 = 35;
pub const FOR_IN: u8 = 36;
pub const FOR_OF: u8 = 37;
pub const DECL: u8 = 38;
pub const EXPR: u8 = 39;
pub const THIS: u8 = 40;
pub const ARRAY: u8 = 41;
pub const OBJECT: u8 = 42;
pub const FN_EXPR: u8 = 43;
pub const UNARY: u8 = 44;
pub const UPDATE: u8 = 45;
pub const BIN: u8 = 46;
pub const ASSIGN: u8 = 47;
pub const MEMBER: u8 = 48;
pub const SUPER_PROP: u8 = 49;
pub const COND: u8 = 50;
pub const CALL: u8 = 51;
pub const NEW: u8 = 52;
pub const SEQUENCE: u8 = 53;
pub const IDENT: u8 = 54;
pub const TPL: u8 = 55;
pub const TAGGED_TPL: u8 = 56;
pub const ARROW: u8 = 57;
pub const CLASS_EXPR: u8 = 58;
pub const YIELD: u8 = 59;
pub const META_PROP: u8 = 60;
pub const AWAIT: u8 = 61;
pub const TS_TYPE_ASSERTION: u8 = 62;
pub const TS_CONST_ASSERTION: u8 = 63;
pub const TS_NON_NULL: u8 = 64;
pub const TS_AS: u8 = 65;
pub const TS_INSTANTIATION: u8 = 66;
pub const TS_SATISFIES: u8 = 67;
pub const PRIVATE_NAME: u8 = 68;
pub const OPT_CHAIN: u8 = 69;
pub const STRING_LITERAL: u8 = 70;
pub const BOOL: u8 = 71;
pub const NULL: u8 = 72;
pub const NUM: u8 = 73;
pub const BIG_INT: u8 = 74;
pub const REGEX: u8 = 75;
pub const JSX_MEMBER: u8 = 76;
pub const JSX_NAMESPACED_NAME: u8 = 77;
pub const JSX_EMPTY: u8 = 78;
pub const JSX_ELEMENT: u8 = 79;
pub const JSX_FRAGMENT: u8 = 80;
pub const JSX_TEXT: u8 = 81;

/// Placeholder for a syntactically optional slot that is absent.
pub const EMPTY_EXPR: u8 = 82;
/// Marker written immediately before a spread element.
pub const SPREAD: u8 = 83;
pub const OBJ_PROPERTY: u8 = 84;
pub const VAR_DECLARATOR: u8 = 85;
/// A type annotation whose inner structure is not encoded: a leaf that
/// keeps the positions of its siblings.
pub const TS_TYPE: u8 = 86;
/// The `super` keyword, as the object of `super.x` or as a callee.
pub const SUPER: u8 = 87;

/// The only flag value defined so far.
pub const FLAGS_NONE: u8 = 0;

} // verus!
