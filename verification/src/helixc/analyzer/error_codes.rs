//! The codes of the analyzer's diagnostics.
use vstd::prelude::*;

verus! {

/// A diagnostic's code. The first digit groups them: 1 schema items,
/// 2 types, 3 queries, 4 MCP, 5 conversions, 6 traversals.
#[derive(Debug, Clone, Copy, PartialEq, Eq, Structural)]
pub enum ErrorCode {
    /// unknown node type
    E101,
    /// unknown edge type
    E102,
    /// unknown vector type
    E103,
    /// cannot access properties on this type
    E104,
    /// invalid identifier
    E105,
    /// use of an undeclared node or vector type in the schema
    E106,
    /// item type not in schema
    E201,
    /// field not in schema
    E202,
    /// field is not a valid field of the item type
    E203,
    /// field is a reserved field name
    E204,
    /// type of value does not match the field's type in the schema
    E205,
    /// unknown item type
    E206,
    /// edge type exists but is not valid for the item type
    E207,
    /// SearchV must be used on a vector type
    E208,
    /// variable not in scope
    E301,
    /// variable previously declared
    E302,
    /// invalid primitive value
    E303,
    /// missing item type
    E304,
    /// missing parameter
    E305,
    /// MCP query must return a single value
    E401,
    /// invalid date
    E501,
    /// invalid traversal
    E601,
    /// invalid step
    E602,
    /// step cannot follow the previous one
    E603,
    /// update is only valid on nodes or edges
    E604,
    /// edge creation must have a to id
    E611,
    /// edge creation must have a from id
    E612,
    /// boolean comparison cannot be applied to the given type
    E621,
    /// property type does not match the compared value
    E622,
    /// range must have a start and end
    E631,
    /// range start must be less than range end
    E632,
    /// index of range must be an integer
    E633,
    /// closure is only valid as the last step
    E641,
    /// object remapping is only valid as the last step
    E642,
    /// field previously excluded
    E643,
    /// exclude is only valid as the last step or before a remapping
    E644,
    /// object remapping must have at least one field
    E645,
    /// in variable is not iterable
    E651,
    /// variable is not a field of the in variable's items
    E652,
    /// items of the in variable are not objects
    E653,
}

/// How a code is written, such as `E101`.
pub open spec fn code_text(c: ErrorCode) -> Seq<char> {
    match c {
        ErrorCode::E101 => "E101"@,
        ErrorCode::E102 => "E102"@,
        ErrorCode::E103 => "E103"@,
        ErrorCode::E104 => "E104"@,
        ErrorCode::E105 => "E105"@,
        ErrorCode::E106 => "E106"@,
        ErrorCode::E201 => "E201"@,
        ErrorCode::E202 => "E202"@,
        ErrorCode::E203 => "E203"@,
        ErrorCode::E204 => "E204"@,
        ErrorCode::E205 => "E205"@,
        ErrorCode::E206 => "E206"@,
        ErrorCode::E207 => "E207"@,
        ErrorCode::E208 => "E208"@,
        ErrorCode::E301 => "E301"@,
        ErrorCode::E302 => "E302"@,
        ErrorCode::E303 => "E303"@,
        ErrorCode::E304 => "E304"@,
        ErrorCode::E305 => "E305"@,
        ErrorCode::E401 => "E401"@,
        ErrorCode::E501 => "E501"@,
        ErrorCode::E601 => "E601"@,
        ErrorCode::E602 => "E602"@,
        ErrorCode::E603 => "E603"@,
        ErrorCode::E604 => "E604"@,
        ErrorCode::E611 => "E611"@,
        ErrorCode::E612 => "E612"@,
        ErrorCode::E621 => "E621"@,
        ErrorCode::E622 => "E622"@,
        ErrorCode::E631 => "E631"@,
        ErrorCode::E632 => "E632"@,
        ErrorCode::E633 => "E633"@,
        ErrorCode::E641 => "E641"@,
        ErrorCode::E642 => "E642"@,
        ErrorCode::E643 => "E643"@,
        ErrorCode::E644 => "E644"@,
        ErrorCode::E645 => "E645"@,
        ErrorCode::E651 => "E651"@,
        ErrorCode::E652 => "E652"@,
        ErrorCode::E653 => "E653"@,
    }
}

impl ErrorCode {
    /// The code as written, such as `E101`.
    pub fn code_str(&self) -> (r: &'static str)
        ensures
            r@ == code_text(*self),
    {
        match self {
            ErrorCode::E101 => "E101",
            ErrorCode::E102 => "E102",
            ErrorCode::E103 => "E103",
            ErrorCode::E104 => "E104",
            ErrorCode::E105 => "E105",
            ErrorCode::E106 => "E106",
            ErrorCode::E201 => "E201",
            ErrorCode::E202 => "E202",
            ErrorCode::E203 => "E203",
            ErrorCode::E204 => "E204",
            ErrorCode::E205 => "E205",
            ErrorCode::E206 => "E206",
            ErrorCode::E207 => "E207",
            ErrorCode::E208 => "E208",
            ErrorCode::E301 => "E301",
            ErrorCode::E302 => "E302",
            ErrorCode::E303 => "E303",
            ErrorCode::E304 => "E304",
            ErrorCode::E305 => "E305",
            ErrorCode::E401 => "E401",
            ErrorCode::E501 => "E501",
            ErrorCode::E601 => "E601",
            ErrorCode::E602 => "E602",
            ErrorCode::E603 => "E603",
            ErrorCode::E604 => "E604",
            ErrorCode::E611 => "E611",
            ErrorCode::E612 => "E612",
            ErrorCode::E621 => "E621",
            ErrorCode::E622 => "E622",
            ErrorCode::E631 => "E631",
            ErrorCode::E632 => "E632",
            ErrorCode::E633 => "E633",
            ErrorCode::E641 => "E641",
            ErrorCode::E642 => "E642",
            ErrorCode::E643 => "E643",
            ErrorCode::E644 => "E644",
            ErrorCode::E645 => "E645",
            ErrorCode::E651 => "E651",
            ErrorCode::E652 => "E652",
            ErrorCode::E653 => "E653",
        }
    }
}

} // verus!
