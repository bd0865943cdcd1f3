//! Diagnostics the semantic passes can report.

use vstd::prelude::*;
use crate::ast::Name;

verus! {

/// One diagnostic message.
#[derive(PartialEq, Eq, Copy, Clone, Structural, Debug)]
pub enum Msg {
    UnknownType(Name),
    ShadowField(Name),
    ShadowStruct(Name),
    ShadowFunction(Name),
    UnknownIdentifier(Name),
    UnknownFunction(Name),
    UnknownMethod(Name),
    LetReassigned,
    LetMissingInitialization,
    VarNeedsTypeInfo(Name),
    AssignType(Name),
    ReturnType,
    LvalueExpected,
    ParamTypesIncompatible(Name),
    BinOpType,
    UnOpType,
    IdentityOperandsNeedReferences,
    ThrowsWithoutThrowing,
    TryNeeded,
    TryCallsNonThrowing,
    ExpectedToken,
    ExpectedType,
    ExpectedIdentifier,
    ExpectedTopLevelElement,
    UnexpectedToken,
    InvalidToken,
    NumberOverflow,
}

} // verus!
