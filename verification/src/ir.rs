//! The text of the intermediate representation: how types, operands and
//! instructions are written.
//!
//! The representation is register based. A value is named `%N` by the number
//! `N` it was produced under, every pointer is of the one type `ptr`, and
//! every named binding lives in a stack slot.

use vstd::prelude::*;
use crate::text::{decimal, decimal_text, str_eq};
use crate::type_::{align_of, has_align, unit_type, Type, TypeView};

verus! {

/// How a value type is written in the intermediate representation.
pub open spec fn ir_type(t: TypeView) -> Seq<char> {
    match t {
        TypeView::Primitive(name) => if name == "Int"@ {
            "i32"@
        } else if name == "Bool"@ {
            "i1"@
        } else if name == "Char"@ {
            "i8"@
        } else if name == "String"@ {
            "ptr"@
        } else if name == "Unit"@ {
            "{}"@
        } else {
            "%"@ + name
        },
        TypeView::Function(_, _) => "ptr"@,
        TypeView::Generic(_, _) => "ptr"@,
        TypeView::Struct(name, _) => "%"@ + name,
    }
}

/// How the return type of a function or of a call is written: `Unit` is `void`.
pub open spec fn ir_return_type(t: TypeView) -> Seq<char> {
    if t == unit_type() {
        "void"@
    } else {
        ir_type(t)
    }
}

/// The alignment of a stack slot for a value of type `t`: that of the
/// alignment table where it covers `t`, that of a pointer otherwise.
pub open spec fn slot_align(t: TypeView) -> nat {
    if has_align(t) {
        align_of(t)
    } else {
        8
    }
}

/// The register that holds value number `n`.
pub open spec fn register(n: nat) -> Seq<char> {
    "%"@ + decimal(n)
}

/// The global symbol `name`.
pub open spec fn global(name: Seq<char>) -> Seq<char> {
    "@"@ + name
}

/// The operand that stands for a value nobody reads.
pub open spec fn undefined() -> Seq<char> {
    "undef"@
}

/// The global constant that holds string literal number `k`.
pub open spec fn string_symbol(k: nat) -> Seq<char> {
    "@.str."@ + decimal(k)
}

/// The line that defines value `n` as the result of `operation`.
pub open spec fn definition(n: nat, operation: Seq<char>) -> Seq<char> {
    "  "@ + register(n) + " = "@ + operation
}

/// Allocates a stack slot for a value written `ty`.
pub open spec fn alloca(ty: Seq<char>, align: nat) -> Seq<char> {
    "alloca "@ + ty + ", align "@ + decimal(align)
}

/// Loads a value written `ty` from `pointer`.
pub open spec fn load(ty: Seq<char>, pointer: Seq<char>, align: nat) -> Seq<char> {
    "load "@ + ty + ", ptr "@ + pointer + ", align "@ + decimal(align)
}

/// The line that stores `value`, written `ty`, to `pointer`.
pub open spec fn store(ty: Seq<char>, value: Seq<char>, pointer: Seq<char>, align: nat) -> Seq<char> {
    "  store "@ + ty + " "@ + value + ", ptr "@ + pointer + ", align "@ + decimal(align)
}

/// Applies the instruction `mnemonic` to two operands written `ty`.
pub open spec fn binary(mnemonic: Seq<char>, ty: Seq<char>, left: Seq<char>, right: Seq<char>) -> Seq<
    char,
> {
    mnemonic + " "@ + ty + " "@ + left + ", "@ + right
}

/// Computes the address of field number `index` of the struct written
/// `ty` that `pointer` points to.
pub open spec fn field_address(ty: Seq<char>, pointer: Seq<char>, index: nat) -> Seq<char> {
    "getelementptr "@ + ty + ", ptr "@ + pointer + ", i32 0, i32 "@ + decimal(index)
}

/// Calls `callee` with the argument list `args`; the result is written `ty`.
pub open spec fn call(ty: Seq<char>, callee: Seq<char>, args: Seq<char>) -> Seq<char> {
    "call "@ + ty + " "@ + callee + "("@ + args + ")"@
}

/// The line that jumps to `label`.
pub open spec fn jump(label: Seq<char>) -> Seq<char> {
    "  br label %"@ + label
}

/// The line that jumps to `then` if `condition` holds and to `otherwise` if not.
pub open spec fn branch(condition: Seq<char>, then: Seq<char>, otherwise: Seq<char>) -> Seq<char> {
    "  br i1 "@ + condition + ", label %"@ + then + ", label %"@ + otherwise
}

/// The line that starts the block `label`.
pub open spec fn block(label: Seq<char>) -> Seq<char> {
    label + ":"@
}

/// The line that returns `value` from a function whose return type is
/// `t`; a function of type `Unit` returns nothing.
pub open spec fn ret(t: TypeView, value: Seq<char>) -> Seq<char> {
    if t == unit_type() {
        "  ret void"@
    } else {
        "  ret "@ + ir_type(t) + " "@ + value
    }
}

/// A label of the control-flow construct number `id`: `stem.id`.
pub open spec fn label(stem: Seq<char>, id: nat) -> Seq<char> {
    stem + "."@ + decimal(id)
}

/// A label of else-if arm number `k` of the `If` number `id`: `stem.id.k`.
pub open spec fn arm_label(stem: Seq<char>, id: nat, k: nat) -> Seq<char> {
    stem + "."@ + decimal(id) + "."@ + decimal(k)
}

/// How the type `t` is written.
pub fn ir_type_text(t: &Type) -> (s: String)
    ensures
        s@ == ir_type(t@),
{
    match t {
        Type::Primitive(name) => {
            if str_eq(name.as_str(), "Int") {
                "i32".to_string()
            } else if str_eq(name.as_str(), "Bool") {
                "i1".to_string()
            } else if str_eq(name.as_str(), "Char") {
                "i8".to_string()
            } else if str_eq(name.as_str(), "String") {
                "ptr".to_string()
            } else if str_eq(name.as_str(), "Unit") {
                "{}".to_string()
            } else {
                let mut s = "%".to_string();
                s.append(name.as_str());
                s
            }
        },
        Type::Function(_, _) => "ptr".to_string(),
        Type::Generic(_, _) => "ptr".to_string(),
        Type::Struct(name, _) => {
            let mut s = "%".to_string();
            s.append(name.as_str());
            s
        },
    }
}

/// How `t` is written as a return type.
pub fn ir_return_type_text(t: &Type) -> (s: String)
    ensures
        s@ == ir_return_type(t@),
{
    if t.same(&Type::unit()) {
        "void".to_string()
    } else {
        ir_type_text(t)
    }
}

/// The alignment of a stack slot for a value of type `t`.
pub fn slot_align_of(t: &Type) -> (bytes: usize)
    ensures
        bytes == slot_align(t@),
{
    if t.is_aligned() {
        t.align()
    } else {
        8
    }
}

/// The register that holds value number `n`.
pub fn register_text(n: usize) -> (s: String)
    ensures
        s@ == register(n as nat),
{
    let mut s = "%".to_string();
    s.append(decimal_text(n as u128).as_str());
    s
}

/// The global symbol `name`.
pub fn global_text(name: &str) -> (s: String)
    ensures
        s@ == global(name@),
{
    let mut s = "@".to_string();
    s.append(name);
    s
}

/// The global constant that holds string literal number `k`.
pub fn string_symbol_text(k: usize) -> (s: String)
    ensures
        s@ == string_symbol(k as nat),
{
    let mut s = "@.str.".to_string();
    s.append(decimal_text(k as u128).as_str());
    s
}

/// The line that defines value `n` as the result of `operation`.
pub fn definition_text(n: usize, operation: &str) -> (s: String)
    ensures
        s@ == definition(n as nat, operation@),
{
    let mut s = "  ".to_string();
    s.append(register_text(n).as_str());
    s.append(" = ");
    s.append(operation);
    s
}

/// Allocates a stack slot for a value written `ty`.
pub fn alloca_text(ty: &str, align: usize) -> (s: String)
    ensures
        s@ == alloca(ty@, align as nat),
{
    let mut s = "alloca ".to_string();
    s.append(ty);
    s.append(", align ");
    s.append(decimal_text(align as u128).as_str());
    s
}

/// Loads a value written `ty` from `pointer`.
pub fn load_text(ty: &str, pointer: &str, align: usize) -> (s: String)
    ensures
        s@ == load(ty@, pointer@, align as nat),
{
    let mut s = "load ".to_string();
    s.append(ty);
    s.append(", ptr ");
    s.append(pointer);
    s.append(", align ");
    s.append(decimal_text(align as u128).as_str());
    s
}

/// The line that stores `value`, written `ty`, to `pointer`.
pub fn store_text(ty: &str, value: &str, pointer: &str, align: usize) -> (s: String)
    ensures
        s@ == store(ty@, value@, pointer@, align as nat),
{
    let mut s = "  store ".to_string();
    s.append(ty);
    s.append(" ");
    s.append(value);
    s.append(", ptr ");
    s.append(pointer);
    s.append(", align ");
    s.append(decimal_text(align as u128).as_str());
    s
}

/// Applies the instruction `mnemonic` to two operands written `ty`.
pub fn binary_text(mnemonic: &str, ty: &str, left: &str, right: &str) -> (s: String)
    ensures
        s@ == binary(mnemonic@, ty@, left@, right@),
{
    let mut s = mnemonic.to_string();
    s.append(" ");
    s.append(ty);
    s.append(" ");
    s.append(left);
    s.append(", ");
    s.append(right);
    s
}

/// Computes the address of field number `index` of a struct written `ty`.
pub fn field_address_text(ty: &str, pointer: &str, index: usize) -> (s: String)
    ensures
        s@ == field_address(ty@, pointer@, index as nat),
{
    let mut s = "getelementptr ".to_string();
    s.append(ty);
    s.append(", ptr ");
    s.append(pointer);
    s.append(", i32 0, i32 ");
    s.append(decimal_text(index as u128).as_str());
    s
}

/// Calls `callee` with the argument list `args`; the result is written `ty`.
pub fn call_text(ty: &str, callee: &str, args: &str) -> (s: String)
    ensures
        s@ == call(ty@, callee@, args@),
{
    let mut s = "call ".to_string();
    s.append(ty);
    s.append(" ");
    s.append(callee);
    s.append("(");
    s.append(args);
    s.append(")");
    s
}

/// The line that jumps to `label`.
pub fn jump_text(label: &str) -> (s: String)
    ensures
        s@ == jump(label@),
{
    let mut s = "  br label %".to_string();
    s.append(label);
    s
}

/// The line that jumps to `then` if `condition` holds and to `otherwise` if not.
pub fn branch_text(condition: &str, then: &str, otherwise: &str) -> (s: String)
    ensures
        s@ == branch(condition@, then@, otherwise@),
{
    let mut s = "  br i1 ".to_string();
    s.append(condition);
    s.append(", label %");
    s.append(then);
    s.append(", label %");
    s.append(otherwise);
    s
}

/// The line that starts the block `label`.
pub fn block_text(label: &str) -> (s: String)
    ensures
        s@ == block(label@),
{
    let mut s = label.to_string();
    s.append(":");
    s
}

/// The line that returns `value` from a function whose return type is `t`.
pub fn ret_text(t: &Type, value: &str) -> (s: String)
    ensures
        s@ == ret(t@, value@),
{
    if t.same(&Type::unit()) {
        "  ret void".to_string()
    } else {
        let mut s = "  ret ".to_string();
        s.append(ir_type_text(t).as_str());
        s.append(" ");
        s.append(value);
        s
    }
}

/// The label `stem.id`.
pub fn label_text(stem: &str, id: usize) -> (s: String)
    ensures
        s@ == label(stem@, id as nat),
{
    let mut s = stem.to_string();
    s.append(".");
    s.append(decimal_text(id as u128).as_str());
    s
}

/// The label `stem.id.k`.
pub fn arm_label_text(stem: &str, id: usize, k: usize) -> (s: String)
    ensures
        s@ == arm_label(stem@, id as nat, k as nat),
{
    let mut s = stem.to_string();
    s.append(".");
    s.append(decimal_text(id as u128).as_str());
    s.append(".");
    s.append(decimal_text(k as u128).as_str());
    s
}

} // verus!
