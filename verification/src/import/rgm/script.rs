//! Disassembly of actor scripts: the compiled bytecode of each actor is
//! decoded into indented text lines, one per statement.
use crate::bytes::{first_zero_from, read_i32_le, read_u16_le, spec_i32_of, spec_u16_le, spec_u32_le};
use crate::import::rgm::metadata::{rahd_item_name, RAHD_ITEM_SIZE};
use crate::assoc::{assoc_get, assoc_map, keys_unique};
use crate::import::lower_chars;
use crate::import::soup_def::{soup_view, texts, SoupDef, SoupModel};
use crate::text::{
    ascii_lower, chars_eq_str, chars_of, dec_int, dec_nat, hex_pad, lossy_string, lower_vec, nul_trimmed_string,
    push_dec, push_dec_i32, push_hex, push_str_chars, string_from_chars, utf8_lossy, first_index, first_index_from,
    lemma_first_index_bounds, utf8_len, utf8_len_capped, char_utf8_width, lemma_utf8_len_prefix, repeat_text,
};
use vstd::prelude::*;

verus! {

/// One actor's script with its strings, variables and decoded statements.
#[derive(Debug, Clone)]
pub struct ActorScript {
    pub script_length: i32,
    pub script_data_offset: i32,
    pub script_pc: i32,
    pub num_strings: i32,
    pub num_variables: i32,
    pub strings: Vec<String>,
    pub variables: Vec<i32>,
    pub instructions: Vec<ScriptInstruction>,
}

/// One decoded statement: its byte address, nesting depth and text.
#[derive(Debug, Clone)]
pub struct ScriptInstruction {
    pub addr: usize,
    pub indent: usize,
    pub text: String,
}

/// Where a value is being decoded, which decides what follows some operands.
#[derive(Debug, Clone, Copy, PartialEq, Eq)]
pub enum ValueMode {
    Main,
    Lhs,
    Rhs,
    Parameter,
    Formula,
}

/// What the decoding reads: the bytecode, the actor's strings and the
/// optional definitions that name functions, flags and references.
pub struct ScriptCtx {
    pub code: Seq<u8>,
    pub strings: Seq<Seq<char>>,
    pub soup: Option<SoupModel>,
}

/// Message of a read past the end of the bytecode.
pub open spec fn end_of_script() -> Seq<char> {
    "unexpected end of script"@
}

/// A byte read at `pc`: the byte and the next position, or the message and `pc`.
pub open spec fn sp_u8(c: ScriptCtx, pc: int) -> Result<(u8, int), (Seq<char>, int)> {
    if 0 <= pc < c.code.len() {
        Ok((c.code[pc], pc + 1))
    } else {
        Err((end_of_script(), pc))
    }
}

/// A little-endian `u16` read at `pc`.
pub open spec fn sp_u16(c: ScriptCtx, pc: int) -> Result<(u16, int), (Seq<char>, int)> {
    if 0 <= pc && pc + 2 <= c.code.len() {
        Ok((spec_u16_le(c.code, pc) as u16, pc + 2))
    } else {
        Err((end_of_script(), pc))
    }
}

/// A little-endian `i32` read at `pc`.
pub open spec fn sp_i32(c: ScriptCtx, pc: int) -> Result<(i32, int), (Seq<char>, int)> {
    if 0 <= pc && pc + 4 <= c.code.len() {
        Ok((spec_i32_of(spec_u32_le(c.code, pc)) as i32, pc + 4))
    } else {
        Err((end_of_script(), pc))
    }
}

/// `n` bytes skipped at `pc`.
pub open spec fn sp_skip(c: ScriptCtx, pc: int, n: int) -> Result<int, (Seq<char>, int)> {
    if pc + n <= c.code.len() {
        Ok(pc + n)
    } else {
        Err((end_of_script(), pc))
    }
}

/// The position moved forward and stayed within the bytecode.
pub open spec fn moved(c: ScriptCtx, from: int, to: int) -> bool {
    from < to <= c.code.len()
}

/// Name of engine function `id`: from the definitions, else `func_<id>`.
pub open spec fn function_name(c: ScriptCtx, id: u16) -> Seq<char> {
    match c.soup {
        Some(d) => if (id as int) < d.functions.len() {
            d.functions[id as int].0
        } else {
            "func_"@ + dec_nat(id as nat)
        },
        None => "func_"@ + dec_nat(id as nat),
    }
}

/// Name of flag `id`: from the definitions, else `Flag<id>`.
pub open spec fn flag_name(c: ScriptCtx, id: u16) -> Seq<char> {
    match c.soup {
        Some(d) => if (id as int) < d.flags.len() {
            d.flags[id as int].0
        } else {
            "Flag"@ + dec_nat(id as nat)
        },
        None => "Flag"@ + dec_nat(id as nat),
    }
}

/// Name of the reference whose index is the low byte of `id`: from the
/// definitions, else `ref_<index>`.
pub open spec fn ref_name(c: ScriptCtx, id: u16) -> Seq<char> {
    let idx = (id % 256) as int;
    match c.soup {
        Some(d) => if idx < d.references.len() {
            d.references[idx]
        } else {
            "ref_"@ + dec_nat(idx as nat)
        },
        None => "ref_"@ + dec_nat(idx as nat),
    }
}

/// A jump target: the offset's 32-bit pattern in upper-case hex, at least four digits.
pub open spec fn label_text(off: i32) -> Seq<char> {
    hex_pad((off as u32) as nat, 4)
}

/// Text of comparison operator `k`.
pub open spec fn compare_op(k: u8) -> Seq<char> {
    if k == 0 {
        "="@
    } else if k == 1 {
        "!="@
    } else if k == 2 {
        "<"@
    } else if k == 3 {
        ">"@
    } else if k == 4 {
        "<="@
    } else if k == 5 {
        ">="@
    } else {
        "?"@
    }
}

/// Text of arithmetic operator `k` (1 to 9).
pub open spec fn formula_op(k: u8) -> Seq<char> {
    if k == 1 {
        "+"@
    } else if k == 2 {
        "-"@
    } else if k == 3 {
        "*"@
    } else if k == 4 {
        "/"@
    } else if k == 5 {
        "<<"@
    } else if k == 6 {
        ">>"@
    } else if k == 7 {
        "&"@
    } else if k == 8 {
        "|"@
    } else {
        "^"@
    }
}

/// `a` and `b` are equal but for the case of ASCII letters.
pub open spec fn eq_ignore_case(a: Seq<char>, b: Seq<char>) -> bool {
    lower_chars(a) == lower_chars(b)
}

/// Functions whose first parameter is a four-character dialogue key.
pub open spec fn is_dialogue_function(f: Seq<char>) -> bool {
    ||| eq_ignore_case(f, "ACTIVATE"@)
    ||| eq_ignore_case(f, "RTX"@)
    ||| eq_ignore_case(f, "rtxAnim"@)
    ||| eq_ignore_case(f, "RTXp"@)
    ||| eq_ignore_case(f, "RTXpAnim"@)
    ||| eq_ignore_case(f, "AddLog"@)
    ||| eq_ignore_case(f, "AmbientRtx"@)
    ||| eq_ignore_case(f, "menuAddItem"@)
    ||| eq_ignore_case(f, "TorchActivate"@)
}

/// Functions whose first parameter is an attribute index.
pub open spec fn is_attribute_function(f: Seq<char>) -> bool {
    ||| eq_ignore_case(f, "SetAttribute"@)
    ||| eq_ignore_case(f, "GetAttribute"@)
    ||| eq_ignore_case(f, "SetMyAttr"@)
    ||| eq_ignore_case(f, "GetMyAttr"@)
}

/// Functions whose first parameter is an animation-group index.
pub open spec fn is_anim_group_function(f: Seq<char>) -> bool {
    ||| eq_ignore_case(f, "PlayAnimation"@)
    ||| eq_ignore_case(f, "PushAnimation"@)
    ||| eq_ignore_case(f, "PushControlAnimation"@)
    ||| eq_ignore_case(f, "WaitAnimFrame"@)
    ||| eq_ignore_case(f, "WaitPlayerAnimFrame"@)
    ||| eq_ignore_case(f, "SyncWithGroup"@)
}

/// Functions whose first parameter is an axis.
pub open spec fn is_axis_function(f: Seq<char>) -> bool {
    ||| eq_ignore_case(f, "MoveByAxis"@)
    ||| eq_ignore_case(f, "MoveAlongAxis"@)
    ||| eq_ignore_case(f, "RotateByAxis"@)
    ||| eq_ignore_case(f, "RotateToAxis"@)
    ||| eq_ignore_case(f, "sMoveByAxis"@)
    ||| eq_ignore_case(f, "sMoveAlongAxis"@)
    ||| eq_ignore_case(f, "sRotateByAxis"@)
    ||| eq_ignore_case(f, "sRotateToAxis"@)
}

/// Byte `k` (0 to 3) of the little-endian pattern of `v`.
pub open spec fn value_byte(v: i32, k: u32) -> u8 {
    (((v as u32) >> (8 * k)) & 0xff) as u8
}

/// A space or a visible ASCII character.
pub open spec fn is_printable(b: u8) -> bool {
    0x20 <= b <= 0x7e
}

/// The four bytes of `v`, read as characters.
pub open spec fn key_chars(v: i32) -> Seq<char> {
    seq![value_byte(v, 0) as char, value_byte(v, 1) as char, value_byte(v, 2) as char, value_byte(v, 3) as char]
}

/// Entry `v` of a name list, when there is one.
pub open spec fn name_at(names: Seq<Seq<char>>, v: i32) -> Option<Seq<char>> {
    if 0 <= v < names.len() {
        Some(names[v as int])
    } else {
        None
    }
}

/// Text of a numeric parameter. The first parameter of a dialogue function
/// whose four bytes are printable is shown as a quoted key; that of an
/// attribute or animation-group function as the defined name, when there is
/// one; that of an axis function as `axis_x`, `axis_y` or `axis_z`. Anything
/// else is the decimal number.
pub open spec fn numeric_param(c: ScriptCtx, v: i32, ctx: Option<(Seq<char>, int)>) -> Seq<char> {
    match ctx {
        Some((f, k)) => if k != 0 {
            dec_int(v as int)
        } else if is_dialogue_function(f) && is_printable(value_byte(v, 0)) && is_printable(value_byte(v, 1))
            && is_printable(value_byte(v, 2)) && is_printable(value_byte(v, 3)) {
            seq!['"'] + key_chars(v) + seq!['"']
        } else if is_attribute_function(f) && c.soup is Some && name_at(c.soup->0.attributes, v) is Some {
            name_at(c.soup->0.attributes, v)->0
        } else if is_anim_group_function(f) && c.soup is Some && name_at(c.soup->0.anim_groups, v) is Some {
            name_at(c.soup->0.anim_groups, v)->0
        } else if is_axis_function(f) && 0 <= v < 3 {
            if v == 0 {
                "axis_x"@
            } else if v == 1 {
                "axis_y"@
            } else {
                "axis_z"@
            }
        } else {
            dec_int(v as int)
        },
        None => dec_int(v as int),
    }
}

/// `parts` joined with `sep` between them.
pub open spec fn join(parts: Seq<Seq<char>>, sep: Seq<char>) -> Seq<char>
    decreases parts.len(),
{
    if parts.len() == 0 {
        Seq::empty()
    } else if parts.len() == 1 {
        parts[0]
    } else {
        join(parts.drop_last(), sep) + sep + parts.last()
    }
}

/// An object operand at `pc`: `Me`, `Player`, `Camera`, a string of the
/// actor, a variable, or `ObjectType<n>`.
pub open spec fn sp_object(c: ScriptCtx, pc: int) -> Result<(Seq<char>, int), (Seq<char>, int)> {
    match sp_u8(c, pc) {
        Err(e) => Err(e),
        Ok((t, p1)) => if t == 0 || t == 1 || t == 2 {
            match sp_skip(c, p1, 1) {
                Err(e) => Err(e),
                Ok(p2) => Ok(
                    (
                        if t == 0 {
                            "Me"@
                        } else if t == 1 {
                            "Player"@
                        } else {
                            "Camera"@
                        },
                        p2,
                    ),
                ),
            }
        } else if t == 4 {
            match sp_u8(c, p1) {
                Err(e) => Err(e),
                Ok((i, p2)) => Ok(
                    (
                        if (i as int) < c.strings.len() {
                            c.strings[i as int]
                        } else {
                            "strings["@ + dec_nat(i as nat) + "]"@
                        },
                        p2,
                    ),
                ),
            }
        } else if t == 10 {
            match sp_u8(c, p1) {
                Err(e) => Err(e),
                Ok((v, p2)) => Ok(("var"@ + dec_nat(v as nat), p2)),
            }
        } else {
            Ok(("ObjectType"@ + dec_nat(t as nat), p1))
        },
    }
}

/// A reference operand at `pc`.
pub open spec fn sp_ref(c: ScriptCtx, pc: int) -> Result<(Seq<char>, int), (Seq<char>, int)> {
    match sp_u16(c, pc) {
        Err(e) => Err(e),
        Ok((id, p1)) => Ok((ref_name(c, id), p1)),
    }
}

/// An object operand ends after where it starts.
pub proof fn lemma_object_moves(c: ScriptCtx, pc: int)
    ensures
        sp_object(c, pc) matches Ok((t, p)) ==> moved(c, pc, p),
        sp_ref(c, pc) matches Ok((t, p)) ==> moved(c, pc, p),
        sp_u8(c, pc) matches Ok((t, p)) ==> moved(c, pc, p),
        sp_u16(c, pc) matches Ok((t, p)) ==> moved(c, pc, p),
        sp_i32(c, pc) matches Ok((t, p)) ==> moved(c, pc, p),
{
}

/// A value at `pc`, decoded in `mode`; `ctx` names the called function and
/// the parameter's index when the value is a call's parameter. The text
/// and the position after it, or the message and the position where
/// reading stopped.
pub open spec fn sp_value(c: ScriptCtx, pc: int, mode: ValueMode, ctx: Option<(Seq<char>, int)>) -> Result<
    (Seq<char>, int),
    (Seq<char>, int),
>
    decreases c.code.len() - pc, 0int,
{
    if pc < 0 || pc >= c.code.len() {
        Err((end_of_script(), pc))
    } else {
        let op = c.code[pc];
        let p1 = pc + 1;
        if op <= 2 {
            sp_call(c, p1, op)
        } else if op == 3 {
            sp_if(c, p1)
        } else if op == 4 || op == 0x11 || op == 0x1B {
            match sp_i32(c, p1) {
                Err(e) => Err(e),
                Ok((t, p2)) => Ok(
                    (
                        if op == 4 {
                            "Goto "@ + label_text(t)
                        } else if op == 0x11 {
                            "Gosub "@ + label_text(t)
                        } else {
                            "<TaskPause("@ + label_text(t) + ")>"@
                        },
                        p2,
                    ),
                ),
            }
        } else if op == 5 {
            match sp_i32(c, p1) {
                Err(e) => Err(e),
                Ok((t, p2)) => Ok(
                    (
                        if t == 0 {
                            "End"@
                        } else {
                            "End "@ + label_text(t)
                        },
                        p2,
                    ),
                ),
            }
        } else if op == 6 {
            match sp_u16(c, p1) {
                Err(e) => Err(e),
                Ok((id, p2)) => sp_assigned(c, p2, mode, flag_name(c, id), 2),
            }
        } else if op == 7 || op == 0x16 {
            match sp_i32(c, p1) {
                Err(e) => Err(e),
                Ok((v, p2)) => Ok(
                    (
                        if mode == ValueMode::Parameter {
                            numeric_param(c, v, ctx)
                        } else {
                            dec_int(v as int)
                        },
                        p2,
                    ),
                ),
            }
        } else if op == 0x0A {
            match sp_u8(c, p1) {
                Err(e) => Err(e),
                Ok((idx, p2)) => sp_assigned(c, p2, mode, "var"@ + dec_nat(idx as nat), 3),
            }
        } else if op == 0x0F || op == 0x10 {
            match sp_object(c, p1) {
                Err(e) => Err(e),
                Ok((o, p2)) => match sp_ref(c, p2) {
                    Err(e) => Err(e),
                    Ok((r, p3)) => Ok(
                        (
                            o + "."@ + r + if op == 0x0F {
                                "++"@
                            } else {
                                "--"@
                            },
                            p3,
                        ),
                    ),
                },
            }
        } else if op == 0x12 {
            Ok(("Return"@, p1))
        } else if op == 0x13 {
            Ok(("Endint"@, p1))
        } else if op == 0x14 {
            match sp_object(c, p1) {
                Err(e) => Err(e),
                Ok((o, p2)) => match sp_ref(c, p2) {
                    Err(e) => Err(e),
                    Ok((r, p3)) => {
                        proof {
                            lemma_object_moves(c, p1);
                            lemma_object_moves(c, p2);
                        }
                        let base = o + "."@ + r;
                        if mode == ValueMode::Main {
                            match sp_formula(c, p3) {
                                Err(e) => Err(e),
                                Ok((f, p4)) => Ok((base + " = "@ + f, p4)),
                            }
                        } else if mode == ValueMode::Lhs {
                            match sp_u8(c, p3) {
                                Err(e) => Err(e),
                                Ok((b, p4)) => Ok((base, p4)),
                            }
                        } else {
                            Ok((base, p3))
                        }
                    },
                },
            }
        } else if op == 0x15 {
            match sp_i32(c, p1) {
                Err(e) => Err(e),
                Ok((v, p2)) => {
                    let idx: int = if v < 0 {
                        0
                    } else {
                        v as int
                    };
                    Ok(
                        (
                            if idx < c.strings.len() {
                                seq!['"'] + c.strings[idx] + seq!['"']
                            } else {
                                "strings["@ + dec_nat(idx as nat) + "]"@
                            },
                            p2,
                        ),
                    )
                },
            }
        } else if op == 0x17 {
            match sp_u8(c, p1) {
                Err(e) => Err(e),
                Ok((v, p2)) => Ok(("<Anchor>="@ + dec_nat(v as nat), p2)),
            }
        } else if op == 0x19 || op == 0x1A {
            match sp_object(c, p1) {
                Err(e) => Err(e),
                Ok((o, p2)) => {
                    proof {
                        lemma_object_moves(c, p1);
                    }
                    if mode == ValueMode::Main {
                        match sp_value(c, p2, ValueMode::Formula, None) {
                            Err(e) => Err(e),
                            Ok((v, p3)) => Ok((o + "."@ + v, p3)),
                        }
                    } else {
                        match sp_call(c, p2, 2) {
                            Err(e) => Err(e),
                            Ok((v, p3)) => Ok((o + "."@ + v, p3)),
                        }
                    }
                },
            }
        } else if op == 0x1E {
            match sp_u8(c, p1) {
                Err(e) => Err(e),
                Ok((rv, p2)) => match sp_u8(c, p2) {
                    Err(e) => Err(e),
                    Ok((b0, p3)) => match sp_u8(c, p3) {
                        Err(e) => Err(e),
                        Ok((b1, p4)) => match sp_u8(c, p4) {
                            Err(e) => Err(e),
                            Ok((b2, p5)) => match sp_u8(c, p5) {
                                Err(e) => Err(e),
                                Ok((b3, p6)) => Ok(
                                    (
                                        "if <ScriptRv> = "@ + dec_nat(rv as nat) + " [block "@ + hex_pad(
                                            b0 as nat,
                                            2,
                                        ) + " "@ + hex_pad(b1 as nat, 2) + " "@ + hex_pad(b2 as nat, 2) + " "@
                                            + hex_pad(b3 as nat, 2) + "]"@,
                                        p6,
                                    ),
                                ),
                            },
                        },
                    },
                },
            }
        } else {
            Err(("unknown opcode 0x"@ + hex_pad(op as nat, 2), p1))
        }
    }
}

/// What follows a flag or variable operand `base` at `pc`: in a statement
/// an assignment formula; in a comparison one byte; as a parameter `skip`
/// bytes; in a formula nothing.
pub open spec fn sp_assigned(c: ScriptCtx, pc: int, mode: ValueMode, base: Seq<char>, skip: int) -> Result<
    (Seq<char>, int),
    (Seq<char>, int),
>
    decreases c.code.len() - pc, 2int,
{
    match mode {
        ValueMode::Main => match sp_formula(c, pc) {
            Err(e) => Err(e),
            Ok((f, p1)) => Ok((base + " = "@ + f, p1)),
        },
        ValueMode::Lhs | ValueMode::Rhs => match sp_u8(c, pc) {
            Err(e) => Err(e),
            Ok((b, p1)) => Ok((base, p1)),
        },
        ValueMode::Parameter => match sp_skip(c, pc, skip) {
            Err(e) => Err(e),
            Ok(p1) => Ok((base, p1)),
        },
        ValueMode::Formula => Ok((base, pc)),
    }
}

/// A call at `pc` (after its opcode): function id, parameter count (none for
/// function 0) and parameters; `kind` 1 marks it with `@`.
pub open spec fn sp_call(c: ScriptCtx, pc: int, kind: u8) -> Result<(Seq<char>, int), (Seq<char>, int)>
    decreases c.code.len() - pc, 2int,
{
    match sp_u16(c, pc) {
        Err(e) => Err(e),
        Ok((id, p1)) => {
            let name = function_name(c, id);
            let count: Result<(u8, int), (Seq<char>, int)> = if id == 0 {
                Ok((0u8, p1))
            } else {
                sp_u8(c, p1)
            };
            match count {
                Err(e) => Err(e),
                Ok((n, p2)) => {
                    proof {
                        lemma_object_moves(c, pc);
                        lemma_object_moves(c, p1);
                    }
                    if !moved(c, pc, p2) {
                        Err((end_of_script(), p2))
                    } else {
                        match sp_params(c, p2, name, 0, n as int) {
                            Err(e) => Err(e),
                            Ok((ps, p3)) => Ok(
                                (
                                    (if kind == 1 {
                                        "@"@
                                    } else {
                                        ""@
                                    }) + name + "("@ + join(ps, ", "@) + ")"@,
                                    p3,
                                ),
                            ),
                        }
                    }
                },
            }
        },
    }
}

/// Parameters `i` to `n - 1` of a call to `name`, from `pc`.
pub open spec fn sp_params(c: ScriptCtx, pc: int, name: Seq<char>, i: int, n: int) -> Result<
    (Seq<Seq<char>>, int),
    (Seq<char>, int),
>
    decreases c.code.len() - pc, 1int,
{
    if i >= n {
        Ok((Seq::empty(), pc))
    } else {
        match sp_value(c, pc, ValueMode::Parameter, Some((name, i))) {
            Err(e) => Err(e),
            Ok((v, p1)) => if !moved(c, pc, p1) {
                Err((end_of_script(), p1))
            } else {
                match sp_params(c, p1, name, i + 1, n) {
                    Err(e) => Err(e),
                    Ok((rest, p2)) => Ok((seq![v] + rest, p2)),
                }
            },
        }
    }
}

/// An arithmetic formula at `pc`: values joined by operators, possibly
/// ending in `++` or `--`.
pub open spec fn sp_formula(c: ScriptCtx, pc: int) -> Result<(Seq<char>, int), (Seq<char>, int)>
    decreases c.code.len() - pc, 1int,
{
    match sp_value(c, pc, ValueMode::Formula, None) {
        Err(e) => Err(e),
        Ok((v, p1)) => if !moved(c, pc, p1) {
            Err((end_of_script(), p1))
        } else {
            match sp_u8(c, p1) {
                Err(e) => Err(e),
                Ok((op, p2)) => if op == 10 || op == 11 {
                    match sp_skip(c, p2, 1) {
                        Err(e) => Err(e),
                        Ok(p3) => Ok(
                            (
                                v + if op == 10 {
                                    "++"@
                                } else {
                                    "--"@
                                },
                                p3,
                            ),
                        ),
                    }
                } else if 1 <= op <= 9 {
                    match sp_formula(c, p2) {
                        Err(e) => Err(e),
                        Ok((rest, p3)) => Ok((v + " "@ + formula_op(op) + " "@ + rest, p3)),
                    }
                } else {
                    Ok((v, p2))
                },
            }
        },
    }
}

/// A condition at `pc`: comparisons joined by `and` / `or`.
pub open spec fn sp_cond(c: ScriptCtx, pc: int) -> Result<(Seq<char>, int), (Seq<char>, int)>
    decreases c.code.len() - pc, 1int,
{
    match sp_value(c, pc, ValueMode::Lhs, None) {
        Err(e) => Err(e),
        Ok((l, p1)) => if !moved(c, pc, p1) {
            Err((end_of_script(), p1))
        } else {
            match sp_u8(c, p1) {
                Err(e) => Err(e),
                Ok((relation, p2)) => match sp_value(c, p2, ValueMode::Rhs, None) {
                    Err(e) => Err(e),
                    Ok((r, p3)) => if !moved(c, p2, p3) {
                        Err((end_of_script(), p3))
                    } else {
                        match sp_u8(c, p3) {
                            Err(e) => Err(e),
                            Ok((conj, p4)) => {
                                let part = l + " "@ + compare_op(relation) + " "@ + r;
                                if conj == 1 || conj == 2 {
                                    match sp_cond(c, p4) {
                                        Err(e) => Err(e),
                                        Ok((rest, p5)) => Ok(
                                            (
                                                part + if conj == 1 {
                                                    " and "@
                                                } else {
                                                    " or "@
                                                } + rest,
                                                p5,
                                            ),
                                        ),
                                    }
                                } else {
                                    Ok((part, p4))
                                }
                            },
                        }
                    },
                },
            }
        },
    }
}

/// End of the block that an end offset names: the offset (0 when
/// negative), at most the length of the bytecode.
pub open spec fn block_end(c: ScriptCtx, e: i32) -> int {
    let b: int = if e < 0 {
        0
    } else {
        e as int
    };
    if b < c.code.len() {
        b
    } else {
        c.code.len() as int
    }
}

/// The values of an `if` block in braces, or nothing when there are none.
pub open spec fn block_suffix(parts: Seq<Seq<char>>) -> Seq<char> {
    if parts.len() > 0 {
        " { "@ + join(parts, "; "@) + " }"@
    } else {
        ""@
    }
}

/// An `if` met as a value, at `pc` (after its opcode): the condition, then
/// the values of its block in braces, each prefixed with its address.
pub open spec fn sp_if(c: ScriptCtx, pc: int) -> Result<(Seq<char>, int), (Seq<char>, int)>
    decreases c.code.len() - pc, 2int,
{
    match sp_cond(c, pc) {
        Err(e) => Err(e),
        Ok((t, p1)) => if !moved(c, pc, p1) {
            Err((end_of_script(), p1))
        } else {
            match sp_i32(c, p1) {
                Err(e) => Err(e),
                Ok((e, p2)) => {
                    let target = block_end(c, e);
                    if target > p2 {
                        let (parts, p3) = sp_nested(c, p2, target);
                        Ok(("if "@ + t + block_suffix(parts), p3))
                    } else {
                        Ok(("if "@ + t, p2))
                    }
                },
            }
        },
    }
}

/// The values from `pc` up to `target`, each as `<address>:<text>`; a value
/// that fails ends the list with its message and moves to `target`.
pub open spec fn sp_nested(c: ScriptCtx, pc: int, target: int) -> (Seq<Seq<char>>, int)
    decreases c.code.len() - pc, 1int,
{
    if pc < 0 || pc >= target {
        (Seq::empty(), pc)
    } else {
        match sp_value(c, pc, ValueMode::Main, None) {
            Err((e, p)) => (seq![dec_nat(pc as nat) + ":<error: "@ + e + ">"@], target),
            Ok((v, p1)) => if !moved(c, pc, p1) {
                (Seq::empty(), p1)
            } else {
                let (rest, p2) = sp_nested(c, p1, target);
                (seq![dec_nat(pc as nat) + ":"@ + v] + rest, p2)
            },
        }
    }
}

/// A decoded statement as values: address, nesting depth, text.
pub open spec fn instr_view(i: ScriptInstruction) -> (int, int, Seq<char>) {
    (i.addr as int, i.indent as int, i.text@)
}

/// The statements a list of instructions holds.
pub open spec fn instrs_view(v: Seq<ScriptInstruction>) -> Seq<(int, int, Seq<char>)> {
    v.map_values(|i: ScriptInstruction| instr_view(i))
}

/// The line for a failure with message `e` at `pc`.
pub open spec fn error_line(pc: int, indent: int, e: Seq<char>) -> (int, int, Seq<char>) {
    (pc, indent, "<error: "@ + e + ">"@)
}

/// The statement at `pc`, at depth `indent`: its lines and the position
/// after it, or the message and the position where reading stopped. An `if`
/// (opcode 3) or a script-result test (opcode 0x1E) gives its condition line
/// and then the statements of its block one level deeper.
pub open spec fn sp_stmt(c: ScriptCtx, pc: int, indent: int) -> Result<
    (Seq<(int, int, Seq<char>)>, int),
    (Seq<char>, int),
>
    decreases c.code.len() - pc, 1int,
{
    if pc < 0 || pc >= c.code.len() {
        Err((end_of_script(), pc))
    } else {
        let op = c.code[pc];
        if op == 3 {
            sp_if_block(c, pc + 1, pc, indent)
        } else if op == 0x1E {
            match sp_u8(c, pc + 1) {
                Err(e) => Err(e),
                Ok((rv, p2)) => {
                    let end = if p2 + 4 < c.code.len() {
                        p2 + 4
                    } else {
                        c.code.len() as int
                    };
                    let (body, p3) = sp_block(c, p2, end, indent + 1);
                    Ok((seq![(pc, indent, "if <ScriptRv> = "@ + dec_nat(rv as nat))] + body, p3))
                },
            }
        } else {
            match sp_value(c, pc, ValueMode::Main, None) {
                Err(e) => Err(e),
                Ok((t, p1)) => Ok((seq![(pc, indent, t)], p1)),
            }
        }
    }
}

/// An `if` statement at `pc` (after its opcode, which is at `addr`).
pub open spec fn sp_if_block(c: ScriptCtx, pc: int, addr: int, indent: int) -> Result<
    (Seq<(int, int, Seq<char>)>, int),
    (Seq<char>, int),
>
    decreases c.code.len() - pc, 2int,
{
    match sp_cond(c, pc) {
        Err(e) => Err(e),
        Ok((t, p1)) => match sp_i32(c, p1) {
            Err(e) => Err(e),
            Ok((e, p2)) => if !moved(c, pc, p2) {
                Err((end_of_script(), p2))
            } else {
                let (body, p3) = sp_block(c, p2, block_end(c, e), indent + 1);
                Ok((seq![(addr, indent, "if "@ + t)] + body, p3))
            },
        },
    }
}

/// The statements from `pc` while the position is before `end`; a statement
/// that fails gives an error line at the position where reading stopped,
/// and decoding resumes at `end`.
pub open spec fn sp_block(c: ScriptCtx, pc: int, end: int, indent: int) -> (Seq<(int, int, Seq<char>)>, int)
    decreases c.code.len() - pc, 2int,
{
    if pc < 0 || pc >= end {
        (Seq::empty(), pc)
    } else {
        match sp_stmt(c, pc, indent) {
            Err((e, p)) => (seq![error_line(p, indent, e)], end),
            Ok((is, p1)) => if !moved(c, pc, p1) {
                (is, p1)
            } else {
                let (rest, p2) = sp_block(c, p1, end, indent);
                (is + rest, p2)
            },
        }
    }
}

/// The statements of a script from `pc` to its end; the first failure
/// gives an error line at depth 0 and ends the listing.
pub open spec fn sp_script_from(c: ScriptCtx, pc: int) -> Seq<(int, int, Seq<char>)>
    decreases c.code.len() - pc,
{
    if pc < 0 || pc >= c.code.len() {
        Seq::empty()
    } else {
        match sp_stmt(c, pc, 0) {
            Err((e, p)) => seq![error_line(p, 0, e)],
            Ok((is, p1)) => if !moved(c, pc, p1) {
                is
            } else {
                is + sp_script_from(c, p1)
            },
        }
    }
}

/// The listing of a script that starts at `script_pc` (negative read as 0).
pub open spec fn sp_script(c: ScriptCtx, script_pc: i32) -> Seq<(int, int, Seq<char>)> {
    let pc: int = if script_pc < 0 {
        0
    } else {
        script_pc as int
    };
    if pc > c.code.len() {
        seq![
            (
                c.code.len() as int,
                0int,
                "<error: script_pc "@ + dec_int(script_pc as int) + " out of bounds>"@,
            ),
        ]
    } else {
        sp_script_from(c, pc)
    }
}

/// A read's outcome against its description: a value and the position
/// reached, or the message and the position where reading stopped.
pub open spec fn read_rel<T>(r: Result<T, Vec<char>>, pc: usize, s: Result<(T, int), (Seq<char>, int)>) -> bool {
    match r {
        Ok(v) => s == Ok::<(T, int), (Seq<char>, int)>((v, pc as int)),
        Err(e) => s == Err::<(T, int), (Seq<char>, int)>((e@, pc as int)),
    }
}

/// A decoded text against its description.
pub open spec fn text_rel(r: Result<Vec<char>, Vec<char>>, pc: usize, s: Result<(Seq<char>, int), (Seq<char>, int)>) -> bool {
    match r {
        Ok(t) => s == Ok::<(Seq<char>, int), (Seq<char>, int)>((t@, pc as int)),
        Err(e) => s == Err::<(Seq<char>, int), (Seq<char>, int)>((e@, pc as int)),
    }
}

/// The texts of a list of character vectors.
pub open spec fn char_texts(v: Seq<Vec<char>>) -> Seq<Seq<char>> {
    v.map_values(|t: Vec<char>| t@)
}

/// A parameter context as values.
pub open spec fn ctx_view(ctx: Option<(&[char], usize)>) -> Option<(Seq<char>, int)> {
    match ctx {
        Some((f, k)) => Some((f@, k as int)),
        None => None,
    }
}

/// The state of a disassembly: the bytecode and position, the actor's
/// strings, the optional definitions, the lines so far and the depth.
struct Decoder<'a> {
    code: &'a [u8],
    pc: usize,
    strings: &'a [String],
    soup_def: Option<&'a SoupDef>,
    instructions: Vec<ScriptInstruction>,
    indent: usize,
}

fn end_message() -> (r: Vec<char>)
    ensures
        r@ == end_of_script(),
{
    chars_of("unexpected end of script")
}

fn eq_ignore_case_str(a: &[char], b: &str) -> (r: bool)
    ensures
        r == eq_ignore_case(a@, b@),
{
    let la = lower_vec(a);
    let bc = chars_of(b);
    let lb = lower_vec(bc.as_slice());
    let s = string_from_chars(lb.as_slice());
    chars_eq_str(la.as_slice(), s.as_str())
}

fn dialogue_function(f: &[char]) -> (r: bool)
    ensures
        r == is_dialogue_function(f@),
{
    eq_ignore_case_str(f, "ACTIVATE") || eq_ignore_case_str(f, "RTX") || eq_ignore_case_str(f, "rtxAnim")
        || eq_ignore_case_str(f, "RTXp") || eq_ignore_case_str(f, "RTXpAnim") || eq_ignore_case_str(f, "AddLog")
        || eq_ignore_case_str(f, "AmbientRtx") || eq_ignore_case_str(f, "menuAddItem") || eq_ignore_case_str(
        f,
        "TorchActivate",
    )
}

fn attribute_function(f: &[char]) -> (r: bool)
    ensures
        r == is_attribute_function(f@),
{
    eq_ignore_case_str(f, "SetAttribute") || eq_ignore_case_str(f, "GetAttribute") || eq_ignore_case_str(
        f,
        "SetMyAttr",
    ) || eq_ignore_case_str(f, "GetMyAttr")
}

fn anim_group_function(f: &[char]) -> (r: bool)
    ensures
        r == is_anim_group_function(f@),
{
    eq_ignore_case_str(f, "PlayAnimation") || eq_ignore_case_str(f, "PushAnimation") || eq_ignore_case_str(
        f,
        "PushControlAnimation",
    ) || eq_ignore_case_str(f, "WaitAnimFrame") || eq_ignore_case_str(f, "WaitPlayerAnimFrame")
        || eq_ignore_case_str(f, "SyncWithGroup")
}

fn axis_function(f: &[char]) -> (r: bool)
    ensures
        r == is_axis_function(f@),
{
    eq_ignore_case_str(f, "MoveByAxis") || eq_ignore_case_str(f, "MoveAlongAxis") || eq_ignore_case_str(
        f,
        "RotateByAxis",
    ) || eq_ignore_case_str(f, "RotateToAxis") || eq_ignore_case_str(f, "sMoveByAxis") || eq_ignore_case_str(
        f,
        "sMoveAlongAxis",
    ) || eq_ignore_case_str(f, "sRotateByAxis") || eq_ignore_case_str(f, "sRotateToAxis")
}

fn value_byte_of(v: i32, k: u32) -> (b: u8)
    requires
        k < 4,
    ensures
        b == value_byte(v, k),
{
    (((v as u32) >> (8 * k)) & 0xff) as u8
}

fn texts_at(v: &Vec<String>, i: usize) -> (r: Vec<char>)
    requires
        i < v@.len(),
    ensures
        r@ == texts(v@)[i as int],
{
    chars_of(v[i].as_str())
}

impl<'a> Decoder<'a> {
    spec fn ctx(&self) -> ScriptCtx {
        ScriptCtx {
            code: self.code@,
            strings: texts(self.strings@),
            soup: soup_opt(self.soup_def),
        }
    }

    /// Same input, lines and depth; the position may have moved.
    spec fn keeps(&self, other: &Self) -> bool {
        &&& self.code == other.code
        &&& self.strings == other.strings
        &&& self.soup_def == other.soup_def
        &&& self.instructions == other.instructions
        &&& self.indent == other.indent
        &&& self.pc <= other.pc <= other.code@.len()
    }

    fn read_u8(&mut self) -> (r: Result<u8, Vec<char>>)
        requires
            old(self).pc <= old(self).code@.len(),
        ensures
            old(self).keeps(final(self)),
            read_rel(r, final(self).pc, sp_u8(old(self).ctx(), old(self).pc as int)),
            r is Ok ==> final(self).pc > old(self).pc,
    {
        if self.pc < self.code.len() {
            let v = self.code[self.pc];
            self.pc += 1;
            Ok(v)
        } else {
            Err(end_message())
        }
    }

    fn read_u16(&mut self) -> (r: Result<u16, Vec<char>>)
        requires
            old(self).pc <= old(self).code@.len(),
        ensures
            old(self).keeps(final(self)),
            read_rel(r, final(self).pc, sp_u16(old(self).ctx(), old(self).pc as int)),
            r is Ok ==> final(self).pc > old(self).pc,
    {
        if self.code.len() - self.pc >= 2 {
            let v = read_u16_le(self.code, self.pc);
            self.pc += 2;
            Ok(v)
        } else {
            Err(end_message())
        }
    }

    fn read_i32(&mut self) -> (r: Result<i32, Vec<char>>)
        requires
            old(self).pc <= old(self).code@.len(),
        ensures
            old(self).keeps(final(self)),
            read_rel(r, final(self).pc, sp_i32(old(self).ctx(), old(self).pc as int)),
            r is Ok ==> final(self).pc > old(self).pc,
    {
        if self.code.len() - self.pc >= 4 {
            let v = read_i32_le(self.code, self.pc);
            self.pc += 4;
            Ok(v)
        } else {
            Err(end_message())
        }
    }

    fn skip(&mut self, count: usize) -> (r: Result<(), Vec<char>>)
        requires
            old(self).pc <= old(self).code@.len(),
        ensures
            old(self).keeps(final(self)),
            match sp_skip(old(self).ctx(), old(self).pc as int, count as int) {
                Ok(p) => r is Ok && final(self).pc == p,
                Err((e, p)) => r matches Err(m) && m@ == e && final(self).pc == p,
            },
    {
        if self.code.len() - self.pc < count {
            return Err(end_message());
        }
        self.pc += count;
        Ok(())
    }

    fn function_name(&self, func_id: u16) -> (r: Vec<char>)
        ensures
            r@ == function_name(self.ctx(), func_id),
    {
        let mut out: Vec<char> = Vec::new();
        if let Some(def) = self.soup_def {
            if (func_id as usize) < def.functions.len() {
                return chars_of(def.functions[func_id as usize].name.as_str());
            }
        }
        push_str_chars(&mut out, "func_");
        push_dec(&mut out, func_id as u64);
        out
    }

    fn flag_name(&self, flag_id: u16) -> (r: Vec<char>)
        ensures
            r@ == flag_name(self.ctx(), flag_id),
    {
        let mut out: Vec<char> = Vec::new();
        if let Some(def) = self.soup_def {
            if (flag_id as usize) < def.flags.len() {
                return chars_of(def.flags[flag_id as usize].name.as_str());
            }
        }
        push_str_chars(&mut out, "Flag");
        push_dec(&mut out, flag_id as u64);
        out
    }

    fn ref_name(&self, ref_id: u16) -> (r: Vec<char>)
        ensures
            r@ == ref_name(self.ctx(), ref_id),
    {
        let idx: usize = (ref_id % 256) as usize;
        let mut out: Vec<char> = Vec::new();
        if let Some(def) = self.soup_def {
            if idx < def.references.len() {
                return texts_at(&def.references, idx);
            }
        }
        push_str_chars(&mut out, "ref_");
        push_dec(&mut out, idx as u64);
        out
    }

    fn label_name(offset: i32) -> (r: Vec<char>)
        ensures
            r@ == label_text(offset),
    {
        let mut out: Vec<char> = Vec::new();
        push_hex(&mut out, (offset as u32) as u64, 4);
        assert(out@ =~= label_text(offset));
        out
    }

    fn decode_ref(&mut self) -> (r: Result<Vec<char>, Vec<char>>)
        requires
            old(self).pc <= old(self).code@.len(),
        ensures
            old(self).keeps(final(self)),
            text_rel(r, final(self).pc, sp_ref(old(self).ctx(), old(self).pc as int)),
            r is Ok ==> final(self).pc > old(self).pc,
    {
        let ref_id = match self.read_u16() {
            Ok(v) => v,
            Err(e) => return Err(e),
        };
        Ok(self.ref_name(ref_id))
    }

    fn decode_object(&mut self) -> (r: Result<Vec<char>, Vec<char>>)
        requires
            old(self).pc <= old(self).code@.len(),
        ensures
            old(self).keeps(final(self)),
            text_rel(r, final(self).pc, sp_object(old(self).ctx(), old(self).pc as int)),
            r is Ok ==> final(self).pc > old(self).pc,
    {
        let obj_type = match self.read_u8() {
            Ok(v) => v,
            Err(e) => return Err(e),
        };
        if obj_type == 0 || obj_type == 1 || obj_type == 2 {
            match self.skip(1) {
                Ok(()) => {},
                Err(e) => return Err(e),
            }
            let name = if obj_type == 0 {
                "Me"
            } else if obj_type == 1 {
                "Player"
            } else {
                "Camera"
            };
            Ok(chars_of(name))
        } else if obj_type == 4 {
            let str_idx = match self.read_u8() {
                Ok(v) => v,
                Err(e) => return Err(e),
            };
            if (str_idx as usize) < self.strings.len() {
                Ok(chars_of(self.strings[str_idx as usize].as_str()))
            } else {
                let mut out: Vec<char> = Vec::new();
                push_str_chars(&mut out, "strings[");
                push_dec(&mut out, str_idx as u64);
                push_str_chars(&mut out, "]");
                Ok(out)
            }
        } else if obj_type == 10 {
            let var_idx = match self.read_u8() {
                Ok(v) => v,
                Err(e) => return Err(e),
            };
            let mut out: Vec<char> = Vec::new();
            push_str_chars(&mut out, "var");
            push_dec(&mut out, var_idx as u64);
            Ok(out)
        } else {
            let mut out: Vec<char> = Vec::new();
            push_str_chars(&mut out, "ObjectType");
            push_dec(&mut out, obj_type as u64);
            Ok(out)
        }
    }

    fn decode_numeric_parameter(&self, value: i32, context: Option<(&[char], usize)>) -> (r: Vec<char>)
        ensures
            r@ == numeric_param(self.ctx(), value, ctx_view(context)),
    {
        let mut out: Vec<char> = Vec::new();
        let (function_name, param_index) = match context {
            Some(c) => c,
            None => {
                push_dec_i32(&mut out, value);
                return out;
            },
        };
        if param_index != 0 {
            push_dec_i32(&mut out, value);
            return out;
        }
        if dialogue_function(function_name) {
            let b0 = value_byte_of(value, 0);
            let b1 = value_byte_of(value, 1);
            let b2 = value_byte_of(value, 2);
            let b3 = value_byte_of(value, 3);
            if 0x20 <= b0 && b0 <= 0x7e && 0x20 <= b1 && b1 <= 0x7e && 0x20 <= b2 && b2 <= 0x7e && 0x20 <= b3
                && b3 <= 0x7e {
                out.push('"');
                out.push(b0 as char);
                out.push(b1 as char);
                out.push(b2 as char);
                out.push(b3 as char);
                out.push('"');
                assert(out@ =~= seq!['"'] + key_chars(value) + seq!['"']);
                return out;
            }
        }
        if attribute_function(function_name) {
            if let Some(def) = self.soup_def {
                if 0 <= value && (value as usize) < def.attributes.len() {
                    return texts_at(&def.attributes, value as usize);
                }
            }
        }
        if anim_group_function(function_name) {
            if let Some(def) = self.soup_def {
                if 0 <= value && (value as usize) < def.anim_groups.len() {
                    return texts_at(&def.anim_groups, value as usize);
                }
            }
        }
        if axis_function(function_name) && 0 <= value && value < 3 {
            let name = if value == 0 {
                "axis_x"
            } else if value == 1 {
                "axis_y"
            } else {
                "axis_z"
            };
            return chars_of(name);
        }
        push_dec_i32(&mut out, value);
        out
    }
}

fn join_chars(parts: &Vec<Vec<char>>, sep: &str) -> (r: Vec<char>)
    ensures
        r@ == join(char_texts(parts@), sep@),
{
    let mut out: Vec<char> = Vec::new();
    let mut i: usize = 0;
    while i < parts.len()
        invariant
            i <= parts@.len(),
            out@ == join(char_texts(parts@).take(i as int), sep@),
        decreases parts@.len() - i,
    {
        let ghost ts = char_texts(parts@);
        assert(ts.take(i + 1).drop_last() =~= ts.take(i as int));
        if i > 0 {
            push_str_chars(&mut out, sep);
        }
        let mut part = parts[i].clone();
        proof {
            assert(part@ == parts@[i as int]@);
        }
        out.append(&mut part);
        proof {
            if i == 0 {
                assert(out@ =~= join(ts.take(1), sep@));
            } else {
                assert(out@ =~= join(ts.take(i as int), sep@) + sep@ + ts[i as int]);
            }
        }
        i += 1;
    }
    assert(char_texts(parts@).take(i as int) =~= char_texts(parts@));
    out
}

impl<'a> Decoder<'a> {
    #[verifier::rlimit(40)]
    fn decode_value(&mut self, mode: ValueMode, param_context: Option<(&[char], usize)>) -> (r: Result<
        Vec<char>,
        Vec<char>,
    >)
        requires
            old(self).pc <= old(self).code@.len(),
        ensures
            old(self).keeps(final(self)),
            text_rel(r, final(self).pc, sp_value(old(self).ctx(), old(self).pc as int, mode, ctx_view(param_context))),
            r is Ok ==> final(self).pc > old(self).pc,
        decreases old(self).code@.len() - old(self).pc, 0int,
    {
        let ghost c = self.ctx();
        let ghost pc0 = self.pc as int;
        let opcode = match self.read_u8() {
            Ok(v) => v,
            Err(e) => return Err(e),
        };
        let mut out: Vec<char> = Vec::new();
        if opcode <= 2 {
            self.decode_call(opcode)
        } else if opcode == 3 {
            self.decode_if()
        } else if opcode == 4 || opcode == 0x11 || opcode == 0x1B {
            let target = match self.read_i32() {
                Ok(v) => v,
                Err(e) => return Err(e),
            };
            let mut label = Self::label_name(target);
            if opcode == 4 {
                push_str_chars(&mut out, "Goto ");
                out.append(&mut label);
            } else if opcode == 0x11 {
                push_str_chars(&mut out, "Gosub ");
                out.append(&mut label);
            } else {
                push_str_chars(&mut out, "<TaskPause(");
                out.append(&mut label);
                push_str_chars(&mut out, ")>");
            }
            Ok(out)
        } else if opcode == 5 {
            let target = match self.read_i32() {
                Ok(v) => v,
                Err(e) => return Err(e),
            };
            if target == 0 {
                push_str_chars(&mut out, "End");
            } else {
                push_str_chars(&mut out, "End ");
                let mut label = Self::label_name(target);
                out.append(&mut label);
            }
            Ok(out)
        } else if opcode == 6 {
            let flag_id = match self.read_u16() {
                Ok(v) => v,
                Err(e) => return Err(e),
            };
            let base = self.flag_name(flag_id);
            self.decode_assigned(mode, base, 2)
        } else if opcode == 7 || opcode == 0x16 {
            let value = match self.read_i32() {
                Ok(v) => v,
                Err(e) => return Err(e),
            };
            match mode {
                ValueMode::Parameter => Ok(self.decode_numeric_parameter(value, param_context)),
                _ => {
                    push_dec_i32(&mut out, value);
                    Ok(out)
                },
            }
        } else if opcode == 0x0A {
            let idx = match self.read_u8() {
                Ok(v) => v,
                Err(e) => return Err(e),
            };
            push_str_chars(&mut out, "var");
            push_dec(&mut out, idx as u64);
            self.decode_assigned(mode, out, 3)
        } else if opcode == 0x0F || opcode == 0x10 {
            let mut object = match self.decode_object() {
                Ok(v) => v,
                Err(e) => return Err(e),
            };
            let mut reference = match self.decode_ref() {
                Ok(v) => v,
                Err(e) => return Err(e),
            };
            out.append(&mut object);
            push_str_chars(&mut out, ".");
            out.append(&mut reference);
            push_str_chars(&mut out, if opcode == 0x0F { "++" } else { "--" });
            Ok(out)
        } else if opcode == 0x12 {
            Ok(chars_of("Return"))
        } else if opcode == 0x13 {
            Ok(chars_of("Endint"))
        } else if opcode == 0x14 {
            let mut object = match self.decode_object() {
                Ok(v) => v,
                Err(e) => return Err(e),
            };
            let mut reference = match self.decode_ref() {
                Ok(v) => v,
                Err(e) => return Err(e),
            };
            out.append(&mut object);
            push_str_chars(&mut out, ".");
            out.append(&mut reference);
            match mode {
                ValueMode::Main => {
                    let mut f = match self.decode_formula() {
                        Ok(v) => v,
                        Err(e) => return Err(e),
                    };
                    push_str_chars(&mut out, " = ");
                    out.append(&mut f);
                },
                ValueMode::Lhs => {
                    match self.read_u8() {
                        Ok(_) => {},
                        Err(e) => return Err(e),
                    }
                },
                _ => {},
            }
            Ok(out)
        } else if opcode == 0x15 {
            let v = match self.read_i32() {
                Ok(v) => v,
                Err(e) => return Err(e),
            };
            let idx: usize = if v < 0 {
                0
            } else {
                v as usize
            };
            if idx < self.strings.len() {
                out.push('"');
                let mut text = chars_of(self.strings[idx].as_str());
                out.append(&mut text);
                out.push('"');
                assert(out@ =~= seq!['"'] + texts(self.strings@)[idx as int] + seq!['"']);
            } else {
                push_str_chars(&mut out, "strings[");
                push_dec(&mut out, idx as u64);
                push_str_chars(&mut out, "]");
            }
            Ok(out)
        } else if opcode == 0x17 {
            let v = match self.read_u8() {
                Ok(v) => v,
                Err(e) => return Err(e),
            };
            push_str_chars(&mut out, "<Anchor>=");
            push_dec(&mut out, v as u64);
            Ok(out)
        } else if opcode == 0x19 || opcode == 0x1A {
            let mut object = match self.decode_object() {
                Ok(v) => v,
                Err(e) => return Err(e),
            };
            let mut inner = match mode {
                ValueMode::Main => match self.decode_value(ValueMode::Formula, None) {
                    Ok(v) => v,
                    Err(e) => return Err(e),
                },
                _ => match self.decode_call(2) {
                    Ok(v) => v,
                    Err(e) => return Err(e),
                },
            };
            out.append(&mut object);
            push_str_chars(&mut out, ".");
            out.append(&mut inner);
            Ok(out)
        } else if opcode == 0x1E {
            let rv = match self.read_u8() {
                Ok(v) => v,
                Err(e) => return Err(e),
            };
            let b0 = match self.read_u8() {
                Ok(v) => v,
                Err(e) => return Err(e),
            };
            let b1 = match self.read_u8() {
                Ok(v) => v,
                Err(e) => return Err(e),
            };
            let b2 = match self.read_u8() {
                Ok(v) => v,
                Err(e) => return Err(e),
            };
            let b3 = match self.read_u8() {
                Ok(v) => v,
                Err(e) => return Err(e),
            };
            push_str_chars(&mut out, "if <ScriptRv> = ");
            push_dec(&mut out, rv as u64);
            push_str_chars(&mut out, " [block ");
            push_hex(&mut out, b0 as u64, 2);
            push_str_chars(&mut out, " ");
            push_hex(&mut out, b1 as u64, 2);
            push_str_chars(&mut out, " ");
            push_hex(&mut out, b2 as u64, 2);
            push_str_chars(&mut out, " ");
            push_hex(&mut out, b3 as u64, 2);
            push_str_chars(&mut out, "]");
            Ok(out)
        } else {
            push_str_chars(&mut out, "unknown opcode 0x");
            push_hex(&mut out, opcode as u64, 2);
            Err(out)
        }
    }

    fn decode_assigned(&mut self, mode: ValueMode, base: Vec<char>, skip: usize) -> (r: Result<
        Vec<char>,
        Vec<char>,
    >)
        requires
            old(self).pc <= old(self).code@.len(),
        ensures
            old(self).keeps(final(self)),
            text_rel(r, final(self).pc, sp_assigned(old(self).ctx(), old(self).pc as int, mode, base@, skip as int)),
        decreases old(self).code@.len() - old(self).pc, 2int,
    {
        let ghost c = self.ctx();
        let ghost pc0 = self.pc as int;
        let ghost b = base@;
        let mut out = base;
        match mode {
            ValueMode::Main => {
                let mut f = match self.decode_formula() {
                    Ok(v) => v,
                    Err(e) => return Err(e),
                };
                let ghost fv = f@;
                push_str_chars(&mut out, " = ");
                out.append(&mut f);
                assert(out@ == b + " = "@ + fv);
                assert(sp_formula(c, pc0) == Ok::<(Seq<char>, int), (Seq<char>, int)>((fv, self.pc as int)));
                Ok(out)
            },
            ValueMode::Lhs | ValueMode::Rhs => {
                match self.read_u8() {
                    Ok(_) => {},
                    Err(e) => return Err(e),
                }
                Ok(out)
            },
            ValueMode::Parameter => {
                match self.skip(skip) {
                    Ok(()) => {},
                    Err(e) => return Err(e),
                }
                Ok(out)
            },
            ValueMode::Formula => Ok(out),
        }
    }

    fn decode_call(&mut self, call_type: u8) -> (r: Result<Vec<char>, Vec<char>>)
        requires
            old(self).pc <= old(self).code@.len(),
        ensures
            old(self).keeps(final(self)),
            text_rel(r, final(self).pc, sp_call(old(self).ctx(), old(self).pc as int, call_type)),
            r is Ok ==> final(self).pc > old(self).pc,
        decreases old(self).code@.len() - old(self).pc, 2int,
    {
        let ghost pc0 = self.pc as int;
        let func_id = match self.read_u16() {
            Ok(v) => v,
            Err(e) => return Err(e),
        };
        let name = self.function_name(func_id);
        let param_count: u8 = if func_id == 0 {
            0
        } else {
            match self.read_u8() {
                Ok(v) => v,
                Err(e) => return Err(e),
            }
        };
        let mut params = match self.decode_params(name.as_slice(), 0, param_count as usize) {
            Ok(v) => v,
            Err(e) => return Err(e),
        };
        let mut out: Vec<char> = Vec::new();
        push_str_chars(&mut out, if call_type == 1 { "@" } else { "" });
        let mut name_text = name.clone();
        assert(name_text@ == name@);
        out.append(&mut name_text);
        push_str_chars(&mut out, "(");
        let mut joined = join_chars(&params, ", ");
        out.append(&mut joined);
        push_str_chars(&mut out, ")");
        Ok(out)
    }

    fn decode_params(&mut self, name: &[char], i: usize, n: usize) -> (r: Result<Vec<Vec<char>>, Vec<char>>)
        requires
            old(self).pc <= old(self).code@.len(),
        ensures
            old(self).keeps(final(self)),
            match (r, sp_params(old(self).ctx(), old(self).pc as int, name@, i as int, n as int)) {
                (Ok(ps), Ok((sps, p))) => char_texts(ps@) == sps && final(self).pc == p,
                (Err(e), Err((se, p))) => e@ == se && final(self).pc == p,
                _ => false,
            },
        decreases old(self).code@.len() - old(self).pc, 1int,
    {
        if i >= n {
            let empty: Vec<Vec<char>> = Vec::new();
            assert(char_texts(empty@) =~= Seq::<Seq<char>>::empty());
            return Ok(empty);
        }
        let ghost pc0 = self.pc as int;
        let v = match self.decode_value(ValueMode::Parameter, Some((name, i))) {
            Ok(v) => v,
            Err(e) => return Err(e),
        };
        let mut rest = match self.decode_params(name, i + 1, n) {
            Ok(v) => v,
            Err(e) => return Err(e),
        };
        let ghost rest_texts = char_texts(rest@);
        let ghost vt = v@;
        let mut out: Vec<Vec<char>> = Vec::new();
        out.push(v);
        out.append(&mut rest);
        assert(char_texts(out@) =~= seq![vt] + rest_texts);
        Ok(out)
    }
}

impl<'a> Decoder<'a> {
    fn decode_formula(&mut self) -> (r: Result<Vec<char>, Vec<char>>)
        requires
            old(self).pc <= old(self).code@.len(),
        ensures
            old(self).keeps(final(self)),
            text_rel(r, final(self).pc, sp_formula(old(self).ctx(), old(self).pc as int)),
            r is Ok ==> final(self).pc > old(self).pc,
        decreases old(self).code@.len() - old(self).pc, 1int,
    {
        let mut out = match self.decode_value(ValueMode::Formula, None) {
            Ok(v) => v,
            Err(e) => return Err(e),
        };
        let op = match self.read_u8() {
            Ok(v) => v,
            Err(e) => return Err(e),
        };
        if op == 10 || op == 11 {
            match self.skip(1) {
                Ok(()) => {},
                Err(e) => return Err(e),
            }
            push_str_chars(&mut out, if op == 10 { "++" } else { "--" });
            Ok(out)
        } else if 1 <= op && op <= 9 {
            let mut rest = match self.decode_formula() {
                Ok(v) => v,
                Err(e) => return Err(e),
            };
            push_str_chars(&mut out, " ");
            push_str_chars(
                &mut out,
                if op == 1 {
                    "+"
                } else if op == 2 {
                    "-"
                } else if op == 3 {
                    "*"
                } else if op == 4 {
                    "/"
                } else if op == 5 {
                    "<<"
                } else if op == 6 {
                    ">>"
                } else if op == 7 {
                    "&"
                } else if op == 8 {
                    "|"
                } else {
                    "^"
                },
            );
            push_str_chars(&mut out, " ");
            out.append(&mut rest);
            Ok(out)
        } else {
            Ok(out)
        }
    }

    fn decode_cond(&mut self) -> (r: Result<Vec<char>, Vec<char>>)
        requires
            old(self).pc <= old(self).code@.len(),
        ensures
            old(self).keeps(final(self)),
            text_rel(r, final(self).pc, sp_cond(old(self).ctx(), old(self).pc as int)),
            r is Ok ==> final(self).pc > old(self).pc,
        decreases old(self).code@.len() - old(self).pc, 1int,
    {
        let mut out = match self.decode_value(ValueMode::Lhs, None) {
            Ok(v) => v,
            Err(e) => return Err(e),
        };
        let relation = match self.read_u8() {
            Ok(v) => v,
            Err(e) => return Err(e),
        };
        let mut rhs = match self.decode_value(ValueMode::Rhs, None) {
            Ok(v) => v,
            Err(e) => return Err(e),
        };
        let conj = match self.read_u8() {
            Ok(v) => v,
            Err(e) => return Err(e),
        };
        push_str_chars(&mut out, " ");
        push_str_chars(
            &mut out,
            if relation == 0 {
                "="
            } else if relation == 1 {
                "!="
            } else if relation == 2 {
                "<"
            } else if relation == 3 {
                ">"
            } else if relation == 4 {
                "<="
            } else if relation == 5 {
                ">="
            } else {
                "?"
            },
        );
        push_str_chars(&mut out, " ");
        out.append(&mut rhs);
        if conj == 1 || conj == 2 {
            let mut rest = match self.decode_cond() {
                Ok(v) => v,
                Err(e) => return Err(e),
            };
            push_str_chars(&mut out, if conj == 1 { " and " } else { " or " });
            out.append(&mut rest);
        }
        Ok(out)
    }

    fn decode_if(&mut self) -> (r: Result<Vec<char>, Vec<char>>)
        requires
            old(self).pc <= old(self).code@.len(),
        ensures
            old(self).keeps(final(self)),
            text_rel(r, final(self).pc, sp_if(old(self).ctx(), old(self).pc as int)),
            r is Ok ==> final(self).pc > old(self).pc,
        decreases old(self).code@.len() - old(self).pc, 2int,
    {
        let ghost c = self.ctx();
        let ghost pc0 = self.pc as int;
        let mut cond = match self.decode_cond() {
            Ok(v) => v,
            Err(e) => return Err(e),
        };
        let ghost p1 = self.pc as int;
        let ghost t = cond@;
        let end_offset = match self.read_i32() {
            Ok(v) => v,
            Err(e) => return Err(e),
        };
        let ghost p2 = self.pc as int;
        let block: usize = if end_offset < 0 {
            0
        } else {
            end_offset as usize
        };
        let target_end: usize = if block < self.code.len() {
            block
        } else {
            self.code.len()
        };
        let mut out: Vec<char> = Vec::new();
        push_str_chars(&mut out, "if ");
        out.append(&mut cond);
        if target_end > self.pc {
            let mut suffix = self.nested_suffix(target_end);
            out.append(&mut suffix);
        }
        proof {
            assert(self.ctx() == c);
            assert(moved(c, pc0, p1));
            assert(sp_cond(c, pc0) == Ok::<(Seq<char>, int), (Seq<char>, int)>((t, p1)));
            assert(sp_i32(c, p1) == Ok::<(i32, int), (Seq<char>, int)>((end_offset, p2)));
            assert(target_end as int == block_end(c, end_offset));
        }
        Ok(out)
    }

    fn nested_suffix(&mut self, target_end: usize) -> (r: Vec<char>)
        requires
            old(self).pc < target_end <= old(self).code@.len(),
        ensures
            old(self).keeps(final(self)),
            r@ == block_suffix(sp_nested(old(self).ctx(), old(self).pc as int, target_end as int).0),
            final(self).pc == sp_nested(old(self).ctx(), old(self).pc as int, target_end as int).1,
        decreases old(self).code@.len() - old(self).pc, 2int,
    {
        let nested = self.decode_nested(target_end);
        let mut out: Vec<char> = Vec::new();
        if nested.len() > 0 {
            push_str_chars(&mut out, " { ");
            let mut joined = join_chars(&nested, "; ");
            out.append(&mut joined);
            push_str_chars(&mut out, " }");
        } else {
            push_str_chars(&mut out, "");
        }
        out
    }

    fn decode_nested(&mut self, target_end: usize) -> (r: Vec<Vec<char>>)
        requires
            old(self).pc <= old(self).code@.len(),
            target_end <= old(self).code@.len(),
        ensures
            old(self).keeps(final(self)),
            (char_texts(r@), final(self).pc as int) == sp_nested(old(self).ctx(), old(self).pc as int, target_end as int),
        decreases old(self).code@.len() - old(self).pc, 1int,
    {
        let mut out: Vec<Vec<char>> = Vec::new();
        if self.pc >= target_end {
            assert(char_texts(out@) =~= Seq::<Seq<char>>::empty());
            return out;
        }
        let nested_start = self.pc;
        let mut line: Vec<char> = Vec::new();
        push_dec(&mut line, nested_start as u64);
        match self.decode_value(ValueMode::Main, None) {
            Ok(mut text) => {
                push_str_chars(&mut line, ":");
                line.append(&mut text);
                let mut rest = self.decode_nested(target_end);
                let ghost rest_texts = char_texts(rest@);
                let ghost lt = line@;
                out.push(line);
                out.append(&mut rest);
                assert(char_texts(out@) =~= seq![lt] + rest_texts);
            },
            Err(mut err) => {
                push_str_chars(&mut line, ":<error: ");
                line.append(&mut err);
                push_str_chars(&mut line, ">");
                let ghost lt = line@;
                out.push(line);
                self.pc = target_end;
                assert(char_texts(out@) =~= seq![lt]);
            },
        }
        out
    }
}

impl<'a> Decoder<'a> {
    /// Same input and depth; the position has not moved back.
    spec fn frames(&self, other: &Self) -> bool {
        &&& self.code == other.code
        &&& self.strings == other.strings
        &&& self.soup_def == other.soup_def
        &&& self.indent == other.indent
        &&& self.pc <= other.pc <= other.code@.len()
    }

    fn push_line(&mut self, addr: usize, text: &[char])
        ensures
            final(self).code == old(self).code,
            final(self).strings == old(self).strings,
            final(self).soup_def == old(self).soup_def,
            final(self).indent == old(self).indent,
            final(self).pc == old(self).pc,
            instrs_view(final(self).instructions@) == instrs_view(old(self).instructions@).push(
                (addr as int, old(self).indent as int, text@),
            ),
    {
        let line = ScriptInstruction { addr, indent: self.indent, text: string_from_chars(text) };
        self.instructions.push(line);
        assert(instrs_view(self.instructions@) =~= instrs_view(old(self).instructions@).push(
            (addr as int, old(self).indent as int, text@),
        ));
    }

    fn push_error_line(&mut self, addr: usize, err: &[char])
        ensures
            final(self).code == old(self).code,
            final(self).strings == old(self).strings,
            final(self).soup_def == old(self).soup_def,
            final(self).indent == old(self).indent,
            final(self).pc == old(self).pc,
            instrs_view(final(self).instructions@) == instrs_view(old(self).instructions@).push(
                error_line(addr as int, old(self).indent as int, err@),
            ),
    {
        let mut text: Vec<char> = Vec::new();
        push_str_chars(&mut text, "<error: ");
        let mut e = vstd::slice::slice_to_vec(err);
        text.append(&mut e);
        push_str_chars(&mut text, ">");
        self.push_line(addr, text.as_slice());
    }

    fn decode_statement(&mut self) -> (r: Result<(), Vec<char>>)
        requires
            old(self).pc <= old(self).code@.len(),
            old(self).indent <= old(self).pc,
        ensures
            old(self).frames(final(self)),
            match sp_stmt(old(self).ctx(), old(self).pc as int, old(self).indent as int) {
                Ok((is, p)) => r is Ok && final(self).pc == p && final(self).pc > old(self).pc && instrs_view(
                    final(self).instructions@,
                ) == instrs_view(old(self).instructions@) + is,
                Err((e, p)) => r matches Err(m) && m@ == e && final(self).pc == p && final(self).instructions
                    == old(self).instructions,
            },
        decreases old(self).code@.len() - old(self).pc, 1int,
    {
        let ghost c = self.ctx();
        let addr = self.pc;
        if self.pc >= self.code.len() {
            return Err(end_message());
        }
        let opcode = self.code[self.pc];
        if opcode == 0x03 {
            self.pc += 1;
            self.decode_if_block(addr)
        } else if opcode == 0x1E {
            self.pc += 1;
            let rv = match self.read_u8() {
                Ok(v) => v,
                Err(e) => return Err(e),
            };
            let mut condition: Vec<char> = Vec::new();
            push_str_chars(&mut condition, "if <ScriptRv> = ");
            push_dec(&mut condition, rv as u64);
            self.push_line(addr, condition.as_slice());
            let block_end: usize = if self.code.len() - self.pc > 4 {
                self.pc + 4
            } else {
                self.code.len()
            };
            let ghost before = instrs_view(self.instructions@);
            self.indent += 1;
            self.decode_block(block_end);
            self.indent -= 1;
            assert(instrs_view(self.instructions@) =~= instrs_view(old(self).instructions@) + sp_stmt(
                c,
                addr as int,
                old(self).indent as int,
            )->Ok_0.0);
            Ok(())
        } else {
            let text = match self.decode_value(ValueMode::Main, None) {
                Ok(v) => v,
                Err(e) => return Err(e),
            };
            self.push_line(addr, text.as_slice());
            Ok(())
        }
    }

    fn decode_if_block(&mut self, addr: usize) -> (r: Result<(), Vec<char>>)
        requires
            old(self).pc <= old(self).code@.len(),
            old(self).indent <= old(self).pc,
            addr < old(self).pc,
        ensures
            old(self).frames(final(self)),
            match sp_if_block(old(self).ctx(), old(self).pc as int, addr as int, old(self).indent as int) {
                Ok((is, p)) => r is Ok && final(self).pc == p && final(self).pc > old(self).pc && instrs_view(
                    final(self).instructions@,
                ) == instrs_view(old(self).instructions@) + is,
                Err((e, p)) => r matches Err(m) && m@ == e && final(self).pc == p && final(self).instructions
                    == old(self).instructions,
            },
        decreases old(self).code@.len() - old(self).pc, 2int,
    {
        let ghost c = self.ctx();
        let mut cond = match self.decode_cond() {
            Ok(v) => v,
            Err(e) => return Err(e),
        };
        let end_offset = match self.read_i32() {
            Ok(v) => v,
            Err(e) => return Err(e),
        };
        let block: usize = if end_offset < 0 {
            0
        } else {
            end_offset as usize
        };
        let block_end: usize = if block < self.code.len() {
            block
        } else {
            self.code.len()
        };
        let mut condition: Vec<char> = Vec::new();
        push_str_chars(&mut condition, "if ");
        condition.append(&mut cond);
        self.push_line(addr, condition.as_slice());
        self.indent += 1;
        self.decode_block(block_end);
        self.indent -= 1;
        assert(instrs_view(self.instructions@) =~= instrs_view(old(self).instructions@) + sp_if_block(
            c,
            old(self).pc as int,
            addr as int,
            old(self).indent as int,
        )->Ok_0.0);
        Ok(())
    }

    fn decode_block(&mut self, block_end: usize)
        requires
            old(self).pc <= old(self).code@.len(),
            old(self).indent <= old(self).pc,
            block_end <= old(self).code@.len(),
        ensures
            old(self).frames(final(self)),
            instrs_view(final(self).instructions@) == instrs_view(old(self).instructions@) + sp_block(
                old(self).ctx(),
                old(self).pc as int,
                block_end as int,
                old(self).indent as int,
            ).0,
            final(self).pc == sp_block(old(self).ctx(), old(self).pc as int, block_end as int, old(self).indent as int).1,
        decreases old(self).code@.len() - old(self).pc, 2int,
    {
        if self.pc >= block_end {
            assert(instrs_view(self.instructions@) =~= instrs_view(old(self).instructions@) + Seq::<
                (int, int, Seq<char>),
            >::empty());
            return;
        }
        match self.decode_statement() {
            Ok(()) => {
                self.decode_block(block_end);
                assert(instrs_view(self.instructions@) =~= instrs_view(old(self).instructions@) + sp_block(
                    old(self).ctx(),
                    old(self).pc as int,
                    block_end as int,
                    old(self).indent as int,
                ).0);
            },
            Err(e) => {
                let at = self.pc;
                self.push_error_line(at, e.as_slice());
                self.pc = block_end;
                assert(instrs_view(self.instructions@) =~= instrs_view(old(self).instructions@) + sp_block(
                    old(self).ctx(),
                    old(self).pc as int,
                    block_end as int,
                    old(self).indent as int,
                ).0);
            },
        }
    }
}

/// The definitions as values, when given.
pub open spec fn soup_opt(s: Option<&SoupDef>) -> Option<SoupModel> {
    match s {
        Some(d) => Some(soup_view(*d)),
        None => None,
    }
}

impl<'a> Decoder<'a> {
    fn decode_all(&mut self)
        requires
            old(self).pc <= old(self).code@.len(),
            old(self).indent == 0,
        ensures
            instrs_view(final(self).instructions@) == instrs_view(old(self).instructions@) + sp_script_from(
                old(self).ctx(),
                old(self).pc as int,
            ),
        decreases old(self).code@.len() - old(self).pc,
    {
        if self.pc >= self.code.len() {
            assert(instrs_view(self.instructions@) =~= instrs_view(old(self).instructions@) + Seq::<
                (int, int, Seq<char>),
            >::empty());
            return;
        }
        match self.decode_statement() {
            Ok(()) => {
                self.decode_all();
                assert(instrs_view(self.instructions@) =~= instrs_view(old(self).instructions@) + sp_script_from(
                    old(self).ctx(),
                    old(self).pc as int,
                ));
            },
            Err(e) => {
                let at = self.pc;
                self.push_error_line(at, e.as_slice());
                assert(instrs_view(self.instructions@) =~= instrs_view(old(self).instructions@) + sp_script_from(
                    old(self).ctx(),
                    old(self).pc as int,
                ));
            },
        }
    }
}

/// Disassembles `code` from `script_pc` (negative read as 0), naming
/// strings, functions, flags and references from `strings` and `soup_def`.
pub fn disassemble_script(code: &[u8], script_pc: i32, strings: &[String], soup_def: Option<&SoupDef>) -> (r: Vec<
    ScriptInstruction,
>)
    ensures
        instrs_view(r@) == sp_script(
            ScriptCtx { code: code@, strings: texts(strings@), soup: soup_opt(soup_def) },
            script_pc,
        ),
{
    let start: usize = if script_pc < 0 {
        0
    } else {
        script_pc as usize
    };
    let mut decoder = Decoder { code, pc: start, strings, soup_def, instructions: Vec::new(), indent: 0 };
    if start > code.len() {
        let mut text: Vec<char> = Vec::new();
        push_str_chars(&mut text, "<error: script_pc ");
        push_dec_i32(&mut text, script_pc);
        push_str_chars(&mut text, " out of bounds>");
        decoder.pc = 0;
        decoder.push_line(code.len(), text.as_slice());
        assert(instrs_view(decoder.instructions@) =~= sp_script(
            ScriptCtx { code: code@, strings: texts(strings@), soup: soup_opt(soup_def) },
            script_pc,
        ));
        return decoder.instructions;
    }
    assert(instrs_view(decoder.instructions@) =~= Seq::<(int, int, Seq<char>)>::empty());
    decoder.decode_all();
    assert(instrs_view(decoder.instructions@) =~= sp_script(
        ScriptCtx { code: code@, strings: texts(strings@), soup: soup_opt(soup_def) },
        script_pc,
    ));
    decoder.instructions
}

/// The text at `off` up to the first zero byte (or the end), decoded with
/// replacement characters; nothing when `off` is past the end.
pub open spec fn zstring_at(b: Seq<u8>, off: int) -> Option<Seq<char>> {
    if off > b.len() {
        None
    } else {
        Some(utf8_lossy(b.subrange(off, first_zero_from(b, off))))
    }
}

fn read_null_terminated_string(bytes: &[u8], offset: usize) -> (r: Option<String>)
    ensures
        match r {
            Some(t) => zstring_at(bytes@, offset as int) == Some(t@),
            None => zstring_at(bytes@, offset as int) is None,
        },
{
    if offset > bytes.len() {
        return None;
    }
    let mut end: usize = offset;
    while end < bytes.len() && bytes[end] != 0
        invariant
            offset <= end <= bytes@.len(),
            first_zero_from(bytes@, offset as int) == first_zero_from(bytes@, end as int),
        decreases bytes@.len() - end,
    {
        end += 1;
    }
    Some(lossy_string(vstd::slice::slice_subrange(bytes, offset, end)))
}

/// How many strings of an actor are read: the declared count, as far as
/// the offset table holds entries.
pub open spec fn actor_string_count(num: i32, index: i32, table_len: int) -> int {
    if num <= 0 || index < 0 {
        0
    } else {
        let avail: int = if index <= table_len {
            (table_len - index) / 4
        } else {
            0
        };
        if (num as int) < avail {
            num as int
        } else {
            avail
        }
    }
}

/// String `i` of an actor: the text at the offset that entry `i` of the
/// table (from `index`) holds, negative read as 0; empty past the end.
pub open spec fn actor_string(index: i32, i: int, rast: Seq<u8>, rasb: Seq<u8>) -> Seq<char> {
    let off = spec_i32_of(spec_u32_le(rasb, index + 4 * i));
    let o: int = if off < 0 {
        0
    } else {
        off
    };
    match zstring_at(rast, o) {
        Some(t) => t,
        None => Seq::empty(),
    }
}

/// The strings of an actor.
pub open spec fn actor_strings(num: i32, index: i32, rast: Seq<u8>, rasb: Seq<u8>) -> Seq<Seq<char>> {
    Seq::new(actor_string_count(num, index, rasb.len() as int) as nat, |i: int| actor_string(index, i, rast, rasb))
}

fn read_actor_strings(num_strings: i32, string_offsets_index: i32, rast: &[u8], rasb: &[u8]) -> (r: Vec<String>)
    ensures
        texts(r@) == actor_strings(num_strings, string_offsets_index, rast@, rasb@),
{
    let mut out: Vec<String> = Vec::new();
    if num_strings <= 0 || string_offsets_index < 0 {
        assert(texts(out@) =~= actor_strings(num_strings, string_offsets_index, rast@, rasb@));
        return out;
    }
    let base: usize = string_offsets_index as usize;
    let rasb_len: usize = rasb.len();
    let avail: usize = if base <= rasb.len() {
        (rasb.len() - base) / 4
    } else {
        0
    };
    let count: usize = if (num_strings as usize) < avail {
        num_strings as usize
    } else {
        avail
    };
    let mut i: usize = 0;
    while i < count
        invariant
            count == actor_string_count(num_strings, string_offsets_index, rasb@.len() as int),
            count <= avail,
            avail > 0 ==> base <= rasb@.len() && avail == (rasb@.len() - base) / 4,
            base == string_offsets_index as int,
            rasb_len == rasb@.len(),
            i <= count,
            texts(out@) =~= actor_strings(num_strings, string_offsets_index, rast@, rasb@).take(i as int),
        decreases count - i,
    {
        assert(base + i * 4 + 4 <= rasb@.len()) by (nonlinear_arith)
            requires
                i < avail,
                avail == (rasb@.len() - base) / 4,
                base <= rasb@.len(),
        ;
        assert(i * 4 <= rasb@.len());
        let step: usize = i * 4;
        let offset: usize = base + step;
        let str_off = read_i32_le(rasb, offset);
        let o: usize = if str_off < 0 {
            0
        } else {
            str_off as usize
        };
        let t = match read_null_terminated_string(rast, o) {
            Some(t) => t,
            None => String::new(),
        };
        let ghost tv = t@;
        assert(tv == actor_string(string_offsets_index, i as int, rast@, rasb@));
        let ghost before = out@;
        out.push(t);
        proof {
            assert(texts(out@) =~= texts(before).push(tv));
            assert(texts(out@) =~= actor_strings(num_strings, string_offsets_index, rast@, rasb@).take(i + 1));
        }
        i += 1;
    }
    out
}

/// How many variables of an actor are read: the declared count, as far as
/// whole 32-bit values from word `offset / 4` lie in the data.
pub open spec fn actor_variable_count(num: i32, offset: i32, data_len: int) -> int {
    if num <= 0 || offset < 0 {
        0
    } else {
        let avail = data_len / 4 - offset / 4;
        if avail < 0 {
            0
        } else if (num as int) < avail {
            num as int
        } else {
            avail
        }
    }
}

/// The variables of an actor: consecutive 32-bit values from word `offset / 4`.
pub open spec fn actor_variables(num: i32, offset: i32, rava: Seq<u8>) -> Seq<i32> {
    Seq::new(
        actor_variable_count(num, offset, rava.len() as int) as nat,
        |i: int| spec_i32_of(spec_u32_le(rava, (offset / 4 + i) * 4)) as i32,
    )
}

fn read_actor_variables(num_vars: i32, variable_offset: i32, rava: &[u8]) -> (r: Vec<i32>)
    ensures
        r@ == actor_variables(num_vars, variable_offset, rava@),
{
    let mut out: Vec<i32> = Vec::new();
    if num_vars <= 0 || variable_offset < 0 {
        assert(out@ =~= actor_variables(num_vars, variable_offset, rava@));
        return out;
    }
    let base_index: usize = (variable_offset / 4) as usize;
    let rava_len: usize = rava.len();
    let words: usize = rava.len() / 4;
    let avail: usize = if base_index < words {
        words - base_index
    } else {
        0
    };
    let count: usize = if (num_vars as usize) < avail {
        num_vars as usize
    } else {
        avail
    };
    let mut i: usize = 0;
    while i < count
        invariant
            count == actor_variable_count(num_vars, variable_offset, rava@.len() as int),
            count <= avail,
            avail > 0 ==> avail == words - base_index,
            words == rava@.len() / 4,
            rava_len == rava@.len(),
            base_index == variable_offset / 4,
            i <= count,
            out@ =~= actor_variables(num_vars, variable_offset, rava@).take(i as int),
        decreases count - i,
    {
        assert((base_index + i) * 4 + 4 <= rava@.len()) by (nonlinear_arith)
            requires
                base_index + i < words,
                words == rava@.len() / 4,
        ;
        let word: usize = base_index + i;
        assert(word * 4 + 4 <= rava@.len());
        let v = read_i32_le(rava, word * 4);
        out.push(v);
        proof {
            assert(out@ =~= actor_variables(num_vars, variable_offset, rava@).take(i + 1));
        }
        i += 1;
    }
    out
}

/// The signed 32-bit field at `off` of the actor record at `c`.
pub open spec fn rahd_field(d: Seq<u8>, c: int, off: int) -> i32 {
    spec_i32_of(spec_u32_le(d, c + off)) as i32
}

/// The actor record at `c` has a name and a script of positive length.
pub open spec fn has_script(d: Seq<u8>, c: int) -> bool {
    rahd_item_name(d, c).len() > 0 && rahd_field(d, c, 0x4D) > 0
}

/// Offsets of the records with a script among up to `k` whole records from `c`.
pub open spec fn script_records_from(d: Seq<u8>, c: int, k: nat) -> Seq<int>
    decreases k,
{
    if k == 0 || c + RAHD_ITEM_SIZE > d.len() {
        Seq::empty()
    } else {
        let rest = script_records_from(d, c + RAHD_ITEM_SIZE, (k - 1) as nat);
        if has_script(d, c) {
            seq![c] + rest
        } else {
            rest
        }
    }
}

/// Offsets of the actor records with a script in a `RAHD` payload (a record
/// count, then 165-byte records from offset 8).
pub open spec fn script_records(d: Seq<u8>) -> Seq<int> {
    if d.len() < 8 {
        Seq::empty()
    } else {
        script_records_from(d, 8, spec_u32_le(d, 0) as nat)
    }
}

/// The listing of a script stored at `offset` with `length` bytes in the
/// bytecode section: an error line when it does not lie inside.
pub open spec fn script_listing(
    rasc: Seq<u8>,
    offset: i32,
    length: i32,
    script_pc: i32,
    strings: Seq<Seq<char>>,
    soup: Option<SoupModel>,
) -> Seq<(int, int, Seq<char>)> {
    let start: int = if offset < 0 {
        0
    } else {
        offset as int
    };
    let end = start + length;
    if start >= rasc.len() || end > rasc.len() {
        seq![
            (
                0int,
                0int,
                "<error: script slice out of bounds offset="@ + dec_int(offset as int) + " length="@ + dec_int(
                    length as int,
                ) + ">"@,
            ),
        ]
    } else {
        sp_script(ScriptCtx { code: rasc.subrange(start, end), strings, soup }, script_pc)
    }
}

/// `a` is the script that the actor record at `c` describes.
pub open spec fn actor_script_of(
    a: ActorScript,
    rahd: Seq<u8>,
    c: int,
    rasc: Seq<u8>,
    rast: Seq<u8>,
    rasb: Seq<u8>,
    rava: Seq<u8>,
    soup: Option<SoupModel>,
) -> bool {
    let strings = actor_strings(rahd_field(rahd, c, 0x41), rahd_field(rahd, c, 0x49), rast, rasb);
    &&& a.script_length == rahd_field(rahd, c, 0x4D)
    &&& a.script_data_offset == rahd_field(rahd, c, 0x51)
    &&& a.script_pc == rahd_field(rahd, c, 0x55)
    &&& a.num_strings == rahd_field(rahd, c, 0x41)
    &&& a.num_variables == rahd_field(rahd, c, 0x75)
    &&& texts(a.strings@) == strings
    &&& a.variables@ == actor_variables(rahd_field(rahd, c, 0x75), rahd_field(rahd, c, 0x7D), rava)
    &&& instrs_view(a.instructions@) == script_listing(
        rasc,
        a.script_data_offset,
        a.script_length,
        a.script_pc,
        strings,
        soup,
    )
}

/// `r` lists, in record order, each actor with a script: its name and
/// the script that its record describes.
pub open spec fn scripts_listed(
    r: Seq<(String, ActorScript)>,
    rahd: Seq<u8>,
    rasc: Seq<u8>,
    rast: Seq<u8>,
    rasb: Seq<u8>,
    rava: Seq<u8>,
    soup: Option<SoupModel>,
) -> bool {
    &&& r.len() == script_records(rahd).len()
    &&& forall|i: int|
        0 <= i < r.len() ==> {
            let c = #[trigger] script_records(rahd)[i];
            &&& r[i].0@ == rahd_item_name(rahd, c)
            &&& actor_script_of(r[i].1, rahd, c, rasc, rast, rasb, rava, soup)
        }
}

fn rahd_i32(d: &[u8], c: usize, off: usize) -> (r: i32)
    requires
        c + RAHD_ITEM_SIZE <= d@.len(),
        off + 4 <= RAHD_ITEM_SIZE,
    ensures
        r == rahd_field(d@, c as int, off as int),
{
    let n: usize = d.len();
    assert(c + off + 4 <= n);
    read_i32_le(d, c + off)
}

fn script_listing_of(
    rasc: &[u8],
    offset: i32,
    length: i32,
    script_pc: i32,
    strings: &Vec<String>,
    soup_def: Option<&SoupDef>,
) -> (r: Vec<ScriptInstruction>)
    requires
        length > 0,
    ensures
        instrs_view(r@) == script_listing(rasc@, offset, length, script_pc, texts(strings@), soup_opt(soup_def)),
{
    let start: usize = if offset < 0 {
        0
    } else {
        offset as usize
    };
    let len: usize = length as usize;
    if start >= rasc.len() || rasc.len() - start < len {
        let mut text: Vec<char> = Vec::new();
        push_str_chars(&mut text, "<error: script slice out of bounds offset=");
        push_dec_i32(&mut text, offset);
        push_str_chars(&mut text, " length=");
        push_dec_i32(&mut text, length);
        push_str_chars(&mut text, ">");
        let mut out: Vec<ScriptInstruction> = Vec::new();
        out.push(ScriptInstruction { addr: 0, indent: 0, text: string_from_chars(text.as_slice()) });
        assert(instrs_view(out@) =~= script_listing(
            rasc@,
            offset,
            length,
            script_pc,
            texts(strings@),
            soup_opt(soup_def),
        ));
        out
    } else {
        let code = vstd::slice::slice_subrange(rasc, start, start + len);
        disassemble_script(code, script_pc, strings.as_slice(), soup_def)
    }
}

/// Disassembles the script of every named actor whose script has positive
/// length, in record order, with its strings and variables. Actor records
/// come from `rahd_data`; the bytecode from `rasc_data`; string offsets
/// from `rasb_data` and their text from `rast_data`; variables from
/// `rava_data`.
pub fn disassemble_actor_scripts(
    rahd_data: &[u8],
    rasc_data: &[u8],
    rast_data: &[u8],
    rasb_data: &[u8],
    rava_data: &[u8],
    soup_def: Option<&SoupDef>,
) -> (r: Vec<(String, ActorScript)>)
    ensures
        scripts_listed(r@, rahd_data@, rasc_data@, rast_data@, rasb_data@, rava_data@, soup_opt(soup_def)),
{
    let mut out: Vec<(String, ActorScript)> = Vec::new();
    let n: usize = rahd_data.len();
    if n < 8 {
        return out;
    }
    let count = crate::bytes::read_u32_le(rahd_data, 0);
    let mut left: u32 = count;
    let mut c: usize = 8;
    let ghost recs = script_records(rahd_data@);
    let ghost mut done: Seq<int> = Seq::empty();
    while left > 0 && n - c >= RAHD_ITEM_SIZE
        invariant
            n == rahd_data@.len(),
            8 <= c <= n,
            recs == script_records(rahd_data@),
            recs == done + script_records_from(rahd_data@, c as int, left as nat),
            out@.len() == done.len(),
            forall|i: int|
                0 <= i < out@.len() ==> {
                    let cc = #[trigger] done[i];
                    &&& out@[i].0@ == rahd_item_name(rahd_data@, cc)
                    &&& actor_script_of(
                        out@[i].1,
                        rahd_data@,
                        cc,
                        rasc_data@,
                        rast_data@,
                        rasb_data@,
                        rava_data@,
                        soup_opt(soup_def),
                    )
                },
        decreases left,
    {
        let name_field = vstd::slice::slice_subrange(rahd_data, c + 4, c + 13);
        let name = nul_trimmed_string(name_field);
        assert(name@ == rahd_item_name(rahd_data@, c as int));
        let script_length = rahd_i32(rahd_data, c, 0x4D);
        let ghost rest = script_records_from(rahd_data@, c + RAHD_ITEM_SIZE, (left - 1) as nat);
        if name.as_str().is_empty() || script_length <= 0 {
            assert(recs == done + rest);
        } else {
            let num_strings = rahd_i32(rahd_data, c, 0x41);
            let string_offsets_index = rahd_i32(rahd_data, c, 0x49);
            let script_data_offset = rahd_i32(rahd_data, c, 0x51);
            let script_pc = rahd_i32(rahd_data, c, 0x55);
            let num_variables = rahd_i32(rahd_data, c, 0x75);
            let variable_offset = rahd_i32(rahd_data, c, 0x7D);
            let strings = read_actor_strings(num_strings, string_offsets_index, rast_data, rasb_data);
            let variables = read_actor_variables(num_variables, variable_offset, rava_data);
            let instructions = script_listing_of(
                rasc_data,
                script_data_offset,
                script_length,
                script_pc,
                &strings,
                soup_def,
            );
            let script = ActorScript {
                script_length,
                script_data_offset,
                script_pc,
                num_strings,
                num_variables,
                strings,
                variables,
                instructions,
            };
            assert(actor_script_of(
                script,
                rahd_data@,
                c as int,
                rasc_data@,
                rast_data@,
                rasb_data@,
                rava_data@,
                soup_opt(soup_def),
            ));
            out.push((name, script));
            proof {
                assert(recs == done.push(c as int) + rest) by {
                    assert(done + (seq![c as int] + rest) =~= done.push(c as int) + rest);
                }
                done = done.push(c as int);
            }
        }
        left = left - 1;
        c = c + RAHD_ITEM_SIZE;
    }
    proof {
        assert(script_records_from(rahd_data@, c as int, left as nat) =~= Seq::<int>::empty());
        assert(recs =~= done);
    }
    out
}

/// Quoted texts of one to four bytes in `s` from `p` on, in order: each
/// `"` opens a text that the next `"` closes; an unclosed one ends the scan.
pub open spec fn rtx_keys_from(s: Seq<char>, p: int) -> Seq<Seq<char>>
    decreases s.len() - p,
{
    if p < 0 || p > s.len() {
        Seq::empty()
    } else {
        let q = first_index_from(s, p, '"');
        if q >= s.len() {
            Seq::empty()
        } else {
            let e = first_index_from(s, q + 1, '"');
            if e >= s.len() {
                Seq::empty()
            } else {
                proof {
                    lemma_first_index_bounds(s, p, '"');
                    lemma_first_index_bounds(s, q + 1, '"');
                }
                let key = s.subrange(q + 1, e);
                let rest = rtx_keys_from(s, e + 1);
                if key.len() > 0 && utf8_len(key) <= 4 {
                    seq![key] + rest
                } else {
                    rest
                }
            }
        }
    }
}

/// Quoted dialogue keys in an instruction's text.
pub open spec fn rtx_keys(s: Seq<char>) -> Seq<Seq<char>> {
    rtx_keys_from(s, 0)
}

/// The dialogue keys in `text`, in order.
pub fn extract_rtx_keys(text: &str) -> (r: Vec<String>)
    ensures
        texts(r@) == rtx_keys(text@),
{
    let cs = chars_of(text);
    let n: usize = cs.len();
    let mut keys: Vec<String> = Vec::new();
    let mut p: usize = 0;
    let mut done: bool = false;
    while !done
        invariant
            n == cs@.len(),
            cs@ == text@,
            p <= n,
            !done ==> rtx_keys(text@) == texts(keys@) + rtx_keys_from(text@, p as int),
            done ==> rtx_keys(text@) == texts(keys@),
        decreases n - p + (if done { 0int } else { 1int }),
    {
        let q = first_index(cs.as_slice(), p, '"');
        if q >= n {
            assert(rtx_keys_from(text@, p as int) =~= Seq::<Seq<char>>::empty());
            assert(texts(keys@) + Seq::<Seq<char>>::empty() =~= texts(keys@));
            done = true;
        } else {
            let e = first_index(cs.as_slice(), q + 1, '"');
            if e >= n {
                assert(rtx_keys_from(text@, p as int) =~= Seq::<Seq<char>>::empty());
                assert(texts(keys@) + Seq::<Seq<char>>::empty() =~= texts(keys@));
                done = true;
            } else {
                let key = vstd::slice::slice_subrange(cs.as_slice(), q + 1, e);
                let width = utf8_len_capped(key, 4);
                let ghost before = keys@;
                if key.len() > 0 && width <= 4 {
                    keys.push(string_from_chars(key));
                    assert(texts(keys@) =~= texts(before).push(key@));
                    assert(texts(before) + rtx_keys_from(text@, p as int) =~= texts(keys@) + rtx_keys_from(
                        text@,
                        e + 1,
                    ));
                }
                p = e + 1;
            }
        }
    }
    keys
}

/// The byte offset `n` falls between characters of `s`.
pub open spec fn byte_boundary(s: Seq<char>, n: int) -> bool {
    exists|k: int| 0 <= k <= s.len() && utf8_len(#[trigger] s.take(k)) == n
}

/// How many characters of `s` take exactly `n` bytes.
pub open spec fn chars_in_bytes(s: Seq<char>, n: int) -> int {
    choose|k: int| 0 <= k <= s.len() && utf8_len(#[trigger] s.take(k)) == n
}

/// A label as shown: one of more than 80 bytes is cut to its first 77
/// bytes and `...`.
pub open spec fn label_shown(l: Seq<char>) -> Seq<char> {
    if utf8_len(l) > 80 {
        l.take(chars_in_bytes(l, 77)) + "..."@
    } else {
        l
    }
}

/// The label of the first key of `keys` that `m` holds.
pub open spec fn first_label(keys: Seq<Seq<char>>, m: Map<Seq<char>, String>) -> Option<Seq<char>>
    decreases keys.len(),
{
    if keys.len() == 0 {
        None
    } else if m.contains_key(keys[0]) {
        Some(m[keys[0]]@)
    } else {
        first_label(keys.drop_first(), m)
    }
}

/// The labels as a map from key to label, when given.
pub open spec fn labels_view(labels: Option<&Vec<(String, String)>>) -> Option<Map<Seq<char>, String>> {
    match labels {
        Some(v) => Some(assoc_map(v@)),
        None => None,
    }
}

/// The note after a line: a tab, `; ` and the label of its first known key.
pub open spec fn label_note(text: Seq<char>, labels: Option<Map<Seq<char>, String>>) -> Seq<char> {
    match labels {
        Some(m) => match first_label(rtx_keys(text), m) {
            Some(l) => "\t; "@ + label_shown(l),
            None => Seq::empty(),
        },
        None => Seq::empty(),
    }
}

/// One line of the listing: address in four hex digits, a tab, two spaces
/// per depth, the text and its label note.
pub open spec fn soup_line(i: ScriptInstruction, labels: Option<Map<Seq<char>, String>>) -> Seq<char> {
    hex_pad(i.addr as nat, 4) + ":\t"@ + repeat_text("  "@, i.indent as nat) + i.text@ + label_note(i.text@, labels)
        + "\n"@
}

/// The lines of a listing, one after another.
pub open spec fn soup_lines(instrs: Seq<ScriptInstruction>, labels: Option<Map<Seq<char>, String>>) -> Seq<char>
    decreases instrs.len(),
{
    if instrs.len() == 0 {
        Seq::empty()
    } else {
        soup_lines(instrs.drop_last(), labels) + soup_line(instrs.last(), labels)
    }
}

fn shown_label(label: &String) -> (r: Vec<char>)
    requires
        utf8_len(label@) > 80 ==> byte_boundary(label@, 77),
    ensures
        r@ == label_shown(label@),
{
    let cs = chars_of(label.as_str());
    let width = utf8_len_capped(cs.as_slice(), 80);
    if width <= 80 {
        return cs;
    }
    let mut acc: usize = 0;
    let mut k: usize = 0;
    while acc < 77
        invariant
            k <= cs@.len(),
            cs@ == label@,
            acc == utf8_len(cs@.take(k as int)),
            acc <= 77,
            byte_boundary(cs@, 77),
        decreases 77 - acc,
    {
        if k == cs.len() {
            proof {
                let j = choose|j: int| 0 <= j <= cs@.len() && utf8_len(#[trigger] cs@.take(j)) == 77;
                assert(cs@.take(k as int) =~= cs@);
                lemma_utf8_len_prefix(cs@, j);
                assert(cs@.take(j) =~= cs@.take(j));
            }
            assert(false);
        }
        assert(cs@.take(k + 1).drop_last() =~= cs@.take(k as int));
        let w = char_utf8_width(cs[k]);
        if acc + w > 77 {
            proof {
                let j = choose|j: int| 0 <= j <= cs@.len() && utf8_len(#[trigger] cs@.take(j)) == 77;
                if j <= k {
                    lemma_utf8_len_prefix(cs@.take(k as int), j);
                    assert(cs@.take(k as int).take(j) =~= cs@.take(j));
                } else {
                    lemma_utf8_len_prefix(cs@.take(j), k + 1);
                    assert(cs@.take(j).take(k + 1) =~= cs@.take(k + 1));
                }
            }
            assert(false);
        }
        acc = acc + w;
        k += 1;
    }
    proof {
        let j = chars_in_bytes(cs@, 77);
        if j < k {
            lemma_utf8_len_prefix(cs@.take(k as int), j);
            assert(cs@.take(k as int).take(j) =~= cs@.take(j));
        } else if j > k {
            lemma_utf8_len_prefix(cs@.take(j), k as int);
            assert(cs@.take(j).take(k as int) =~= cs@.take(k as int));
        }
    }
    let mut out = vstd::slice::slice_to_vec(vstd::slice::slice_subrange(cs.as_slice(), 0, k));
    push_str_chars(&mut out, "...");
    assert(out@ =~= label_shown(label@));
    out
}

/// `l` is shown whole or cut at a character boundary.
pub open spec fn label_cut_ok(text: Seq<char>, labels: Option<Map<Seq<char>, String>>) -> bool {
    match labels {
        Some(m) => match first_label(rtx_keys(text), m) {
            Some(l) => utf8_len(l) > 80 ==> byte_boundary(l, 77),
            None => true,
        },
        None => true,
    }
}

fn push_soup_line(out: &mut Vec<char>, inst: &ScriptInstruction, rtx_labels: Option<&Vec<(String, String)>>)
    requires
        rtx_labels matches Some(v) ==> keys_unique(v@),
        label_cut_ok(inst.text@, labels_view(rtx_labels)),
    ensures
        final(out)@ == old(out)@ + soup_line(*inst, labels_view(rtx_labels)),
{
    let ghost before = out@;
    push_hex(out, inst.addr as u64, 4);
    push_str_chars(out, ":\t");
    let mut d: usize = 0;
    while d < inst.indent
        invariant
            d <= inst.indent,
            out@ == before + hex_pad(inst.addr as nat, 4) + ":\t"@ + repeat_text("  "@, d as nat),
        decreases inst.indent - d,
    {
        push_str_chars(out, "  ");
        d += 1;
    }
    push_str_chars(out, inst.text.as_str());
    let ghost mid = out@;
    if let Some(labels) = rtx_labels {
        let keys = extract_rtx_keys(inst.text.as_str());
        let mut j: usize = 0;
        let mut found: bool = false;
        assert(texts(keys@).skip(0) =~= texts(keys@));
        while j < keys.len() && !found
            invariant
                j <= keys@.len(),
                rtx_labels == Some(labels),
                keys_unique(labels@),
                label_cut_ok(inst.text@, labels_view(rtx_labels)),
                texts(keys@) == rtx_keys(inst.text@),
                !found ==> out@ == mid,
                !found ==> first_label(rtx_keys(inst.text@), assoc_map(labels@)) == first_label(
                    texts(keys@).skip(j as int),
                    assoc_map(labels@),
                ),
                found ==> out@ == mid + label_note(inst.text@, Some(assoc_map(labels@))),
            decreases keys@.len() - j + (if found { 0int } else { 1int }),
        {
            assert(texts(keys@).skip(j as int)[0] == keys@[j as int]@);
            match assoc_get(labels, &keys[j]) {
                Some(label) => {
                    push_str_chars(out, "\t; ");
                    let mut shown = shown_label(label);
                    out.append(&mut shown);
                    found = true;
                },
                None => {
                    assert(texts(keys@).skip(j as int).drop_first() =~= texts(keys@).skip(j + 1));
                    j += 1;
                },
            }
        }
        if !found {
            assert(texts(keys@).skip(j as int) =~= Seq::<Seq<char>>::empty());
            assert(mid + label_note(inst.text@, Some(assoc_map(labels@))) =~= mid);
        }
    } else {
        assert(mid + label_note(inst.text@, labels_view(rtx_labels)) =~= mid);
    }
    push_str_chars(out, "\n");
    assert(out@ =~= before + soup_line(*inst, labels_view(rtx_labels)));
}

/// The listing of an actor's script: a header naming the script and its
/// source file, a blank line, then one line per instruction. With `labels`
/// (dialogue key to text), a line that quotes a known key ends with that
/// key's text.
pub fn format_soup_text(
    name: &str,
    source_file: &str,
    script: &ActorScript,
    rtx_labels: Option<&Vec<(String, String)>>,
) -> (r: String)
    requires
        rtx_labels matches Some(v) ==> keys_unique(v@),
        forall|i: int|
            0 <= i < script.instructions@.len() ==> label_cut_ok(
                (#[trigger] script.instructions@[i]).text@,
                labels_view(rtx_labels),
            ),
    ensures
        r@ == "; SOUP script: "@ + name@ + "\n"@ + "; Source: "@ + source_file@ + "\n"@ + "\n"@ + soup_lines(
            script.instructions@,
            labels_view(rtx_labels),
        ),
{
    let mut out: Vec<char> = Vec::new();
    push_str_chars(&mut out, "; SOUP script: ");
    push_str_chars(&mut out, name);
    push_str_chars(&mut out, "\n");
    push_str_chars(&mut out, "; Source: ");
    push_str_chars(&mut out, source_file);
    push_str_chars(&mut out, "\n");
    push_str_chars(&mut out, "\n");
    let ghost head = out@;
    let mut i: usize = 0;
    while i < script.instructions.len()
        invariant
            i <= script.instructions@.len(),
            rtx_labels matches Some(v) ==> keys_unique(v@),
            forall|k: int|
                0 <= k < script.instructions@.len() ==> label_cut_ok(
                    (#[trigger] script.instructions@[k]).text@,
                    labels_view(rtx_labels),
                ),
            out@ == head + soup_lines(script.instructions@.take(i as int), labels_view(rtx_labels)),
        decreases script.instructions@.len() - i,
    {
        assert(script.instructions@.take(i + 1).drop_last() =~= script.instructions@.take(i as int));
        assert(label_cut_ok(script.instructions@[i as int].text@, labels_view(rtx_labels)));
        push_soup_line(&mut out, &script.instructions[i], rtx_labels);
        assert(out@ =~= head + soup_lines(script.instructions@.take(i + 1), labels_view(rtx_labels)));
        i += 1;
    }
    assert(script.instructions@.take(i as int) =~= script.instructions@);
    string_from_chars(out.as_slice())
}

/// Every record offset that the listing reads has a name and a script.
proof fn lemma_script_records_have_scripts(d: Seq<u8>, c: int, k: nat)
    ensures
        forall|i: int|
            0 <= i < script_records_from(d, c, k).len() ==> has_script(d, #[trigger] script_records_from(d, c, k)[i]),
    decreases k,
{
    if k > 0 && c + RAHD_ITEM_SIZE <= d.len() {
        lemma_script_records_have_scripts(d, c + RAHD_ITEM_SIZE, (k - 1) as nat);
        let rest = script_records_from(d, c + RAHD_ITEM_SIZE, (k - 1) as nat);
        if has_script(d, c) {
            assert forall|i: int| 0 <= i < script_records_from(d, c, k).len() implies has_script(
                d,
                #[trigger] script_records_from(d, c, k)[i],
            ) by {
                if i > 0 {
                    assert(script_records_from(d, c, k)[i] == rest[i - 1]);
                }
            }
        }
    }
}

/// Every actor in a script listing has a name and a script of positive length.
pub proof fn law_listed_actors_have_scripts(
    r: Seq<(String, ActorScript)>,
    rahd: Seq<u8>,
    rasc: Seq<u8>,
    rast: Seq<u8>,
    rasb: Seq<u8>,
    rava: Seq<u8>,
    soup: Option<SoupModel>,
)
    requires
        scripts_listed(r, rahd, rasc, rast, rasb, rava, soup),
    ensures
        forall|i: int| 0 <= i < r.len() ==> (#[trigger] r[i]).0@.len() > 0 && r[i].1.script_length > 0,
{
    if rahd.len() >= 8 {
        lemma_script_records_have_scripts(rahd, 8, spec_u32_le(rahd, 0) as nat);
    }
    assert forall|i: int| 0 <= i < r.len() implies (#[trigger] r[i]).0@.len() > 0 && r[i].1.script_length > 0 by {
        let c = script_records(rahd)[i];
        assert(has_script(rahd, c));
    }
}

} // verus!

verus! {

/// The comparison texts, indexed by relation byte.
pub open spec fn relation_texts() -> Seq<Seq<char>> {
    seq!["="@, "!="@, "<"@, ">"@, "<="@, ">="@]
}

/// The text of relation byte `k`: its entry of `relation_texts`, or `?`
/// past the table.
pub open spec fn relation_text(k: u8) -> Seq<char> {
    if k < 6 {
        relation_texts()[k as int]
    } else {
        "?"@
    }
}

/// A condition of one comparison: the left value, the relation byte, the
/// right value and a joining byte that joins nothing further (neither 1,
/// `and`, nor 2, `or`) read as `<left> <relation> <right>`, the relation
/// printed as its entry of the table `=`, `!=`, `<`, `>`, `<=`, `>=`.
pub proof fn law_condition_relation_text(
    c: ScriptCtx,
    pc: int,
    l: Seq<char>,
    p1: int,
    r: Seq<char>,
    p3: int,
)
    requires
        sp_value(c, pc, ValueMode::Lhs, None) == Ok::<(Seq<char>, int), (Seq<char>, int)>((l, p1)),
        pc < p1 && p1 + 1 < p3 && p3 < c.code.len(),
        sp_value(c, p1 + 1, ValueMode::Rhs, None) == Ok::<(Seq<char>, int), (Seq<char>, int)>((r, p3)),
        c.code[p3] != 1 && c.code[p3] != 2,
    ensures
        sp_cond(c, pc) == Ok::<(Seq<char>, int), (Seq<char>, int)>(
            (l + " "@ + relation_text(c.code[p1]) + " "@ + r, p3 + 1),
        ),
{
    let k = c.code[p1];
    assert(compare_op(k) == relation_text(k));
}

/// Two conditions joined by `and` (joining byte 1) or `or` (byte 2): the
/// first comparison, the joining word, then the rest of the condition.
pub proof fn law_condition_joins(c: ScriptCtx, pc: int, l: Seq<char>, p1: int, r: Seq<char>, p3: int, rest: Seq<char>, p5: int)
    requires
        sp_value(c, pc, ValueMode::Lhs, None) == Ok::<(Seq<char>, int), (Seq<char>, int)>((l, p1)),
        pc < p1 && p1 + 1 < p3 && p3 < c.code.len(),
        sp_value(c, p1 + 1, ValueMode::Rhs, None) == Ok::<(Seq<char>, int), (Seq<char>, int)>((r, p3)),
        c.code[p3] == 1 || c.code[p3] == 2,
        sp_cond(c, p3 + 1) == Ok::<(Seq<char>, int), (Seq<char>, int)>((rest, p5)),
    ensures
        sp_cond(c, pc) == Ok::<(Seq<char>, int), (Seq<char>, int)>(
            (
                l + " "@ + relation_text(c.code[p1]) + " "@ + r + (if c.code[p3] == 1 {
                    " and "@
                } else {
                    " or "@
                }) + rest,
                p5,
            ),
        ),
{
    let k = c.code[p1];
    assert(compare_op(k) == relation_text(k));
}

/// The operator texts of formulas, indexed by operator byte from 1.
pub open spec fn formula_texts() -> Seq<Seq<char>> {
    seq!["+"@, "-"@, "*"@, "/"@, "<<"@, ">>"@, "&"@, "|"@, "^"@]
}

/// A formula of a value followed by an operator byte from 1 to 9 and more
/// formula reads as `<value> <operator> <rest>`, the operator printed as
/// its entry of the table `+`, `-`, `*`, `/`, `<<`, `>>`, `&`, `|`, `^`.
pub proof fn law_formula_operator_text(c: ScriptCtx, pc: int, v: Seq<char>, p1: int, rest: Seq<char>, p3: int)
    requires
        sp_value(c, pc, ValueMode::Formula, None) == Ok::<(Seq<char>, int), (Seq<char>, int)>((v, p1)),
        pc < p1 < c.code.len(),
        1 <= c.code[p1] <= 9,
        sp_formula(c, p1 + 1) == Ok::<(Seq<char>, int), (Seq<char>, int)>((rest, p3)),
    ensures
        sp_formula(c, pc) == Ok::<(Seq<char>, int), (Seq<char>, int)>(
            (v + " "@ + formula_texts()[c.code[p1] - 1] + " "@ + rest, p3),
        ),
{
    let k = c.code[p1];
    assert(formula_op(k) == formula_texts()[k - 1]);
}

} // verus!
