//! The listing of a native module: a text for diagnostics, one line for the
//! module, for each global, function and block, and for each instruction.

use vstd::prelude::*;
use vstd::string::StringExecFns;
use crate::native::{Block, BlockView, Function, FunctionView, Global, GlobalView, Instr, InstrView, Module, ModuleView, Type, Value};

verus! {

/// The character of a decimal digit.
pub open spec fn digit(d: nat) -> char {
    if d == 0 {
        '0'
    } else if d == 1 {
        '1'
    } else if d == 2 {
        '2'
    } else if d == 3 {
        '3'
    } else if d == 4 {
        '4'
    } else if d == 5 {
        '5'
    } else if d == 6 {
        '6'
    } else if d == 7 {
        '7'
    } else if d == 8 {
        '8'
    } else {
        '9'
    }
}

/// A natural number in decimal digits, without leading zeros.
pub open spec fn decimal(n: nat) -> Seq<char>
    decreases n,
{
    if n < 10 {
        seq![digit(n)]
    } else {
        decimal(n / 10).push(digit(n % 10))
    }
}

/// An integer in decimal digits, with a minus sign below zero.
pub open spec fn signed_decimal(n: int) -> Seq<char> {
    if n < 0 {
        "-"@ + decimal((-n) as nat)
    } else {
        decimal(n as nat)
    }
}

/// The name of a type.
pub open spec fn type_text(ty: Type) -> Seq<char> {
    match ty {
        Type::Unit => "unit"@,
        Type::Int32 => "i32"@,
        Type::Float => "f64"@,
    }
}

/// An operand. A constant of the 32-bit integer type is written as the
/// integer that it stands for; any other constant by its bits; what an
/// instruction leaves, by the place of the instruction.
pub open spec fn value_text(value: Value) -> Seq<char> {
    match value {
        Value::ConstInt { ty, bits } => type_text(ty) + " "@ + match value.decoded_int() {
            Some(n) => signed_decimal(n),
            None => decimal(bits as nat),
        },
        Value::ConstFloat { bits } => "f64 bits "@ + decimal(bits as nat),
        Value::Inst { index, .. } => "%"@ + decimal(index as nat),
    }
}

/// The line of the instruction at place `index` of its block.
pub open spec fn instr_text(index: nat, instr: InstrView) -> Seq<char> {
    match instr {
        InstrView::Alloca { ty, name } => "  %"@ + decimal(index) + " = alloca "@ + type_text(ty)
            + " ; "@ + name + "\n"@,
        InstrView::Store { value, slot } => "  store "@ + value_text(value) + ", "@ + value_text(
            slot,
        ) + "\n"@,
        InstrView::Load { ty, slot, name } => "  %"@ + decimal(index) + " = load "@ + type_text(ty)
            + ", "@ + value_text(slot) + " ; "@ + name + "\n"@,
        InstrView::Add { lhs, rhs, name } => "  %"@ + decimal(index) + " = add "@ + value_text(lhs)
            + ", "@ + value_text(rhs) + " ; "@ + name + "\n"@,
        InstrView::Ret { value } => "  ret "@ + value_text(value) + "\n"@,
    }
}

/// The lines of the first `count` instructions of a block.
pub open spec fn instrs_text(instrs: Seq<InstrView>, count: nat) -> Seq<char>
    decreases count,
{
    if count == 0 {
        Seq::empty()
    } else {
        instrs_text(instrs, (count - 1) as nat) + instr_text(
            (count - 1) as nat,
            instrs[count - 1],
        )
    }
}

/// The lines of a block: its label, then its instructions.
pub open spec fn block_text(block: BlockView) -> Seq<char> {
    block.name + ":\n"@ + instrs_text(block.instrs, block.instrs.len())
}

/// The lines of the first `count` blocks of a function.
pub open spec fn blocks_text(blocks: Seq<BlockView>, count: nat) -> Seq<char>
    decreases count,
{
    if count == 0 {
        Seq::empty()
    } else {
        blocks_text(blocks, (count - 1) as nat) + block_text(blocks[count - 1])
    }
}

/// The first `count` parameter types of a function, with commas between them.
pub open spec fn params_text(params: Seq<Type>, count: nat) -> Seq<char>
    decreases count,
{
    if count == 0 {
        Seq::empty()
    } else if count == 1 {
        type_text(params[0])
    } else {
        params_text(params, (count - 1) as nat) + ", "@ + type_text(params[count - 1])
    }
}

/// The lines of a function: its header, then its blocks.
pub open spec fn function_text(function: FunctionView) -> Seq<char> {
    "fn "@ + function.name + "("@ + params_text(function.params, function.params.len()) + ") -> "@
        + type_text(function.ret) + "\n"@ + blocks_text(function.blocks, function.blocks.len())
}

/// The lines of the first `count` functions of a module.
pub open spec fn functions_text(functions: Seq<FunctionView>, count: nat) -> Seq<char>
    decreases count,
{
    if count == 0 {
        Seq::empty()
    } else {
        functions_text(functions, (count - 1) as nat) + function_text(functions[count - 1])
    }
}

/// The line of a global.
pub open spec fn global_text(global: GlobalView) -> Seq<char> {
    "global "@ + global.name + " = "@ + value_text(global.init) + "\n"@
}

/// The lines of the first `count` globals of a module.
pub open spec fn globals_text(globals: Seq<GlobalView>, count: nat) -> Seq<char>
    decreases count,
{
    if count == 0 {
        Seq::empty()
    } else {
        globals_text(globals, (count - 1) as nat) + global_text(globals[count - 1])
    }
}

/// The listing of a module: its name, its globals, its functions.
pub open spec fn module_text(module: ModuleView) -> Seq<char> {
    "module "@ + module.name + "\n"@ + globals_text(module.globals, module.globals.len())
        + functions_text(module.functions, module.functions.len())
}

/// Writes a natural number in decimal digits.
pub fn decimal_string(n: u64) -> (text: String)
    ensures
        text@ == decimal(n as nat),
    decreases n,
{
    let mut text = if n < 10 {
        String::new()
    } else {
        decimal_string(n / 10)
    };
    let last = n % 10;
    proof {
        reveal_strlit("0");
        reveal_strlit("1");
        reveal_strlit("2");
        reveal_strlit("3");
        reveal_strlit("4");
        reveal_strlit("5");
        reveal_strlit("6");
        reveal_strlit("7");
        reveal_strlit("8");
        reveal_strlit("9");
    }
    let ghost before = text@;
    if last == 0 {
        text.append("0");
    } else if last == 1 {
        text.append("1");
    } else if last == 2 {
        text.append("2");
    } else if last == 3 {
        text.append("3");
    } else if last == 4 {
        text.append("4");
    } else if last == 5 {
        text.append("5");
    } else if last == 6 {
        text.append("6");
    } else if last == 7 {
        text.append("7");
    } else if last == 8 {
        text.append("8");
    } else {
        text.append("9");
    }
    proof {
        assert(text@ =~= before.push(digit(last as nat)));
        if n < 10 {
            assert(before.push(digit(n as nat)) =~= seq![digit(n as nat)]);
        }
    }
    text
}

/// Writes the name of a type.
pub fn type_string(ty: Type) -> (text: &'static str)
    ensures
        text@ == type_text(ty),
{
    match ty {
        Type::Unit => "unit",
        Type::Int32 => "i32",
        Type::Float => "f64",
    }
}

/// Writes an operand.
pub fn value_string(value: Value) -> (text: String)
    ensures
        text@ == value_text(value),
{
    match value {
        Value::ConstInt { ty, bits } => {
            let mut text = String::from_str(type_string(ty));
            text.append(" ");
            match ty {
                Type::Int32 => {
                    let low = bits % 0x1_0000_0000;
                    if low < 0x8000_0000 {
                        text.append(decimal_string(low).as_str());
                    } else {
                        text.append("-");
                        text.append(decimal_string(0x1_0000_0000 - low).as_str());
                        proof {
                            let digits = decimal((0x1_0000_0000 - low) as nat);
                            assert(text@ =~= type_text(ty) + " "@ + ("-"@ + digits));
                        }
                    }
                },
                _ => {
                    text.append(decimal_string(bits).as_str());
                },
            }
            text
        },
        Value::ConstFloat { bits } => {
            let mut text = String::from_str("f64 bits ");
            text.append(decimal_string(bits).as_str());
            text
        },
        Value::Inst { index, .. } => {
            let mut text = String::from_str("%");
            text.append(decimal_string(index as u64).as_str());
            text
        },
    }
}

/// Writes the line of the instruction at place `index` of its block.
pub fn instr_string(index: usize, instr: &Instr) -> (text: String)
    ensures
        text@ == instr_text(index as nat, instr@),
{
    match instr {
        Instr::Alloca { ty, name } => {
            let mut text = String::from_str("  %");
            text.append(decimal_string(index as u64).as_str());
            text.append(" = alloca ");
            text.append(type_string(*ty));
            text.append(" ; ");
            text.append(name.as_str());
            text.append("\n");
            text
        },
        Instr::Store { value, slot } => {
            let mut text = String::from_str("  store ");
            text.append(value_string(*value).as_str());
            text.append(", ");
            text.append(value_string(*slot).as_str());
            text.append("\n");
            text
        },
        Instr::Load { ty, slot, name } => {
            let mut text = String::from_str("  %");
            text.append(decimal_string(index as u64).as_str());
            text.append(" = load ");
            text.append(type_string(*ty));
            text.append(", ");
            text.append(value_string(*slot).as_str());
            text.append(" ; ");
            text.append(name.as_str());
            text.append("\n");
            text
        },
        Instr::Add { lhs, rhs, name } => {
            let mut text = String::from_str("  %");
            text.append(decimal_string(index as u64).as_str());
            text.append(" = add ");
            text.append(value_string(*lhs).as_str());
            text.append(", ");
            text.append(value_string(*rhs).as_str());
            text.append(" ; ");
            text.append(name.as_str());
            text.append("\n");
            text
        },
        Instr::Ret { value } => {
            let mut text = String::from_str("  ret ");
            text.append(value_string(*value).as_str());
            text.append("\n");
            text
        },
    }
}

/// Writes the lines of a block.
pub fn block_string(block: &Block) -> (text: String)
    ensures
        text@ == block_text(block@),
{
    let mut text = block.name.clone();
    text.append(":\n");
    let ghost head = text@;
    let mut lines = String::new();
    let mut i: usize = 0;
    while i < block.instrs.len()
        invariant
            i <= block.instrs@.len(),
            lines@ == instrs_text(block@.instrs, i as nat),
        decreases block.instrs.len() - i,
    {
        lines.append(instr_string(i, &block.instrs[i]).as_str());
        i += 1;
    }
    text.append(lines.as_str());
    text
}

/// Writes the lines of a function.
pub fn function_string(function: &Function) -> (text: String)
    ensures
        text@ == function_text(function@),
{
    let mut params = String::new();
    let mut i: usize = 0;
    while i < function.params.len()
        invariant
            i <= function.params@.len(),
            params@ == params_text(function@.params, i as nat),
        decreases function.params.len() - i,
    {
        if i > 0 {
            params.append(", ");
        }
        params.append(type_string(function.params[i]));
        proof {
            if i == 0 {
                assert(params@ =~= type_text(function@.params[0]));
            }
        }
        i += 1;
    }
    let mut blocks = String::new();
    let mut j: usize = 0;
    while j < function.blocks.len()
        invariant
            j <= function.blocks@.len(),
            blocks@ == blocks_text(function@.blocks, j as nat),
        decreases function.blocks.len() - j,
    {
        blocks.append(block_string(&function.blocks[j]).as_str());
        j += 1;
    }
    let mut text = String::from_str("fn ");
    text.append(function.name.as_str());
    text.append("(");
    text.append(params.as_str());
    text.append(") -> ");
    text.append(type_string(function.ret));
    text.append("\n");
    text.append(blocks.as_str());
    text
}

/// Writes the line of a global.
pub fn global_string(global: &Global) -> (text: String)
    ensures
        text@ == global_text(global@),
{
    let mut text = String::from_str("global ");
    text.append(global.name.as_str());
    text.append(" = ");
    text.append(value_string(global.init).as_str());
    text.append("\n");
    text
}

impl Module {
    /// The listing of the module.
    pub fn dump(&self) -> (text: String)
        ensures
            text@ == module_text(self@),
    {
        let mut globals = String::new();
        let mut i: usize = 0;
        while i < self.globals.len()
            invariant
                i <= self.globals@.len(),
                globals@ == globals_text(self@.globals, i as nat),
            decreases self.globals.len() - i,
        {
            globals.append(global_string(&self.globals[i]).as_str());
            i += 1;
        }
        let mut functions = String::new();
        let mut j: usize = 0;
        while j < self.functions.len()
            invariant
                j <= self.functions@.len(),
                functions@ == functions_text(self@.functions, j as nat),
            decreases self.functions.len() - j,
        {
            functions.append(function_string(&self.functions[j]).as_str());
            j += 1;
        }
        let mut text = String::from_str("module ");
        text.append(self.name.as_str());
        text.append("\n");
        text.append(globals.as_str());
        text.append(functions.as_str());
        text
    }
}

} // verus!
