//! The contract tree that code generation consumes.
use vstd::prelude::*;

verus! {

/// A 32-byte big-endian literal value.
pub type Literal = [u8; 32];

/// A formal parameter of a macro definition.
pub struct Argument {
    /// The parameter's name, if it has one.
    pub name: Option<String>,
}

/// An actual argument handed to a macro invocation.
pub enum MacroArg {
    /// A literal value, pushed with the narrowest PUSH opcode.
    Literal(Literal),
    /// A reference to a parameter of an enclosing macro, resolved further up.
    ArgCall(String),
    /// An identifier, treated as a label reference at the callee.
    Ident(String),
}

/// A call of a macro from inside another macro's body.
pub struct MacroInvocation {
    /// The name of the invoked macro.
    pub macro_name: String,
    /// The actual arguments, in order.
    pub args: Vec<MacroArg>,
}

/// One statement of a macro body.
pub enum Statement {
    /// A literal, pushed with the narrowest PUSH opcode.
    Literal(Literal),
    /// A single opcode byte.
    Opcode(u8),
    /// Raw bytecode, emitted as it is.
    Code(Vec<u8>),
    /// A reference to a named constant (`[NAME]`).
    Constant(String),
    /// A reference to a macro parameter (`<name>`).
    ArgCall(String),
    /// An invocation of another macro.
    MacroInvocation(MacroInvocation),
    /// A label declaration (`name:`), emitted as a `JUMPDEST`.
    Label(String),
    /// A reference to a label, emitted as a `PUSH2` of its position.
    LabelCall(String),
    /// A call of a builtin function, which a macro body cannot hold here.
    BuiltinFunctionCall(String),
}

/// A macro or function definition.
pub struct MacroDefinition {
    /// The macro's name.
    pub name: String,
    /// The formal parameters, in order.
    pub parameters: Vec<Argument>,
    /// The body.
    pub statements: Vec<Statement>,
}

/// The value of a constant definition.
pub enum ConstVal {
    /// A literal value.
    Literal(Literal),
    /// A free storage pointer whose slot has not been assigned yet.
    FreeStoragePointer,
}

/// A named constant.
pub struct ConstantDefinition {
    /// The constant's name.
    pub name: String,
    /// Its value.
    pub value: ConstVal,
}

/// A function declaration, used only for the ABI.
pub struct FunctionDeclaration {
    /// The function's name.
    pub name: String,
    /// The types of its inputs.
    pub inputs: Vec<String>,
    /// The types of its outputs.
    pub outputs: Vec<String>,
    /// Its state mutability (`view`, `pure`, `payable`, `nonpayable`).
    pub state_mutability: String,
}

/// A resolved Huff contract.
pub struct Contract {
    /// Macro definitions, in source order.
    pub macros: Vec<MacroDefinition>,
    /// Constant definitions, in source order.
    pub constants: Vec<ConstantDefinition>,
    /// Function declarations.
    pub functions: Vec<FunctionDeclaration>,
}

/// The index of the first macro at or after `i` named `name`.
pub open spec fn macro_index_from(c: &Contract, name: Seq<char>, i: int) -> Option<int>
    decreases c.macros@.len() - i,
{
    if i < 0 || i >= c.macros@.len() {
        None
    } else if c.macros@[i].name@ == name {
        Some(i)
    } else {
        macro_index_from(c, name, i + 1)
    }
}

/// The index of the first macro named `name`.
pub open spec fn macro_index(c: &Contract, name: Seq<char>) -> Option<int> {
    macro_index_from(c, name, 0)
}

/// The index of the first constant at or after `i` named `name`.
pub open spec fn constant_index_from(c: &Contract, name: Seq<char>, i: int) -> Option<int>
    decreases c.constants@.len() - i,
{
    if i < 0 || i >= c.constants@.len() {
        None
    } else if c.constants@[i].name@ == name {
        Some(i)
    } else {
        constant_index_from(c, name, i + 1)
    }
}

/// The index of the first constant named `name`.
pub open spec fn constant_index(c: &Contract, name: Seq<char>) -> Option<int> {
    constant_index_from(c, name, 0)
}

/// The position of the first parameter at or after `i` named `name`.
pub open spec fn param_position_from(params: Seq<Argument>, name: Seq<char>, i: int) -> Option<int>
    decreases params.len() - i,
{
    if i < 0 || i >= params.len() {
        None
    } else if params[i].name is Some && params[i].name->Some_0@ == name {
        Some(i)
    } else {
        param_position_from(params, name, i + 1)
    }
}

impl Contract {
    /// Finds the first macro named `name`.
    pub fn find_macro_by_name(&self, name: &String) -> (r: Option<usize>)
        ensures
            match r {
                Some(i) => macro_index(self, name@) == Some(i as int) && i < self.macros@.len(),
                None => macro_index(self, name@) is None,
            },
    {
        let mut i: usize = 0;
        while i < self.macros.len()
            invariant
                i <= self.macros@.len(),
                macro_index(self, name@) == macro_index_from(self, name@, i as int),
            decreases self.macros@.len() - i,
        {
            if self.macros[i].name == *name {
                return Some(i);
            }
            i = i + 1;
        }
        None
    }

    /// Finds the first constant named `name`.
    pub fn find_constant_by_name(&self, name: &String) -> (r: Option<usize>)
        ensures
            match r {
                Some(i) => constant_index(self, name@) == Some(i as int) && i < self.constants@.len(),
                None => constant_index(self, name@) is None,
            },
    {
        let mut i: usize = 0;
        while i < self.constants.len()
            invariant
                i <= self.constants@.len(),
                constant_index(self, name@) == constant_index_from(self, name@, i as int),
            decreases self.constants@.len() - i,
        {
            if self.constants[i].name == *name {
                return Some(i);
            }
            i = i + 1;
        }
        None
    }
}

impl MacroDefinition {
    /// The position of the parameter named `name`, if any.
    pub fn param_position(&self, name: &String) -> (r: Option<usize>)
        ensures
            match r {
                Some(i) => param_position_from(self.parameters@, name@, 0) == Some(i as int) && i < self.parameters@.len(),
                None => param_position_from(self.parameters@, name@, 0) is None,
            },
    {
        let mut i: usize = 0;
        while i < self.parameters.len()
            invariant
                i <= self.parameters@.len(),
                param_position_from(self.parameters@, name@, 0) == param_position_from(
                    self.parameters@,
                    name@,
                    i as int,
                ),
            decreases self.parameters@.len() - i,
        {
            match &self.parameters[i].name {
                Some(n) => {
                    if *n == *name {
                        return Some(i);
                    }
                },
                None => {},
            }
            i = i + 1;
        }
        None
    }
}

/// A macro found by name lies within the contract's macros.
pub proof fn lemma_macro_index_in_range(c: &Contract, name: Seq<char>, i: int)
    requires
        0 <= i,
    ensures
        macro_index_from(c, name, i) matches Some(j) ==> i <= j < c.macros@.len() && c.macros@[j].name@ == name,
    decreases c.macros@.len() - i,
{
    if i < c.macros@.len() && c.macros@[i].name@ != name {
        lemma_macro_index_in_range(c, name, i + 1);
    }
}

} // verus!
