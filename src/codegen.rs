//! The code generation manager: runtime and constructor bytecode, artifacts and ABI.
use vstd::prelude::*;
use crate::artifact::{
    assemble_artifact, deploy_code, fits_bootstrap, lowercase_of, Abi, AbiFunction, Artifact,
    FileSource,
};
use crate::ast::{lemma_macro_index_in_range, macro_index, Contract};
use crate::error::{CodegenError, CodegenErrorKind, ErrorView};
use crate::expand::{
    expand, expand_prefix, lemma_expand_labels, lemma_jumps_filled_in, lemma_lookup_label_member,
    lemma_patch_total, lookup_label, patch,
    MAX_MACRO_DEPTH,
};
use crate::hexenc::{encode_hex, hex_of, lemma_hex_len};
use crate::opcodes::{JUMPDEST, PUSH2};

verus! {

/// An ABI token of ethers, carried through to its encoder.
#[verifier::external_type_specification]
#[verifier::external_body]
pub struct ExToken(ethers::abi::Token);

/// Relies on `ethers::abi::encode` of the single token: the ABI encoding is a
/// sequence of 32-byte words.
#[verifier::external_body]
fn abi_encode_token(t: &ethers::abi::Token) -> (r: Vec<u8>)
    ensures
        r@.len() % 32 == 0,
{
    ethers::abi::encode(&[t.clone()])
}

/// The bytecode of the macro named `name`, expanded from the top with an
/// empty stack of invocations; `missing` where no such macro exists. A jump
/// that no label of the expansion resolves is an error.
pub open spec fn generate(c: &Contract, name: Seq<char>, missing: ErrorView) -> Result<Seq<u8>, ErrorView> {
    match macro_index(c, name) {
        None => Err(missing),
        Some(m) => match expand(c, seq![m as usize], seq![], 0, MAX_MACRO_DEPTH as nat) {
            Err(e) => Err(e),
            Ok(f) => if f.jumps.len() > 0 {
                Err(ErrorView::UnmatchedJumpLabel)
            } else {
                Ok(f.bytes)
            },
        },
    }
}

/// What `roll` or `construct` returns: the hex text of the generated bytecode.
pub open spec fn generated_hex(c: &Contract, name: Seq<char>, missing: ErrorView) -> Result<Seq<char>, ErrorView> {
    match generate(c, name, missing) {
        Ok(b) => Ok(hex_of(b)),
        Err(e) => Err(e),
    }
}

/// The value of a generation result.
pub open spec fn result_view(r: Result<String, CodegenError>) -> Result<Seq<char>, ErrorView> {
    match r {
        Ok(s) => Ok(s@),
        Err(e) => Err(e@),
    }
}

/// The error for a contract without a `MAIN` macro.
pub open spec fn main_missing() -> ErrorView {
    ErrorView::MissingMacroDefinition("MAIN"@)
}

/// Generates the bytecode of the macro named `name` as hex text.
pub fn generate_bytecode(contract: &Contract, name: &String, missing: CodegenErrorKind) -> (r: Result<String, CodegenError>)
    ensures
        result_view(r) == generated_hex(contract, name@, missing@),
{
    let m = match contract.find_macro_by_name(name) {
        Some(m) => m,
        None => {
            return Err(CodegenError::new(missing));
        },
    };
    let mut scope: Vec<usize> = Vec::new();
    scope.push(m);
    let mut calls: Vec<usize> = Vec::new();
    assert(scope@ =~= seq![m]);
    assert(calls@ =~= seq![]);
    let res = match Codegen::recurse_bytecode(contract, &mut scope, &mut calls, 0, MAX_MACRO_DEPTH) {
        Ok(res) => res,
        Err(e) => {
            return Err(e);
        },
    };
    if res.unmatched_jumps.len() > 0 {
        return Err(CodegenError::new(CodegenErrorKind::UnmatchedJumpLabel));
    }
    Ok(encode_hex(res.bytes.as_slice()))
}

/// The code generation manager.
pub struct Codegen {
    /// The contract tree, if one was set.
    pub ast: Option<Contract>,
    /// The artifact generated last.
    pub artifact: Option<Artifact>,
    /// The runtime bytecode, as hex text.
    pub main_bytecode: Option<String>,
    /// The constructor bytecode, as hex text.
    pub constructor_bytecode: Option<String>,
}

impl Codegen {
    /// A manager with nothing set.
    pub fn new() -> (r: Codegen)
        ensures
            r.ast is None,
            r.artifact is None,
            r.main_bytecode is None,
            r.constructor_bytecode is None,
    {
        Codegen { ast: None, artifact: None, main_bytecode: None, constructor_bytecode: None }
    }

    /// Generates the runtime bytecode, the expansion of the `MAIN` macro, as hex text.
    pub fn roll(ast: Option<&Contract>) -> (r: Result<String, CodegenError>)
        ensures
            match ast {
                None => r matches Err(e) && e@ == ErrorView::MissingAst,
                Some(c) => result_view(r) == generated_hex(c, "MAIN"@, main_missing()),
            },
    {
        match ast {
            None => Err(CodegenError::new(CodegenErrorKind::MissingAst)),
            Some(c) => {
                let name = String::from_str("MAIN");
                let missing = CodegenErrorKind::MissingMacroDefinition(String::from_str("MAIN"));
                generate_bytecode(c, &name, missing)
            },
        }
    }

    /// Generates the constructor bytecode, the expansion of the `CONSTRUCTOR` macro, as hex text.
    pub fn construct(ast: Option<&Contract>) -> (r: Result<String, CodegenError>)
        ensures
            match ast {
                None => r matches Err(e) && e@ == ErrorView::MissingAst,
                Some(c) => result_view(r) == generated_hex(c, "CONSTRUCTOR"@, ErrorView::MissingConstructor),
            },
    {
        match ast {
            None => Err(CodegenError::new(CodegenErrorKind::MissingAst)),
            Some(c) => {
                let name = String::from_str("CONSTRUCTOR");
                generate_bytecode(c, &name, CodegenErrorKind::MissingConstructor)
            },
        }
    }

    /// The contract tree given, or else the one set on the manager.
    pub fn graceful_ast_grab<'a>(&'a self, ast: Option<&'a Contract>) -> (r: Result<&'a Contract, CodegenError>)
        ensures
            match ast {
                Some(a) => r matches Ok(c) && c == a,
                None => match self.ast {
                    Some(a) => r matches Ok(c) && *c == a,
                    None => r matches Err(e) && e@ == ErrorView::MissingAst,
                },
            },
    {
        match ast {
            Some(a) => Ok(a),
            None => match &self.ast {
                Some(a) => Ok(a),
                None => Err(CodegenError::new(CodegenErrorKind::MissingAst)),
            },
        }
    }

    /// Builds the artifact from runtime and constructor code, as hex text, and
    /// the constructor arguments, each ABI-encoded; keeps it on the manager.
    pub fn churn(
        &mut self,
        file: FileSource,
        args: &Vec<ethers::abi::Token>,
        main_bytecode: &str,
        constructor_bytecode: &str,
    ) -> (r: Result<(), CodegenError>)
        ensures
            r is Ok <==> fits_bootstrap(constructor_bytecode@, main_bytecode@),
            r matches Err(e) ==> e@ == ErrorView::BytecodeTooLarge && final(self).artifact == old(self).artifact,
            r is Ok ==> (final(self).artifact matches Some(a) && a.runtime@ == lowercase_of(main_bytecode@)
                && a.file == file && exists|enc: Seq<Vec<u8>>|
                enc.len() == args@.len() && (forall|k: int| 0 <= k < enc.len() ==> #[trigger] enc[k]@.len() % 32 == 0)
                    && a.bytecode@ == lowercase_of(deploy_code(constructor_bytecode@, main_bytecode@, enc))),
            r is Ok ==> (final(self).artifact matches Some(a) && a.abi == match old(self).artifact {
                Some(o) => o.abi,
                None => None,
            }),
            final(self).ast == old(self).ast,
            final(self).main_bytecode == old(self).main_bytecode,
            final(self).constructor_bytecode == old(self).constructor_bytecode,
    {
        let mut encoded: Vec<Vec<u8>> = Vec::new();
        let mut i: usize = 0;
        while i < args.len()
            invariant
                i <= args@.len(),
                encoded@.len() == i,
                forall|k: int| 0 <= k < encoded@.len() ==> #[trigger] encoded@[k]@.len() % 32 == 0,
            decreases args@.len() - i,
        {
            let e = abi_encode_token(&args[i]);
            encoded.push(e);
            i = i + 1;
        }
        match assemble_artifact(file, &encoded, main_bytecode, constructor_bytecode) {
            Ok(art) => {
                let Artifact { file, bytecode, runtime, abi: _ } = art;
                match &mut self.artifact {
                    Some(a) => {
                        a.file = file;
                        a.bytecode = bytecode;
                        a.runtime = runtime;
                    },
                    None => {
                        self.artifact = Some(Artifact { file, bytecode, runtime, abi: None });
                    },
                }
                Ok(())
            },
            Err(e) => Err(e),
        }
    }

    /// Generates the ABI of the contract's function declarations and keeps it
    /// on the manager's artifact, whose other fields stay as they were (or
    /// empty, where there was no artifact).
    pub fn abi_gen(&mut self, ast: &Contract) -> (r: Abi)
        ensures
            abi_describes(&r, ast),
            final(self).artifact matches Some(a) && a.abi matches Some(abi) && abi_describes(&abi, ast),
            match old(self).artifact {
                Some(o) => final(self).artifact matches Some(a) && a.file == o.file && a.bytecode == o.bytecode
                    && a.runtime == o.runtime,
                None => final(self).artifact matches Some(a) && a.file.path@.len() == 0 && a.file.source is None
                    && a.bytecode@.len() == 0 && a.runtime@.len() == 0,
            },
            final(self).ast == old(self).ast,
            final(self).main_bytecode == old(self).main_bytecode,
            final(self).constructor_bytecode == old(self).constructor_bytecode,
    {
        let abi = abi_of(ast);
        match &mut self.artifact {
            Some(a) => {
                a.abi = Some(abi);
            },
            None => {
                self.artifact = Some(
                    Artifact { file: FileSource::new(), bytecode: String::new(), runtime: String::new(), abi: Some(abi) },
                );
            },
        }
        abi_of(ast)
    }
}

/// The ABI lists the contract's function declarations, in order.
pub open spec fn abi_describes(abi: &Abi, ast: &Contract) -> bool {
    &&& abi.functions@.len() == ast.functions@.len()
    &&& forall|k: int|
        0 <= k < ast.functions@.len() ==> #[trigger] abi.functions@[k].name@ == ast.functions@[k].name@
            && abi.functions@[k].inputs@ == ast.functions@[k].inputs@
            && abi.functions@[k].outputs@ == ast.functions@[k].outputs@
            && abi.functions@[k].state_mutability@ == ast.functions@[k].state_mutability@
}

/// The ABI of the contract's function declarations.
pub fn abi_of(ast: &Contract) -> (r: Abi)
    ensures
        abi_describes(&r, ast),
{
    let mut functions: Vec<AbiFunction> = Vec::new();
    let mut i: usize = 0;
    while i < ast.functions.len()
        invariant
            i <= ast.functions@.len(),
            functions@.len() == i,
            forall|k: int| 0 <= k < i ==> #[trigger] functions@[k].name@ == ast.functions@[k].name@
                && functions@[k].inputs@ == ast.functions@[k].inputs@
                && functions@[k].outputs@ == ast.functions@[k].outputs@
                && functions@[k].state_mutability@ == ast.functions@[k].state_mutability@,
        decreases ast.functions@.len() - i,
    {
        let f = &ast.functions[i];
        let abi_fn = AbiFunction {
            name: f.name.clone(),
            inputs: copy_strings(&f.inputs),
            outputs: copy_strings(&f.outputs),
            state_mutability: f.state_mutability.clone(),
        };
        functions.push(abi_fn);
        i = i + 1;
    }
    Abi { functions }
}

fn copy_strings(v: &Vec<String>) -> (r: Vec<String>)
    ensures
        r@ == v@,
{
    let mut r: Vec<String> = Vec::new();
    let mut i: usize = 0;
    while i < v.len()
        invariant
            i <= v@.len(),
            r@ == v@.subrange(0, i as int),
        decreases v@.len() - i,
    {
        r.push(v[i].clone());
        assert(r@ =~= v@.subrange(0, i + 1));
        i = i + 1;
    }
    assert(v@.subrange(0, v@.len() as int) =~= v@);
    r
}

/// The generated hex text is byte-aligned: its length is even.
pub proof fn lemma_generated_hex_even(c: &Contract, name: Seq<char>, missing: ErrorView)
    ensures
        generated_hex(c, name, missing) matches Ok(h) ==> h.len() % 2 == 0,
{
    if let Ok(b) = generate(c, name, missing) {
        lemma_hex_len(b);
    }
}

/// Jump resolution is total at the top: a successful generation comes from an
/// expansion with no unmatched jump, and every jump of the top macro's frame
/// names a declared label and is a `PUSH2` whose operand is that label's
/// offset, where the bytecode holds a `JUMPDEST`.
pub proof fn lemma_top_level_jumps_resolved(c: &Contract, name: Seq<char>, missing: ErrorView)
    ensures
        generate(c, name, missing) matches Ok(b) ==> ({
            let m = macro_index(c, name)->Some_0;
            let scope = seq![m as usize];
            let n = c.macros@[scope.last() as int].statements@.len() as int;
            &&& expand(c, scope, seq![], 0, MAX_MACRO_DEPTH as nat) matches Ok(f) && f.jumps.len() == 0
            &&& expand_prefix(c, scope, seq![], 0, MAX_MACRO_DEPTH as nat, n) matches Ok(p) && forall|k: int|
                0 <= k < p.jumps.len() ==> {
                    let pos = p.jumps[k].1;
                    let d = lookup_label(p.labels, #[trigger] p.jumps[k].0);
                    &&& d is Some
                    &&& b[pos] == PUSH2
                    &&& b[pos + 1] == (d->Some_0 / 256) as u8
                    &&& b[pos + 2] == (d->Some_0 % 256) as u8
                    &&& 0 <= d->Some_0 < b.len() && b[d->Some_0] == JUMPDEST
                }
        }),
{
    lemma_macro_index_in_range(c, name, 0);
    if generate(c, name, missing) is Ok {
        let m = macro_index(c, name)->Some_0;
        let scope = seq![m as usize];
        let n = c.macros@[scope.last() as int].statements@.len() as int;
        let e = expand(c, scope, seq![], 0, MAX_MACRO_DEPTH as nat);
        assert(e is Ok && e->Ok_0.jumps.len() == 0);
        let p = expand_prefix(c, scope, seq![], 0, MAX_MACRO_DEPTH as nat, n);
        assert(p is Ok);
        let pf = p->Ok_0;
        assert(e->Ok_0.jumps == patch(pf.bytes, pf.labels, pf.jumps).1);
        lemma_patch_total(pf.bytes, pf.labels, pf.jumps);
        lemma_jumps_filled_in(c, scope, seq![], 0, MAX_MACRO_DEPTH as nat);
        lemma_expand_labels(c, scope, seq![], 0, MAX_MACRO_DEPTH as nat);
        lemma_lookup_label_member(pf.labels, name);
        let f = e->Ok_0;
        assert(f.labels == pf.labels);
        assert forall|k: int| 0 <= k < pf.jumps.len() implies ({
            let d = lookup_label(pf.labels, #[trigger] pf.jumps[k].0);
            d is Some ==> 0 <= d->Some_0 < f.bytes.len() && f.bytes[d->Some_0] == JUMPDEST
        }) by {
            lemma_lookup_label_member(pf.labels, pf.jumps[k].0);
            let d = lookup_label(pf.labels, pf.jumps[k].0);
            if let Some(dv) = d {
                let i = choose|i: int| 0 <= i < pf.labels.len() && #[trigger] pf.labels[i].1 == dv;
                assert(f.labels[i] == pf.labels[i]);
            }
        }
    }
}

/// Generation is deterministic: the same contract tree gives the same result.
pub proof fn lemma_generation_deterministic(c1: &Contract, c2: &Contract)
    requires
        c1 == c2,
    ensures
        generated_hex(c1, "MAIN"@, main_missing()) == generated_hex(c2, "MAIN"@, main_missing()),
        generated_hex(c1, "CONSTRUCTOR"@, ErrorView::MissingConstructor) == generated_hex(
            c2,
            "CONSTRUCTOR"@,
            ErrorView::MissingConstructor,
        ),
{
}

} // verus!
