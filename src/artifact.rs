//! The deployable artifact: constructor code, deployment bootstrap, runtime
//! code and encoded constructor arguments.
use vstd::prelude::*;
use crate::error::{CodegenError, CodegenErrorKind, ErrorView};
use crate::hexenc::{encode_hex, hex_of};

verus! {

/// The name of what `str::to_lowercase` returns.
pub uninterp spec fn lowercase_of(s: Seq<char>) -> Seq<char>;

/// Relies on `str::to_lowercase`: the result depends on the characters alone.
#[verifier::external_body]
fn to_lowercase(s: &str) -> (r: String)
    ensures
        r@ == lowercase_of(s@),
{
    s.to_lowercase()
}

/// The source file that an artifact was built from.
pub struct FileSource {
    /// The file's path.
    pub path: String,
    /// The file's text, where it was kept.
    pub source: Option<String>,
}

impl FileSource {
    /// A file source with an empty path and no text.
    pub fn new() -> (r: FileSource)
        ensures
            r.path@ == Seq::<char>::empty(),
            r.source is None,
    {
        FileSource { path: String::new(), source: None }
    }
}

/// A function of the contract's ABI.
pub struct AbiFunction {
    /// The function's name.
    pub name: String,
    /// The types of its inputs.
    pub inputs: Vec<String>,
    /// The types of its outputs.
    pub outputs: Vec<String>,
    /// Its state mutability.
    pub state_mutability: String,
}

/// The ABI of a contract.
pub struct Abi {
    /// The functions, in declaration order.
    pub functions: Vec<AbiFunction>,
}

/// The output of code generation.
pub struct Artifact {
    /// The source file.
    pub file: FileSource,
    /// The deployable bytecode, as lower case hex.
    pub bytecode: String,
    /// The runtime bytecode, as lower case hex.
    pub runtime: String,
    /// The ABI, once generated.
    pub abi: Option<Abi>,
}

/// The number of bytes in the deployment bootstrap.
pub const BOOTSTRAP_LEN: usize = 13;

/// Four lower case hex digits of a number below `0x10000`.
pub open spec fn hex4(n: nat) -> Seq<char> {
    hex_of(seq![(n / 256) as u8, (n % 256) as u8])
}

/// The bootstrap that copies `runtime_len` bytes of runtime code, which follow
/// the bootstrap and `constructor_len` bytes of constructor code, and returns them.
pub open spec fn bootstrap(runtime_len: nat, constructor_len: nat) -> Seq<char> {
    "61"@ + hex4(runtime_len) + "80"@ + "61"@ + hex4((BOOTSTRAP_LEN + constructor_len) as nat) + "6000396000f3"@
}

/// The hex text of each encoded argument, one after the other.
pub open spec fn args_hex(args: Seq<Vec<u8>>) -> Seq<char>
    decreases args.len(),
{
    if args.len() == 0 {
        Seq::empty()
    } else {
        args_hex(args.drop_last()) + hex_of(args.last()@)
    }
}

/// The deployable bytecode before it is made lower case: constructor code,
/// bootstrap, runtime code and the encoded arguments.
pub open spec fn deploy_code(constructor: Seq<char>, runtime: Seq<char>, args: Seq<Vec<u8>>) -> Seq<char> {
    constructor + bootstrap(runtime.len() / 2, constructor.len() / 2) + runtime + args_hex(args)
}

/// Whether both lengths fit in the bootstrap's two-byte fields.
pub open spec fn fits_bootstrap(constructor: Seq<char>, runtime: Seq<char>) -> bool {
    runtime.len() / 2 <= 0xffff && BOOTSTRAP_LEN + constructor.len() / 2 <= 0xffff
}

fn hex4_of(n: usize) -> (r: String)
    requires
        n <= 0xffff,
    ensures
        r@ == hex4(n as nat),
{
    let b: [u8; 2] = [(n / 256) as u8, (n % 256) as u8];
    assert(b@ =~= seq![(n / 256) as u8, (n % 256) as u8]);
    encode_hex(&b)
}

/// Assembles the deployable artifact from runtime and constructor code, as
/// hex text, and the ABI encoding of each constructor argument.
pub fn assemble_artifact(
    file: FileSource,
    encoded_args: &Vec<Vec<u8>>,
    main_bytecode: &str,
    constructor_bytecode: &str,
) -> (r: Result<Artifact, CodegenError>)
    ensures
        match r {
            Ok(a) => fits_bootstrap(constructor_bytecode@, main_bytecode@) && a.bytecode@ == lowercase_of(
                deploy_code(constructor_bytecode@, main_bytecode@, encoded_args@),
            ) && a.runtime@ == lowercase_of(main_bytecode@) && a.file == file && a.abi is None,
            Err(e) => !fits_bootstrap(constructor_bytecode@, main_bytecode@) && e@ == ErrorView::BytecodeTooLarge,
        },
{
    let contract_length = main_bytecode.unicode_len() / 2;
    let constructor_length = constructor_bytecode.unicode_len() / 2;
    if contract_length > 0xffff || constructor_length > 0xffff - BOOTSTRAP_LEN {
        return Err(CodegenError::new(CodegenErrorKind::BytecodeTooLarge));
    }
    let contract_size = hex4_of(contract_length);
    let contract_code_offset = hex4_of(BOOTSTRAP_LEN + constructor_length);
    let mut code = String::new();
    code.append(constructor_bytecode);
    code.append("61");
    code.append(contract_size.as_str());
    code.append("80");
    code.append("61");
    code.append(contract_code_offset.as_str());
    code.append("6000396000f3");
    code.append(main_bytecode);
    let mut i: usize = 0;
    while i < encoded_args.len()
        invariant
            i <= encoded_args@.len(),
            code@ == constructor_bytecode@ + bootstrap(
                main_bytecode@.len() / 2,
                constructor_bytecode@.len() / 2,
            ) + main_bytecode@ + args_hex(encoded_args@.subrange(0, i as int)),
        decreases encoded_args@.len() - i,
    {
        let h = encode_hex(encoded_args[i].as_slice());
        code.append(h.as_str());
        assert(encoded_args@.subrange(0, i + 1).drop_last() =~= encoded_args@.subrange(0, i as int));
        i = i + 1;
    }
    assert(encoded_args@.subrange(0, encoded_args@.len() as int) =~= encoded_args@);
    assert(code@ =~= deploy_code(constructor_bytecode@, main_bytecode@, encoded_args@));
    let bytecode = to_lowercase(code.as_str());
    let runtime = to_lowercase(main_bytecode);
    Ok(Artifact { file, bytecode, runtime, abi: None })
}

} // verus!
