//! Macro expansion: argument resolution, the recursive expander and jump patching.
use vstd::prelude::*;
use crate::codegen::Codegen;
use crate::ast::{
    Contract, ConstVal, MacroArg, MacroInvocation, Statement, constant_index, macro_index,
    param_position_from,
};
use crate::error::{CodegenError, CodegenErrorKind, ErrorView};
use crate::opcodes::{opcode_byte, opcode_of, JUMPDEST, PUSH2};
use crate::push::{literal_push, push2_placeholder, push_literal};

verus! {

/// The largest offset that bytecode may reach: jump destinations are two bytes wide.
pub const MAX_CODE_SIZE: usize = 0xffff;

/// How deeply macro invocations may nest.
pub const MAX_MACRO_DEPTH: usize = 256;

/// A jump whose destination is still to be filled in.
pub struct Jump {
    /// The label jumped to.
    pub label: String,
    /// The position of the jump's `PUSH2` within the bytes of its frame.
    pub bytecode_index: usize,
}

/// A label and the absolute offset at which it was declared.
pub struct JumpIndex {
    /// The label's name.
    pub label: String,
    /// Its offset in the final bytecode.
    pub offset: usize,
}

/// The outcome of expanding one macro.
pub struct BytecodeRes {
    /// The bytes, with the jumps to known labels filled in.
    pub bytes: Vec<u8>,
    /// Every label declared in the expansion, with its offset; a later entry overrides an earlier one.
    pub jump_indices: Vec<JumpIndex>,
    /// The jumps whose labels the expansion does not declare, for an enclosing macro to resolve.
    pub unmatched_jumps: Vec<Jump>,
}

/// The state of a macro's expansion as it walks the body.
pub struct Frame {
    /// The bytes emitted so far.
    pub bytes: Vec<u8>,
    /// The absolute offset that the next byte will have.
    pub offset: usize,
    /// The labels declared so far.
    pub labels: Vec<JumpIndex>,
    /// The jumps recorded so far, by position within `bytes`.
    pub jumps: Vec<Jump>,
}

/// The mathematical value of a frame.
pub struct FrameView {
    /// The bytes emitted so far.
    pub bytes: Seq<u8>,
    /// The absolute offset that the next byte will have.
    pub offset: int,
    /// The labels declared so far, each with its absolute offset.
    pub labels: Seq<(Seq<char>, int)>,
    /// The jumps recorded so far, each with its position within `bytes`.
    pub jumps: Seq<(Seq<char>, int)>,
}

/// The value of a list of jumps: each label with its position.
pub open spec fn jumps_view(v: Seq<Jump>) -> Seq<(Seq<char>, int)> {
    v.map_values(|j: Jump| (j.label@, j.bytecode_index as int))
}

/// The value of a list of labels: each name with its offset.
pub open spec fn labels_view(v: Seq<JumpIndex>) -> Seq<(Seq<char>, int)> {
    v.map_values(|l: JumpIndex| (l.label@, l.offset as int))
}

impl View for Frame {
    type V = FrameView;

    open spec fn view(&self) -> FrameView {
        FrameView {
            bytes: self.bytes@,
            offset: self.offset as int,
            labels: labels_view(self.labels@),
            jumps: jumps_view(self.jumps@),
        }
    }
}

/// The value of an expansion's result that started at offset `base`.
pub open spec fn res_view(r: &BytecodeRes, base: int) -> FrameView {
    FrameView {
        bytes: r.bytes@,
        offset: base + r.bytes@.len(),
        labels: labels_view(r.jump_indices@),
        jumps: jumps_view(r.unmatched_jumps@),
    }
}

/// The value of an optional string.
pub open spec fn opt_view(o: Option<String>) -> Option<Seq<char>> {
    match o {
        Some(s) => Some(s@),
        None => None,
    }
}

/// The chain of macros being expanded, `scope`, innermost last, and for each
/// but the outermost the index of the statement in its parent that invoked it.
pub open spec fn stack_wf(c: &Contract, scope: Seq<usize>, calls: Seq<usize>) -> bool {
    &&& scope.len() >= 1
    &&& calls.len() + 1 == scope.len()
    &&& forall|k: int| 0 <= k < scope.len() ==> scope[k] < c.macros@.len()
    &&& forall|k: int|
        0 <= k < calls.len() ==> calls[k] < c.macros@[scope[k] as int].statements@.len()
            && c.macros@[scope[k] as int].statements@[calls[k] as int] is MacroInvocation
}

/// The invocation that entered frame `k` of the stack (`k >= 1`).
pub open spec fn invocation_of(c: &Contract, scope: Seq<usize>, calls: Seq<usize>, k: int) -> MacroInvocation {
    c.macros@[scope[k - 1] as int].statements@[calls[k - 1] as int]->MacroInvocation_0
}

/// The bytes that a constant stands for.
pub open spec fn constant_push(c: &Contract, i: int) -> Result<Seq<u8>, ErrorView> {
    match c.constants@[i].value {
        ConstVal::Literal(l) => Ok(literal_push(l@)),
        ConstVal::FreeStoragePointer => Err(ErrorView::StoragePointersNotDerived),
    }
}

/// What an argument reference `name` in frame `k` stands for: bytes to emit and,
/// where it falls through to a label, that label, whose jump the bytes begin.
/// A constant comes first, then an opcode, then a parameter of the frame's
/// macro bound by the invocation that entered it, and last a label.
pub open spec fn bubble(
    c: &Contract,
    scope: Seq<usize>,
    calls: Seq<usize>,
    k: int,
    name: Seq<char>,
) -> Result<(Seq<u8>, Option<Seq<char>>), ErrorView>
    decreases k,
{
    match constant_index(c, name) {
        Some(i) => match constant_push(c, i) {
            Ok(b) => Ok((b, None)),
            Err(e) => Err(e),
        },
        None => match opcode_of(name) {
            Some(op) => Ok((seq![op], None)),
            None => {
                let label = Ok((push2_placeholder(), Some(name)));
                if k <= 0 {
                    label
                } else {
                    match param_position_from(c.macros@[scope[k] as int].parameters@, name, 0) {
                        None => label,
                        Some(p) => {
                            let inv = invocation_of(c, scope, calls, k);
                            if p >= inv.args@.len() {
                                label
                            } else {
                                match inv.args@[p] {
                                    MacroArg::Literal(l) => Ok((literal_push(l@), None)),
                                    MacroArg::ArgCall(inner) => bubble(c, scope, calls, k - 1, inner@),
                                    MacroArg::Ident(l) => Ok((push2_placeholder(), Some(l@))),
                                }
                            }
                        },
                    }
                }
            },
        },
    }
}

/// Appends bytes to a frame, unless the offset would pass the limit.
pub open spec fn emit(f: FrameView, b: Seq<u8>) -> Result<FrameView, ErrorView> {
    if f.offset + b.len() > MAX_CODE_SIZE {
        Err(ErrorView::BytecodeTooLarge)
    } else {
        Ok(FrameView { bytes: f.bytes + b, offset: f.offset + b.len(), ..f })
    }
}

/// Records a jump to `label` at the frame's next byte.
pub open spec fn add_jump(f: FrameView, label: Seq<char>) -> FrameView {
    FrameView { jumps: f.jumps.push((label, f.bytes.len() as int)), ..f }
}

/// Records a label at the frame's offset.
pub open spec fn add_label(f: FrameView, label: Seq<char>) -> FrameView {
    FrameView { labels: f.labels.push((label, f.offset)), ..f }
}

/// Moves jump positions by `d`.
pub open spec fn shift_jumps(j: Seq<(Seq<char>, int)>, d: int) -> Seq<(Seq<char>, int)> {
    j.map_values(|x: (Seq<char>, int)| (x.0, x.1 + d))
}

/// A frame followed by the expansion of a macro that it invoked.
pub open spec fn merge(f: FrameView, child: FrameView) -> FrameView {
    FrameView {
        bytes: f.bytes + child.bytes,
        offset: f.offset + child.bytes.len(),
        labels: f.labels + child.labels,
        jumps: f.jumps + shift_jumps(child.jumps, f.bytes.len() as int),
    }
}

/// The frame after statement `i` of the innermost macro is expanded into `f`.
pub open spec fn expand_step(
    c: &Contract,
    scope: Seq<usize>,
    calls: Seq<usize>,
    fuel: nat,
    f: FrameView,
    i: int,
) -> Result<FrameView, ErrorView>
    decreases fuel, 0int,
{
    match c.macros@[scope.last() as int].statements@[i] {
        Statement::Literal(l) => emit(f, literal_push(l@)),
        Statement::Opcode(b) => emit(f, seq![b]),
        Statement::Code(v) => emit(f, v@),
        Statement::Constant(name) => match constant_index(c, name@) {
            None => Err(ErrorView::MissingConstantDefinition),
            Some(ci) => match constant_push(c, ci) {
                Ok(b) => emit(f, b),
                Err(e) => Err(e),
            },
        },
        Statement::ArgCall(name) => match bubble(c, scope, calls, scope.len() - 1, name@) {
            Err(e) => Err(e),
            Ok((b, lbl)) => match lbl {
                None => emit(f, b),
                Some(l) => emit(add_jump(f, l), b),
            },
        },
        Statement::MacroInvocation(mi) => match macro_index(c, mi.macro_name@) {
            None => Err(ErrorView::MissingMacroDefinition(mi.macro_name@)),
            Some(m) => if fuel == 0 {
                Err(ErrorView::RecursionLimit)
            } else {
                match expand(c, scope.push(m as usize), calls.push(i as usize), f.offset, (fuel - 1) as nat) {
                    Err(e) => Err(ErrorView::FailedMacroRecursion(Box::new(e))),
                    Ok(child) => Ok(merge(f, child)),
                }
            },
        },
        Statement::Label(name) => emit(add_label(f, name@), seq![JUMPDEST]),
        Statement::LabelCall(name) => emit(add_jump(f, name@), push2_placeholder()),
        Statement::BuiltinFunctionCall(_) => Err(ErrorView::InvalidMacroStatement),
    }
}

/// The frame of a macro after its first `i` statements, starting at offset `base`.
pub open spec fn expand_prefix(
    c: &Contract,
    scope: Seq<usize>,
    calls: Seq<usize>,
    base: int,
    fuel: nat,
    i: int,
) -> Result<FrameView, ErrorView>
    decreases fuel, i,
{
    if i <= 0 {
        Ok(FrameView { bytes: seq![], offset: base, labels: seq![], jumps: seq![] })
    } else {
        match expand_prefix(c, scope, calls, base, fuel, i - 1) {
            Err(e) => Err(e),
            Ok(f) => expand_step(c, scope, calls, fuel, f, i - 1),
        }
    }
}

/// The label's offset: the last declaration of that name.
pub open spec fn lookup_label(labels: Seq<(Seq<char>, int)>, name: Seq<char>) -> Option<int>
    decreases labels.len(),
{
    if labels.len() == 0 {
        None
    } else if labels.last().0 == name {
        Some(labels.last().1)
    } else {
        lookup_label(labels.drop_last(), name)
    }
}

/// Writes a two-byte destination into the `PUSH2` at `pos`.
pub open spec fn write_dest(b: Seq<u8>, pos: int, d: int) -> Seq<u8> {
    if 0 <= pos && pos + 3 <= b.len() {
        b.update(pos + 1, (d / 256) as u8).update(pos + 2, (d % 256) as u8)
    } else {
        b
    }
}

/// The second pass: fills in each jump whose label is known, in order, and
/// keeps the others as unmatched.
pub open spec fn patch(
    bytes: Seq<u8>,
    labels: Seq<(Seq<char>, int)>,
    jumps: Seq<(Seq<char>, int)>,
) -> (Seq<u8>, Seq<(Seq<char>, int)>)
    decreases jumps.len(),
{
    if jumps.len() == 0 {
        (bytes, seq![])
    } else {
        let (b, un) = patch(bytes, labels, jumps.drop_last());
        let j = jumps.last();
        match lookup_label(labels, j.0) {
            Some(d) => (write_dest(b, j.1, d), un),
            None => (b, un.push(j)),
        }
    }
}

/// The expansion of the innermost macro of the stack, starting at offset `base`.
pub open spec fn expand(c: &Contract, scope: Seq<usize>, calls: Seq<usize>, base: int, fuel: nat) -> Result<
    FrameView,
    ErrorView,
>
    decreases fuel, c.macros@[scope.last() as int].statements@.len() + 1,
{
    match expand_prefix(c, scope, calls, base, fuel, c.macros@[scope.last() as int].statements@.len() as int) {
        Err(e) => Err(e),
        Ok(f) => {
            let (b, un) = patch(f.bytes, f.labels, f.jumps);
            Ok(FrameView { bytes: b, offset: f.offset, labels: f.labels, jumps: un })
        },
    }
}

impl Frame {
    /// The frame's offset is `base` past its bytes and within the limit, and
    /// each recorded jump lies within its bytes.
    pub open spec fn inv(&self, base: int) -> bool {
        &&& self.offset <= MAX_CODE_SIZE
        &&& self.offset == base + self.bytes@.len()
        &&& forall|k: int| 0 <= k < self.jumps@.len() ==> self.jumps@[k].bytecode_index <= self.bytes@.len()
    }

    /// An empty frame at offset `base`.
    pub fn new(base: usize) -> (r: Frame)
        ensures
            r@ == (FrameView { bytes: seq![], offset: base as int, labels: seq![], jumps: seq![] }),
            base <= MAX_CODE_SIZE ==> r.inv(base as int),
    {
        let r = Frame { bytes: Vec::new(), offset: base, labels: Vec::new(), jumps: Vec::new() };
        assert(r@.labels =~= seq![]);
        assert(r@.jumps =~= seq![]);
        r
    }

    /// Appends bytes, unless the offset would pass the limit.
    pub fn emit(&mut self, b: &[u8]) -> (r: Result<(), CodegenError>)
        requires
            old(self).offset <= MAX_CODE_SIZE,
        ensures
            match r {
                Ok(()) => emit(old(self)@, b@) == Ok::<FrameView, ErrorView>(final(self)@),
                Err(e) => emit(old(self)@, b@) == Err::<FrameView, ErrorView>(e@),
            },
            final(self).offset <= MAX_CODE_SIZE,
            final(self).jumps@ == old(self).jumps@,
            r is Ok ==> final(self).bytes@ == old(self).bytes@ + b@ && final(self).offset == old(self).offset + b@.len(),
            forall|base: int| old(self).inv(base) ==> final(self).inv(base),
    {
        if b.len() > MAX_CODE_SIZE - self.offset {
            return Err(CodegenError::new(CodegenErrorKind::BytecodeTooLarge));
        }
        let ghost old_bytes = self.bytes@;
        let mut i: usize = 0;
        while i < b.len()
            invariant
                i <= b@.len(),
                self.bytes@ == old_bytes + b@.subrange(0, i as int),
                self.offset == old(self).offset,
                self.labels@ == old(self).labels@,
                self.jumps@ == old(self).jumps@,
                b@.len() <= MAX_CODE_SIZE - self.offset,
            decreases b@.len() - i,
        {
            self.bytes.push(b[i]);
            assert(b@.subrange(0, i + 1) =~= b@.subrange(0, i as int).push(b@[i as int]));
            i = i + 1;
        }
        assert(b@.subrange(0, b@.len() as int) =~= b@);
        self.offset = self.offset + b.len();
        Ok(())
    }

    /// Records a jump to `label` at the next byte.
    pub fn add_jump(&mut self, label: String)
        ensures
            final(self)@ == add_jump(old(self)@, label@),
            final(self).offset == old(self).offset,
            forall|base: int| old(self).inv(base) ==> final(self).inv(base),
    {
        let j = Jump { label, bytecode_index: self.bytes.len() };
        self.jumps.push(j);
        assert(jumps_view(self.jumps@) =~= jumps_view(old(self).jumps@).push((label@, old(self).bytes@.len() as int)));
    }

    /// Records a label at the current offset.
    pub fn add_label(&mut self, label: String)
        ensures
            final(self)@ == add_label(old(self)@, label@),
            final(self).offset == old(self).offset,
            forall|base: int| old(self).inv(base) ==> final(self).inv(base),
    {
        let l = JumpIndex { label, offset: self.offset };
        self.labels.push(l);
        assert(labels_view(self.labels@) =~= labels_view(old(self).labels@).push((label@, old(self).offset as int)));
    }
}

/// The bytes of the constant at index `i`.
pub fn constant_bytes(contract: &Contract, i: usize) -> (r: Result<Vec<u8>, CodegenError>)
    requires
        i < contract.constants@.len(),
    ensures
        match r {
            Ok(b) => constant_push(contract, i as int) == Ok::<Seq<u8>, ErrorView>(b@),
            Err(e) => constant_push(contract, i as int) == Err::<Seq<u8>, ErrorView>(e@),
        },
{
    match &contract.constants[i].value {
        ConstVal::Literal(l) => Ok(push_literal(l)),
        ConstVal::FreeStoragePointer => Err(CodegenError::new(CodegenErrorKind::StoragePointersNotDerived)),
    }
}

fn placeholder() -> (r: Vec<u8>)
    ensures
        r@ == push2_placeholder(),
{
    let mut r: Vec<u8> = Vec::new();
    r.push(PUSH2);
    r.push(0);
    r.push(0);
    assert(r@ =~= push2_placeholder());
    r
}

impl Codegen {
    /// Resolves the argument reference `arg_name` in frame `level` of the stack:
    /// to a constant, an opcode, the actual argument bound to a parameter of that
    /// frame's macro (looked up further out when it is itself a reference), or
    /// else a jump to a label of that name.
    pub fn bubble_arg_call(
        arg_name: &String,
        contract: &Contract,
        scope: &Vec<usize>,
        calls: &Vec<usize>,
        level: usize,
    ) -> (r: Result<(Vec<u8>, Option<String>), CodegenError>)
        requires
            stack_wf(contract, scope@, calls@),
            level < scope@.len(),
        ensures
            match r {
                Ok((b, l)) => bubble(contract, scope@, calls@, level as int, arg_name@) == Ok::<
                    (Seq<u8>, Option<Seq<char>>),
                    ErrorView,
                >((b@, opt_view(l))),
                Err(e) => bubble(contract, scope@, calls@, level as int, arg_name@) == Err::<
                    (Seq<u8>, Option<Seq<char>>),
                    ErrorView,
                >(e@),
            },
        decreases level,
    {
        match contract.find_constant_by_name(arg_name) {
            Some(i) => {
                return match constant_bytes(contract, i) {
                    Ok(b) => Ok((b, None)),
                    Err(e) => Err(e),
                };
            },
            None => {},
        }
        match opcode_byte(arg_name.as_str()) {
            Some(op) => {
                let mut b: Vec<u8> = Vec::new();
                b.push(op);
                assert(b@ =~= seq![op]);
                return Ok((b, None));
            },
            None => {},
        }
        if level == 0 {
            return Ok((placeholder(), Some(arg_name.clone())));
        }
        let m = &contract.macros[scope[level]];
        let pos = match m.param_position(arg_name) {
            Some(p) => p,
            None => {
                return Ok((placeholder(), Some(arg_name.clone())));
            },
        };
        let inv = match &contract.macros[scope[level - 1]].statements[calls[level - 1]] {
            Statement::MacroInvocation(mi) => mi,
            _ => {
                return Ok((placeholder(), Some(arg_name.clone())));
            },
        };
        if pos >= inv.args.len() {
            return Ok((placeholder(), Some(arg_name.clone())));
        }
        match &inv.args[pos] {
            MacroArg::Literal(l) => Ok((push_literal(l), None)),
            MacroArg::ArgCall(inner) => Codegen::bubble_arg_call(inner, contract, scope, calls, level - 1),
            MacroArg::Ident(l) => Ok((placeholder(), Some(l.clone()))),
        }
    }
}

/// The offset of the last label named `name`.
pub fn find_label(labels: &Vec<JumpIndex>, name: &String) -> (r: Option<usize>)
    ensures
        match r {
            Some(d) => lookup_label(labels_view(labels@), name@) == Some(d as int),
            None => lookup_label(labels_view(labels@), name@) is None,
        },
{
    let ghost lv = labels_view(labels@);
    let mut i: usize = labels.len();
    assert(lv.subrange(0, i as int) =~= lv);
    while i > 0
        invariant
            i <= labels@.len(),
            lv == labels_view(labels@),
            lookup_label(lv, name@) == lookup_label(lv.subrange(0, i as int), name@),
        decreases i,
    {
        assert(lv.subrange(0, i as int).drop_last() =~= lv.subrange(0, i - 1));
        if labels[i - 1].label == *name {
            return Some(labels[i - 1].offset);
        }
        i = i - 1;
    }
    None
}

/// The second pass over a frame: fills in every jump whose label `labels`
/// declares and returns the others, in order.
pub fn patch_jumps(bytes: &mut Vec<u8>, labels: &Vec<JumpIndex>, jumps: &Vec<Jump>) -> (un: Vec<Jump>)
    requires
        forall|k: int| 0 <= k < jumps@.len() ==> jumps@[k].bytecode_index <= old(bytes)@.len(),
    ensures
        patch(old(bytes)@, labels_view(labels@), jumps_view(jumps@)) == (final(bytes)@, jumps_view(un@)),
        final(bytes)@.len() == old(bytes)@.len(),
        forall|k: int| 0 <= k < un@.len() ==> un@[k].bytecode_index <= final(bytes)@.len(),
{
    let ghost orig = bytes@;
    let ghost jv = jumps_view(jumps@);
    let mut un: Vec<Jump> = Vec::new();
    let mut i: usize = 0;
    assert(jumps_view(un@) =~= seq![]);
    assert(jv.subrange(0, 0) =~= seq![]);
    while i < jumps.len()
        invariant
            i <= jumps@.len(),
            jv == jumps_view(jumps@),
            bytes@.len() == orig.len(),
            forall|k: int| 0 <= k < jumps@.len() ==> jumps@[k].bytecode_index <= orig.len(),
            forall|k: int| 0 <= k < un@.len() ==> un@[k].bytecode_index <= orig.len(),
            patch(orig, labels_view(labels@), jv.subrange(0, i as int)) == (bytes@, jumps_view(un@)),
        decreases jumps@.len() - i,
    {
        assert(jv.subrange(0, i + 1).drop_last() =~= jv.subrange(0, i as int));
        assert(jv.subrange(0, i + 1).last() == jv[i as int]);
        let j = &jumps[i];
        match find_label(labels, &j.label) {
            Some(d) => {
                let pos = j.bytecode_index;
                if pos < bytes.len() && bytes.len() - pos >= 3 {
                    bytes.set(pos + 1, (d / 256) as u8);
                    bytes.set(pos + 2, (d % 256) as u8);
                }
            },
            None => {
                let ghost before = jumps_view(un@);
                un.push(Jump { label: j.label.clone(), bytecode_index: j.bytecode_index });
                assert(jumps_view(un@) =~= before.push(jv[i as int]));
            },
        }
        i = i + 1;
    }
    assert(jv.subrange(0, jumps@.len() as int) =~= jv);
    un
}

impl Frame {
    /// Appends the expansion of an invoked macro, which started at this frame's offset.
    pub fn merge(&mut self, child: BytecodeRes)
        requires
            old(self).offset + child.bytes@.len() <= MAX_CODE_SIZE,
            old(self).bytes@.len() <= old(self).offset,
            forall|k: int|
                0 <= k < child.unmatched_jumps@.len() ==> child.unmatched_jumps@[k].bytecode_index
                    <= child.bytes@.len(),
            forall|k: int| 0 <= k < old(self).jumps@.len() ==> old(self).jumps@[k].bytecode_index <= old(self).bytes@.len(),
        ensures
            final(self)@ == merge(old(self)@, res_view(&child, old(self).offset as int)),
            forall|k: int| 0 <= k < final(self).jumps@.len() ==> final(self).jumps@[k].bytecode_index <= final(self).bytes@.len(),
            forall|base: int| old(self).inv(base) ==> final(self).inv(base),
    {
        let base = self.bytes.len();
        let ghost f0 = self@;
        let BytecodeRes { bytes, jump_indices, unmatched_jumps } = child;
        let r = self.emit(bytes.as_slice());
        assert(r is Ok);
        let mut jump_indices = jump_indices;
        self.labels.append(&mut jump_indices);
        assert(labels_view(self.labels@) =~= f0.labels + labels_view(child.jump_indices@));
        let ghost cj = jumps_view(unmatched_jumps@);
        let mut i: usize = 0;
        while i < unmatched_jumps.len()
            invariant
                i <= unmatched_jumps@.len(),
                base == f0.bytes.len(),
                cj == jumps_view(unmatched_jumps@),
                unmatched_jumps@ == child.unmatched_jumps@,
                self.bytes@ == f0.bytes + child.bytes@,
                self.offset == f0.offset + child.bytes@.len(),
                labels_view(self.labels@) == f0.labels + labels_view(child.jump_indices@),
                jumps_view(self.jumps@) == f0.jumps + shift_jumps(cj.subrange(0, i as int), base as int),
                base + child.bytes@.len() <= MAX_CODE_SIZE,
                forall|k: int| 0 <= k < unmatched_jumps@.len() ==> unmatched_jumps@[k].bytecode_index <= child.bytes@.len(),
                forall|k: int| 0 <= k < self.jumps@.len() ==> self.jumps@[k].bytecode_index <= self.bytes@.len(),
            decreases unmatched_jumps@.len() - i,
        {
            let j = &unmatched_jumps[i];
            let ghost before = jumps_view(self.jumps@);
            self.jumps.push(Jump { label: j.label.clone(), bytecode_index: j.bytecode_index + base });
            assert(cj.subrange(0, i + 1) =~= cj.subrange(0, i as int).push(cj[i as int]));
            assert(shift_jumps(cj.subrange(0, i + 1), base as int) =~= shift_jumps(cj.subrange(0, i as int), base as int).push((cj[i as int].0, cj[i as int].1 + base)));
            assert(jumps_view(self.jumps@) =~= before.push((j.label@, j.bytecode_index + base)));
            i = i + 1;
        }
        assert(cj.subrange(0, unmatched_jumps@.len() as int) =~= cj);
    }
}

/// Expands the invocation `mi`, statement `i` of the innermost macro, into the frame.
fn expand_invocation(
    contract: &Contract,
    scope: &mut Vec<usize>,
    calls: &mut Vec<usize>,
    f: &mut Frame,
    i: usize,
    mi: &MacroInvocation,
    base: Ghost<int>,
    fuel: usize,
) -> (r: Result<(), CodegenError>)
    requires
        stack_wf(contract, old(scope)@, old(calls)@),
        i < contract.macros@[old(scope)@.last() as int].statements@.len(),
        contract.macros@[old(scope)@.last() as int].statements@[i as int] == Statement::MacroInvocation(*mi),
        old(f).inv(base@),
        base@ >= 0,
    ensures
        final(scope)@ == old(scope)@,
        final(calls)@ == old(calls)@,
        final(f).inv(base@),
        match r {
            Ok(()) => expand_step(contract, old(scope)@, old(calls)@, fuel as nat, old(f)@, i as int) == Ok::<
                FrameView,
                ErrorView,
            >(final(f)@),
            Err(e) => expand_step(contract, old(scope)@, old(calls)@, fuel as nat, old(f)@, i as int) == Err::<
                FrameView,
                ErrorView,
            >(e@),
        },
    decreases fuel, 0int,
{
    let ghost s0 = scope@;
    let ghost c0 = calls@;
    match contract.find_macro_by_name(&mi.macro_name) {
        None => Err(CodegenError::new(CodegenErrorKind::MissingMacroDefinition(mi.macro_name.clone()))),
        Some(m) => {
            if fuel == 0 {
                Err(CodegenError::new(CodegenErrorKind::RecursionLimit))
            } else {
                scope.push(m);
                calls.push(i);
                let res = Codegen::recurse_bytecode(contract, scope, calls, f.offset, fuel - 1);
                scope.pop();
                calls.pop();
                assert(scope@ =~= s0);
                assert(calls@ =~= c0);
                match res {
                    Err(e) => Err(CodegenError::new(CodegenErrorKind::FailedMacroRecursion(Box::new(e.kind)))),
                    Ok(child) => {
                        f.merge(child);
                        Ok(())
                    },
                }
            }
        },
    }
}

/// Expands statement `i` of the innermost macro of the stack into the frame.
pub fn expand_statement(
    contract: &Contract,
    scope: &mut Vec<usize>,
    calls: &mut Vec<usize>,
    f: &mut Frame,
    i: usize,
    base: Ghost<int>,
    fuel: usize,
) -> (r: Result<(), CodegenError>)
    requires
        stack_wf(contract, old(scope)@, old(calls)@),
        i < contract.macros@[old(scope)@.last() as int].statements@.len(),
        old(f).inv(base@),
        base@ >= 0,
    ensures
        final(scope)@ == old(scope)@,
        final(calls)@ == old(calls)@,
        final(f).inv(base@),
        match r {
            Ok(()) => expand_step(contract, old(scope)@, old(calls)@, fuel as nat, old(f)@, i as int) == Ok::<
                FrameView,
                ErrorView,
            >(final(f)@),
            Err(e) => expand_step(contract, old(scope)@, old(calls)@, fuel as nat, old(f)@, i as int) == Err::<
                FrameView,
                ErrorView,
            >(e@),
        },
    decreases fuel, 1int,
{
    let cur = scope[scope.len() - 1];
    match &contract.macros[cur].statements[i] {
        Statement::Literal(l) => {
            let b = push_literal(l);
            f.emit(b.as_slice())
        },
        Statement::Opcode(op) => {
            let mut b: Vec<u8> = Vec::new();
            b.push(*op);
            assert(b@ =~= seq![*op]);
            f.emit(b.as_slice())
        },
        Statement::Code(v) => f.emit(v.as_slice()),
        Statement::Constant(name) => match contract.find_constant_by_name(name) {
            None => Err(CodegenError::new(CodegenErrorKind::MissingConstantDefinition)),
            Some(ci) => match constant_bytes(contract, ci) {
                Ok(b) => f.emit(b.as_slice()),
                Err(e) => Err(e),
            },
        },
        Statement::ArgCall(name) => match Codegen::bubble_arg_call(
            name,
            contract,
            scope,
            calls,
            scope.len() - 1,
        ) {
            Err(e) => Err(e),
            Ok((b, lbl)) => match lbl {
                None => f.emit(b.as_slice()),
                Some(l) => {
                    if b.len() > MAX_CODE_SIZE - f.offset {
                        Err(CodegenError::new(CodegenErrorKind::BytecodeTooLarge))
                    } else {
                        f.add_jump(l);
                        f.emit(b.as_slice())
                    }
                },
            },
        },
        Statement::MacroInvocation(mi) => expand_invocation(
            contract,
            scope,
            calls,
            f,
            i,
            mi,
            base,
            fuel,
        ),
        Statement::Label(name) => {
            if MAX_CODE_SIZE - f.offset < 1 {
                Err(CodegenError::new(CodegenErrorKind::BytecodeTooLarge))
            } else {
                f.add_label(name.clone());
                let mut b: Vec<u8> = Vec::new();
                b.push(JUMPDEST);
                assert(b@ =~= seq![JUMPDEST]);
                f.emit(b.as_slice())
            }
        },
        Statement::LabelCall(name) => {
            if MAX_CODE_SIZE - f.offset < 3 {
                Err(CodegenError::new(CodegenErrorKind::BytecodeTooLarge))
            } else {
                f.add_jump(name.clone());
                let b = placeholder();
                f.emit(b.as_slice())
            }
        },
        Statement::BuiltinFunctionCall(_) => Err(CodegenError::new(CodegenErrorKind::InvalidMacroStatement)),
    }
}

proof fn lemma_prefix_err(
    c: &Contract,
    scope: Seq<usize>,
    calls: Seq<usize>,
    base: int,
    fuel: nat,
    i: int,
    n: int,
)
    requires
        0 <= i <= n,
        expand_prefix(c, scope, calls, base, fuel, i) is Err,
    ensures
        expand_prefix(c, scope, calls, base, fuel, n) == expand_prefix(c, scope, calls, base, fuel, i),
    decreases n - i,
{
    if n > i {
        lemma_prefix_err(c, scope, calls, base, fuel, i, n - 1);
    }
}

impl Codegen {
    /// Expands the innermost macro of the stack, starting at absolute offset
    /// `offset`, with at most `fuel` further levels of nested invocation.
    /// Jumps to labels that the expansion declares are filled in; the others are
    /// returned as unmatched, by position within the returned bytes.
    pub fn recurse_bytecode(
        contract: &Contract,
        scope: &mut Vec<usize>,
        calls: &mut Vec<usize>,
        offset: usize,
        fuel: usize,
    ) -> (r: Result<BytecodeRes, CodegenError>)
        requires
            stack_wf(contract, old(scope)@, old(calls)@),
            offset <= MAX_CODE_SIZE,
        ensures
            final(scope)@ == old(scope)@,
            final(calls)@ == old(calls)@,
            match r {
                Ok(res) => expand(contract, old(scope)@, old(calls)@, offset as int, fuel as nat) == Ok::<
                    FrameView,
                    ErrorView,
                >(res_view(&res, offset as int)),
                Err(e) => expand(contract, old(scope)@, old(calls)@, offset as int, fuel as nat) == Err::<
                    FrameView,
                    ErrorView,
                >(e@),
            },
            r matches Ok(res) ==> offset + res.bytes@.len() <= MAX_CODE_SIZE && forall|k: int|
                0 <= k < res.unmatched_jumps@.len() ==> res.unmatched_jumps@[k].bytecode_index
                    <= res.bytes@.len(),
        decreases fuel, 2int,
    {
        let ghost s0 = scope@;
        let ghost c0 = calls@;
        let cur = scope[scope.len() - 1];
        let n = contract.macros[cur].statements.len();
        let mut f = Frame::new(offset);
        let mut i: usize = 0;
        while i < n
            invariant
                i <= n,
                scope@ == s0,
                calls@ == c0,
                s0 == old(scope)@,
                c0 == old(calls)@,
                stack_wf(contract, s0, c0),
                cur == s0.last(),
                n == contract.macros@[cur as int].statements@.len(),
                f.inv(offset as int),
                expand_prefix(contract, s0, c0, offset as int, fuel as nat, i as int) == Ok::<
                    FrameView,
                    ErrorView,
                >(f@),
            decreases n - i,
        {
            match expand_statement(
                contract,
                scope,
                calls,
                &mut f,
                i,
                Ghost(offset as int),
                fuel,
            ) {
                Err(e) => {
                    proof {
                        lemma_prefix_err(contract, s0, c0, offset as int, fuel as nat, i + 1, n as int);
                    }
                    return Err(e);
                },
                Ok(()) => {},
            }
            i = i + 1;
        }
        let ghost fv = f@;
        let Frame { bytes, offset: end, labels, jumps } = f;
        let mut bytes = bytes;
        let un = patch_jumps(&mut bytes, &labels, &jumps);
        let r = BytecodeRes { bytes, jump_indices: labels, unmatched_jumps: un };
        assert(res_view(&r, offset as int).offset == fv.offset);
        Ok(r)
    }
}

/// Patching fills in bytes in place: the length stays.
pub proof fn lemma_patch_len(b: Seq<u8>, labels: Seq<(Seq<char>, int)>, jumps: Seq<(Seq<char>, int)>)
    ensures
        patch(b, labels, jumps).0.len() == b.len(),
    decreases jumps.len(),
{
    if jumps.len() > 0 {
        lemma_patch_len(b, labels, jumps.drop_last());
    }
}

/// Where patching leaves no jump unmatched, the label of every jump is declared.
pub proof fn lemma_patch_total(b: Seq<u8>, labels: Seq<(Seq<char>, int)>, jumps: Seq<(Seq<char>, int)>)
    requires
        patch(b, labels, jumps).1.len() == 0,
    ensures
        forall|k: int| 0 <= k < jumps.len() ==> lookup_label(labels, #[trigger] jumps[k].0) is Some,
    decreases jumps.len(),
{
    if jumps.len() > 0 {
        let (b1, un) = patch(b, labels, jumps.drop_last());
        if lookup_label(labels, jumps.last().0) is None {
            assert(patch(b, labels, jumps).1 == un.push(jumps.last()));
        }
        lemma_patch_total(b, labels, jumps.drop_last());
        assert forall|k: int| 0 <= k < jumps.len() implies lookup_label(labels, #[trigger] jumps[k].0) is Some by {
            if k < jumps.len() - 1 {
                assert(jumps[k] == jumps.drop_last()[k]);
            }
        }
    }
}

proof fn lemma_step_offset(c: &Contract, scope: Seq<usize>, calls: Seq<usize>, fuel: nat, f: FrameView, i: int)
    ensures
        expand_step(c, scope, calls, fuel, f, i) matches Ok(g) ==> g.offset - g.bytes.len() == f.offset
            - f.bytes.len(),
{
    match c.macros@[scope.last() as int].statements@[i] {
        Statement::ArgCall(name) => {
            if let Ok((b, lbl)) = bubble(c, scope, calls, scope.len() - 1, name@) {
                if let Some(l) = lbl {
                    assert(add_jump(f, l).offset == f.offset && add_jump(f, l).bytes == f.bytes);
                }
            }
        },
        Statement::Label(name) => {
            assert(add_label(f, name@).bytes == f.bytes && add_label(f, name@).offset == f.offset);
        },
        Statement::LabelCall(name) => {
            assert(add_jump(f, name@).bytes == f.bytes && add_jump(f, name@).offset == f.offset);
        },
        _ => {},
    }
}

/// The offset is accurate: after each statement of a macro's body, the
/// expander's offset is the offset it started at plus the number of bytes
/// emitted so far.
pub proof fn lemma_offset_accuracy(
    c: &Contract,
    scope: Seq<usize>,
    calls: Seq<usize>,
    base: int,
    fuel: nat,
    i: int,
)
    ensures
        expand_prefix(c, scope, calls, base, fuel, i) matches Ok(f) ==> f.offset == base + f.bytes.len(),
    decreases i,
{
    if i > 0 {
        lemma_offset_accuracy(c, scope, calls, base, fuel, i - 1);
        if let Ok(f) = expand_prefix(c, scope, calls, base, fuel, i - 1) {
            assert(expand_prefix(c, scope, calls, base, fuel, i) == expand_step(c, scope, calls, fuel, f, i - 1));
            lemma_step_offset(c, scope, calls, fuel, f, i - 1);
        }
    }
}

/// The offset after a whole expansion is where it started plus its length.
pub proof fn lemma_expand_offset(c: &Contract, scope: Seq<usize>, calls: Seq<usize>, base: int, fuel: nat)
    ensures
        expand(c, scope, calls, base, fuel) matches Ok(f) ==> f.offset == base + f.bytes.len(),
{
    let n = c.macros@[scope.last() as int].statements@.len() as int;
    lemma_offset_accuracy(c, scope, calls, base, fuel, n);
    if let Ok(f) = expand_prefix(c, scope, calls, base, fuel, n) {
        lemma_patch_len(f.bytes, f.labels, f.jumps);
    }
}

/// The bytes hold a `PUSH2` with an operand still zero at `p`.
pub open spec fn placeholder_at(bytes: Seq<u8>, p: int) -> bool {
    0 <= p && p + 3 <= bytes.len() && bytes[p] == PUSH2 && bytes[p + 1] == 0 && bytes[p + 2] == 0
}

/// Each jump sits on a `PUSH2` placeholder within the bytes, in order, three bytes at least apart.
pub open spec fn jumps_wf(j: Seq<(Seq<char>, int)>, bytes: Seq<u8>) -> bool {
    &&& forall|k: int| 0 <= k < j.len() ==> placeholder_at(bytes, #[trigger] j[k].1)
    &&& forall|k: int, l: int| 0 <= k < l < j.len() ==> #[trigger] j[k].1 + 3 <= #[trigger] j[l].1
}

proof fn lemma_bubble_label_placeholder(c: &Contract, scope: Seq<usize>, calls: Seq<usize>, k: int, name: Seq<char>)
    ensures
        bubble(c, scope, calls, k, name) matches Ok((b, Some(l))) ==> b == push2_placeholder(),
    decreases k,
{
    if k > 0 {
        if let Some(p) = param_position_from(c.macros@[scope[k] as int].parameters@, name, 0) {
            let inv = invocation_of(c, scope, calls, k);
            if p < inv.args@.len() {
                if let MacroArg::ArgCall(inner) = inv.args@[p] {
                    lemma_bubble_label_placeholder(c, scope, calls, k - 1, inner@);
                }
            }
        }
    }
}

proof fn lemma_emit_wf(f: FrameView, b: Seq<u8>)
    requires
        jumps_wf(f.jumps, f.bytes),
    ensures
        emit(f, b) matches Ok(g) ==> jumps_wf(g.jumps, g.bytes),
{
    if let Ok(g) = emit(f, b) {
        assert forall|k: int| 0 <= k < g.jumps.len() implies placeholder_at(g.bytes, #[trigger] g.jumps[k].1) by {
            assert(g.bytes[g.jumps[k].1] == f.bytes[f.jumps[k].1]);
            assert(g.bytes[g.jumps[k].1 + 1] == f.bytes[f.jumps[k].1 + 1]);
            assert(g.bytes[g.jumps[k].1 + 2] == f.bytes[f.jumps[k].1 + 2]);
        }
    }
}

proof fn lemma_jump_then_placeholder_wf(f: FrameView, l: Seq<char>)
    requires
        jumps_wf(f.jumps, f.bytes),
    ensures
        emit(add_jump(f, l), push2_placeholder()) matches Ok(g) ==> jumps_wf(g.jumps, g.bytes),
{
    let h = add_jump(f, l);
    if let Ok(g) = emit(h, push2_placeholder()) {
        let n = f.jumps.len();
        assert forall|k: int| 0 <= k < g.jumps.len() implies placeholder_at(g.bytes, #[trigger] g.jumps[k].1) by {
            if k < n {
                assert(g.jumps[k] == f.jumps[k]);
                assert(g.bytes[g.jumps[k].1] == f.bytes[f.jumps[k].1]);
                assert(g.bytes[g.jumps[k].1 + 1] == f.bytes[f.jumps[k].1 + 1]);
                assert(g.bytes[g.jumps[k].1 + 2] == f.bytes[f.jumps[k].1 + 2]);
            } else {
                assert(g.jumps[k].1 == f.bytes.len());
                assert(g.bytes[f.bytes.len() as int] == push2_placeholder()[0]);
                assert(g.bytes[f.bytes.len() as int + 1] == push2_placeholder()[1]);
                assert(g.bytes[f.bytes.len() as int + 2] == push2_placeholder()[2]);
            }
        }
        assert forall|k: int, m: int| 0 <= k < m < g.jumps.len() implies #[trigger] g.jumps[k].1 + 3
            <= #[trigger] g.jumps[m].1 by {
            assert(g.jumps[k] == f.jumps[k]);
            if m < n {
                assert(g.jumps[m] == f.jumps[m]);
            }
        }
    }
}

proof fn lemma_merge_wf(f: FrameView, child: FrameView)
    requires
        jumps_wf(f.jumps, f.bytes),
        jumps_wf(child.jumps, child.bytes),
    ensures
        jumps_wf(merge(f, child).jumps, merge(f, child).bytes),
{
    let g = merge(f, child);
    let n = f.jumps.len();
    let d = f.bytes.len() as int;
    assert forall|k: int| 0 <= k < g.jumps.len() implies placeholder_at(g.bytes, #[trigger] g.jumps[k].1) by {
        if k < n {
            assert(g.jumps[k] == f.jumps[k]);
            assert(g.bytes[g.jumps[k].1] == f.bytes[f.jumps[k].1]);
            assert(g.bytes[g.jumps[k].1 + 1] == f.bytes[f.jumps[k].1 + 1]);
            assert(g.bytes[g.jumps[k].1 + 2] == f.bytes[f.jumps[k].1 + 2]);
        } else {
            assert(g.jumps[k] == (child.jumps[k - n].0, child.jumps[k - n].1 + d));
            assert(g.bytes[g.jumps[k].1] == child.bytes[child.jumps[k - n].1]);
            assert(g.bytes[g.jumps[k].1 + 1] == child.bytes[child.jumps[k - n].1 + 1]);
            assert(g.bytes[g.jumps[k].1 + 2] == child.bytes[child.jumps[k - n].1 + 2]);
        }
    }
    assert forall|k: int, m: int| 0 <= k < m < g.jumps.len() implies #[trigger] g.jumps[k].1 + 3
        <= #[trigger] g.jumps[m].1 by {
        if m < n {
            assert(g.jumps[k] == f.jumps[k]);
            assert(g.jumps[m] == f.jumps[m]);
        } else if k < n {
            assert(g.jumps[k] == f.jumps[k]);
            assert(g.jumps[m] == (child.jumps[m - n].0, child.jumps[m - n].1 + d));
        } else {
            assert(g.jumps[k] == (child.jumps[k - n].0, child.jumps[k - n].1 + d));
            assert(g.jumps[m] == (child.jumps[m - n].0, child.jumps[m - n].1 + d));
        }
    }
}

/// Patching keeps unmatched jumps in order and on their `PUSH2`, and fills in
/// each matched one with its label's offset.
proof fn lemma_patch_wf(b: Seq<u8>, labels: Seq<(Seq<char>, int)>, jumps: Seq<(Seq<char>, int)>)
    requires
        jumps_wf(jumps, b),
    ensures
        ({
            let (pb, un) = patch(b, labels, jumps);
            &&& pb.len() == b.len()
            &&& forall|m: int| 0 <= m < un.len() ==> exists|k: int| 0 <= k < jumps.len() && #[trigger] un[m] == jumps[k]
            &&& forall|m: int| 0 <= m < un.len() ==> lookup_label(labels, #[trigger] un[m].0) is None
            &&& jumps_wf(un, pb)
            &&& forall|k: int| 0 <= k < jumps.len() ==> pb[#[trigger] jumps[k].1] == PUSH2
            &&& forall|x: int| 0 <= x < b.len() && b[x] != 0 ==> #[trigger] pb[x] == b[x]
            &&& forall|k: int|
                0 <= k < jumps.len() && #[trigger] lookup_label(labels, jumps[k].0) is None ==> pb[jumps[k].1 + 1]
                    == 0 && pb[jumps[k].1 + 2] == 0
            &&& forall|x: int|
                0 <= x < b.len() && (forall|k: int| 0 <= k < jumps.len() ==> #[trigger] jumps[k].1 + 3 <= x)
                    ==> pb[x] == b[x]
            &&& forall|k: int|
                0 <= k < jumps.len() && #[trigger] lookup_label(labels, jumps[k].0) is Some ==> pb[jumps[k].1 + 1]
                    == (lookup_label(labels, jumps[k].0)->Some_0 / 256) as u8 && pb[jumps[k].1 + 2] == (
                lookup_label(labels, jumps[k].0)->Some_0 % 256) as u8
        }),
    decreases jumps.len(),
{
    lemma_patch_len(b, labels, jumps);
    if jumps.len() > 0 {
        let init = jumps.drop_last();
        assert(jumps_wf(init, b)) by {
            assert forall|k: int| 0 <= k < init.len() implies placeholder_at(b, #[trigger] init[k].1) by {
                assert(init[k] == jumps[k]);
            }
            assert forall|k: int, m: int| 0 <= k < m < init.len() implies #[trigger] init[k].1 + 3
                <= #[trigger] init[m].1 by {
                assert(init[k] == jumps[k]);
                assert(init[m] == jumps[m]);
            }
        }
        lemma_patch_wf(b, labels, init);
        lemma_patch_len(b, labels, init);
        let (pb0, un0) = patch(b, labels, init);
        let j = jumps.last();
        let n = init.len() as int;
        let (pb, un) = patch(b, labels, jumps);
        assert(j == jumps[n]);
        assert forall|k: int| 0 <= k < n implies #[trigger] jumps[k].1 + 3 <= j.1 by {
            assert(jumps[k].1 + 3 <= jumps[n].1);
        }
        assert forall|k: int| 0 <= k < init.len() implies #[trigger] init[k] == jumps[k] by {}
        // bytes away from the last jump's operand are left as they were
        assert forall|x: int| 0 <= x < pb.len() && x != j.1 + 1 && x != j.1 + 2 implies pb[x] == pb0[x] by {}
        assert forall|x: int|
            0 <= x < b.len() && (forall|k: int| 0 <= k < jumps.len() ==> #[trigger] jumps[k].1 + 3 <= x)
                implies pb[x] == b[x] by {
            assert forall|k: int| 0 <= k < init.len() implies #[trigger] init[k].1 + 3 <= x by {
                assert(init[k] == jumps[k]);
            }
            assert(jumps[n].1 + 3 <= x);
        }
        assert(pb0[j.1] == b[j.1]) by {
            assert forall|k: int| 0 <= k < init.len() implies #[trigger] init[k].1 + 3 <= j.1 by {
                assert(init[k] == jumps[k]);
            }
        }
        assert forall|k: int| 0 <= k < jumps.len() implies pb[#[trigger] jumps[k].1] == PUSH2 by {
            if k < n {
                assert(init[k] == jumps[k]);
            }
        }
        assert forall|k: int|
            0 <= k < jumps.len() && #[trigger] lookup_label(labels, jumps[k].0) is Some implies pb[jumps[k].1 + 1]
                == (lookup_label(labels, jumps[k].0)->Some_0 / 256) as u8 && pb[jumps[k].1 + 2] == (
            lookup_label(labels, jumps[k].0)->Some_0 % 256) as u8 by {
            if k < n {
                assert(init[k] == jumps[k]);
                assert(lookup_label(labels, init[k].0) is Some);
            }
        }
        assert forall|m: int| 0 <= m < un.len() implies exists|k: int| 0 <= k < jumps.len() && #[trigger] un[m]
            == jumps[k] by {
            if m < un0.len() {
                assert(un[m] == un0[m]);
                let k = choose|k: int| 0 <= k < init.len() && #[trigger] un0[m] == init[k];
                assert(un[m] == jumps[k]);
            } else {
                assert(un[m] == jumps[n]);
            }
        }
        assert forall|m: int| 0 <= m < un.len() implies lookup_label(labels, #[trigger] un[m].0) is None by {
            if m < un0.len() {
                assert(un[m] == un0[m]);
            }
        }
        assert(placeholder_at(b, j.1));
        assert forall|x: int| 0 <= x < b.len() && b[x] != 0 implies #[trigger] pb[x] == b[x] by {
            assert(x != j.1 + 1 && x != j.1 + 2);
            assert(pb[x] == pb0[x]);
        }
        assert(pb0[j.1 + 1] == b[j.1 + 1] && pb0[j.1 + 2] == b[j.1 + 2]) by {
            assert forall|k: int| 0 <= k < init.len() implies #[trigger] init[k].1 + 3 <= j.1 + 1 by {
                assert(init[k] == jumps[k]);
            }
            assert forall|k: int| 0 <= k < init.len() implies #[trigger] init[k].1 + 3 <= j.1 + 2 by {
                assert(init[k] == jumps[k]);
            }
        }
        assert forall|k: int|
            0 <= k < jumps.len() && #[trigger] lookup_label(labels, jumps[k].0) is None implies pb[jumps[k].1 + 1]
                == 0 && pb[jumps[k].1 + 2] == 0 by {
            if k < n {
                assert(init[k] == jumps[k]);
                assert(lookup_label(labels, init[k].0) is None);
                assert(pb[jumps[k].1 + 1] == pb0[jumps[k].1 + 1]);
                assert(pb[jumps[k].1 + 2] == pb0[jumps[k].1 + 2]);
            }
        }
        assert forall|m: int| 0 <= m < un.len() implies placeholder_at(pb, #[trigger] un[m].1) by {
            let k = choose|k: int| 0 <= k < jumps.len() && #[trigger] un[m] == jumps[k];
            assert(pb[jumps[k].1] == PUSH2);
            assert(lookup_label(labels, un[m].0) is None);
            assert(lookup_label(labels, jumps[k].0) is None);
        }
        assert forall|m: int, q: int| 0 <= m < q < un.len() implies #[trigger] un[m].1 + 3 <= #[trigger] un[q].1 by {
            if q < un0.len() {
                assert(un[m] == un0[m]);
                assert(un[q] == un0[q]);
            } else {
                assert(un[m] == un0[m]);
                let k = choose|k: int| 0 <= k < init.len() && #[trigger] un0[m] == init[k];
                assert(un[q] == jumps[n]);
                assert(jumps[k].1 + 3 <= jumps[n].1);
            }
        }
    }
}

proof fn lemma_step_wf(c: &Contract, scope: Seq<usize>, calls: Seq<usize>, fuel: nat, f: FrameView, i: int)
    requires
        jumps_wf(f.jumps, f.bytes),
    ensures
        expand_step(c, scope, calls, fuel, f, i) matches Ok(g) ==> jumps_wf(g.jumps, g.bytes),
    decreases fuel, 0int,
{
    match c.macros@[scope.last() as int].statements@[i] {
        Statement::ArgCall(name) => {
            lemma_bubble_label_placeholder(c, scope, calls, scope.len() - 1, name@);
            if let Ok((b, lbl)) = bubble(c, scope, calls, scope.len() - 1, name@) {
                match lbl {
                    Some(l) => lemma_jump_then_placeholder_wf(f, l),
                    None => lemma_emit_wf(f, b),
                }
            }
        },
        Statement::MacroInvocation(mi) => {
            if let Some(m) = macro_index(c, mi.macro_name@) {
                if fuel > 0 {
                    let s2 = scope.push(m as usize);
                    let c2 = calls.push(i as usize);
                    lemma_expand_wf(c, s2, c2, f.offset, (fuel - 1) as nat);
                    if let Ok(child) = expand(c, s2, c2, f.offset, (fuel - 1) as nat) {
                        lemma_merge_wf(f, child);
                    }
                }
            }
        },
        Statement::Label(name) => {
            lemma_emit_wf(add_label(f, name@), seq![JUMPDEST]);
        },
        Statement::LabelCall(name) => {
            lemma_jump_then_placeholder_wf(f, name@);
        },
        Statement::Literal(l) => lemma_emit_wf(f, literal_push(l@)),
        Statement::Opcode(b) => lemma_emit_wf(f, seq![b]),
        Statement::Code(v) => lemma_emit_wf(f, v@),
        Statement::Constant(name) => {
            if let Some(ci) = constant_index(c, name@) {
                if let Ok(b) = constant_push(c, ci) {
                    lemma_emit_wf(f, b);
                }
            }
        },
        Statement::BuiltinFunctionCall(_) => {},
    }
}

proof fn lemma_prefix_wf(c: &Contract, scope: Seq<usize>, calls: Seq<usize>, base: int, fuel: nat, i: int)
    ensures
        expand_prefix(c, scope, calls, base, fuel, i) matches Ok(f) ==> jumps_wf(f.jumps, f.bytes),
    decreases fuel, i,
{
    if i > 0 {
        lemma_prefix_wf(c, scope, calls, base, fuel, i - 1);
        if let Ok(f) = expand_prefix(c, scope, calls, base, fuel, i - 1) {
            assert(expand_prefix(c, scope, calls, base, fuel, i) == expand_step(c, scope, calls, fuel, f, i - 1));
            lemma_step_wf(c, scope, calls, fuel, f, i - 1);
        }
    }
}

/// Each jump that an expansion leaves unmatched sits on a `PUSH2` of its bytes.
pub proof fn lemma_expand_wf(c: &Contract, scope: Seq<usize>, calls: Seq<usize>, base: int, fuel: nat)
    ensures
        expand(c, scope, calls, base, fuel) matches Ok(f) ==> jumps_wf(f.jumps, f.bytes),
    decreases fuel, c.macros@[scope.last() as int].statements@.len() + 1,
{
    let n = c.macros@[scope.last() as int].statements@.len() as int;
    lemma_prefix_wf(c, scope, calls, base, fuel, n);
    if let Ok(p) = expand_prefix(c, scope, calls, base, fuel, n) {
        lemma_patch_wf(p.bytes, p.labels, p.jumps);
    }
}

/// After a frame's second pass, each of its jumps to a declared label is a
/// `PUSH2` whose two operand bytes are that label's offset, high byte first.
pub proof fn lemma_jumps_filled_in(c: &Contract, scope: Seq<usize>, calls: Seq<usize>, base: int, fuel: nat)
    ensures
        ({
            let n = c.macros@[scope.last() as int].statements@.len() as int;
            expand_prefix(c, scope, calls, base, fuel, n) matches Ok(p) ==> expand(c, scope, calls, base, fuel) matches Ok(
                f,
            ) && forall|k: int|
                0 <= k < p.jumps.len() && #[trigger] lookup_label(p.labels, p.jumps[k].0) is Some ==> {
                    let pos = p.jumps[k].1;
                    let d = lookup_label(p.labels, p.jumps[k].0)->Some_0;
                    &&& f.bytes[pos] == PUSH2
                    &&& f.bytes[pos + 1] == (d / 256) as u8
                    &&& f.bytes[pos + 2] == (d % 256) as u8
                }
        }),
{
    let n = c.macros@[scope.last() as int].statements@.len() as int;
    lemma_prefix_wf(c, scope, calls, base, fuel, n);
    if let Ok(p) = expand_prefix(c, scope, calls, base, fuel, n) {
        lemma_patch_wf(p.bytes, p.labels, p.jumps);
    }
}

/// Bubbling is transparent: where each frame from `r + 1` to `k` is a macro
/// whose first parameter, `names[j]`, is neither a constant nor an opcode and
/// receives a reference to the enclosing frame's parameter `names[j - 1]`,
/// resolving `names[k]` in frame `k` gives what resolving `names[r]` in frame
/// `r` gives, as if the outer argument had been passed to the inner macro directly.
pub proof fn lemma_forwarding_chain(
    c: &Contract,
    scope: Seq<usize>,
    calls: Seq<usize>,
    r: int,
    k: int,
    names: Seq<Seq<char>>,
)
    requires
        0 <= r <= k < scope.len(),
        names.len() == scope.len(),
        forall|j: int|
            r < j <= k ==> {
                &&& constant_index(c, #[trigger] names[j]) is None
                &&& opcode_of(names[j]) is None
                &&& param_position_from(c.macros@[scope[j] as int].parameters@, names[j], 0) == Some(0int)
                &&& invocation_of(c, scope, calls, j).args@.len() >= 1
                &&& (invocation_of(c, scope, calls, j).args@[0] matches MacroArg::ArgCall(s) && s@ == names[j - 1])
            },
    ensures
        bubble(c, scope, calls, k, names[k]) == bubble(c, scope, calls, r, names[r]),
    decreases k - r,
{
    if k > r {
        let inv = invocation_of(c, scope, calls, k);
        assert(constant_index(c, names[k]) is None);
        if let MacroArg::ArgCall(s) = inv.args@[0] {
            assert(bubble(c, scope, calls, k, names[k]) == bubble(c, scope, calls, k - 1, s@));
        }
        lemma_forwarding_chain(c, scope, calls, r, k - 1, names);
    }
}

/// A jump that a frame leaves unmatched names no label that the frame declares:
/// every jump to a label of the frame, forward or backward, is filled in there.
pub proof fn lemma_unmatched_undeclared(c: &Contract, scope: Seq<usize>, calls: Seq<usize>, base: int, fuel: nat)
    ensures
        expand(c, scope, calls, base, fuel) matches Ok(f) ==> forall|m: int|
            0 <= m < f.jumps.len() ==> lookup_label(f.labels, #[trigger] f.jumps[m].0) is None,
{
    let n = c.macros@[scope.last() as int].statements@.len() as int;
    lemma_prefix_wf(c, scope, calls, base, fuel, n);
    if let Ok(p) = expand_prefix(c, scope, calls, base, fuel, n) {
        lemma_patch_wf(p.bytes, p.labels, p.jumps);
    }
}

/// Each label's offset, counted from `base`, is a `JUMPDEST` of the bytes.
pub open spec fn labels_wf(labels: Seq<(Seq<char>, int)>, bytes: Seq<u8>, base: int) -> bool {
    forall|k: int|
        0 <= k < labels.len() ==> base <= #[trigger] labels[k].1 && labels[k].1 - base < bytes.len()
            && bytes[labels[k].1 - base] == JUMPDEST
}

proof fn lemma_emit_labels(f: FrameView, b: Seq<u8>, base: int)
    requires
        labels_wf(f.labels, f.bytes, base),
    ensures
        emit(f, b) matches Ok(g) ==> labels_wf(g.labels, g.bytes, base),
{
    if let Ok(g) = emit(f, b) {
        assert forall|k: int| 0 <= k < g.labels.len() implies base <= #[trigger] g.labels[k].1 && g.labels[k].1
            - base < g.bytes.len() && g.bytes[g.labels[k].1 - base] == JUMPDEST by {
            assert(g.labels[k] == f.labels[k]);
            assert(g.bytes[f.labels[k].1 - base] == f.bytes[f.labels[k].1 - base]);
        }
    }
}

proof fn lemma_label_emit_labels(f: FrameView, name: Seq<char>, base: int)
    requires
        labels_wf(f.labels, f.bytes, base),
        f.offset == base + f.bytes.len(),
    ensures
        emit(add_label(f, name), seq![JUMPDEST]) matches Ok(g) ==> labels_wf(g.labels, g.bytes, base),
{
    if let Ok(g) = emit(add_label(f, name), seq![JUMPDEST]) {
        let n = f.labels.len();
        assert forall|k: int| 0 <= k < g.labels.len() implies base <= #[trigger] g.labels[k].1 && g.labels[k].1
            - base < g.bytes.len() && g.bytes[g.labels[k].1 - base] == JUMPDEST by {
            if k < n {
                assert(g.labels[k] == f.labels[k]);
                assert(g.bytes[f.labels[k].1 - base] == f.bytes[f.labels[k].1 - base]);
            } else {
                assert(g.labels[k].1 == f.offset);
                assert(g.bytes[f.bytes.len() as int] == JUMPDEST);
            }
        }
    }
}

proof fn lemma_merge_labels(f: FrameView, child: FrameView, base: int)
    requires
        labels_wf(f.labels, f.bytes, base),
        labels_wf(child.labels, child.bytes, f.offset),
        f.offset == base + f.bytes.len(),
    ensures
        labels_wf(merge(f, child).labels, merge(f, child).bytes, base),
{
    let g = merge(f, child);
    let n = f.labels.len();
    assert forall|k: int| 0 <= k < g.labels.len() implies base <= #[trigger] g.labels[k].1 && g.labels[k].1 - base
        < g.bytes.len() && g.bytes[g.labels[k].1 - base] == JUMPDEST by {
        if k < n {
            assert(g.labels[k] == f.labels[k]);
            assert(g.bytes[f.labels[k].1 - base] == f.bytes[f.labels[k].1 - base]);
        } else {
            assert(g.labels[k] == child.labels[k - n]);
            let p = child.labels[k - n].1 - f.offset;
            assert(g.bytes[f.bytes.len() + p] == child.bytes[p]);
        }
    }
}

proof fn lemma_step_labels(c: &Contract, scope: Seq<usize>, calls: Seq<usize>, fuel: nat, f: FrameView, i: int, base: int)
    requires
        labels_wf(f.labels, f.bytes, base),
        f.offset == base + f.bytes.len(),
    ensures
        expand_step(c, scope, calls, fuel, f, i) matches Ok(g) ==> labels_wf(g.labels, g.bytes, base),
    decreases fuel, 0int,
{
    match c.macros@[scope.last() as int].statements@[i] {
        Statement::ArgCall(name) => {
            if let Ok((b, lbl)) = bubble(c, scope, calls, scope.len() - 1, name@) {
                match lbl {
                    Some(l) => {
                        assert(add_jump(f, l).labels == f.labels && add_jump(f, l).bytes == f.bytes);
                        lemma_emit_labels(add_jump(f, l), b, base);
                    },
                    None => lemma_emit_labels(f, b, base),
                }
            }
        },
        Statement::MacroInvocation(mi) => {
            if let Some(m) = macro_index(c, mi.macro_name@) {
                if fuel > 0 {
                    let s2 = scope.push(m as usize);
                    let c2 = calls.push(i as usize);
                    lemma_expand_labels(c, s2, c2, f.offset, (fuel - 1) as nat);
                    if let Ok(child) = expand(c, s2, c2, f.offset, (fuel - 1) as nat) {
                        lemma_merge_labels(f, child, base);
                    }
                }
            }
        },
        Statement::Label(name) => lemma_label_emit_labels(f, name@, base),
        Statement::LabelCall(name) => {
            assert(add_jump(f, name@).labels == f.labels && add_jump(f, name@).bytes == f.bytes);
            lemma_emit_labels(add_jump(f, name@), push2_placeholder(), base);
        },
        Statement::Literal(l) => lemma_emit_labels(f, literal_push(l@), base),
        Statement::Opcode(b) => lemma_emit_labels(f, seq![b], base),
        Statement::Code(v) => lemma_emit_labels(f, v@, base),
        Statement::Constant(name) => {
            if let Some(ci) = constant_index(c, name@) {
                if let Ok(b) = constant_push(c, ci) {
                    lemma_emit_labels(f, b, base);
                }
            }
        },
        Statement::BuiltinFunctionCall(_) => {},
    }
}

proof fn lemma_prefix_labels(c: &Contract, scope: Seq<usize>, calls: Seq<usize>, base: int, fuel: nat, i: int)
    ensures
        expand_prefix(c, scope, calls, base, fuel, i) matches Ok(f) ==> labels_wf(f.labels, f.bytes, base),
    decreases fuel, i,
{
    if i > 0 {
        lemma_prefix_labels(c, scope, calls, base, fuel, i - 1);
        lemma_offset_accuracy(c, scope, calls, base, fuel, i - 1);
        if let Ok(f) = expand_prefix(c, scope, calls, base, fuel, i - 1) {
            assert(expand_prefix(c, scope, calls, base, fuel, i) == expand_step(c, scope, calls, fuel, f, i - 1));
            lemma_step_labels(c, scope, calls, fuel, f, i - 1, base);
        }
    }
}

/// Each label that an expansion starting at `base` records sits on a
/// `JUMPDEST` at its offset: the label's offset less `base` is the position of
/// that byte in the expansion.
pub proof fn lemma_expand_labels(c: &Contract, scope: Seq<usize>, calls: Seq<usize>, base: int, fuel: nat)
    ensures
        expand(c, scope, calls, base, fuel) matches Ok(f) ==> labels_wf(f.labels, f.bytes, base),
    decreases fuel, c.macros@[scope.last() as int].statements@.len() + 1,
{
    let n = c.macros@[scope.last() as int].statements@.len() as int;
    lemma_prefix_labels(c, scope, calls, base, fuel, n);
    lemma_prefix_wf(c, scope, calls, base, fuel, n);
    if let Ok(p) = expand_prefix(c, scope, calls, base, fuel, n) {
        lemma_patch_wf(p.bytes, p.labels, p.jumps);
        let pb = patch(p.bytes, p.labels, p.jumps).0;
        assert forall|k: int| 0 <= k < p.labels.len() implies base <= #[trigger] p.labels[k].1 && p.labels[k].1
            - base < pb.len() && pb[p.labels[k].1 - base] == JUMPDEST by {
            assert(p.bytes[p.labels[k].1 - base] != 0);
        }
    }
}

/// The offset that a label lookup gives is the offset of one of the labels.
pub proof fn lemma_lookup_label_member(labels: Seq<(Seq<char>, int)>, name: Seq<char>)
    ensures
        lookup_label(labels, name) matches Some(d) ==> exists|k: int|
            0 <= k < labels.len() && #[trigger] labels[k].1 == d,
    decreases labels.len(),
{
    if labels.len() > 0 {
        lemma_lookup_label_member(labels.drop_last(), name);
        if labels.last().0 != name {
            if let Some(d) = lookup_label(labels, name) {
                let k = choose|k: int| 0 <= k < labels.drop_last().len() && #[trigger] labels.drop_last()[k].1 == d;
                assert(labels[k] == labels.drop_last()[k]);
            }
        } else {
            assert(labels[labels.len() - 1].1 == labels.last().1);
        }
    }
}

/// A reference to a literal constant emits the narrowest `PUSH` of its value
/// (see `lemma_literal_push_minimal`), right after what came before it.
pub proof fn lemma_constant_fragment(
    c: &Contract,
    scope: Seq<usize>,
    calls: Seq<usize>,
    base: int,
    fuel: nat,
    i: int,
    name: String,
    lit: [u8; 32],
)
    requires
        0 <= i < c.macros@[scope.last() as int].statements@.len(),
        c.macros@[scope.last() as int].statements@[i] == Statement::Constant(name),
        constant_index(c, name@) matches Some(ci) && c.constants@[ci].value == ConstVal::Literal(lit),
    ensures
        expand_prefix(c, scope, calls, base, fuel, i + 1) matches Ok(g) ==> (expand_prefix(
            c,
            scope,
            calls,
            base,
            fuel,
            i,
        ) matches Ok(f) && g.bytes == f.bytes + literal_push(lit@)),
{
    if let Ok(f) = expand_prefix(c, scope, calls, base, fuel, i) {
        assert(expand_prefix(c, scope, calls, base, fuel, i + 1) == expand_step(c, scope, calls, fuel, f, i));
        let ci = constant_index(c, name@)->Some_0;
        assert(constant_push(c, ci) == Ok::<Seq<u8>, ErrorView>(literal_push(lit@)));
    }
}

/// A reference to a free storage pointer that was never assigned a slot fails
/// the expansion with `StoragePointersNotDerived`, unless an earlier statement
/// has failed it already.
pub proof fn lemma_storage_pointer_fails(
    c: &Contract,
    scope: Seq<usize>,
    calls: Seq<usize>,
    base: int,
    fuel: nat,
    i: int,
    name: String,
)
    requires
        0 <= i < c.macros@[scope.last() as int].statements@.len(),
        c.macros@[scope.last() as int].statements@[i] == Statement::Constant(name),
        constant_index(c, name@) matches Some(ci) && c.constants@[ci].value == ConstVal::FreeStoragePointer,
        expand_prefix(c, scope, calls, base, fuel, i) is Ok,
    ensures
        expand(c, scope, calls, base, fuel) == Err::<FrameView, ErrorView>(ErrorView::StoragePointersNotDerived),
{
    let n = c.macros@[scope.last() as int].statements@.len() as int;
    let f = expand_prefix(c, scope, calls, base, fuel, i)->Ok_0;
    assert(expand_prefix(c, scope, calls, base, fuel, i + 1) == expand_step(c, scope, calls, fuel, f, i));
    let ci = constant_index(c, name@)->Some_0;
    assert(constant_push(c, ci) == Err::<Seq<u8>, ErrorView>(ErrorView::StoragePointersNotDerived));
    assert(expand_prefix(c, scope, calls, base, fuel, i + 1) == Err::<FrameView, ErrorView>(
        ErrorView::StoragePointersNotDerived,
    ));
    lemma_prefix_err(c, scope, calls, base, fuel, i + 1, n);
}

} // verus!
