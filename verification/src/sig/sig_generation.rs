//! Instruction-aware fuzzy signatures of function bodies.

use fuzzyhash::FuzzyHash;
use iced_x86::{Decoder, DecoderOptions, Mnemonic};
use vstd::prelude::*;
use vstd::slice::slice_subrange;
use vstd::utf8::encode_utf8;

use crate::functions_utils::search::{function_views, name_view, Function, FunctionView};
use crate::sig::comparaison::{comparable_hash, hash_score, match_score};

verus! {

/// The kinds of instruction the normalisation tells apart.
#[derive(Clone, Copy, Debug, PartialEq, Eq, Structural)]
pub enum InstructionKind {
    /// A `call`.
    Call,
    /// A `jmp`.
    Jmp,
    /// A `ud2`.
    Ud2,
    /// An `int3`.
    Int3,
    /// Any other instruction, an undecodable one included.
    Other,
}

/// What the normalisation reads of one decoded instruction.
#[derive(Clone, Copy, Debug, PartialEq, Eq, Structural)]
pub struct DecodedInstruction {
    /// The number of bytes the instruction takes.
    pub len: usize,
    /// The instruction's kind.
    pub kind: InstructionKind,
    /// Whether the instruction has a memory operand whose base is the
    /// instruction pointer.
    pub is_ip_relative: bool,
    /// The address the decoder computes for a memory operand that is
    /// relative to the instruction pointer.
    pub ip_rel_memory_address: u64,
}

/// The instruction `iced_x86` decodes in 64-bit mode at the start of `rest`,
/// taken to be loaded at the address `ip`.
pub uninterp spec fn decoded_instruction(rest: Seq<u8>, ip: u64) -> DecodedInstruction;

/// Decodes one instruction with `iced_x86`: `Decoder::with_ip` in 64-bit
/// mode over `rest`, with `ip` as the instruction pointer, then
/// `Decoder::decode`, `Instruction::len`, `mnemonic`,
/// `is_ip_rel_memory_operand` and `ip_rel_memory_address`. The decoder
/// consumes at least one byte where one is left, and never reads past the
/// end of its data, so the length is at least one and at most the length of
/// `rest`. The rest of the result is a function of the bytes and the
/// instruction pointer alone and is known here only by its name,
/// `decoded_instruction`.
#[verifier::external_body]
pub(crate) fn decode_instruction(rest: &[u8], ip: u64) -> (instruction: DecodedInstruction)
    requires
        rest@.len() > 0,
    ensures
        instruction == decoded_instruction(rest@, ip),
        1 <= instruction.len <= rest@.len(),
{
    let mut decoder = Decoder::with_ip(64, rest, ip, DecoderOptions::NONE);
    let instruction = decoder.decode();
    DecodedInstruction {
        len: instruction.len(),
        kind: match instruction.mnemonic() {
            Mnemonic::Call => InstructionKind::Call,
            Mnemonic::Jmp => InstructionKind::Jmp,
            Mnemonic::Ud2 => InstructionKind::Ud2,
            Mnemonic::Int3 => InstructionKind::Int3,
            _ => InstructionKind::Other,
        },
        is_ip_relative: instruction.is_ip_rel_memory_operand(),
        ip_rel_memory_address: instruction.ip_rel_memory_address(),
    }
}

/// The byte a `call` is reduced to.
pub const CALL_OPCODE: u8 = 0xE8;

/// The byte a `jmp` is reduced to.
pub const JMP_OPCODE: u8 = 0xE9;

/// The instruction at `position` of a body: the one decoded from the bytes
/// that start there, the body being loaded at address zero.
pub open spec fn instruction_at(bytes: Seq<u8>, position: int) -> DecodedInstruction {
    decoded_instruction(bytes.skip(position), position as u64)
}

/// The position after the instruction at `position`: at least one byte
/// further, and not past the end of the bytes.
pub open spec fn next_position(bytes: Seq<u8>, position: int) -> int {
    let len = instruction_at(bytes, position).len as int;
    if position >= bytes.len() {
        position
    } else if len < 1 {
        position + 1
    } else if position + len <= bytes.len() {
        position + len
    } else {
        bytes.len() as int
    }
}

/// Holds of an instruction that refers to memory by an address baked into
/// it: it has a memory operand relative to the instruction pointer, and the
/// address computed for it is not zero.
pub open spec fn refers_to_address(instruction: DecodedInstruction) -> bool {
    instruction.is_ip_relative && instruction.ip_rel_memory_address != 0
}

/// Holds of the two instructions that mark the end of a function.
pub open spec fn is_trap(kind: InstructionKind) -> bool {
    kind is Ud2 || kind is Int3
}

/// The normalised bytes of the instructions from `position` on, `traps`
/// telling whether the instruction just before was a trap instruction (one
/// if it was, zero if not): a `call` gives its opcode alone and a `jmp` its
/// opcode alone; an instruction that refers to memory by address gives
/// nothing; a trap instruction that directly follows another ends the
/// stream; any other instruction gives its own bytes.
pub open spec fn normalized_from(bytes: Seq<u8>, position: int, traps: int) -> Seq<u8>
    decreases bytes.len() - position,
{
    if position < 0 || position >= bytes.len() {
        Seq::empty()
    } else {
        let instruction = instruction_at(bytes, position);
        let next = next_position(bytes, position);
        if instruction.kind is Call {
            seq![CALL_OPCODE] + normalized_from(bytes, next, 0)
        } else if instruction.kind is Jmp {
            seq![JMP_OPCODE] + normalized_from(bytes, next, 0)
        } else if refers_to_address(instruction) {
            normalized_from(bytes, next, 0)
        } else {
            let run = if is_trap(instruction.kind) {
                traps + 1
            } else {
                0
            };
            if run == 2 {
                Seq::empty()
            } else {
                bytes.subrange(position, next) + normalized_from(bytes, next, run)
            }
        }
    }
}

/// The normalised form of a function body.
pub open spec fn normalized_body(bytes: Seq<u8>) -> Seq<u8> {
    normalized_from(bytes, 0, 0)
}

/// The normalised bytes of a stream are no more than the bytes it holds.
pub proof fn lemma_normalized_is_no_longer(bytes: Seq<u8>, position: int, traps: int)
    requires
        0 <= position <= bytes.len(),
    ensures
        normalized_from(bytes, position, traps).len() <= bytes.len() - position,
    decreases bytes.len() - position,
{
    if position < bytes.len() {
        let instruction = instruction_at(bytes, position);
        let next = next_position(bytes, position);
        let run = if is_trap(instruction.kind) {
            traps + 1
        } else {
            0
        };
        lemma_normalized_is_no_longer(bytes, next, 0);
        lemma_normalized_is_no_longer(bytes, next, run);
    }
}

/// Two bodies that hold the same bytes from `position` on have the same
/// normalised bytes from there on.
pub proof fn lemma_normalized_depends_on_what_follows(
    a: Seq<u8>,
    b: Seq<u8>,
    position: int,
    traps: int,
)
    requires
        a.len() == b.len(),
        0 <= position <= a.len(),
        a.skip(position) == b.skip(position),
    ensures
        normalized_from(a, position, traps) == normalized_from(b, position, traps),
    decreases a.len() - position,
{
    if position < a.len() {
        let next = next_position(a, position);
        assert(next == next_position(b, position));
        assert(a.skip(next) =~= a.skip(position).skip(next - position));
        assert(b.skip(next) =~= b.skip(position).skip(next - position));
        assert(a.subrange(position, next) =~= a.skip(position).take(next - position));
        assert(b.subrange(position, next) =~= b.skip(position).take(next - position));
        let run = if is_trap(instruction_at(a, position).kind) {
            traps + 1
        } else {
            0
        };
        lemma_normalized_depends_on_what_follows(a, b, next, 0);
        lemma_normalized_depends_on_what_follows(a, b, next, run);
    }
}

/// The normalised form of a body that starts with a `call` of five bytes
/// does not depend on the four bytes of the call's displacement: two bodies
/// that differ in those bytes only have the same normalised form, the
/// opcode of the call followed by the normalised bytes of what follows.
pub proof fn lemma_call_displacement_is_left_out(a: Seq<u8>, b: Seq<u8>)
    requires
        a.len() == b.len(),
        a.len() >= 5,
        a.skip(5) == b.skip(5),
        instruction_at(a, 0).kind is Call,
        instruction_at(a, 0).len == 5,
        instruction_at(b, 0).kind is Call,
        instruction_at(b, 0).len == 5,
    ensures
        normalized_body(a) == seq![CALL_OPCODE] + normalized_from(a, 5, 0),
        normalized_body(a) == normalized_body(b),
{
    lemma_normalized_depends_on_what_follows(a, b, 5, 0);
}

/// Holds when the decoder reads the instruction at `position` of `rest`
/// alike, whether `rest` is loaded at address zero or `shift` bytes further:
/// the same length, the same kind, and a reference to memory by address in
/// both or in neither.
pub open spec fn reads_alike_at(rest: Seq<u8>, shift: int, position: int) -> bool {
    let alone = decoded_instruction(rest.skip(position), position as u64);
    let shifted = decoded_instruction(rest.skip(position), (shift + position) as u64);
    &&& alone.len == shifted.len
    &&& alone.kind == shifted.kind
    &&& refers_to_address(alone) == refers_to_address(shifted)
}

/// Holds when the decoder reads every instruction of `rest` alike, whether
/// `rest` is loaded at address zero or `shift` bytes further. An
/// instruction is read otherwise where it refers to memory relative to the
/// instruction pointer and the address computed for it is zero at one of
/// the two places only.
pub open spec fn reads_alike_after(rest: Seq<u8>, shift: int) -> bool {
    forall|position: int|
        0 <= position < rest.len() ==> #[trigger] reads_alike_at(rest, shift, position)
}

/// What follows a prefix of `shift` bytes has the normalised bytes it has
/// when it stands alone, where the decoder reads it alike at both places.
pub proof fn lemma_normalized_after_a_prefix(
    whole: Seq<u8>,
    rest: Seq<u8>,
    shift: int,
    position: int,
    traps: int,
)
    requires
        0 <= shift,
        whole.len() == shift + rest.len(),
        whole.skip(shift) == rest,
        0 <= position <= rest.len(),
        reads_alike_after(rest, shift),
    ensures
        normalized_from(whole, shift + position, traps) == normalized_from(rest, position, traps),
    decreases rest.len() - position,
{
    if position < rest.len() {
        assert(reads_alike_at(rest, shift, position));
        assert(whole.skip(shift + position) =~= rest.skip(position));
        let next = next_position(rest, position);
        assert(next_position(whole, shift + position) == shift + next);
        assert(whole.subrange(shift + position, shift + next) =~= rest.subrange(position, next));
        let run = if is_trap(instruction_at(rest, position).kind) {
            traps + 1
        } else {
            0
        };
        lemma_normalized_after_a_prefix(whole, rest, shift, next, 0);
        lemma_normalized_after_a_prefix(whole, rest, shift, next, run);
    }
}

/// Two bodies that start with a `call` of five bytes and go on with the same
/// bytes have one normalised form, whatever the displacements of the two
/// calls: the opcode of the call, followed by the normalised form of what
/// follows, where the decoder reads what follows alike at address zero and
/// behind the call.
pub proof fn lemma_call_is_reduced_before_what_follows(a: Seq<u8>, b: Seq<u8>, rest: Seq<u8>)
    requires
        a.len() == 5 + rest.len(),
        b.len() == 5 + rest.len(),
        a.skip(5) == rest,
        b.skip(5) == rest,
        instruction_at(a, 0).kind is Call,
        instruction_at(a, 0).len == 5,
        instruction_at(b, 0).kind is Call,
        instruction_at(b, 0).len == 5,
        reads_alike_after(rest, 5),
    ensures
        normalized_body(a) == normalized_body(b),
        normalized_body(a) == seq![CALL_OPCODE] + normalized_body(rest),
{
    lemma_call_displacement_is_left_out(a, b);
    lemma_normalized_after_a_prefix(a, rest, 5, 0, 0);
}

/// Normalises a function body for hashing. The body is decoded one
/// instruction after the other, in 64-bit mode; a `call` is reduced to the
/// byte `0xE8` and a `jmp` to the byte `0xE9`, an instruction with a memory
/// operand relative to the instruction pointer and a non-zero computed
/// address is left out, every other instruction is copied, and a `ud2` or
/// `int3` that directly follows another ends the body.
pub fn hash_single_func(bytes: &[u8]) -> (normalized: Vec<u8>)
    ensures
        normalized@ == normalized_body(bytes@),
        normalized@.len() <= bytes@.len(),
{
    let mut result: Vec<u8> = Vec::new();
    let mut position: usize = 0;
    let mut traps: u8 = 0;
    proof {
        lemma_normalized_is_no_longer(bytes@, 0, 0);
    }
    while position < bytes.len()
        invariant
            position <= bytes@.len(),
            traps <= 1,
            normalized_body(bytes@).len() <= bytes@.len(),
            normalized_body(bytes@) == result@ + normalized_from(
                bytes@,
                position as int,
                traps as int,
            ),
        decreases bytes@.len() - position,
    {
        let rest_of_body: &[u8] = slice_subrange(bytes, position, bytes.len());
        assert(rest_of_body@ =~= bytes@.skip(position as int));
        let instruction: DecodedInstruction = decode_instruction(rest_of_body, position as u64);
        let next: usize = position + instruction.len;
        let ghost before = result@;
        let ghost rest = normalized_from(bytes@, position as int, traps as int);
        match instruction.kind {
            InstructionKind::Call => {
                result.push(CALL_OPCODE);
                traps = 0;
                assert(result@ + normalized_from(bytes@, next as int, 0) =~= before + rest);
            },
            InstructionKind::Jmp => {
                result.push(JMP_OPCODE);
                traps = 0;
                assert(result@ + normalized_from(bytes@, next as int, 0) =~= before + rest);
            },
            _ => {
                if instruction.is_ip_relative && instruction.ip_rel_memory_address != 0 {
                    traps = 0;
                } else {
                    match instruction.kind {
                        InstructionKind::Ud2 | InstructionKind::Int3 => {
                            traps = traps + 1;
                        },
                        _ => {
                            traps = 0;
                        },
                    }
                    if traps == 2 {
                        assert(rest =~= Seq::<u8>::empty());
                        assert(result@ =~= normalized_body(bytes@));
                        return result;
                    }
                    let mut index: usize = position;
                    while index < next
                        invariant
                            position <= index <= next <= bytes@.len(),
                            result@ == before + bytes@.subrange(position as int, index as int),
                        decreases next - index,
                    {
                        result.push(bytes[index]);
                        index = index + 1;
                        assert(result@ =~= before + bytes@.subrange(
                            position as int,
                            index as int,
                        ));
                    }
                    assert(result@ + normalized_from(bytes@, next as int, traps as int) =~= before
                        + rest);
                }
            },
        }
        position = next;
    }
    assert(result@ =~= normalized_body(bytes@));
    result
}

/// Holds when, from `position` on, no instruction is a `call` or a `jmp`
/// and none refers to memory by address.
pub open spec fn is_plain_from(bytes: Seq<u8>, position: int) -> bool
    decreases bytes.len() - position,
{
    if position < 0 || position >= bytes.len() {
        true
    } else {
        let instruction = instruction_at(bytes, position);
        &&& !(instruction.kind is Call)
        &&& !(instruction.kind is Jmp)
        &&& !refers_to_address(instruction)
        &&& is_plain_from(bytes, next_position(bytes, position))
    }
}

/// The position at which a stream without calls, jumps and address
/// references ends: the start of the second of two trap instructions in a
/// row, or the end of the bytes where there are no such two.
pub open spec fn terminator_from(bytes: Seq<u8>, position: int, traps: int) -> int
    decreases bytes.len() - position,
{
    if position < 0 || position >= bytes.len() {
        bytes.len() as int
    } else {
        let run = if is_trap(instruction_at(bytes, position).kind) {
            traps + 1
        } else {
            0
        };
        if run == 2 {
            position
        } else {
            terminator_from(bytes, next_position(bytes, position), run)
        }
    }
}

/// Normalising a stream that holds no `call`, no `jmp` and no reference to
/// memory by address changes nothing: the result is the stream itself, up
/// to the trap instructions that end it.
pub proof fn lemma_plain_stream_is_kept(bytes: Seq<u8>, position: int, traps: int)
    requires
        0 <= position <= bytes.len(),
        is_plain_from(bytes, position),
    ensures
        position <= terminator_from(bytes, position, traps) <= bytes.len(),
        normalized_from(bytes, position, traps) == bytes.subrange(
            position,
            terminator_from(bytes, position, traps),
        ),
    decreases bytes.len() - position,
{
    if position < bytes.len() {
        let next = next_position(bytes, position);
        let run = if is_trap(instruction_at(bytes, position).kind) {
            traps + 1
        } else {
            0
        };
        if run != 2 {
            lemma_plain_stream_is_kept(bytes, next, run);
            assert(bytes.subrange(position, next) + bytes.subrange(
                next,
                terminator_from(bytes, next, run),
            ) =~= bytes.subrange(position, terminator_from(bytes, position, traps)));
        } else {
            assert(bytes.subrange(position, position) =~= Seq::<u8>::empty());
        }
    } else {
        assert(bytes.subrange(position, position) =~= Seq::<u8>::empty());
    }
}

/// Normalising a body that holds no `call`, no `jmp`, no reference to
/// memory by address and no two trap instructions in a row gives the body
/// back, byte for byte.
pub proof fn lemma_plain_body_is_unchanged(bytes: Seq<u8>)
    requires
        is_plain_from(bytes, 0),
        terminator_from(bytes, 0, 0) == bytes.len(),
    ensures
        normalized_body(bytes) == bytes,
{
    lemma_plain_stream_is_kept(bytes, 0, 0);
    assert(bytes.subrange(0, bytes.len() as int) =~= bytes);
}

/// The upper limit on the length of the data given to the hasher, whose
/// counters are 32 bits wide.
pub const MAX_HASHED_LEN: usize = 0x4000_0000;

/// The smallest normalised body that is given a signature.
pub const MIN_FUNC_SZ: usize = 20;

/// The context-triggered piecewise hash `fuzzyhash` gives to `data`, as a
/// string.
pub uninterp spec fn ssdeep_hash(data: Seq<u8>) -> Seq<char>;

/// Calls `fuzzyhash::FuzzyHash::new` on the data and takes the hash's
/// `to_string`. The hasher counts the data's length in 32 bits, which the
/// limit on the length keeps from overflowing. Within that limit the block
/// size it settles on is at most `3 * 2^23`, a number of eight digits, and
/// the string it builds is that number, a separator, the first digest, a
/// separator and the second digest: a hash that can be compared. The rest
/// of the result is a function of the data alone and is known here only by
/// its name, `ssdeep_hash`.
#[verifier::external_body]
pub(crate) fn fuzzy_hash(data: &[u8]) -> (hash: String)
    requires
        data@.len() <= MAX_HASHED_LEN,
    ensures
        hash@ == ssdeep_hash(data@),
        comparable_hash(encode_utf8(hash@)),
{
    FuzzyHash::new(data).to_string()
}

/// Normalising the output of a first pass again changes nothing, and so
/// gives the same signature, where that output holds no `call`, no `jmp`, no
/// reference to memory by address and no two trap instructions in a row.
pub proof fn lemma_renormalizing_plain_output(bytes: Seq<u8>)
    requires
        is_plain_from(normalized_body(bytes), 0),
        terminator_from(normalized_body(bytes), 0, 0) == normalized_body(bytes).len(),
    ensures
        normalized_body(normalized_body(bytes)) == normalized_body(bytes),
        ssdeep_hash(normalized_body(normalized_body(bytes))) == ssdeep_hash(
            normalized_body(bytes),
        ),
{
    lemma_plain_body_is_unchanged(normalized_body(bytes));
}

/// A fuzzy hash.
#[derive(Clone, Debug, PartialEq, Eq)]
pub struct Hash {
    /// The hash, in its string form.
    pub hash: String,
}

/// The signature of a function.
#[derive(Clone, Debug, PartialEq, Eq)]
pub struct FuzzyFunc {
    /// The relative virtual address of the function, meaningful for a
    /// function of the target only.
    pub rva: u32,
    /// The fuzzy hash of the function's normalised body.
    pub hash: Hash,
    /// The function's name, where one is known.
    pub name: Option<String>,
}

/// A hasher of function bodies, and the comparison of the hashes it gives.
pub trait HashFn<T> {
    /// The hash the value carries.
    spec fn carried(&self) -> T;

    /// Holds when `hash` is the hash of `bytes`.
    spec fn is_hash_of(bytes: Seq<u8>, hash: T) -> bool;

    /// The score of one hash against another, where they can be compared.
    spec fn score_of(own: T, other: T) -> Option<u32>;

    /// Hashes `bytes`.
    fn hash(bytes: &Vec<u8>) -> (hash: T)
        requires
            bytes@.len() <= MAX_HASHED_LEN,
        ensures
            Self::is_hash_of(bytes@, hash),
    ;

    /// Scores the hash this value carries against the hash `with`, which
    /// another value gives by `get_hash`.
    fn compare_hash(&self, with: &T) -> (score: i32)
        requires
            Self::score_of(self.carried(), *with) is Some,
        ensures
            Self::score_of(self.carried(), *with) == Some(score as u32),
            0 <= score,
    ;

    /// The hash this value carries.
    fn get_hash(&self) -> (hash: &T)
        ensures
            *hash == self.carried(),
    ;
}

impl HashFn<String> for FuzzyFunc {
    open spec fn carried(&self) -> String {
        self.hash.hash
    }

    open spec fn is_hash_of(bytes: Seq<u8>, hash: String) -> bool {
        hash@ == ssdeep_hash(bytes) && comparable_hash(encode_utf8(hash@))
    }

    open spec fn score_of(own: String, other: String) -> Option<u32> {
        match_score(own@, other@)
    }

    fn hash(bytes: &Vec<u8>) -> (hash: String) {
        fuzzy_hash(bytes.as_slice())
    }

    fn compare_hash(&self, with: &String) -> (score: i32) {
        match hash_score(self.hash.hash.as_str(), with.as_str()) {
            Some(value) => value as i32,
            None => 0,
        }
    }

    fn get_hash(&self) -> (hash: &String) {
        &self.hash.hash
    }
}

impl FuzzyFunc {
    /// Scores the hash of this signature against that of `other` with
    /// `compare_hash`, where the two hashes can be compared; `None` where
    /// they cannot.
    pub fn try_compare_hash(&self, other: &FuzzyFunc) -> (score: Option<i32>)
        ensures
            score == match match_score(self@.hash, other@.hash) {
                Some(value) => Some(value as i32),
                None => None,
            },
            score matches Some(value) ==> 0 <= value <= 100,
    {
        match self.similarity(other) {
            Some(_) => Some(self.compare_hash(other.get_hash())),
            None => None,
        }
    }

    /// Scores the hash of this signature against that of `other`; `None`
    /// where the two hashes cannot be compared.
    pub fn similarity(&self, other: &FuzzyFunc) -> (score: Option<u32>)
        ensures
            score == match_score(self@.hash, other@.hash),
            score matches Some(value) ==> value <= 100,
    {
        hash_score(self.hash.hash.as_str(), other.hash.hash.as_str())
    }
}

/// What a `FuzzyFunc` stands for in contracts.
pub struct FuzzyFuncView {
    pub rva: u32,
    pub hash: Seq<char>,
    pub name: Option<Seq<char>>,
}

impl View for FuzzyFunc {
    type V = FuzzyFuncView;

    open spec fn view(&self) -> FuzzyFuncView {
        FuzzyFuncView { rva: self.rva, hash: self.hash.hash@, name: name_view(self.name) }
    }
}

/// The views of a list of signatures, in order.
pub open spec fn fuzzy_views(signatures: Seq<FuzzyFunc>) -> Seq<FuzzyFuncView> {
    signatures.map_values(|f: FuzzyFunc| f@)
}

/// The signature of a function: the hash of its normalised body, where that
/// body holds at least `MIN_FUNC_SZ` bytes and no more than the hasher
/// takes.
pub open spec fn signature_of(function: FunctionView) -> Option<FuzzyFuncView> {
    let normalized = normalized_body(function.data);
    if normalized.len() < MIN_FUNC_SZ || normalized.len() > MAX_HASHED_LEN {
        None
    } else {
        Some(
            FuzzyFuncView {
                rva: function.rva,
                hash: ssdeep_hash(normalized),
                name: function.name,
            },
        )
    }
}

/// The signatures of a list of functions, in order.
pub open spec fn signatures_of(functions: Seq<FunctionView>) -> Seq<FuzzyFuncView> {
    functions.filter_map(|function: FunctionView| signature_of(function))
}

/// Gives each function its signature: the body is normalised and hashed, and
/// the function keeps its address and its name. A function whose normalised
/// body is below `MIN_FUNC_SZ` bytes is dropped, and so is one whose
/// normalised body is above `MAX_HASHED_LEN` bytes. Every hash that comes
/// out can be compared.
pub fn hash_functions(functions: &Vec<Function>) -> (signatures: Vec<FuzzyFunc>)
    ensures
        fuzzy_views(signatures@) == signatures_of(function_views(functions@)),
        forall|i: int|
            0 <= i < signatures@.len() ==> comparable_hash(
                encode_utf8((#[trigger] signatures@[i])@.hash),
            ),
{
    let ghost sign = |function: FunctionView| signature_of(function);
    let ghost views = function_views(functions@);
    let mut signatures: Vec<FuzzyFunc> = Vec::new();
    let mut index: usize = 0;
    while index < functions.len()
        invariant
            index <= functions@.len(),
            views == function_views(functions@),
            sign == |function: FunctionView| signature_of(function),
            fuzzy_views(signatures@) == views.take(index as int).filter_map(sign),
            forall|i: int|
                0 <= i < signatures@.len() ==> comparable_hash(
                    encode_utf8((#[trigger] signatures@[i])@.hash),
                ),
        decreases functions@.len() - index,
    {
        proof {
            views.lemma_filter_map_take_succ(sign, index as int);
        }
        let ghost before = signatures@;
        let function: &Function = &functions[index];
        let data: Vec<u8> = hash_single_func(function.data);
        if data.len() >= MIN_FUNC_SZ && data.len() <= MAX_HASHED_LEN {
            let hash: String = fuzzy_hash(data.as_slice());
            signatures.push(
                FuzzyFunc {
                    rva: function.rva,
                    hash: Hash { hash },
                    name: match &function.name {
                        Some(text) => Some(text.clone()),
                        None => None,
                    },
                },
            );
            assert(fuzzy_views(signatures@) =~= fuzzy_views(before).push(
                sign(views[index as int]).unwrap(),
            ));
        }
        index = index + 1;
    }
    assert(views.take(views.len() as int) =~= views);
    signatures
}

} // verus!
