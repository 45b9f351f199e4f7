//! The data of a call trace: entry points, raw VM samples and resource snapshots, and the
//! accumulation and subtraction of the snapshots.
use crate::ordered_map::{
    distinct_keys, lemma_map_of_entry, map_of, merged, mergeable, position_of, subtracted, Counter,
    MapKey, OrderedMap,
};
use camino::Utf8PathBuf;
use starknet_types_core::felt::Felt;
use vstd::prelude::*;

verus! {

/// A field element of Starknet. The library carries such values and never looks inside.
#[verifier::external_type_specification]
#[verifier::external_body]
pub struct ExFelt(Felt);

/// A UTF-8 path of the `camino` crate. The library carries such values and never looks
/// inside.
#[verifier::external_type_specification]
#[verifier::external_body]
pub struct ExUtf8PathBuf(Utf8PathBuf);

/// `Felt::clone`, which the derived `Clone` of the types around a `Felt` calls. Nothing is
/// claimed of the copy.
pub assume_specification[ <Felt as Clone>::clone ](felt: &Felt) -> (copy: Felt);

/// `Utf8PathBuf::clone`, which the derived `Clone` of [`CairoExecutionInfo`] calls. Nothing
/// is claimed of the copy.
pub assume_specification[ <Utf8PathBuf as Clone>::clone ](path: &Utf8PathBuf) -> (copy:
    Utf8PathBuf);

#[derive(Clone, Debug)]
pub struct ClassHash(pub Felt);

#[derive(Clone, Debug)]
pub struct ContractAddress(pub Felt);

#[derive(Clone, Debug)]
pub struct EntryPointSelector(pub Felt);

/// Versioned representation of `CallTrace`.
///
/// Always prefer using this enum when serializing or deserializing instead of inner ones.
#[derive(Debug)]
pub enum VersionedCallTrace {
    V1(CallTraceV1),
}

/// Tree structure representing trace of a call.
#[derive(Debug)]
pub struct CallTraceV1 {
    pub entry_point: CallEntryPoint,
    pub cumulative_resources: ExecutionResources,
    pub used_l1_resources: L1Resources,
    pub nested_calls: Vec<CallTraceNode>,
    pub cairo_execution_info: Option<CairoExecutionInfo>,
}

/// Struct needed for function level profiling.
#[derive(Debug, Clone)]
pub struct CairoExecutionInfo {
    /// Path to a file with serialized `ContractClass` or `VersionedProgram`.
    pub source_sierra_path: Utf8PathBuf,
    pub casm_level_info: CasmLevelInfo,
}

/// What the VM recorded of one run at the level of CASM instructions.
#[derive(Debug, Clone)]
pub struct CasmLevelInfo {
    /// Whether the program ran behind a header of wrapping instructions.
    pub run_with_call_header: bool,
    /// The samples of the run, in the order in which the VM took them.
    pub vm_trace: Vec<TraceEntry>,
    /// The number of instructions in front of the real program, where the caller knows it.
    pub program_offset: Option<usize>,
}

/// Enum representing node of a trace of a call.
#[derive(Debug)]
pub enum CallTraceNode {
    EntryPointCall(Box<CallTraceV1>),
    DeployWithoutConstructor,
}

/// One sample of the VM: the program counter and the two pointer registers.
#[derive(Debug, Clone, Copy, PartialEq, Eq)]
pub struct TraceEntry {
    pub pc: usize,
    pub ap: usize,
    pub fp: usize,
}

/// How often each syscall was made, and with what linear cost factor.
pub type SyscallCounter = OrderedMap<DeprecatedSyscallSelector, SyscallUsage>;

/// How often each builtin was used, by the builtin's name.
pub type BuiltinCounter = OrderedMap<String, usize>;

#[derive(Debug, Default, Clone, Copy, PartialEq, Eq)]
pub struct SyscallUsage {
    pub call_count: usize,
    pub linear_factor: usize,
}

#[derive(Debug, Default, Clone)]
pub struct ExecutionResources {
    pub vm_resources: VmExecutionResources,
    pub gas_consumed: Option<u64>,
    /// Absent in traces of tools that do not count syscalls.
    pub syscall_counter: Option<SyscallCounter>,
}

#[derive(Clone, Debug, Default, PartialEq, Eq)]
pub struct VmExecutionResources {
    pub n_steps: usize,
    pub n_memory_holes: usize,
    pub builtin_instance_counter: BuiltinCounter,
}

#[derive(Clone, Copy, Debug, PartialEq, Eq, Structural, Hash)]
pub enum DeprecatedSyscallSelector {
    CallContract,
    DelegateCall,
    DelegateL1Handler,
    Deploy,
    EmitEvent,
    GetBlockHash,
    GetBlockNumber,
    GetBlockTimestamp,
    GetCallerAddress,
    GetContractAddress,
    GetClassHashAt,
    GetExecutionInfo,
    GetSequencerAddress,
    GetTxInfo,
    GetTxSignature,
    Keccak,
    LibraryCall,
    LibraryCallL1Handler,
    ReplaceClass,
    Secp256k1Add,
    Secp256k1GetPointFromX,
    Secp256k1GetXy,
    Secp256k1Mul,
    Secp256k1New,
    Secp256r1Add,
    Secp256r1GetPointFromX,
    Secp256r1GetXy,
    Secp256r1Mul,
    Secp256r1New,
    SendMessageToL1,
    StorageRead,
    StorageWrite,
    Sha256ProcessBlock,
    KeccakRound,
    MetaTxV0,
}

#[derive(Clone, Debug)]
pub struct CallEntryPoint {
    pub class_hash: Option<ClassHash>,
    pub entry_point_type: EntryPointType,
    pub entry_point_selector: EntryPointSelector,
    pub contract_address: ContractAddress,
    pub call_type: CallType,
    /// Contract name to display instead of contract address
    pub contract_name: Option<String>,
    /// Function name to display instead of entry point selector
    pub function_name: Option<String>,
    /// Calldata length to use for deploy syscall cost estimation
    pub calldata_len: Option<usize>,
}

#[derive(Clone, Copy, Debug, Default, PartialEq, Eq, Hash)]
pub enum CallType {
    #[default]
    Call,
    Delegate,
}

#[derive(Debug, Clone, Default, PartialEq, Eq)]
pub enum EntryPointType {
    Constructor,
    #[default]
    External,
    L1Handler,
}

#[derive(Clone, Default, Debug)]
pub struct L1Resources {
    pub l2_l1_message_sizes: Vec<usize>,
}

/// Every selector, in the order of declaration.
pub const VARIANTS: [DeprecatedSyscallSelector; 35] = [
    DeprecatedSyscallSelector::CallContract,
    DeprecatedSyscallSelector::DelegateCall,
    DeprecatedSyscallSelector::DelegateL1Handler,
    DeprecatedSyscallSelector::Deploy,
    DeprecatedSyscallSelector::EmitEvent,
    DeprecatedSyscallSelector::GetBlockHash,
    DeprecatedSyscallSelector::GetBlockNumber,
    DeprecatedSyscallSelector::GetBlockTimestamp,
    DeprecatedSyscallSelector::GetCallerAddress,
    DeprecatedSyscallSelector::GetContractAddress,
    DeprecatedSyscallSelector::GetClassHashAt,
    DeprecatedSyscallSelector::GetExecutionInfo,
    DeprecatedSyscallSelector::GetSequencerAddress,
    DeprecatedSyscallSelector::GetTxInfo,
    DeprecatedSyscallSelector::GetTxSignature,
    DeprecatedSyscallSelector::Keccak,
    DeprecatedSyscallSelector::LibraryCall,
    DeprecatedSyscallSelector::LibraryCallL1Handler,
    DeprecatedSyscallSelector::ReplaceClass,
    DeprecatedSyscallSelector::Secp256k1Add,
    DeprecatedSyscallSelector::Secp256k1GetPointFromX,
    DeprecatedSyscallSelector::Secp256k1GetXy,
    DeprecatedSyscallSelector::Secp256k1Mul,
    DeprecatedSyscallSelector::Secp256k1New,
    DeprecatedSyscallSelector::Secp256r1Add,
    DeprecatedSyscallSelector::Secp256r1GetPointFromX,
    DeprecatedSyscallSelector::Secp256r1GetXy,
    DeprecatedSyscallSelector::Secp256r1Mul,
    DeprecatedSyscallSelector::Secp256r1New,
    DeprecatedSyscallSelector::SendMessageToL1,
    DeprecatedSyscallSelector::StorageRead,
    DeprecatedSyscallSelector::StorageWrite,
    DeprecatedSyscallSelector::Sha256ProcessBlock,
    DeprecatedSyscallSelector::KeccakRound,
    DeprecatedSyscallSelector::MetaTxV0,
];

impl DeprecatedSyscallSelector {
    /// The place of the selector in the order of declaration.
    pub open spec fn position(self) -> int {
        match self {
            DeprecatedSyscallSelector::CallContract => 0,
            DeprecatedSyscallSelector::DelegateCall => 1,
            DeprecatedSyscallSelector::DelegateL1Handler => 2,
            DeprecatedSyscallSelector::Deploy => 3,
            DeprecatedSyscallSelector::EmitEvent => 4,
            DeprecatedSyscallSelector::GetBlockHash => 5,
            DeprecatedSyscallSelector::GetBlockNumber => 6,
            DeprecatedSyscallSelector::GetBlockTimestamp => 7,
            DeprecatedSyscallSelector::GetCallerAddress => 8,
            DeprecatedSyscallSelector::GetContractAddress => 9,
            DeprecatedSyscallSelector::GetClassHashAt => 10,
            DeprecatedSyscallSelector::GetExecutionInfo => 11,
            DeprecatedSyscallSelector::GetSequencerAddress => 12,
            DeprecatedSyscallSelector::GetTxInfo => 13,
            DeprecatedSyscallSelector::GetTxSignature => 14,
            DeprecatedSyscallSelector::Keccak => 15,
            DeprecatedSyscallSelector::LibraryCall => 16,
            DeprecatedSyscallSelector::LibraryCallL1Handler => 17,
            DeprecatedSyscallSelector::ReplaceClass => 18,
            DeprecatedSyscallSelector::Secp256k1Add => 19,
            DeprecatedSyscallSelector::Secp256k1GetPointFromX => 20,
            DeprecatedSyscallSelector::Secp256k1GetXy => 21,
            DeprecatedSyscallSelector::Secp256k1Mul => 22,
            DeprecatedSyscallSelector::Secp256k1New => 23,
            DeprecatedSyscallSelector::Secp256r1Add => 24,
            DeprecatedSyscallSelector::Secp256r1GetPointFromX => 25,
            DeprecatedSyscallSelector::Secp256r1GetXy => 26,
            DeprecatedSyscallSelector::Secp256r1Mul => 27,
            DeprecatedSyscallSelector::Secp256r1New => 28,
            DeprecatedSyscallSelector::SendMessageToL1 => 29,
            DeprecatedSyscallSelector::StorageRead => 30,
            DeprecatedSyscallSelector::StorageWrite => 31,
            DeprecatedSyscallSelector::Sha256ProcessBlock => 32,
            DeprecatedSyscallSelector::KeccakRound => 33,
            DeprecatedSyscallSelector::MetaTxV0 => 34,
        }
    }

    /// Every selector, each once, in the order of declaration.
    pub fn all() -> (selectors: &'static [Self])
        ensures
            selectors@.len() == 35,
            forall|selector: DeprecatedSyscallSelector|
                0 <= #[trigger] selector.position() < 35 && selectors@[selector.position()]
                    == selector,
    {
        &VARIANTS
    }
}

impl MapKey for DeprecatedSyscallSelector {
    type Ident = DeprecatedSyscallSelector;

    open spec fn ident(&self) -> DeprecatedSyscallSelector {
        *self
    }

    fn same_key(&self, other: &Self) -> (same: bool) {
        *self == *other
    }

    fn clone_key(&self) -> (copy: Self) {
        *self
    }
}

impl Counter for SyscallUsage {
    open spec fn fits(&self, other: &Self) -> bool {
        &&& self.call_count + other.call_count <= usize::MAX
        &&& self.linear_factor + other.linear_factor <= usize::MAX
    }

    open spec fn sum(&self, other: &Self) -> Self {
        SyscallUsage {
            call_count: (self.call_count + other.call_count) as usize,
            linear_factor: (self.linear_factor + other.linear_factor) as usize,
        }
    }

    open spec fn difference(&self, other: &Self) -> Self {
        SyscallUsage {
            call_count: self.call_count.difference(&other.call_count),
            linear_factor: self.linear_factor.difference(&other.linear_factor),
        }
    }

    open spec fn is_spent(&self) -> bool {
        self.call_count == 0 && self.linear_factor == 0
    }

    fn can_add(&self, other: &Self) -> (fits: bool) {
        self.call_count.can_add(&other.call_count) && self.linear_factor.can_add(
            &other.linear_factor,
        )
    }

    fn add_counter(&self, other: &Self) -> (total: Self) {
        SyscallUsage {
            call_count: self.call_count + other.call_count,
            linear_factor: self.linear_factor + other.linear_factor,
        }
    }

    fn sub_counter(&self, other: &Self) -> (left: Self) {
        SyscallUsage {
            call_count: self.call_count.sub_counter(&other.call_count),
            linear_factor: self.linear_factor.sub_counter(&other.linear_factor),
        }
    }

    fn spent(&self) -> (spent: bool) {
        self.call_count == 0 && self.linear_factor == 0
    }

    fn clone_counter(&self) -> (copy: Self) {
        *self
    }

    fn same_counter(&self, other: &Self) -> (same: bool) {
        self.call_count == other.call_count && self.linear_factor == other.linear_factor
    }
}

/// What a [`VmExecutionResources`] holds: the two counts, and the use of each builtin by
/// the builtin's name.
#[verifier::ext_equal]
pub struct VmResources {
    pub n_steps: nat,
    pub n_memory_holes: nat,
    pub builtins: Map<Seq<char>, usize>,
}

/// What an [`ExecutionResources`] holds.
#[verifier::ext_equal]
pub struct Resources {
    pub vm: VmResources,
    pub gas_consumed: Option<u64>,
    pub syscalls: Option<Map<DeprecatedSyscallSelector, SyscallUsage>>,
}

/// `a - b` where that is not negative, and zero otherwise.
pub open spec fn saturating_sub(a: int, b: int) -> int {
    if a >= b {
        a - b
    } else {
        0
    }
}

/// The count that `counts` holds for `key`, where a missing entry counts as zero.
pub open spec fn count_of(counts: Map<Seq<char>, usize>, key: Seq<char>) -> int {
    if counts.contains_key(key) {
        counts[key] as int
    } else {
        0
    }
}

impl VmResources {
    /// The sums that [`Self::merge`] takes all fit the machine's counters.
    pub open spec fn can_merge(self, other: Self) -> bool {
        &&& self.n_steps + other.n_steps <= usize::MAX
        &&& self.n_memory_holes + other.n_memory_holes <= usize::MAX
        &&& mergeable(self.builtins, other.builtins)
    }

    /// The snapshot with `other` accumulated into it: the counts add, and so does the use
    /// of each builtin, where a builtin that one side lacks counts as unused there.
    pub open spec fn merge(self, other: Self) -> Self {
        VmResources {
            n_steps: self.n_steps + other.n_steps,
            n_memory_holes: self.n_memory_holes + other.n_memory_holes,
            builtins: merged(self.builtins, other.builtins),
        }
    }

    /// The snapshot with `other` taken from it: each count stops at zero, and a builtin of
    /// which no use is left has no entry.
    pub open spec fn diff(self, other: Self) -> Self {
        VmResources {
            n_steps: saturating_sub(self.n_steps as int, other.n_steps as int) as nat,
            n_memory_holes: saturating_sub(
                self.n_memory_holes as int,
                other.n_memory_holes as int,
            ) as nat,
            builtins: subtracted(self.builtins, other.builtins),
        }
    }

    /// Each count of the snapshot is at least that of `other`, and so is the use of each
    /// builtin that `other` names.
    pub open spec fn covers(self, other: Self) -> bool {
        &&& self.n_steps >= other.n_steps
        &&& self.n_memory_holes >= other.n_memory_holes
        &&& forall|name: Seq<char>| #[trigger]
            other.builtins.contains_key(name) ==> count_of(self.builtins, name)
                >= other.builtins[name]
    }
}

/// The gas of a snapshot with the gas of another accumulated into it.
pub open spec fn merge_gas(a: Option<u64>, b: Option<u64>) -> Option<u64> {
    match (a, b) {
        (Some(x), Some(y)) => Some((x + y) as u64),
        (Some(x), None) => Some(x),
        (None, Some(y)) => Some(y),
        (None, None) => None,
    }
}

/// The gas of a snapshot with the gas of another taken from it.
pub open spec fn diff_gas(a: Option<u64>, b: Option<u64>) -> Option<u64> {
    match (a, b) {
        (Some(x), Some(y)) => Some(saturating_sub(x as int, y as int) as u64),
        _ => a,
    }
}

/// The syscall counts of a snapshot with those of another accumulated into them.
pub open spec fn merge_syscalls(
    a: Option<Map<DeprecatedSyscallSelector, SyscallUsage>>,
    b: Option<Map<DeprecatedSyscallSelector, SyscallUsage>>,
) -> Option<Map<DeprecatedSyscallSelector, SyscallUsage>> {
    match (a, b) {
        (Some(x), Some(y)) => Some(merged(x, y)),
        (None, Some(y)) => Some(y),
        (_, None) => a,
    }
}

/// The syscall counts of a snapshot with those of another taken from them. A snapshot that
/// counts no syscalls takes nothing away, but the entries of which nothing is left go all
/// the same.
pub open spec fn diff_syscalls(
    a: Option<Map<DeprecatedSyscallSelector, SyscallUsage>>,
    b: Option<Map<DeprecatedSyscallSelector, SyscallUsage>>,
) -> Option<Map<DeprecatedSyscallSelector, SyscallUsage>> {
    match a {
        Some(x) => Some(
            subtracted(
                x,
                match b {
                    Some(y) => y,
                    None => Map::empty(),
                },
            ),
        ),
        None => None,
    }
}

impl Resources {
    /// The sums that [`Self::merge`] takes all fit the machine's counters.
    pub open spec fn can_merge(self, other: Self) -> bool {
        &&& self.vm.can_merge(other.vm)
        &&& self.gas_consumed matches Some(x) ==> (other.gas_consumed matches Some(y) ==> x + y
            <= u64::MAX)
        &&& self.syscalls matches Some(x) ==> (other.syscalls matches Some(y) ==> mergeable(x, y))
    }

    /// The snapshot with `other` accumulated into it.
    pub open spec fn merge(self, other: Self) -> Self {
        Resources {
            vm: self.vm.merge(other.vm),
            gas_consumed: merge_gas(self.gas_consumed, other.gas_consumed),
            syscalls: merge_syscalls(self.syscalls, other.syscalls),
        }
    }

    /// The snapshot with `other` taken from it.
    pub open spec fn diff(self, other: Self) -> Self {
        Resources {
            vm: self.vm.diff(other.vm),
            gas_consumed: diff_gas(self.gas_consumed, other.gas_consumed),
            syscalls: diff_syscalls(self.syscalls, other.syscalls),
        }
    }
}

/// Taking one snapshot from another gives no count below zero and none above the count
/// that it was taken from: each count is the difference where that is not negative, and
/// zero otherwise. A builtin that is left has a count above zero.
pub proof fn lemma_diff_stops_at_zero(a: VmResources, b: VmResources)
    ensures
        0 <= a.diff(b).n_steps <= a.n_steps,
        0 <= a.diff(b).n_memory_holes <= a.n_memory_holes,
        a.n_steps >= b.n_steps ==> a.diff(b).n_steps == a.n_steps - b.n_steps,
        a.n_steps < b.n_steps ==> a.diff(b).n_steps == 0,
        a.n_memory_holes >= b.n_memory_holes ==> a.diff(b).n_memory_holes == a.n_memory_holes
            - b.n_memory_holes,
        a.n_memory_holes < b.n_memory_holes ==> a.diff(b).n_memory_holes == 0,
        forall|name: Seq<char>| #[trigger]
            a.diff(b).builtins.contains_key(name) ==> {
                &&& a.builtins.contains_key(name)
                &&& a.diff(b).builtins[name] > 0
                &&& a.diff(b).builtins[name] == a.builtins[name] - count_of(b.builtins, name)
            },
{
}

/// After one snapshot is taken from another, no counter map holds an entry of which
/// nothing is left: each builtin that stays has a count above zero, and each syscall that
/// stays has a call count or a linear factor above zero.
pub proof fn lemma_diff_keeps_no_spent_entry(a: Resources, b: Resources)
    ensures
        forall|name: Seq<char>| #[trigger]
            a.diff(b).vm.builtins.contains_key(name) ==> a.diff(b).vm.builtins[name] > 0,
        a.diff(b).syscalls matches Some(left) ==> forall|selector: DeprecatedSyscallSelector|
            #[trigger] left.contains_key(selector) ==> left[selector].call_count > 0
                || left[selector].linear_factor > 0,
{
}

impl View for VmExecutionResources {
    type V = VmResources;

    open spec fn view(&self) -> VmResources {
        VmResources {
            n_steps: self.n_steps as nat,
            n_memory_holes: self.n_memory_holes as nat,
            builtins: self.builtin_instance_counter@,
        }
    }
}

impl View for ExecutionResources {
    type V = Resources;

    open spec fn view(&self) -> Resources {
        Resources {
            vm: self.vm_resources@,
            gas_consumed: self.gas_consumed,
            syscalls: match self.syscall_counter {
                Some(counter) => Some(counter@),
                None => None,
            },
        }
    }
}

impl VmExecutionResources {
    /// Whether `other` can be accumulated into this snapshot: whether each sum fits the
    /// machine's counters.
    pub fn can_add(&self, other: &VmExecutionResources) -> (fits: bool)
        ensures
            fits == self@.can_merge(other@),
    {
        self.n_steps.can_add(&other.n_steps) && self.n_memory_holes.can_add(&other.n_memory_holes)
            && self.builtin_instance_counter.can_merge(&other.builtin_instance_counter)
    }

    /// Accumulates `other` into this snapshot. The sums have to fit the machine's counters:
    /// [`Self::checked_add_assign`] is the accumulation for snapshots of which that is not
    /// known.
    pub fn add_assign(&mut self, other: &VmExecutionResources)
        requires
            old(self)@.can_merge(other@),
        ensures
            final(self)@ == old(self)@.merge(other@),
    {
        self.n_steps = self.n_steps + other.n_steps;
        self.n_memory_holes = self.n_memory_holes + other.n_memory_holes;
        self.builtin_instance_counter.merge_from(&other.builtin_instance_counter);
    }

    /// Accumulates `other` into this snapshot where every sum fits the machine's counters,
    /// and says whether it did. Where a sum does not fit, the snapshot stays as it is.
    pub fn checked_add_assign(&mut self, other: &VmExecutionResources) -> (done: bool)
        ensures
            done == old(self)@.can_merge(other@),
            done ==> final(self)@ == old(self)@.merge(other@),
            !done ==> *final(self) == *old(self),
    {
        if self.can_add(other) {
            self.add_assign(other);
            true
        } else {
            false
        }
    }

    /// Takes `other` from this snapshot. No count goes below zero, and no builtin stays
    /// with a count of zero.
    pub fn sub_assign(&mut self, other: &VmExecutionResources)
        ensures
            final(self)@ == old(self)@.diff(other@),
            final(self).n_steps <= old(self).n_steps,
            final(self).n_memory_holes <= old(self).n_memory_holes,
            forall|name: Seq<char>| #[trigger]
                final(self)@.builtins.contains_key(name) ==> final(self)@.builtins[name] > 0,
    {
        self.n_steps = self.n_steps.sub_counter(&other.n_steps);
        self.n_memory_holes = self.n_memory_holes.sub_counter(&other.n_memory_holes);
        self.builtin_instance_counter.subtract(&other.builtin_instance_counter);
    }

    /// Whether each count of this snapshot is at least that of `other`, and the use of each
    /// builtin that `other` names at least that in `other`.
    pub fn covers_at_least(&self, other: &VmExecutionResources) -> (covers: bool)
        ensures
            covers == self@.covers(other@),
    {
        if self.n_steps < other.n_steps || self.n_memory_holes < other.n_memory_holes {
            return false;
        }
        let theirs = &other.builtin_instance_counter;
        let n = theirs.len();
        let mut i: usize = 0;
        while i < n
            invariant
                i <= n,
                n == theirs.entries().len(),
                distinct_keys(theirs.entries()),
                theirs@ == map_of(theirs.entries()),
                other@.builtins == theirs@,
                forall|j: int|
                    0 <= j < i ==> count_of(
                        self.builtin_instance_counter@,
                        (#[trigger] theirs.entries()[j]).0,
                    ) >= theirs.entries()[j].1,
            decreases n - i,
        {
            let needed = *theirs.value_at(i);
            let held: usize = match self.builtin_instance_counter.get(theirs.key_at(i)) {
                Some(count) => *count,
                None => 0,
            };
            if held < needed {
                proof {
                    lemma_map_of_entry(theirs.entries(), i as int);
                }
                return false;
            }
            i += 1;
        }
        proof {
            assert forall|name: Seq<char>| #[trigger]
                other@.builtins.contains_key(name) implies count_of(self@.builtins, name)
                >= other@.builtins[name] by {
                let p = position_of(theirs.entries(), name);
                lemma_map_of_entry(theirs.entries(), p);
            }
        }
        true
    }
}

impl ExecutionResources {
    /// Whether `other` can be accumulated into this snapshot: whether each sum fits the
    /// machine's counters.
    pub fn can_add(&self, other: &ExecutionResources) -> (fits: bool)
        ensures
            fits == self@.can_merge(other@),
    {
        let gas_fits = match (self.gas_consumed, other.gas_consumed) {
            (Some(self_gas), Some(other_gas)) => self_gas <= u64::MAX - other_gas,
            _ => true,
        };
        let syscalls_fit = match (&self.syscall_counter, &other.syscall_counter) {
            (Some(self_counter), Some(other_counter)) => self_counter.can_merge(other_counter),
            _ => true,
        };
        self.vm_resources.can_add(&other.vm_resources) && gas_fits && syscalls_fit
    }

    /// Accumulates `other` into this snapshot where every sum fits the machine's counters,
    /// and says whether it did. Where a sum does not fit, the snapshot stays as it is.
    pub fn checked_add_assign(&mut self, other: &ExecutionResources) -> (done: bool)
        ensures
            done == old(self)@.can_merge(other@),
            done ==> final(self)@ == old(self)@.merge(other@),
            !done ==> *final(self) == *old(self),
    {
        if self.can_add(other) {
            self.add_assign(other);
            true
        } else {
            false
        }
    }

    /// Accumulates `other` into this snapshot. The sums have to fit the machine's counters:
    /// [`Self::checked_add_assign`] is the accumulation for snapshots of which that is not
    /// known.
    pub fn add_assign(&mut self, other: &ExecutionResources)
        requires
            old(self)@.can_merge(other@),
        ensures
            final(self)@ == old(self)@.merge(other@),
    {
        self.vm_resources.add_assign(&other.vm_resources);
        self.gas_consumed = match (self.gas_consumed, other.gas_consumed) {
            (Some(self_gas), Some(other_gas)) => Some(self_gas + other_gas),
            (Some(self_gas), None) => Some(self_gas),
            (None, Some(other_gas)) => Some(other_gas),
            (None, None) => None,
        };
        if let Some(other_counter) = &other.syscall_counter {
            let mut counter = match self.syscall_counter.take() {
                Some(counter) => counter,
                None => OrderedMap::new(),
            };
            counter.merge_from(other_counter);
            self.syscall_counter = Some(counter);
        }
    }

    /// Takes `other` from this snapshot. No count goes below zero; a builtin stays only with
    /// a count above zero, and a syscall only with a call count or a linear factor above
    /// zero, whether or not `other` counts syscalls.
    pub fn sub_assign(&mut self, other: &ExecutionResources)
        ensures
            final(self)@ == old(self)@.diff(other@),
            forall|name: Seq<char>| #[trigger]
                final(self)@.vm.builtins.contains_key(name) ==> final(self)@.vm.builtins[name] > 0,
            final(self)@.syscalls matches Some(left) ==> forall|
                selector: DeprecatedSyscallSelector,
            | #[trigger]
                left.contains_key(selector) ==> left[selector].call_count > 0
                    || left[selector].linear_factor > 0,
    {
        self.vm_resources.sub_assign(&other.vm_resources);
        if let Some(other_gas) = other.gas_consumed {
            if let Some(self_gas) = self.gas_consumed {
                self.gas_consumed = Some(
                    if self_gas >= other_gas {
                        self_gas - other_gas
                    } else {
                        0
                    },
                );
            }
        }
        if let Some(mut counter) = self.syscall_counter.take() {
            match &other.syscall_counter {
                Some(other_counter) => {
                    counter.subtract(other_counter);
                },
                None => {
                    counter.subtract(&OrderedMap::new());
                },
            }
            self.syscall_counter = Some(counter);
        }
    }
}

} // verus!
