//! Maps the program counters of a VM trace back to indices of Sierra statements.
use crate::trace_data::{CasmLevelInfo, TraceEntry};
use vstd::prelude::*;

verus! {

/// The byte-offset range that one Sierra statement occupies in the compiled bytecode.
/// `end_offset` is exclusive.
#[derive(Clone, Copy, Debug, PartialEq, Eq, Hash)]
pub struct SierraStatementDebugInfo {
    pub start_offset: usize,
    pub end_offset: usize,
}

/// Enum to represent the result of mapping a pc to a sierra statement id.
#[derive(Clone, Copy, Debug, PartialEq, Eq, Hash)]
pub enum MappingResult {
    /// The pc was successfully mapped to a sierra statement id.
    SierraStatementIdx(usize),
    /// The pc was not mapped to a sierra statement id because it was in the header of the program.
    Header,
    /// The pc was not mapped to a sierra statement id because it was outside the function area.
    PcOutOfFunctionArea,
}

impl MappingResult {
    /// The statement index that this result carries, if it carries one.
    pub open spec fn spec_statement_idx(self) -> Option<usize> {
        match self {
            MappingResult::SierraStatementIdx(idx) => Some(idx),
            MappingResult::Header | MappingResult::PcOutOfFunctionArea => None,
        }
    }

    /// Converts the result into the statement index it resolved to, or `None` for both markers.
    pub fn statement_idx(self) -> (r: Option<usize>)
        ensures
            r == self.spec_statement_idx(),
    {
        match self {
            MappingResult::SierraStatementIdx(idx) => Some(idx),
            MappingResult::Header | MappingResult::PcOutOfFunctionArea => None,
        }
    }
}

/// The start offsets of the table never decrease from one statement to the next.
pub open spec fn sorted_by_start(table: Seq<SierraStatementDebugInfo>) -> bool {
    forall|i: int, j: int|
        0 <= i <= j < table.len() ==> table[i].start_offset <= table[j].start_offset
}

/// `idx` is the statement of `table` that holds the code offset `offset`: the last one that
/// starts at or before it, or the first statement where none does.
pub open spec fn resolves_to(table: Seq<SierraStatementDebugInfo>, offset: int, idx: int) -> bool {
    &&& 0 <= idx < table.len()
    &&& table[idx].start_offset <= offset || idx == 0
    &&& forall|j: int| idx < j < table.len() ==> table[j].start_offset > offset
}

/// The number of instructions that stand in front of the real program in the trace: the PC
/// of a sample minus this number, minus one, is the sample's code offset.
pub open spec fn header_len(
    run_with_call_header: bool,
    trace: Seq<TraceEntry>,
    program_offset: Option<usize>,
) -> int {
    match program_offset {
        Some(offset) => offset as int,
        None => if run_with_call_header && trace.len() > 0 {
            trace.last().pc as int
        } else {
            0
        },
    }
}

/// The PC of the trace that stands for code offset 0 of the real program.
pub open spec fn real_minimal_pc(
    run_with_call_header: bool,
    trace: Seq<TraceEntry>,
    program_offset: Option<usize>,
) -> int {
    header_len(run_with_call_header, trace, program_offset) + 1
}

/// `result` is the classification of the program counter `pc` against a non-empty `table`,
/// where `minimal_pc` is the PC of code offset 0. The markers are decided by the two bounds
/// alone; a resolved index is pinned down where the table is sorted.
pub open spec fn classifies(
    table: Seq<SierraStatementDebugInfo>,
    pc: int,
    minimal_pc: int,
    result: MappingResult,
) -> bool {
    if pc < minimal_pc {
        result == MappingResult::Header
    } else if pc - minimal_pc >= table.last().end_offset {
        result == MappingResult::PcOutOfFunctionArea
    } else {
        &&& result matches MappingResult::SierraStatementIdx(idx)
        &&& idx < table.len()
        &&& sorted_by_start(table) ==> resolves_to(table, pc - minimal_pc, idx as int)
    }
}

/// On a sorted table at most one index resolves a code offset.
pub proof fn lemma_resolves_to_unique(
    table: Seq<SierraStatementDebugInfo>,
    offset: int,
    i: int,
    j: int,
)
    requires
        sorted_by_start(table),
        resolves_to(table, offset, i),
        resolves_to(table, offset, j),
    ensures
        i == j,
{
}

/// On a sorted table a program counter in the function area is classified as the one
/// statement whose range of start offsets holds its code offset: the statement starts at or
/// before the offset, and the next statement, if there is one, starts after it. This is
/// stated for the offsets at or after the start of the first statement, which are all
/// offsets where the table begins at offset 0.
pub proof fn lemma_classified_statement_holds_offset(
    table: Seq<SierraStatementDebugInfo>,
    pc: int,
    minimal_pc: int,
    result: MappingResult,
)
    requires
        table.len() > 0,
        sorted_by_start(table),
        pc >= minimal_pc,
        pc - minimal_pc < table.last().end_offset,
        table[0].start_offset <= pc - minimal_pc,
        classifies(table, pc, minimal_pc, result),
    ensures
        result matches MappingResult::SierraStatementIdx(idx) && {
            &&& idx < table.len()
            &&& table[idx as int].start_offset <= pc - minimal_pc
            &&& idx + 1 < table.len() ==> pc - minimal_pc < table[idx + 1].start_offset
            &&& forall|k: int|
                0 <= k < table.len() && (#[trigger] table[k]).start_offset <= pc - minimal_pc && (k
                    + 1 < table.len() ==> pc - minimal_pc < table[k + 1].start_offset) ==> k == idx
        },
{
}

/// Finds the number of statements at the front of `table` that start at or before `offset`.
fn partition_point(table: &Vec<SierraStatementDebugInfo>, offset: usize) -> (r: usize)
    ensures
        r <= table.len(),
        sorted_by_start(table@) ==> {
            &&& forall|i: int| 0 <= i < r ==> table[i].start_offset <= offset
            &&& forall|i: int| r <= i < table.len() ==> table[i].start_offset > offset
        },
{
    let mut lo: usize = 0;
    let mut hi: usize = table.len();
    while lo < hi
        invariant
            lo <= hi <= table.len(),
            sorted_by_start(table@) ==> {
                &&& forall|i: int| 0 <= i < lo ==> table[i].start_offset <= offset
                &&& forall|i: int| hi <= i < table.len() ==> table[i].start_offset > offset
            },
        decreases hi - lo,
    {
        let mid: usize = lo + (hi - lo) / 2;
        if table[mid].start_offset <= offset {
            lo = mid + 1;
        } else {
            hi = mid;
        }
    }
    lo
}

/// Classifies one program counter against a non-empty table of statement ranges.
/// `header_len` is the number of instructions in front of the real program, so that the PC
/// of code offset 0 is `header_len + 1`.
pub fn map_pc_to_sierra_statement_id(
    sierra_statement_info: &Vec<SierraStatementDebugInfo>,
    pc: usize,
    header_len: usize,
) -> (result: MappingResult)
    requires
        sierra_statement_info.len() > 0,
    ensures
        classifies(sierra_statement_info@, pc as int, header_len + 1, result),
{
    if pc <= header_len {
        return MappingResult::Header;
    }
    let real_pc_code_offset: usize = pc - header_len - 1;
    let bytecode_length: usize = sierra_statement_info[sierra_statement_info.len() - 1].end_offset;
    if real_pc_code_offset >= bytecode_length {
        return MappingResult::PcOutOfFunctionArea;
    }
    let below: usize = partition_point(sierra_statement_info, real_pc_code_offset);
    let statement_index: usize = if below == 0 {
        0
    } else {
        below - 1
    };
    MappingResult::SierraStatementIdx(statement_index)
}

/// Function to map the program counters in the trace to the sierra statement ids.
///
/// Returns an empty vector if the sierra statement info is empty or the vm trace is empty.
/// Otherwise the result has one classification per sample, in the order of the trace.
pub fn map_pcs_to_sierra_statement_ids(
    sierra_statement_info: &Vec<SierraStatementDebugInfo>,
    casm_level_info: &CasmLevelInfo,
) -> (result: Vec<MappingResult>)
    ensures
        sierra_statement_info.len() == 0 ==> result.len() == 0,
        sierra_statement_info.len() > 0 ==> result.len() == casm_level_info.vm_trace.len(),
        forall|k: int|
            0 <= k < result.len() ==> classifies(
                sierra_statement_info@,
                casm_level_info.vm_trace[k].pc as int,
                real_minimal_pc(
                    casm_level_info.run_with_call_header,
                    casm_level_info.vm_trace@,
                    casm_level_info.program_offset,
                ),
                #[trigger] result[k],
            ),
{
    let mut result: Vec<MappingResult> = Vec::new();
    if sierra_statement_info.len() == 0 {
        return result;
    }
    let trace = &casm_level_info.vm_trace;
    let header_len: usize = match casm_level_info.program_offset {
        Some(offset) => offset,
        None => if casm_level_info.run_with_call_header && trace.len() > 0 {
            trace[trace.len() - 1].pc
        } else {
            0
        },
    };
    let mut k: usize = 0;
    while k < trace.len()
        invariant
            k <= trace.len(),
            result.len() == k,
            sierra_statement_info.len() > 0,
            forall|i: int|
                0 <= i < k ==> classifies(
                    sierra_statement_info@,
                    trace[i].pc as int,
                    header_len + 1,
                    #[trigger] result[i],
                ),
        decreases trace.len() - k,
    {
        let mapped = map_pc_to_sierra_statement_id(sierra_statement_info, trace[k].pc, header_len);
        result.push(mapped);
        k += 1;
    }
    result
}

} // verus!
