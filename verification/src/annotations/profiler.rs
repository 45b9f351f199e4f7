//! The profiler annotations: which Cairo functions each Sierra statement came from.
use crate::annotations::json::{Json, JsonValue};
use crate::annotations::schema::{fields1, is_record, object1, under_member, Mismatch, Schema};
use crate::annotations::traits::Namespace;
use regex::Regex;
use std::collections::HashMap;
use vstd::prelude::*;

verus! {

/// Versioned representation of Profiler Annotations.
///
/// Always prefer using this enum when reading or writing instead of inner ones.
#[derive(Clone, Debug, PartialEq, Eq)]
pub enum VersionedProfilerAnnotations {
    V1(ProfilerAnnotationsV1),
}

/// The mapping from sierra statement index
/// to stack a fully qualified Cairo paths of the Cairo functions
/// which caused the statement to be generated.
/// And all functions that were inlined
/// or generated along the way up to the first non-inlined function from the code as the
/// user wrote it.
///
/// The vector represents the stack from the least meaningful elements.
#[derive(Clone, Debug, PartialEq, Eq)]
pub struct ProfilerAnnotationsV1 {
    pub statements_functions: HashMap<usize, Vec<FunctionName>>,
}

/// The fully qualified Cairo path of the Cairo function.
#[derive(Clone, Debug, PartialEq, Eq, Hash, PartialOrd, Ord, Default)]
pub struct FunctionName(pub String);

/// A function of a Sierra program: the name that it is shown under, and the index of the
/// statement that it starts at.
#[derive(Clone, Debug, PartialEq, Eq)]
pub struct SierraFunction {
    pub name: String,
    pub entry_point: usize,
}

/// The text `text` without the leftmost match of the regular expression `pattern`, as
/// `Regex::replace` of the `regex` crate gives it with an empty replacement, and `None`
/// where `Regex::new` does not take the pattern.
pub uninterp spec fn first_match_removed(pattern: Seq<char>, text: Seq<char>) -> Option<Seq<char>>;

/// Calls `Regex::new` on `pattern` and, where that gives a regular expression, its
/// `replace` on `text` with the empty replacement. The contract claims only that the
/// outcome is the one that these two functions have for this pattern and this text.
#[verifier::external_body]
fn remove_first_match(pattern: &str, text: &str) -> (removed: Option<String>)
    ensures
        match removed {
            Some(left) => first_match_removed(pattern@, text@) == Some(left@),
            None => first_match_removed(pattern@, text@) is None,
        },
{
    match Regex::new(pattern) {
        Ok(expression) => Some(expression.replace(text, "").into_owned()),
        Err(_) => None,
    }
}

/// The pattern of the suffix that the name of a loop function carries, such as
/// `[expr36]`.
pub open spec fn loop_suffix_pattern() -> Seq<char> {
    "\\[expr\\d*\\]"@
}

/// The pattern of the parameters that the name of a monomorphised generic function
/// carries, such as `<felt252>`.
pub open spec fn generic_parameters_pattern() -> Seq<char> {
    "<.*>"@
}

/// The name that the two removals give: the name without the loop suffix where generics
/// are to be told apart, else that name without the generic parameters; and `None` where
/// the removal that gives the name was not made. `without_generics` is what the second
/// removal made of the name without the loop suffix.
pub open spec fn name_of_removals(
    without_loop_suffix: Option<Seq<char>>,
    without_generics: Option<Seq<char>>,
    split_generics: bool,
) -> Option<Seq<char>> {
    match without_loop_suffix {
        Some(plain) => if split_generics {
            Some(plain)
        } else {
            without_generics
        },
        None => None,
    }
}

/// The name under which a function is profiled: the name without the suffix of a loop
/// function, and, unless generics are to be told apart, without the parameters of a
/// monomorphised generic function. `None` where a pattern is not taken.
pub open spec fn normalized_name(name: Seq<char>, split_generics: bool) -> Option<Seq<char>> {
    let without_loop_suffix = first_match_removed(loop_suffix_pattern(), name);
    name_of_removals(
        without_loop_suffix,
        match without_loop_suffix {
            Some(plain) => first_match_removed(generic_parameters_pattern(), plain),
            None => None,
        },
        split_generics,
    )
}

/// The entry points of the functions never decrease from one function to the next.
pub open spec fn sorted_by_entry_point(functions: Seq<SierraFunction>) -> bool {
    forall|i: int, j: int|
        0 <= i <= j < functions.len() ==> functions[i].entry_point <= functions[j].entry_point
}

/// `idx` is the function of `functions` that holds the statement `statement`: the last one
/// that starts at or before it.
pub open spec fn holds_statement(functions: Seq<SierraFunction>, statement: int, idx: int) -> bool {
    &&& 0 <= idx < functions.len()
    &&& functions[idx].entry_point <= statement
    &&& forall|j: int| idx < j < functions.len() ==> functions[j].entry_point > statement
}

/// Some function of `functions` starts at or before the statement `statement`.
pub open spec fn some_function_holds(functions: Seq<SierraFunction>, statement: int) -> bool {
    exists|j: int| 0 <= j < functions.len() && (#[trigger] functions[j]).entry_point <= statement
}

/// The index of the function that holds the statement `statement_idx`, and `None` where no
/// function starts at or before the statement. The index is the function's where the
/// functions are sorted by their entry points.
pub fn function_of_statement(functions: &Vec<SierraFunction>, statement_idx: usize) -> (found:
    Option<usize>)
    ensures
        found matches Some(idx) ==> idx < functions.len(),
        sorted_by_entry_point(functions@) ==> match found {
            Some(idx) => holds_statement(functions@, statement_idx as int, idx as int),
            None => !some_function_holds(functions@, statement_idx as int),
        },
{
    let mut lo: usize = 0;
    let mut hi: usize = functions.len();
    while lo < hi
        invariant
            lo <= hi <= functions.len(),
            sorted_by_entry_point(functions@) ==> {
                &&& forall|i: int| 0 <= i < lo ==> functions[i].entry_point <= statement_idx
                &&& forall|i: int|
                    hi <= i < functions.len() ==> functions[i].entry_point > statement_idx
            },
        decreases hi - lo,
    {
        let mid: usize = lo + (hi - lo) / 2;
        if functions[mid].entry_point <= statement_idx {
            lo = mid + 1;
        } else {
            hi = mid;
        }
    }
    if lo == 0 {
        None
    } else {
        Some(lo - 1)
    }
}

/// The text of a string that may be absent.
pub open spec fn text_of(text: Option<String>) -> Option<Seq<char>> {
    match text {
        Some(t) => Some(t@),
        None => None,
    }
}

/// Chooses the name under which a function is profiled from what the two removals gave:
/// from the name without the loop suffix and, where generics are not to be told apart, from
/// what the removal of the generic parameters made of it.
pub fn name_from_removals(
    without_loop_suffix: Option<String>,
    without_generics: Option<String>,
    split_generics: bool,
) -> (name: Option<String>)
    ensures
        match name {
            Some(text) => name_of_removals(
                text_of(without_loop_suffix),
                text_of(without_generics),
                split_generics,
            ) == Some(text@),
            None => name_of_removals(
                text_of(without_loop_suffix),
                text_of(without_generics),
                split_generics,
            ) is None,
        },
{
    match without_loop_suffix {
        Some(plain) => if split_generics {
            Some(plain)
        } else {
            without_generics
        },
        None => None,
    }
}

/// The name under which a function named `name` is profiled, and `None` where a pattern is
/// not taken.
pub fn normalize_function_name(name: &str, split_generics: bool) -> (normalized: Option<String>)
    ensures
        match normalized {
            Some(text) => normalized_name(name@, split_generics) == Some(text@),
            None => normalized_name(name@, split_generics) is None,
        },
{
    // Remove suffix in case of loop function e.g. `[expr36]`.
    let without_loop_suffix = remove_first_match("\\[expr\\d*\\]", name);
    // Remove parameters from monomorphised Cairo generics e.g. `<felt252>`.
    let without_generics = match &without_loop_suffix {
        Some(plain) => if split_generics {
            None
        } else {
            remove_first_match("<.*>", plain.as_str())
        },
        None => None,
    };
    name_from_removals(without_loop_suffix, without_generics, split_generics)
}

impl FunctionName {
    /// The name under which the function that holds the statement `statement_idx` is
    /// profiled, and `None` where no function starts at or before the statement or a pattern
    /// is not taken. The function is the one that holds the statement where the functions
    /// are sorted by their entry points.
    pub fn from_sierra_statement_idx(
        statement_idx: usize,
        functions: &Vec<SierraFunction>,
        split_generics: bool,
    ) -> (name: Option<Self>)
        ensures
            name matches Some(found) ==> exists|idx: int|
                0 <= idx < functions.len() && normalized_name(
                    (#[trigger] functions[idx]).name@,
                    split_generics,
                ) == Some(found.0@),
            sorted_by_entry_point(functions@) ==> match name {
                Some(found) => exists|idx: int|
                    holds_statement(functions@, statement_idx as int, idx) && normalized_name(
                        (#[trigger] functions[idx]).name@,
                        split_generics,
                    ) == Some(found.0@),
                None => !some_function_holds(functions@, statement_idx as int) || exists|idx: int|
                    holds_statement(functions@, statement_idx as int, idx) && normalized_name(
                        (#[trigger] functions[idx]).name@,
                        split_generics,
                    ) is None,
            },
    {
        let idx = match function_of_statement(functions, statement_idx) {
            Some(idx) => idx,
            None => {
                return None;
            },
        };
        match normalize_function_name(functions[idx].name.as_str(), split_generics) {
            Some(text) => Some(FunctionName(text)),
            None => None,
        }
    }
}

/// On a sorted list of functions at most one function holds a statement.
pub proof fn lemma_holds_statement_unique(
    functions: Seq<SierraFunction>,
    statement: int,
    i: int,
    j: int,
)
    requires
        sorted_by_entry_point(functions),
        holds_statement(functions, statement, i),
        holds_statement(functions, statement, j),
    ensures
        i == j,
{
}

impl Schema for FunctionName {
    type Model = Seq<char>;

    open spec fn model(&self) -> Seq<char> {
        self.0@
    }

    open spec fn decoded(value: Json) -> Option<Seq<char>> {
        String::decoded(value)
    }

    open spec fn encoded(model: Seq<char>) -> Json {
        String::encoded(model)
    }

    fn deserialize(value: &JsonValue) -> (read: Result<Self, Mismatch>) {
        match String::deserialize(value) {
            Ok(name) => Ok(FunctionName(name)),
            Err(mismatch) => Err(mismatch),
        }
    }

    fn serialize(&self) -> (value: JsonValue) {
        self.0.serialize()
    }

    proof fn lemma_encoded_decoded(value: Json) {
        String::lemma_encoded_decoded(value);
    }

    proof fn lemma_decoded_encoded(model: Seq<char>) {
    }
}

impl Schema for ProfilerAnnotationsV1 {
    /// The names of the functions of each statement, by the statement's index.
    type Model = Map<usize, Seq<Seq<char>>>;

    open spec fn model(&self) -> Self::Model {
        self.statements_functions.model()
    }

    open spec fn decoded(value: Json) -> Option<Self::Model> {
        if is_record(value, set!["statements_functions"@]) {
            HashMap::<usize, Vec<FunctionName>>::decoded(value.member("statements_functions"@))
        } else {
            None
        }
    }

    open spec fn encoded(model: Self::Model) -> Json {
        Json::Object(
            map!["statements_functions"@ => HashMap::<usize, Vec<FunctionName>>::encoded(model)],
        )
    }

    fn deserialize(value: &JsonValue) -> (read: Result<Self, Mismatch>) {
        let functions = match fields1(value, "statements_functions") {
            Ok(found) => found,
            Err(mismatch) => {
                return Err(mismatch);
            },
        };
        match HashMap::<usize, Vec<FunctionName>>::deserialize(functions) {
            Ok(statements_functions) => Ok(ProfilerAnnotationsV1 { statements_functions }),
            Err(mismatch) => Err(under_member(value, "statements_functions", mismatch)),
        }
    }

    fn serialize(&self) -> (value: JsonValue) {
        object1("statements_functions", self.statements_functions.serialize())
    }

    proof fn lemma_encoded_decoded(value: Json) {
        HashMap::<usize, Vec<FunctionName>>::lemma_encoded_decoded(
            value.member("statements_functions"@),
        );
        assert(Self::encoded(Self::decoded(value)->0)->Object_0 =~= value->Object_0);
    }

    proof fn lemma_decoded_encoded(model: Self::Model) {
        HashMap::<usize, Vec<FunctionName>>::lemma_decoded_encoded(model);
    }
}

impl VersionedProfilerAnnotations {
    /// The annotations in the shape of the latest version.
    pub fn latest(&self) -> (annotations: &ProfilerAnnotationsV1)
        ensures
            *self == VersionedProfilerAnnotations::V1(*annotations),
    {
        match self {
            VersionedProfilerAnnotations::V1(annotations) => annotations,
        }
    }
}

impl Schema for VersionedProfilerAnnotations {
    /// What the annotations hold, whatever the version that they were written in.
    type Model = Map<usize, Seq<Seq<char>>>;

    open spec fn model(&self) -> Self::Model {
        match self {
            VersionedProfilerAnnotations::V1(annotations) => annotations.model(),
        }
    }

    open spec fn decoded(value: Json) -> Option<Self::Model> {
        ProfilerAnnotationsV1::decoded(value)
    }

    open spec fn encoded(model: Self::Model) -> Json {
        ProfilerAnnotationsV1::encoded(model)
    }

    fn deserialize(value: &JsonValue) -> (read: Result<Self, Mismatch>) {
        match ProfilerAnnotationsV1::deserialize(value) {
            Ok(annotations) => Ok(VersionedProfilerAnnotations::V1(annotations)),
            Err(mismatch) => Err(mismatch),
        }
    }

    fn serialize(&self) -> (value: JsonValue) {
        match self {
            VersionedProfilerAnnotations::V1(annotations) => annotations.serialize(),
        }
    }

    proof fn lemma_encoded_decoded(value: Json) {
        ProfilerAnnotationsV1::lemma_encoded_decoded(value);
    }

    proof fn lemma_decoded_encoded(model: Self::Model) {
        ProfilerAnnotationsV1::lemma_decoded_encoded(model);
    }
}

impl Namespace for ProfilerAnnotationsV1 {
    open spec fn namespace() -> Seq<char> {
        "github.com/software-mansion/cairo-profiler"@
    }

    fn namespace_name() -> (name: &'static str) {
        "github.com/software-mansion/cairo-profiler"
    }
}

impl Namespace for VersionedProfilerAnnotations {
    open spec fn namespace() -> Seq<char> {
        "github.com/software-mansion/cairo-profiler"@
    }

    fn namespace_name() -> (name: &'static str) {
        "github.com/software-mansion/cairo-profiler"
    }
}

} // verus!
