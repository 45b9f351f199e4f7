//! The debugger annotations: where each Sierra function and each of its variables came
//! from in the source.
use crate::annotations::coverage::{SourceCodeSpan, SourceFileFullPath};
use crate::annotations::json::{Json, JsonValue};
use crate::annotations::schema::{
    array2, fields1, fields3, is_record, items2, object1, object3, under_item, under_member,
    Mismatch, Schema,
};
use crate::annotations::traits::Namespace;
use std::collections::HashMap;
use vstd::prelude::*;

verus! {

/// Versioned representation of Debugger Annotations.
///
/// Always prefer using this enum when reading or writing instead of inner ones.
#[derive(Clone, Debug, PartialEq, Eq)]
pub enum VersionedDebuggerAnnotations {
    V1(DebuggerAnnotationsV1),
}

/// The mapping from the id of a Sierra function to the debug info of the function.
#[derive(Clone, Debug, PartialEq, Eq)]
pub struct DebuggerAnnotationsV1 {
    /// The debug info of each function, by the number of its [`SierraFunctionId`].
    pub functions_info: HashMap<u64, FunctionDebugInfo>,
}

/// The debug info of a sierra function.
#[derive(Clone, Debug, PartialEq, Eq)]
pub struct FunctionDebugInfo {
    /// Path to the user file the function comes from.
    pub function_file_path: SourceFileFullPath,
    /// Span of the function in the user file it comes from.
    pub function_code_span: SourceCodeSpan,
    /// Mapping from a sierra variable, by the number of its [`SierraVarId`], to a cairo
    /// variable (its name and definition span). The sierra variable value corresponds to
    /// the cairo variable value at some point during execution of the function code.
    pub sierra_to_cairo_variable: HashMap<u64, (String, SourceCodeSpan)>,
}

/// An id of a sierra function.
#[derive(Clone, Debug, PartialEq, Eq, Hash)]
pub struct SierraFunctionId(pub u64);

/// An id of a sierra variable.
#[derive(Clone, Debug, PartialEq, Eq, Hash)]
pub struct SierraVarId(pub u64);

/// What a [`FunctionDebugInfo`] holds.
pub struct FunctionDebugModel {
    pub path: Seq<char>,
    pub span: SourceCodeSpan,
    pub variables: Map<u64, (Seq<char>, SourceCodeSpan)>,
}

impl Schema for (String, SourceCodeSpan) {
    type Model = (Seq<char>, SourceCodeSpan);

    open spec fn model(&self) -> (Seq<char>, SourceCodeSpan) {
        (self.0@, self.1)
    }

    open spec fn decoded(value: Json) -> Option<(Seq<char>, SourceCodeSpan)> {
        match value {
            Json::Array(items) => if items.len() == 2 {
                match (String::decoded(items[0]), SourceCodeSpan::decoded(items[1])) {
                    (Some(name), Some(span)) => Some((name, span)),
                    _ => None,
                }
            } else {
                None
            },
            _ => None,
        }
    }

    open spec fn encoded(model: (Seq<char>, SourceCodeSpan)) -> Json {
        Json::Array(seq![String::encoded(model.0), SourceCodeSpan::encoded(model.1)])
    }

    fn deserialize(value: &JsonValue) -> (read: Result<Self, Mismatch>) {
        let (name, span) = match items2(value) {
            Ok(found) => found,
            Err(mismatch) => {
                return Err(mismatch);
            },
        };
        let name = match String::deserialize(name) {
            Ok(name) => name,
            Err(mismatch) => {
                return Err(under_item(value, 0, mismatch));
            },
        };
        match SourceCodeSpan::deserialize(span) {
            Ok(span) => Ok((name, span)),
            Err(mismatch) => Err(under_item(value, 1, mismatch)),
        }
    }

    fn serialize(&self) -> (value: JsonValue) {
        array2(self.0.serialize(), self.1.serialize())
    }

    proof fn lemma_encoded_decoded(value: Json) {
        let items = value->Array_0;
        String::lemma_encoded_decoded(items[0]);
        SourceCodeSpan::lemma_encoded_decoded(items[1]);
        assert(Self::encoded(Self::decoded(value)->0)->Array_0 =~= items);
    }

    proof fn lemma_decoded_encoded(model: (Seq<char>, SourceCodeSpan)) {
        String::lemma_decoded_encoded(model.0);
        SourceCodeSpan::lemma_decoded_encoded(model.1);
    }
}

/// The names of the three members of the debug info of a function are different names.
proof fn lemma_function_names()
    ensures
        "function_file_path"@ != "function_code_span"@,
        "function_file_path"@ != "sierra_to_cairo_variable"@,
        "function_code_span"@ != "sierra_to_cairo_variable"@,
{
    reveal_strlit("function_file_path");
    reveal_strlit("function_code_span");
    reveal_strlit("sierra_to_cairo_variable");
    assert("function_file_path"@[9] != "function_code_span"@[9]);
}

impl Schema for FunctionDebugInfo {
    type Model = FunctionDebugModel;

    open spec fn model(&self) -> FunctionDebugModel {
        FunctionDebugModel {
            path: self.function_file_path.model(),
            span: self.function_code_span,
            variables: self.sierra_to_cairo_variable.model(),
        }
    }

    open spec fn decoded(value: Json) -> Option<FunctionDebugModel> {
        if is_record(
            value,
            set!["function_file_path"@, "function_code_span"@, "sierra_to_cairo_variable"@],
        ) {
            match (
                SourceFileFullPath::decoded(value.member("function_file_path"@)),
                SourceCodeSpan::decoded(value.member("function_code_span"@)),
                HashMap::<u64, (String, SourceCodeSpan)>::decoded(
                    value.member("sierra_to_cairo_variable"@),
                ),
            ) {
                (Some(path), Some(span), Some(variables)) => Some(
                    FunctionDebugModel { path, span, variables },
                ),
                _ => None,
            }
        } else {
            None
        }
    }

    open spec fn encoded(model: FunctionDebugModel) -> Json {
        Json::Object(
            map![
                "function_file_path"@ => SourceFileFullPath::encoded(model.path),
                "function_code_span"@ => SourceCodeSpan::encoded(model.span),
                "sierra_to_cairo_variable"@ => HashMap::<u64, (String, SourceCodeSpan)>::encoded(model.variables)
            ],
        )
    }

    fn deserialize(value: &JsonValue) -> (read: Result<Self, Mismatch>) {
        proof {
            lemma_function_names();
        }
        let (path, span, variables) = match fields3(
            value,
            "function_file_path",
            "function_code_span",
            "sierra_to_cairo_variable",
        ) {
            Ok(found) => found,
            Err(mismatch) => {
                return Err(mismatch);
            },
        };
        let function_file_path = match SourceFileFullPath::deserialize(path) {
            Ok(path) => path,
            Err(mismatch) => {
                return Err(under_member(value, "function_file_path", mismatch));
            },
        };
        let function_code_span = match SourceCodeSpan::deserialize(span) {
            Ok(span) => span,
            Err(mismatch) => {
                return Err(under_member(value, "function_code_span", mismatch));
            },
        };
        match HashMap::<u64, (String, SourceCodeSpan)>::deserialize(variables) {
            Ok(sierra_to_cairo_variable) => Ok(
                FunctionDebugInfo {
                    function_file_path,
                    function_code_span,
                    sierra_to_cairo_variable,
                },
            ),
            Err(mismatch) => Err(under_member(value, "sierra_to_cairo_variable", mismatch)),
        }
    }

    fn serialize(&self) -> (value: JsonValue) {
        proof {
            lemma_function_names();
        }
        object3(
            "function_file_path",
            self.function_file_path.serialize(),
            "function_code_span",
            self.function_code_span.serialize(),
            "sierra_to_cairo_variable",
            self.sierra_to_cairo_variable.serialize(),
        )
    }

    proof fn lemma_encoded_decoded(value: Json) {
        lemma_function_names();
        SourceFileFullPath::lemma_encoded_decoded(value.member("function_file_path"@));
        SourceCodeSpan::lemma_encoded_decoded(value.member("function_code_span"@));
        HashMap::<u64, (String, SourceCodeSpan)>::lemma_encoded_decoded(
            value.member("sierra_to_cairo_variable"@),
        );
        assert(Self::encoded(Self::decoded(value)->0)->Object_0 =~= value->Object_0);
    }

    proof fn lemma_decoded_encoded(model: FunctionDebugModel) {
        lemma_function_names();
        SourceFileFullPath::lemma_decoded_encoded(model.path);
        SourceCodeSpan::lemma_decoded_encoded(model.span);
        HashMap::<u64, (String, SourceCodeSpan)>::lemma_decoded_encoded(model.variables);
    }
}

impl FunctionDebugInfo {
    /// The name and the definition span of the cairo variable that the sierra variable `id`
    /// stands for, if the function has one for it.
    pub fn variable(&self, id: &SierraVarId) -> (found: Option<&(String, SourceCodeSpan)>)
        ensures
            match found {
                Some(variable) => self.sierra_to_cairo_variable@.contains_key(id.0)
                    && *variable == self.sierra_to_cairo_variable@[id.0],
                None => !self.sierra_to_cairo_variable@.contains_key(id.0),
            },
    {
        broadcast use vstd::std_specs::hash::group_hash_axioms;

        self.sierra_to_cairo_variable.get(&id.0)
    }
}

impl Schema for DebuggerAnnotationsV1 {
    /// The debug info of each function, by the number of the function's id.
    type Model = Map<u64, FunctionDebugModel>;

    open spec fn model(&self) -> Self::Model {
        self.functions_info.model()
    }

    open spec fn decoded(value: Json) -> Option<Self::Model> {
        if is_record(value, set!["functions_info"@]) {
            HashMap::<u64, FunctionDebugInfo>::decoded(value.member("functions_info"@))
        } else {
            None
        }
    }

    open spec fn encoded(model: Self::Model) -> Json {
        Json::Object(map!["functions_info"@ => HashMap::<u64, FunctionDebugInfo>::encoded(model)])
    }

    fn deserialize(value: &JsonValue) -> (read: Result<Self, Mismatch>) {
        let functions = match fields1(value, "functions_info") {
            Ok(found) => found,
            Err(mismatch) => {
                return Err(mismatch);
            },
        };
        match HashMap::<u64, FunctionDebugInfo>::deserialize(functions) {
            Ok(functions_info) => Ok(DebuggerAnnotationsV1 { functions_info }),
            Err(mismatch) => Err(under_member(value, "functions_info", mismatch)),
        }
    }

    fn serialize(&self) -> (value: JsonValue) {
        object1("functions_info", self.functions_info.serialize())
    }

    proof fn lemma_encoded_decoded(value: Json) {
        HashMap::<u64, FunctionDebugInfo>::lemma_encoded_decoded(value.member("functions_info"@));
        assert(Self::encoded(Self::decoded(value)->0)->Object_0 =~= value->Object_0);
    }

    proof fn lemma_decoded_encoded(model: Self::Model) {
        HashMap::<u64, FunctionDebugInfo>::lemma_decoded_encoded(model);
    }
}

impl DebuggerAnnotationsV1 {
    /// The debug info of the function `id`, if the annotations have it.
    pub fn function(&self, id: &SierraFunctionId) -> (found: Option<&FunctionDebugInfo>)
        ensures
            match found {
                Some(info) => self.functions_info@.contains_key(id.0) && *info
                    == self.functions_info@[id.0],
                None => !self.functions_info@.contains_key(id.0),
            },
    {
        broadcast use vstd::std_specs::hash::group_hash_axioms;

        self.functions_info.get(&id.0)
    }
}

impl VersionedDebuggerAnnotations {
    /// The annotations in the shape of the latest version.
    pub fn latest(&self) -> (annotations: &DebuggerAnnotationsV1)
        ensures
            *self == VersionedDebuggerAnnotations::V1(*annotations),
    {
        match self {
            VersionedDebuggerAnnotations::V1(annotations) => annotations,
        }
    }
}

impl Schema for VersionedDebuggerAnnotations {
    /// What the annotations hold, whatever the version that they were written in.
    type Model = Map<u64, FunctionDebugModel>;

    open spec fn model(&self) -> Self::Model {
        match self {
            VersionedDebuggerAnnotations::V1(annotations) => annotations.model(),
        }
    }

    open spec fn decoded(value: Json) -> Option<Self::Model> {
        DebuggerAnnotationsV1::decoded(value)
    }

    open spec fn encoded(model: Self::Model) -> Json {
        DebuggerAnnotationsV1::encoded(model)
    }

    fn deserialize(value: &JsonValue) -> (read: Result<Self, Mismatch>) {
        match DebuggerAnnotationsV1::deserialize(value) {
            Ok(annotations) => Ok(VersionedDebuggerAnnotations::V1(annotations)),
            Err(mismatch) => Err(mismatch),
        }
    }

    fn serialize(&self) -> (value: JsonValue) {
        match self {
            VersionedDebuggerAnnotations::V1(annotations) => annotations.serialize(),
        }
    }

    proof fn lemma_encoded_decoded(value: Json) {
        DebuggerAnnotationsV1::lemma_encoded_decoded(value);
    }

    proof fn lemma_decoded_encoded(model: Self::Model) {
        DebuggerAnnotationsV1::lemma_decoded_encoded(model);
    }
}

impl Namespace for DebuggerAnnotationsV1 {
    open spec fn namespace() -> Seq<char> {
        "github.com/software-mansion-labs/cairo-debugger"@
    }

    fn namespace_name() -> (name: &'static str) {
        "github.com/software-mansion-labs/cairo-debugger"
    }
}

impl Namespace for VersionedDebuggerAnnotations {
    open spec fn namespace() -> Seq<char> {
        "github.com/software-mansion-labs/cairo-debugger"@
    }

    fn namespace_name() -> (name: &'static str) {
        "github.com/software-mansion-labs/cairo-debugger"
    }
}

} // verus!
