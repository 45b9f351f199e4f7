//! The coverage annotations: which places in the source each Sierra statement came from.
use crate::annotations::json::{Json, JsonValue};
use crate::annotations::schema::{
    array2, fields1, fields2, is_record, items2, object1, object2, under_item, under_member,
    Mismatch, Schema,
};
use crate::annotations::traits::Namespace;
use std::collections::HashMap;
use vstd::prelude::*;

verus! {

/// Versioned representation of the coverage annotations.
///
/// Always prefer using this enum when reading or writing instead of inner ones.
#[derive(Clone, Debug, PartialEq, Eq)]
pub enum VersionedCoverageAnnotations {
    V1(CoverageAnnotationsV1),
}

/// The mapping from the index of a Sierra statement to the places in the source that the
/// statement came from.
#[derive(Clone, Debug, PartialEq, Eq)]
pub struct CoverageAnnotationsV1 {
    pub statements_code_locations: HashMap<usize, Vec<CodeLocation>>,
}

/// A file and a span of code in it.
#[derive(Clone, Debug, PartialEq, Eq, Hash)]
pub struct CodeLocation(pub SourceFileFullPath, pub SourceCodeSpan);

#[derive(Clone, Debug, PartialEq, Eq, Hash)]
pub struct SourceFileFullPath(pub String);

#[derive(Clone, Copy, Debug, PartialEq, Eq, Hash)]
pub struct SourceCodeSpan {
    pub start: SourceCodeLocation,
    pub end: SourceCodeLocation,
}

#[derive(Clone, Copy, Debug, PartialEq, Eq, Hash)]
pub struct SourceCodeLocation {
    pub line: LineNumber,
    pub col: ColumnNumber,
}

#[derive(Clone, Copy, Debug, PartialEq, Eq, Hash, PartialOrd, Ord)]
pub struct ColumnNumber(pub usize);

#[derive(Clone, Copy, Debug, PartialEq, Eq, Hash, PartialOrd, Ord)]
pub struct LineNumber(pub usize);

impl Schema for ColumnNumber {
    type Model = ColumnNumber;

    open spec fn model(&self) -> ColumnNumber {
        *self
    }

    open spec fn decoded(value: Json) -> Option<ColumnNumber> {
        match usize::decoded(value) {
            Some(n) => Some(ColumnNumber(n)),
            None => None,
        }
    }

    open spec fn encoded(model: ColumnNumber) -> Json {
        usize::encoded(model.0)
    }

    fn deserialize(value: &JsonValue) -> (read: Result<Self, Mismatch>) {
        match usize::deserialize(value) {
            Ok(n) => Ok(ColumnNumber(n)),
            Err(mismatch) => Err(mismatch),
        }
    }

    fn serialize(&self) -> (value: JsonValue) {
        self.0.serialize()
    }

    proof fn lemma_encoded_decoded(value: Json) {
        usize::lemma_encoded_decoded(value);
    }

    proof fn lemma_decoded_encoded(model: ColumnNumber) {
        usize::lemma_decoded_encoded(model.0);
    }
}

impl Schema for LineNumber {
    type Model = LineNumber;

    open spec fn model(&self) -> LineNumber {
        *self
    }

    open spec fn decoded(value: Json) -> Option<LineNumber> {
        match usize::decoded(value) {
            Some(n) => Some(LineNumber(n)),
            None => None,
        }
    }

    open spec fn encoded(model: LineNumber) -> Json {
        usize::encoded(model.0)
    }

    fn deserialize(value: &JsonValue) -> (read: Result<Self, Mismatch>) {
        match usize::deserialize(value) {
            Ok(n) => Ok(LineNumber(n)),
            Err(mismatch) => Err(mismatch),
        }
    }

    fn serialize(&self) -> (value: JsonValue) {
        self.0.serialize()
    }

    proof fn lemma_encoded_decoded(value: Json) {
        usize::lemma_encoded_decoded(value);
    }

    proof fn lemma_decoded_encoded(model: LineNumber) {
        usize::lemma_decoded_encoded(model.0);
    }
}

/// The names of the two members of a location are different names.
proof fn lemma_location_names()
    ensures
        "line"@ != "col"@,
{
    reveal_strlit("line");
    reveal_strlit("col");
    assert("line"@.len() != "col"@.len());
}

/// The names of the two members of a span are different names.
proof fn lemma_span_names()
    ensures
        "start"@ != "end"@,
{
    reveal_strlit("start");
    reveal_strlit("end");
    assert("start"@.len() != "end"@.len());
}

impl Schema for SourceCodeLocation {
    type Model = SourceCodeLocation;

    open spec fn model(&self) -> SourceCodeLocation {
        *self
    }

    open spec fn decoded(value: Json) -> Option<SourceCodeLocation> {
        if is_record(value, set!["line"@, "col"@]) {
            match (LineNumber::decoded(value.member("line"@)), ColumnNumber::decoded(
                value.member("col"@),
            )) {
                (Some(line), Some(col)) => Some(SourceCodeLocation { line, col }),
                _ => None,
            }
        } else {
            None
        }
    }

    open spec fn encoded(model: SourceCodeLocation) -> Json {
        Json::Object(
            map!["line"@ => LineNumber::encoded(model.line), "col"@ => ColumnNumber::encoded(model.col)],
        )
    }

    fn deserialize(value: &JsonValue) -> (read: Result<Self, Mismatch>) {
        proof {
            lemma_location_names();
        }
        let (line, col) = match fields2(value, "line", "col") {
            Ok(found) => found,
            Err(mismatch) => {
                return Err(mismatch);
            },
        };
        let line = match LineNumber::deserialize(line) {
            Ok(line) => line,
            Err(mismatch) => {
                return Err(under_member(value, "line", mismatch));
            },
        };
        match ColumnNumber::deserialize(col) {
            Ok(col) => Ok(SourceCodeLocation { line, col }),
            Err(mismatch) => Err(under_member(value, "col", mismatch)),
        }
    }

    fn serialize(&self) -> (value: JsonValue) {
        proof {
            lemma_location_names();
        }
        object2("line", self.line.serialize(), "col", self.col.serialize())
    }

    proof fn lemma_encoded_decoded(value: Json) {
        lemma_location_names();
        LineNumber::lemma_encoded_decoded(value.member("line"@));
        ColumnNumber::lemma_encoded_decoded(value.member("col"@));
        assert(Self::encoded(Self::decoded(value)->0)->Object_0 =~= value->Object_0);
    }

    proof fn lemma_decoded_encoded(model: SourceCodeLocation) {
        lemma_location_names();
        LineNumber::lemma_decoded_encoded(model.line);
        ColumnNumber::lemma_decoded_encoded(model.col);
    }
}

impl Schema for SourceCodeSpan {
    type Model = SourceCodeSpan;

    open spec fn model(&self) -> SourceCodeSpan {
        *self
    }

    open spec fn decoded(value: Json) -> Option<SourceCodeSpan> {
        if is_record(value, set!["start"@, "end"@]) {
            match (SourceCodeLocation::decoded(value.member("start"@)), SourceCodeLocation::decoded(
                value.member("end"@),
            )) {
                (Some(start), Some(end)) => Some(SourceCodeSpan { start, end }),
                _ => None,
            }
        } else {
            None
        }
    }

    open spec fn encoded(model: SourceCodeSpan) -> Json {
        Json::Object(
            map!["start"@ => SourceCodeLocation::encoded(model.start), "end"@ => SourceCodeLocation::encoded(model.end)],
        )
    }

    fn deserialize(value: &JsonValue) -> (read: Result<Self, Mismatch>) {
        proof {
            lemma_span_names();
        }
        let (start, end) = match fields2(value, "start", "end") {
            Ok(found) => found,
            Err(mismatch) => {
                return Err(mismatch);
            },
        };
        let start = match SourceCodeLocation::deserialize(start) {
            Ok(start) => start,
            Err(mismatch) => {
                return Err(under_member(value, "start", mismatch));
            },
        };
        match SourceCodeLocation::deserialize(end) {
            Ok(end) => Ok(SourceCodeSpan { start, end }),
            Err(mismatch) => Err(under_member(value, "end", mismatch)),
        }
    }

    fn serialize(&self) -> (value: JsonValue) {
        proof {
            lemma_span_names();
        }
        object2("start", self.start.serialize(), "end", self.end.serialize())
    }

    proof fn lemma_encoded_decoded(value: Json) {
        lemma_span_names();
        SourceCodeLocation::lemma_encoded_decoded(value.member("start"@));
        SourceCodeLocation::lemma_encoded_decoded(value.member("end"@));
        assert(Self::encoded(Self::decoded(value)->0)->Object_0 =~= value->Object_0);
    }

    proof fn lemma_decoded_encoded(model: SourceCodeSpan) {
        lemma_span_names();
        SourceCodeLocation::lemma_decoded_encoded(model.start);
        SourceCodeLocation::lemma_decoded_encoded(model.end);
    }
}

impl Schema for SourceFileFullPath {
    type Model = Seq<char>;

    open spec fn model(&self) -> Seq<char> {
        self.0@
    }

    open spec fn decoded(value: Json) -> Option<Seq<char>> {
        String::decoded(value)
    }

    open spec fn encoded(model: Seq<char>) -> Json {
        String::encoded(model)
    }

    fn deserialize(value: &JsonValue) -> (read: Result<Self, Mismatch>) {
        match String::deserialize(value) {
            Ok(path) => Ok(SourceFileFullPath(path)),
            Err(mismatch) => Err(mismatch),
        }
    }

    fn serialize(&self) -> (value: JsonValue) {
        self.0.serialize()
    }

    proof fn lemma_encoded_decoded(value: Json) {
        String::lemma_encoded_decoded(value);
    }

    proof fn lemma_decoded_encoded(model: Seq<char>) {
    }
}

impl Schema for CodeLocation {
    /// The path of the file, and the span in it.
    type Model = (Seq<char>, SourceCodeSpan);

    open spec fn model(&self) -> (Seq<char>, SourceCodeSpan) {
        (self.0.model(), self.1)
    }

    open spec fn decoded(value: Json) -> Option<(Seq<char>, SourceCodeSpan)> {
        match value {
            Json::Array(items) => if items.len() == 2 {
                match (SourceFileFullPath::decoded(items[0]), SourceCodeSpan::decoded(items[1])) {
                    (Some(path), Some(span)) => Some((path, span)),
                    _ => None,
                }
            } else {
                None
            },
            _ => None,
        }
    }

    open spec fn encoded(model: (Seq<char>, SourceCodeSpan)) -> Json {
        Json::Array(seq![SourceFileFullPath::encoded(model.0), SourceCodeSpan::encoded(model.1)])
    }

    fn deserialize(value: &JsonValue) -> (read: Result<Self, Mismatch>) {
        let (path, span) = match items2(value) {
            Ok(found) => found,
            Err(mismatch) => {
                return Err(mismatch);
            },
        };
        let path = match SourceFileFullPath::deserialize(path) {
            Ok(path) => path,
            Err(mismatch) => {
                return Err(under_item(value, 0, mismatch));
            },
        };
        match SourceCodeSpan::deserialize(span) {
            Ok(span) => Ok(CodeLocation(path, span)),
            Err(mismatch) => Err(under_item(value, 1, mismatch)),
        }
    }

    fn serialize(&self) -> (value: JsonValue) {
        array2(self.0.serialize(), self.1.serialize())
    }

    proof fn lemma_encoded_decoded(value: Json) {
        let items = value->Array_0;
        SourceFileFullPath::lemma_encoded_decoded(items[0]);
        SourceCodeSpan::lemma_encoded_decoded(items[1]);
        assert(Self::encoded(Self::decoded(value)->0)->Array_0 =~= items);
    }

    proof fn lemma_decoded_encoded(model: (Seq<char>, SourceCodeSpan)) {
        SourceFileFullPath::lemma_decoded_encoded(model.0);
        SourceCodeSpan::lemma_decoded_encoded(model.1);
    }
}

impl Schema for CoverageAnnotationsV1 {
    /// The places in the source of each statement, by the statement's index.
    type Model = Map<usize, Seq<(Seq<char>, SourceCodeSpan)>>;

    open spec fn model(&self) -> Self::Model {
        self.statements_code_locations.model()
    }

    open spec fn decoded(value: Json) -> Option<Self::Model> {
        if is_record(value, set!["statements_code_locations"@]) {
            HashMap::<usize, Vec<CodeLocation>>::decoded(value.member("statements_code_locations"@))
        } else {
            None
        }
    }

    open spec fn encoded(model: Self::Model) -> Json {
        Json::Object(
            map!["statements_code_locations"@ => HashMap::<usize, Vec<CodeLocation>>::encoded(model)],
        )
    }

    fn deserialize(value: &JsonValue) -> (read: Result<Self, Mismatch>) {
        let locations = match fields1(value, "statements_code_locations") {
            Ok(found) => found,
            Err(mismatch) => {
                return Err(mismatch);
            },
        };
        match HashMap::<usize, Vec<CodeLocation>>::deserialize(locations) {
            Ok(statements_code_locations) => Ok(
                CoverageAnnotationsV1 { statements_code_locations },
            ),
            Err(mismatch) => Err(under_member(value, "statements_code_locations", mismatch)),
        }
    }

    fn serialize(&self) -> (value: JsonValue) {
        object1("statements_code_locations", self.statements_code_locations.serialize())
    }

    proof fn lemma_encoded_decoded(value: Json) {
        HashMap::<usize, Vec<CodeLocation>>::lemma_encoded_decoded(
            value.member("statements_code_locations"@),
        );
        assert(Self::encoded(Self::decoded(value)->0)->Object_0 =~= value->Object_0);
    }

    proof fn lemma_decoded_encoded(model: Self::Model) {
        HashMap::<usize, Vec<CodeLocation>>::lemma_decoded_encoded(model);
    }
}

impl VersionedCoverageAnnotations {
    /// The annotations in the shape of the latest version.
    pub fn latest(&self) -> (annotations: &CoverageAnnotationsV1)
        ensures
            *self == VersionedCoverageAnnotations::V1(*annotations),
    {
        match self {
            VersionedCoverageAnnotations::V1(annotations) => annotations,
        }
    }
}

impl Schema for VersionedCoverageAnnotations {
    /// What the annotations hold, whatever the version that they were written in.
    type Model = Map<usize, Seq<(Seq<char>, SourceCodeSpan)>>;

    open spec fn model(&self) -> Self::Model {
        match self {
            VersionedCoverageAnnotations::V1(annotations) => annotations.model(),
        }
    }

    open spec fn decoded(value: Json) -> Option<Self::Model> {
        CoverageAnnotationsV1::decoded(value)
    }

    open spec fn encoded(model: Self::Model) -> Json {
        CoverageAnnotationsV1::encoded(model)
    }

    fn deserialize(value: &JsonValue) -> (read: Result<Self, Mismatch>) {
        match CoverageAnnotationsV1::deserialize(value) {
            Ok(annotations) => Ok(VersionedCoverageAnnotations::V1(annotations)),
            Err(mismatch) => Err(mismatch),
        }
    }

    fn serialize(&self) -> (value: JsonValue) {
        match self {
            VersionedCoverageAnnotations::V1(annotations) => annotations.serialize(),
        }
    }

    proof fn lemma_encoded_decoded(value: Json) {
        CoverageAnnotationsV1::lemma_encoded_decoded(value);
    }

    proof fn lemma_decoded_encoded(model: Self::Model) {
        CoverageAnnotationsV1::lemma_decoded_encoded(model);
    }
}

impl Namespace for CoverageAnnotationsV1 {
    open spec fn namespace() -> Seq<char> {
        "github.com/software-mansion/cairo-coverage"@
    }

    fn namespace_name() -> (name: &'static str) {
        "github.com/software-mansion/cairo-coverage"
    }
}

impl Namespace for VersionedCoverageAnnotations {
    open spec fn namespace() -> Seq<char> {
        "github.com/software-mansion/cairo-coverage"@
    }

    fn namespace_name() -> (name: &'static str) {
        "github.com/software-mansion/cairo-coverage"
    }
}

} // verus!
