//! How a typed set of annotations is found in, and read from, the store of raw annotations
//! that the debug information of a program carries.
use crate::annotations::json::{Json, JsonValue};
use crate::annotations::schema::{steps, Mismatch, Schema};
use crate::ordered_map::OrderedMap;
use vstd::prelude::*;

verus! {

/// The raw annotations of a program: a structural value under each tool's namespace.
pub type AnnotationStore = OrderedMap<String, JsonValue>;

/// Enum representing the possible errors that can occur when trying to create an annotation
/// from the raw annotations of a program.
#[derive(Debug, Clone, PartialEq, Eq)]
pub enum AnnotationsError {
    /// Error indicating that the namespace is missing from the annotations.
    MissingNamespace(String),
    /// Error indicating that the value under the namespace has another shape than the
    /// annotations.
    DeserializationError(StructuralMismatch),
}

/// Why a structural value could not be read as annotations: it has not the shape of the
/// annotations of the namespace that it was found under.
#[derive(Debug, Clone, PartialEq, Eq)]
pub struct StructuralMismatch {
    /// The namespace whose annotations were asked for.
    pub namespace: String,
    /// Where in the value the shape fails, and which shape was expected there.
    pub mismatch: Mismatch,
}

impl AnnotationsError {
    /// The text that describes the error.
    pub open spec fn spec_message(&self) -> Seq<char> {
        match self {
            AnnotationsError::MissingNamespace(namespace) => "Missing namespace: "@ + namespace@,
            AnnotationsError::DeserializationError(cause) => "Deserialization error: "@
                + cause.spec_message(),
        }
    }

    /// The text that describes the error.
    pub fn message(&self) -> (text: String)
        ensures
            text@ == self.spec_message(),
    {
        match self {
            AnnotationsError::MissingNamespace(namespace) => String::from_str(
                "Missing namespace: ",
            ).concat(namespace.as_str()),
            AnnotationsError::DeserializationError(cause) => String::from_str(
                "Deserialization error: ",
            ).concat(cause.message().as_str()),
        }
    }
}

/// The text of a path: each step after a slash.
pub open spec fn path_text(path: Seq<Seq<char>>) -> Seq<char>
    decreases path.len(),
{
    if path.len() == 0 {
        Seq::empty()
    } else {
        path_text(path.drop_last()) + "/"@ + path.last()
    }
}

impl StructuralMismatch {
    /// The text that describes the mismatch.
    pub open spec fn spec_message(&self) -> Seq<char> {
        "the value has not the shape of the annotations of "@ + self.namespace@ + " at "@
            + path_text(steps(self.mismatch.path@))
    }

    /// The text that describes the mismatch: the namespace, and the path to the part of the
    /// value that has not the expected shape.
    pub fn message(&self) -> (text: String)
        ensures
            text@ == self.spec_message(),
    {
        let mut text = String::from_str("the value has not the shape of the annotations of ");
        text.append(self.namespace.as_str());
        text.append(" at ");
        let ghost front = text@;
        let path = &self.mismatch.path;
        let mut i: usize = 0;
        assert(steps(path@).take(0) =~= Seq::<Seq<char>>::empty());
        while i < path.len()
            invariant
                i <= path.len(),
                text@ == front + path_text(steps(path@).take(i as int)),
            decreases path.len() - i,
        {
            let ghost longer = steps(path@).take(i + 1);
            assert(longer.drop_last() =~= steps(path@).take(i as int));
            assert(longer.last() == path@[i as int]@);
            text.append("/");
            text.append(path[i].as_str());
            assert(text@ =~= front + path_text(longer));
            i += 1;
        }
        assert(steps(path@).take(path.len() as int) =~= steps(path@));
        text
    }
}

/// A type of annotations that live under a namespace of their own.
pub trait Namespace {
    /// The namespace, as the tools that write the annotations spell it.
    spec fn namespace() -> Seq<char>;

    fn namespace_name() -> (name: &'static str)
        ensures
            name@ == Self::namespace(),
    ;
}

/// What [`TryFromDebugInfo::try_from_debug_info`] returns for a store: the annotations that
/// the value under the namespace reads as; or the error that names the namespace where the
/// store has nothing under it; or the error that says where the value under the namespace
/// fails the shape of the annotations.
pub open spec fn reads_as<T: Schema + Namespace>(
    store: Map<Seq<char>, JsonValue>,
    read: Result<T, AnnotationsError>,
) -> bool {
    let namespace = T::namespace();
    if !store.contains_key(namespace) {
        read matches Err(AnnotationsError::MissingNamespace(name)) && name@ == namespace
    } else {
        match T::decoded(store[namespace]@) {
            Some(model) => read matches Ok(annotations) && annotations.model() == model,
            None => read matches Err(AnnotationsError::DeserializationError(cause))
                && cause.namespace@ == namespace && cause.mismatch.explains(store[namespace]@),
        }
    }
}

/// Creates a set of annotations from the raw annotations of a program.
pub trait TryFromDebugInfo: Schema + Namespace {
    /// Attempt to create an instance of the implementing type from the raw annotations.
    ///
    /// Fails with `MissingNamespace` where the store has nothing under the namespace of the
    /// annotations, and with `DeserializationError` where what it has there has another shape.
    /// The shape is read strictly (see [`Schema`]): a value with a member that the
    /// annotations do not name has another shape.
    fn try_from_debug_info(store: &AnnotationStore) -> (read: Result<Self, AnnotationsError>)
        ensures
            reads_as::<Self>(store@, read),
    ;
}

impl<T: Schema + Namespace> TryFromDebugInfo for T {
    fn try_from_debug_info(store: &AnnotationStore) -> (read: Result<Self, AnnotationsError>) {
        let namespace = String::from_str(Self::namespace_name());
        let value = match store.get(&namespace) {
            Some(value) => value,
            None => {
                return Err(AnnotationsError::MissingNamespace(namespace));
            },
        };
        match Self::deserialize(value) {
            Ok(annotations) => Ok(annotations),
            Err(mismatch) => Err(
                AnnotationsError::DeserializationError(StructuralMismatch { namespace, mismatch }),
            ),
        }
    }
}

/// Writing the annotations that were read from a store gives a structural value that means
/// the same as the value under their namespace in the store.
pub proof fn lemma_read_then_written<T: Schema + Namespace>(
    store: Map<Seq<char>, JsonValue>,
    read: Result<T, AnnotationsError>,
)
    requires
        reads_as::<T>(store, read),
        read is Ok,
    ensures
        store.contains_key(T::namespace()),
        T::encoded(read->Ok_0.model()) == store[T::namespace()]@,
{
    T::lemma_encoded_decoded(store[T::namespace()]@);
}

} // verus!
