//! The records under review.

use vstd::prelude::*;

verus! {

/// `serde_json::Value`, the type of an example's metadata.
///
/// Nothing is claimed of it: a value of this type is carried from the input
/// to the output and never looked into.
#[verifier::external_type_specification]
#[verifier::external_body]
pub struct ExMetadataValue(serde_json::Value);

/// One unit of text to review, as it was read.
#[derive(Debug)]
pub struct Example {
    /// A payload that belongs to the caller; kept as it came.
    pub metadata: Option<serde_json::Value>,
    /// A reference answer shown beside the text, where there is one.
    pub ground_truth: Option<String>,
    /// The text to review.
    pub text: String,
}

/// An example together with the label it was given, if any.
#[derive(Debug)]
pub struct LabelledExample {
    pub example: Example,
    /// `None` while the example has not been labelled.
    pub label: Option<String>,
}

/// What an entry is to the session: its example, which never changes, and
/// its label as a sequence of characters.
pub struct Entry {
    pub example: Example,
    pub label: Option<Seq<char>>,
}

impl View for LabelledExample {
    type V = Entry;

    open spec fn view(&self) -> Entry {
        Entry { example: self.example, label: self.label.deep_view() }
    }
}

impl DeepView for LabelledExample {
    type V = Entry;

    open spec fn deep_view(&self) -> Entry {
        self@
    }
}

/// Wraps each example as an entry without a label, in the order given.
pub fn unlabelled(examples: Vec<Example>) -> (entries: Vec<LabelledExample>)
    ensures
        entries@.len() == examples@.len(),
        forall|i: int|
            0 <= i < examples@.len() ==> #[trigger] entries@[i] == (LabelledExample {
                example: examples@[i],
                label: None,
            }),
        forall|i: int| 0 <= i < examples@.len() ==> (#[trigger] entries@[i]@).label is None,
{
    let ghost given = examples@;
    let mut entries: Vec<LabelledExample> = Vec::new();
    for example in iter: examples.into_iter()
        invariant
            iter.seq() == given,
            entries@.len() == iter.index(),
            forall|i: int|
                0 <= i < entries@.len() ==> #[trigger] entries@[i] == (LabelledExample {
                    example: given[i],
                    label: None,
                }),
    {
        entries.push(LabelledExample { example, label: None });
    }
    entries
}

} // verus!
