//! The data model: gems and their optional classification.
use vstd::prelude::*;

verus! {

/// A small fixed-shape label attached to a gem. Classification is
/// all-or-nothing: when a gem carries one, every field is present.
pub struct ClassificationData {
    pub title: String,
    pub content_type: String,
    pub emoji: String,
    pub sensitivity: String,
}

/// The mathematical value of a classification: each field as a character
/// sequence.
pub struct ClassificationView {
    pub title: Seq<char>,
    pub content_type: Seq<char>,
    pub emoji: Seq<char>,
    pub sensitivity: Seq<char>,
}

impl View for ClassificationData {
    type V = ClassificationView;

    open spec fn view(&self) -> ClassificationView {
        ClassificationView {
            title: self.title@,
            content_type: self.content_type@,
            emoji: self.emoji@,
            sensitivity: self.sensitivity@,
        }
    }
}

impl Clone for ClassificationData {
    fn clone(&self) -> (r: Self)
        ensures
            r == *self,
    {
        ClassificationData {
            title: self.title.clone(),
            content_type: self.content_type.clone(),
            emoji: self.emoji.clone(),
            sensitivity: self.sensitivity.clone(),
        }
    }
}

/// The unit of stored knowledge. The identifier under which a gem is stored
/// lives in the store's mapping, not in the gem itself.
pub struct DataGem {
    /// Optional classification, set atomically together with `description`
    /// and `json_data` by the classification workflow.
    pub classification: Option<ClassificationData>,
    /// Human-readable free text.
    pub description: String,
    /// Arbitrary structured payload, opaque to the core.
    pub json_data: String,
    /// Identifiers of the gems this gem was synthesized from; empty for
    /// user-authored gems. A historical record: entries may dangle after the
    /// source gem is deleted.
    pub derived_from: Vec<String>,
}

/// The mathematical value of a gem.
pub struct GemView {
    pub classification: Option<ClassificationView>,
    pub description: Seq<char>,
    pub json_data: Seq<char>,
    pub derived_from: Seq<Seq<char>>,
}

impl View for DataGem {
    type V = GemView;

    open spec fn view(&self) -> GemView {
        GemView {
            classification: match self.classification {
                Some(c) => Some(c@),
                None => None,
            },
            description: self.description@,
            json_data: self.json_data@,
            derived_from: self.derived_from.deep_view(),
        }
    }
}

/// Clones a list of identifiers, keeping each element's value.
pub fn clone_ids(ids: &Vec<String>) -> (r: Vec<String>)
    ensures
        r@ == ids@,
{
    let mut out: Vec<String> = Vec::new();
    let mut i: usize = 0;
    while i < ids.len()
        invariant
            i <= ids.len(),
            out@ == ids@.take(i as int),
        decreases ids.len() - i,
    {
        out.push(ids[i].clone());
        proof {
            assert(out@ =~= ids@.take(i + 1 as int));
        }
        i = i + 1;
    }
    proof {
        assert(ids@.take(ids@.len() as int) =~= ids@);
    }
    out
}

impl DeepView for DataGem {
    type V = GemView;

    open spec fn deep_view(&self) -> GemView {
        self@
    }
}

impl Clone for DataGem {
    fn clone(&self) -> (r: Self)
        ensures
            r@ == self@,
            r.description == self.description,
            r.json_data == self.json_data,
            r.classification == self.classification,
    {
        DataGem {
            classification: match &self.classification {
                Some(c) => Some(c.clone()),
                None => None,
            },
            description: self.description.clone(),
            json_data: self.json_data.clone(),
            derived_from: clone_ids(&self.derived_from),
        }
    }
}

} // verus!
