use crate::range::SourceRange;
use vstd::prelude::*;

verus! {

/// The stable name of an assist.
#[derive(Clone, Copy, Debug, PartialEq, Eq)]
pub struct AssistId(pub &'static str);

/// A text to put into the source at an offset.
#[derive(Debug)]
pub struct Insertion {
    pub offset: u32,
    pub text: String,
}

impl View for Insertion {
    type V = (u32, Seq<char>);

    open spec fn view(&self) -> (u32, Seq<char>) {
        (self.offset, self.text@)
    }
}

/// Insertions in the order in which they were recorded. Every offset is one
/// into the text as it was before any of them.
#[derive(Debug)]
pub struct TextEdit {
    pub insertions: Vec<Insertion>,
}

impl View for TextEdit {
    type V = Seq<(u32, Seq<char>)>;

    open spec fn view(&self) -> Seq<(u32, Seq<char>)> {
        self.insertions@.map_values(|insertion: Insertion| insertion@)
    }
}

/// An offered change to the source: its name, the label and the span to
/// show for it, and the edit that makes it.
#[derive(Debug)]
pub struct Assist {
    pub id: AssistId,
    pub label: String,
    pub target: SourceRange,
    pub edit: TextEdit,
}

/// What an assist is made of, as plain values.
pub struct AssistView {
    pub id: Seq<char>,
    pub label: Seq<char>,
    pub target: SourceRange,
    pub edit: Seq<(u32, Seq<char>)>,
}

impl View for Assist {
    type V = AssistView;

    open spec fn view(&self) -> AssistView {
        AssistView { id: self.id.0@, label: self.label@, target: self.target, edit: self.edit@ }
    }
}

/// Collects the target and the insertions of one assist.
pub struct AssistBuilder {
    target: Option<SourceRange>,
    insertions: Vec<Insertion>,
}

impl AssistBuilder {
    /// The target recorded so far.
    pub closed spec fn recorded_target(&self) -> Option<SourceRange> {
        self.target
    }

    /// The insertions recorded so far, oldest first.
    pub closed spec fn recorded_edit(&self) -> Seq<(u32, Seq<char>)> {
        self.insertions@.map_values(|insertion: Insertion| insertion@)
    }

    /// A builder with nothing recorded.
    pub fn empty() -> (builder: AssistBuilder)
        ensures
            builder.recorded_target() is None,
            builder.recorded_edit() == Seq::<(u32, Seq<char>)>::empty(),
    {
        let builder = AssistBuilder { target: None, insertions: Vec::new() };
        assert(builder.recorded_edit() =~= Seq::<(u32, Seq<char>)>::empty());
        builder
    }

    /// Records the span to show for the assist. An assist has one target.
    pub fn target(&mut self, range: SourceRange)
        requires
            old(self).recorded_target() is None,
        ensures
            final(self).recorded_target() == Some(range),
            final(self).recorded_edit() == old(self).recorded_edit(),
    {
        self.target = Some(range);
    }

    /// Records one insertion behind those recorded before.
    pub fn insert(&mut self, offset: u32, text: String)
        ensures
            final(self).recorded_target() == old(self).recorded_target(),
            final(self).recorded_edit() == old(self).recorded_edit().push((offset, text@)),
    {
        let insertion = Insertion { offset, text };
        self.insertions.push(insertion);
        assert(self.recorded_edit() =~= old(self).recorded_edit().push((offset, text@)));
    }

    /// Finishes the assist. There is one only where a target and at least
    /// one insertion were recorded.
    pub fn build(self, id: AssistId, label: String) -> (built: Option<Assist>)
        ensures
            built is Some <==> self.recorded_target() is Some && self.recorded_edit().len() > 0,
            built matches Some(assist) ==> assist@ == (AssistView {
                id: id.0@,
                label: label@,
                target: self.recorded_target()->0,
                edit: self.recorded_edit(),
            }),
    {
        match self.target {
            Some(target) => {
                if self.insertions.len() == 0 {
                    None
                } else {
                    Some(Assist { id, label, target, edit: TextEdit { insertions: self.insertions } })
                }
            },
            None => None,
        }
    }
}

} // verus!
