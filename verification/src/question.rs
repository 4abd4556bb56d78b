use vstd::prelude::*;
use crate::expand::Expand;
use crate::rawlist::Rawlist;

verus! {

/// One entry of an expandable-choice prompt: a shortcut key and a label.
#[derive(Clone, Debug)]
pub struct ExpandItem {
    pub key: char,
    pub name: String,
}

/// What a list prompt yields: the picked entry's number and label.
#[derive(Clone, Debug)]
pub struct ListItem {
    pub index: usize,
    pub name: String,
}

/// The value a completed question yields.
#[derive(Clone, Debug)]
pub enum Answer {
    ListItem(ListItem),
    ExpandItem(ExpandItem),
}

/// The per-question options shared by every question kind.
#[derive(Clone, Debug)]
pub struct Options {
    pub name: String,
}

impl Options {
    pub fn new(name: String) -> (o: Options)
        ensures
            o.name == name,
    {
        Options { name }
    }
}

/// Which prompt a question runs.
pub enum QuestionKind {
    Rawlist(Rawlist),
    Expand(Expand),
}

/// A named question, ready to be asked.
pub struct Question {
    pub opts: Options,
    pub kind: QuestionKind,
}

impl Question {
    pub fn new(opts: Options, kind: QuestionKind) -> (q: Question)
        ensures
            q.opts == opts,
            q.kind == kind,
    {
        Question { opts, kind }
    }
}

} // verus!
