//! The catalogue of component kinds, by category and tag.

use crate::table::Table;
use vstd::prelude::*;
use vstd::string::StringExecFns;

verus! {

/// The three categories of components.
#[derive(Clone, Copy, Debug, PartialEq, Eq, Structural)]
pub enum Category {
    Source,
    Transform,
    Sink,
}

impl Category {
    pub open spec fn spec_name(self) -> Seq<char> {
        match self {
            Category::Source => "source"@,
            Category::Transform => "transform"@,
            Category::Sink => "sink"@,
        }
    }

    /// The category's name as it stands in reports.
    pub fn name(self) -> (name: &'static str)
        ensures
            name@ == self.spec_name(),
    {
        match self {
            Category::Source => "source",
            Category::Transform => "transform",
            Category::Sink => "sink",
        }
    }
}

/// A configuration names a kind that no one has registered.
#[derive(Debug)]
pub struct UnknownComponent {
    pub category: Category,
    pub tag: String,
}

impl UnknownComponent {
    pub open spec fn spec_message(&self) -> Seq<char> {
        "unknown component type \""@ + self.tag@ + "\" for category "@
            + self.category.spec_name()
    }

    /// What the error says to the operator.
    pub fn message(&self) -> (text: String)
        ensures
            text@ == self.spec_message(),
    {
        String::from_str("unknown component type \"").concat(self.tag.as_str()).concat(
            "\" for category ",
        ).concat(self.category.name())
    }
}

/// The kinds of one category that are available, each a tag with the factory
/// that makes a configuration of that kind. Kinds are added, never removed.
pub struct Registry<F> {
    category: Category,
    factories: Table<F>,
}

impl<F> Registry<F> {
    pub closed spec fn spec_category(&self) -> Category {
        self.category
    }

    /// The registered tags, in the order of registration.
    pub closed spec fn tags(&self) -> Seq<Seq<char>> {
        self.factories.keys()
    }

    /// The registered factories, each at the position of its tag.
    pub closed spec fn factories(&self) -> Seq<F> {
        self.factories.values()
    }

    pub closed spec fn wf(&self) -> bool {
        self.factories.wf()
    }

    /// The factory registered under `tag`.
    pub open spec fn factory_of(&self, tag: Seq<char>) -> F {
        self.factories()[self.tags().index_of(tag)]
    }

    /// A catalogue of the given category that holds no kind yet.
    pub fn new(category: Category) -> (registry: Self)
        ensures
            registry.wf(),
            registry.spec_category() == category,
            registry.tags().len() == 0,
    {
        Registry { category, factories: Table::new() }
    }

    pub fn category(&self) -> (category: Category)
        ensures
            category == self.spec_category(),
    {
        self.category
    }

    /// The number of registered kinds.
    pub fn len(&self) -> (n: usize)
        requires
            self.wf(),
        ensures
            n == self.tags().len(),
    {
        self.factories.len()
    }

    pub fn is_registered(&self, tag: &str) -> (held: bool)
        requires
            self.wf(),
        ensures
            held == self.tags().contains(tag@),
    {
        self.factories.contains_key(tag)
    }

    /// Adds a kind. A tag is registered once: to register it again is a
    /// mistake in the program, not something that can happen at run time.
    pub fn register(&mut self, tag: String, factory: F)
        requires
            old(self).wf(),
            !old(self).tags().contains(tag@),
        ensures
            final(self).wf(),
            final(self).spec_category() == old(self).spec_category(),
            final(self).tags() == old(self).tags().push(tag@),
            final(self).factories() == old(self).factories().push(factory),
    {
        self.factories.insert(tag, factory);
    }

    /// The factory of the kind that `tag` names.
    pub fn lookup(&self, tag: &str) -> (found: Result<&F, UnknownComponent>)
        requires
            self.wf(),
        ensures
            match found {
                Ok(factory) => self.tags().contains(tag@) && *factory == self.factory_of(tag@),
                Err(error) => !self.tags().contains(tag@) && error.tag@ == tag@ && error.category
                    == self.spec_category(),
            },
    {
        match self.factories.get(tag) {
            Some(factory) => Ok(factory),
            None => Err(UnknownComponent { category: self.category, tag: String::from_str(tag) }),
        }
    }
}

} // verus!
