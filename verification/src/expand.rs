//! Replacing self-expanding transforms by their children.
//!
//! Expansion has two parts. Asking is the transforms' business: each is asked
//! whether it expands, and each child in turn, down to a depth that the
//! caller allows. Placing is the graph's business and is stated exactly:
//! given the answers, which transforms the graph holds afterwards, under
//! which names, and what is recorded to stand for each expanded name.

use crate::builder::{duplicate_message, duplicate_report};
use crate::config::{clone_names, names_view, TransformConfig, TransformOuter};
use crate::sequence::reversed;
use crate::table::Table;
use vstd::prelude::*;
use vstd::string::StringExecFns;

verus! {

/// How many expansions may be nested: a child of a child of ... an expanded
/// transform, this many levels down, is no longer asked to expand.
pub const EXPANSION_DEPTH_LIMIT: usize = 8;

/// What a transform answered when it was asked to expand, and what its
/// children answered in turn.
pub enum Answer<T> {
    /// The transform stays as it is.
    Stays(T),
    /// The transform is replaced by these children, each with its own name.
    Expands(Vec<(String, Answer<T>)>),
    /// The expansion failed, for this reason.
    Failed(String),
    /// The transform expands, but stands at the deepest level allowed.
    TooDeep,
}

/// The name under which a child replaces its parent.
pub open spec fn child_name_of(parent: Seq<char>, child: Seq<char>) -> Seq<char> {
    parent + "."@ + child
}

/// The text that reports a transform whose expansion failed.
pub open spec fn expansion_failure_message(name: Seq<char>, reason: Seq<char>) -> Seq<char> {
    "failed to expand transform '"@ + name + "': "@ + reason
}

/// The text that reports a transform that expands below the deepest level.
pub open spec fn expansion_depth_message(name: Seq<char>) -> Seq<char> {
    "transform '"@ + name + "' expands deeper than the limit of nested expansions"@
}

pub fn child_name(parent: &str, child: &str) -> (name: String)
    ensures
        name@ == child_name_of(parent@, child@),
{
    String::from_str(parent).concat(".").concat(child)
}

pub fn expansion_failure_report(name: &str, reason: &str) -> (report: String)
    ensures
        report@ == expansion_failure_message(name@, reason@),
{
    String::from_str("failed to expand transform '").concat(name).concat("': ").concat(reason)
}

pub fn expansion_depth_report(name: &str) -> (report: String)
    ensures
        report@ == expansion_depth_message(name@),
{
    String::from_str("transform '").concat(name).concat(
        "' expands deeper than the limit of nested expansions",
    )
}

/// The transforms of a graph after expansion, as mathematics: the
/// transforms by name, inputs and configuration, in order; the expanded
/// names, each with the names that stand for it; and the reports.
#[verifier::ext_equal]
pub struct Placed<T> {
    pub names: Seq<Seq<char>>,
    pub inputs: Seq<Seq<Seq<char>>>,
    pub inners: Seq<T>,
    pub expanded: Seq<Seq<char>>,
    pub stand_ins: Seq<Seq<Seq<char>>>,
    pub errors: Seq<Seq<char>>,
}

impl<T> Placed<T> {
    /// Nothing placed, nothing recorded, nothing reported.
    pub open spec fn empty() -> Placed<T> {
        Placed {
            names: Seq::empty(),
            inputs: Seq::empty(),
            inners: Seq::empty(),
            expanded: Seq::empty(),
            stand_ins: Seq::empty(),
            errors: Seq::empty(),
        }
    }

    pub open spec fn report(self, message: Seq<char>) -> Placed<T> {
        Placed { errors: self.errors.push(message), ..self }
    }

    /// A transform that stays as it is takes its place behind the others.
    /// Where its name is taken, it is dropped and the collision reported.
    pub open spec fn keep(self, name: Seq<char>, inputs: Seq<Seq<char>>, inner: T) -> Placed<T> {
        if self.names.contains(name) {
            self.report(duplicate_message("transform"@, name))
        } else {
            Placed {
                names: self.names.push(name),
                inputs: self.inputs.push(inputs),
                inners: self.inners.push(inner),
                ..self
            }
        }
    }

    /// `leaves` stand for the expanded transform `name` from now on.
    pub open spec fn record(self, name: Seq<char>, leaves: Seq<Seq<char>>) -> Placed<T> {
        if self.expanded.contains(name) {
            Placed {
                stand_ins: self.stand_ins.update(self.expanded.index_of(name), leaves),
                ..self
            }
        } else {
            Placed {
                expanded: self.expanded.push(name),
                stand_ins: self.stand_ins.push(leaves),
                ..self
            }
        }
    }

    /// Places what `answer` says of the transform `name`, and gives the
    /// names that stand for `name` afterwards.
    ///
    /// A transform that stays is kept under `name` and stands for itself. A
    /// transform that expands is replaced by its children: each child is
    /// placed in turn, in order, under the parent's name, a dot and its own,
    /// with the parent's inputs; what stands for the children stands for the
    /// parent, and that is recorded. A transform whose expansion failed or
    /// went too deep is dropped and reported, and nothing stands for it.
    pub open spec fn place(
        self,
        name: Seq<char>,
        inputs: Seq<Seq<char>>,
        answer: Answer<T>,
    ) -> (Placed<T>, Seq<Seq<char>>)
        decreases answer, 0nat,
    {
        match answer {
            Answer::Stays(inner) => (self.keep(name, inputs, inner), seq![name]),
            Answer::Failed(reason) => (
                self.report(expansion_failure_message(name, reason@)),
                Seq::empty(),
            ),
            Answer::TooDeep => (self.report(expansion_depth_message(name)), Seq::empty()),
            Answer::Expands(children) => {
                let (placed, leaves) = self.place_children(
                    name,
                    inputs,
                    children,
                    children@.len(),
                );
                (placed.record(name, leaves), leaves)
            },
        }
    }

    /// Places the first `n` children of the transform `parent`.
    pub open spec fn place_children(
        self,
        parent: Seq<char>,
        inputs: Seq<Seq<char>>,
        children: Vec<(String, Answer<T>)>,
        n: nat,
    ) -> (Placed<T>, Seq<Seq<char>>)
        decreases children, n,
    {
        if n == 0 || n > children@.len() {
            (self, Seq::empty())
        } else {
            let (placed, leaves) = self.place_children(parent, inputs, children, (n - 1) as nat);
            let (next, more) = placed.place(
                child_name_of(parent, children@[n - 1].0@),
                inputs,
                children@[n - 1].1,
            );
            (next, leaves + more)
        }
    }
}

/// Every name of `earlier` is a name of `later`.
pub open spec fn grows(earlier: Seq<Seq<char>>, later: Seq<Seq<char>>) -> bool {
    forall|name: Seq<char>| earlier.contains(name) ==> #[trigger] later.contains(name)
}

/// Every name in `names` is a key.
pub open spec fn all_held(keys: Seq<Seq<char>>, names: Seq<String>) -> bool {
    forall|j: int| 0 <= j < names.len() ==> keys.contains(#[trigger] names[j]@)
}

/// The inputs of each transform.
pub open spec fn inputs_of<T>(transforms: Seq<TransformOuter<T>>) -> Seq<Seq<Seq<char>>> {
    transforms.map_values(|transform: TransformOuter<T>| names_view(transform.inputs@))
}

/// The configuration of each transform.
pub open spec fn inners_of<T>(transforms: Seq<TransformOuter<T>>) -> Seq<T> {
    transforms.map_values(|transform: TransformOuter<T>| transform.inner)
}

/// The names in each list.
pub open spec fn lists_view(lists: Seq<Vec<String>>) -> Seq<Seq<Seq<char>>> {
    lists.map_values(|list: Vec<String>| names_view(list@))
}

/// The transforms of a graph after expansion, the record of what was
/// expanded into what, and what went wrong on the way.
pub struct Expanded<T> {
    pub transforms: Table<TransformOuter<T>>,
    pub expansions: Table<Vec<String>>,
    pub errors: Vec<String>,
}

impl<T> View for Expanded<T> {
    type V = Placed<T>;

    open spec fn view(&self) -> Placed<T> {
        Placed {
            names: self.transforms.keys(),
            inputs: inputs_of(self.transforms.values()),
            inners: inners_of(self.transforms.values()),
            expanded: self.expansions.keys(),
            stand_ins: lists_view(self.expansions.values()),
            errors: names_view(self.errors@),
        }
    }
}

impl<T> Expanded<T> {
    /// Both tables are well formed, and every name recorded as standing for
    /// an expanded transform is the name of a transform.
    pub open spec fn wf(&self) -> bool {
        &&& self.transforms.wf()
        &&& self.expansions.wf()
        &&& forall|i: int|
            0 <= i < self.expansions.values().len() ==> all_held(
                self.transforms.keys(),
                #[trigger] self.expansions.values()[i]@,
            )
    }

    pub fn new() -> (state: Self)
        ensures
            state.wf(),
            state@ == Placed::<T>::empty(),
    {
        let state = Expanded { transforms: Table::new(), expansions: Table::new(), errors: Vec::new() };
        assert(state@ =~= Placed::<T>::empty());
        state
    }

    /// Adds a report.
    pub fn report(&mut self, message: String)
        requires
            old(self).wf(),
        ensures
            final(self).wf(),
            final(self)@ == old(self)@.report(message@),
            final(self).transforms == old(self).transforms,
    {
        self.errors.push(message);
        assert(self@ =~= old(self)@.report(message@));
    }

    /// Places a transform that stays as it is. Where its name is taken, the
    /// transform is dropped and the collision reported.
    pub fn keep(&mut self, name: String, transform: TransformOuter<T>)
        requires
            old(self).wf(),
        ensures
            final(self).wf(),
            final(self)@ == old(self)@.keep(name@, names_view(transform.inputs@), transform.inner),
            final(self).transforms.keys().contains(name@),
            grows(old(self).transforms.keys(), final(self).transforms.keys()),
    {
        if self.transforms.contains_key(name.as_str()) {
            self.errors.push(duplicate_report("transform", name.as_str()));
            assert(self@ =~= old(self)@.keep(
                name@,
                names_view(transform.inputs@),
                transform.inner,
            ));
        } else {
            let ghost before = self.transforms.keys();
            self.transforms.insert(name, transform);
            proof {
                let after = self.transforms.keys();
                assert(after[after.len() - 1] == name@);
                assert forall|n: Seq<char>| before.contains(n) implies after.contains(n) by {
                    let k = choose|k: int| 0 <= k < before.len() && before[k] == n;
                    assert(after[k] == n);
                }
                assert(self@ =~= old(self)@.keep(
                    name@,
                    names_view(transform.inputs@),
                    transform.inner,
                ));
            }
        }
    }

    /// Records that `leaves` stand for the expanded transform `name`.
    pub fn record(&mut self, name: String, leaves: Vec<String>)
        requires
            old(self).wf(),
            all_held(old(self).transforms.keys(), leaves@),
        ensures
            final(self).wf(),
            final(self)@ == old(self)@.record(name@, names_view(leaves@)),
            final(self).transforms == old(self).transforms,
    {
        self.expansions.insert(name, leaves);
        assert(self@ =~= old(self)@.record(name@, names_view(leaves@)));
    }

    /// Places what `answer` says of the transform `name`, whose inputs are
    /// `inputs`, and returns the names that stand for `name` afterwards.
    pub fn place(&mut self, name: String, inputs: Vec<String>, answer: Answer<T>) -> (leaves: Vec<
        String,
    >)
        requires
            old(self).wf(),
        ensures
            final(self).wf(),
            (final(self)@, names_view(leaves@)) == old(self)@.place(
                name@,
                names_view(inputs@),
                answer,
            ),
            grows(old(self).transforms.keys(), final(self).transforms.keys()),
            all_held(final(self).transforms.keys(), leaves@),
        decreases answer,
    {
        let mut leaves: Vec<String> = Vec::new();
        match answer {
            Answer::Stays(inner) => {
                leaves.push(name.clone());
                self.keep(name, TransformOuter { inputs, inner });
                assert(names_view(leaves@) =~= seq![name@]);
            },
            Answer::Failed(reason) => {
                self.report(expansion_failure_report(name.as_str(), reason.as_str()));
                assert(names_view(leaves@) =~= Seq::<Seq<char>>::empty());
            },
            Answer::TooDeep => {
                self.report(expansion_depth_report(name.as_str()));
                assert(names_view(leaves@) =~= Seq::<Seq<char>>::empty());
            },
            Answer::Expands(children) => {
                let ghost total = children@.len();
                let mut stack = reversed(children);
                assert(names_view(leaves@) =~= Seq::<Seq<char>>::empty());
                while stack.len() > 0
                    invariant
                        self.wf(),
                        answer == Answer::Expands(children),
                        total == children@.len(),
                        stack@.len() <= total,
                        stack@ == children@.reverse().subrange(0, stack@.len() as int),
                        (self@, names_view(leaves@)) == old(self)@.place_children(
                            name@,
                            names_view(inputs@),
                            children,
                            (total - stack@.len()) as nat,
                        ),
                        grows(old(self).transforms.keys(), self.transforms.keys()),
                        all_held(self.transforms.keys(), leaves@),
                    decreases stack@.len(),
                {
                    let ghost done = total - stack@.len();
                    let ghost held = self.transforms.keys();
                    let ghost so_far = leaves@;
                    let ghost before = stack@;
                    let (child, inner) = stack.pop().unwrap();
                    proof {
                        assert(stack@ =~= children@.reverse().subrange(0, stack@.len() as int));
                        assert((child, inner) == children@.reverse()[before.len() - 1]);
                        assert((child, inner) == children@[done]);
                        assert(answer is Expands);
                        assert(answer->Expands_0 == children);
                        assert(decreases_to!(answer => answer->Expands_0));
                        assert(decreases_to!(children => children[done]));
                        assert(decreases_to!(children[done] => children[done].1));
                    }
                    let full_name = child_name(name.as_str(), child.as_str());
                    let mut found = self.place(full_name, clone_names(&inputs), inner);
                    let ghost more = found@;
                    leaves.append(&mut found);
                    proof {
                        assert(names_view(leaves@) =~= names_view(so_far) + names_view(more));
                        assert forall|j: int| 0 <= j < leaves@.len() implies self.transforms.keys(
                        ).contains(#[trigger] leaves@[j]@) by {
                            if j < so_far.len() {
                                assert(held.contains(so_far[j]@));
                            }
                        }
                    }
                }
                self.record(name, clone_names(&leaves));
            },
        }
        leaves
    }
}

impl<T> Answer<T> {
    /// No expansion in this answer is nested deeper than `depth` levels.
    pub open spec fn within(self, depth: nat) -> bool
        decreases self,
    {
        match self {
            Answer::Expands(children) => depth > 0 && forall|i: int|
                0 <= i < children@.len() ==> (#[trigger] children@[i]).1.within((depth - 1) as nat),
            _ => true,
        }
    }
}

/// Asks a transform whether it expands, and each of its children in turn,
/// `depth` levels down at most. What the transforms answer is theirs to
/// say; that no one is asked below the deepest level is stated here, and
/// what follows from a transform's own word is stated by `settle`.
pub fn ask<T: TransformConfig>(inner: T, depth: usize) -> (answer: Answer<T>)
    ensures
        answer.within(depth as nat),
    decreases depth, 1nat,
{
    let mut inner = inner;
    let outcome = inner.expand();
    settle(inner, outcome, depth)
}

/// What follows from a transform's own word on whether it expands.
///
/// A transform whose expansion failed is answered for with the reason. One
/// that does not expand stays, as it is after it was asked. One that expands
/// is not followed further at depth zero; above it, each of its children is
/// asked in turn, one level further down, and its answer stands under the
/// child's name, in the children's order.
pub fn settle<T: TransformConfig>(
    asked: T,
    outcome: Result<Option<Vec<(String, T)>>, String>,
    depth: usize,
) -> (answer: Answer<T>)
    ensures
        answer.within(depth as nat),
        match outcome {
            Err(reason) => answer == Answer::<T>::Failed(reason),
            Ok(None) => answer == Answer::Stays(asked),
            Ok(Some(children)) => if depth == 0 {
                answer is TooDeep
            } else {
                &&& answer is Expands
                &&& answer->Expands_0@.len() == children@.len()
                &&& forall|i: int|
                    0 <= i < children@.len() ==> (#[trigger] answer->Expands_0@[i]).0
                        == children@[i].0
            },
        },
    decreases depth, 0nat,
{
    match outcome {
        Err(reason) => Answer::Failed(reason),
        Ok(None) => Answer::Stays(asked),
        Ok(Some(children)) => {
            if depth == 0 {
                Answer::TooDeep
            } else {
                let ghost total = children@.len();
                let mut stack = reversed(children);
                let mut answers: Vec<(String, Answer<T>)> = Vec::new();
                while stack.len() > 0
                    invariant
                        depth > 0,
                        total == children@.len(),
                        stack@.len() + answers@.len() == total,
                        stack@ == children@.reverse().subrange(0, stack@.len() as int),
                        forall|i: int|
                            0 <= i < answers@.len() ==> (#[trigger] answers@[i]).0
                                == children@[i].0,
                        forall|i: int|
                            0 <= i < answers@.len() ==> (#[trigger] answers@[i]).1.within(
                                (depth - 1) as nat,
                            ),
                    decreases stack@.len(),
                {
                    let ghost before = stack@;
                    let ghost done = answers@.len() as int;
                    let (name, child) = stack.pop().unwrap();
                    proof {
                        assert(stack@ =~= children@.reverse().subrange(0, stack@.len() as int));
                        assert((name, child) == children@.reverse()[before.len() - 1]);
                        assert((name, child) == children@[done]);
                    }
                    answers.push((name, ask(child, depth - 1)));
                }
                Answer::Expands(answers)
            }
        },
    }
}

/// The transforms of a graph after the first `n` of them were placed, in
/// order, each as its answer says.
pub open spec fn place_all<T>(
    names: Seq<Seq<char>>,
    inputs: Seq<Seq<Seq<char>>>,
    answers: Seq<Answer<T>>,
    n: nat,
) -> Placed<T>
    decreases n,
{
    if n == 0 {
        Placed::empty()
    } else {
        place_all(names, inputs, answers, (n - 1) as nat).place(
            names[n - 1],
            inputs[n - 1],
            answers[n - 1],
        ).0
    }
}

/// Placing the first `n` transforms looks at the first `n` answers only.
pub proof fn lemma_place_all_prefix<T>(
    names: Seq<Seq<char>>,
    inputs: Seq<Seq<Seq<char>>>,
    answers: Seq<Answer<T>>,
    next: Answer<T>,
    n: nat,
)
    requires
        n <= answers.len(),
    ensures
        place_all(names, inputs, answers.push(next), n) == place_all(names, inputs, answers, n),
    decreases n,
{
    if n > 0 {
        lemma_place_all_prefix(names, inputs, answers, next, (n - 1) as nat);
        assert(answers.push(next)[n - 1] == answers[n - 1]);
    }
}

/// Expands every transform of a graph, in declaration order: each is asked
/// whether it expands, no deeper than `depth_limit` levels, and what it
/// answers is placed. The result is what placing the answers gives, one
/// after the other, whatever the transforms answered.
pub fn expand_macros<T: TransformConfig>(
    transforms: Table<TransformOuter<T>>,
    depth_limit: usize,
) -> (state: Expanded<T>)
    requires
        transforms.wf(),
    ensures
        state.wf(),
        transforms.keys().len() == 0 ==> state@ == Placed::<T>::empty(),
        exists|answers: Seq<Answer<T>>|
            {
                &&& answers.len() == transforms.keys().len()
                &&& forall|i: int|
                    0 <= i < answers.len() ==> (#[trigger] answers[i]).within(depth_limit as nat)
                &&& state@ == #[trigger] place_all(
                    transforms.keys(),
                    inputs_of(transforms.values()),
                    answers,
                    answers.len(),
                )
            },
{
    let ghost names = transforms.keys();
    let ghost inputs_all = inputs_of(transforms.values());
    let ghost total = transforms.keys().len() as int;
    let mut stack = transforms.into_stack();
    let mut state = Expanded::new();
    let ghost mut answers: Seq<Answer<T>> = Seq::empty();
    while stack.len() > 0
        invariant
            state.wf(),
            transforms.wf(),
            names == transforms.keys(),
            inputs_all == inputs_of(transforms.values()),
            total == transforms.keys().len(),
            stack@.len() + answers.len() == total,
            forall|i: int|
                0 <= i < stack@.len() ==> (#[trigger] stack@[i]).0@ == transforms.keys()[total - 1
                    - i] && stack@[i].1 == transforms.values()[total - 1 - i],
            forall|i: int|
                0 <= i < answers.len() ==> (#[trigger] answers[i]).within(depth_limit as nat),
            state@ == place_all(names, inputs_all, answers, answers.len()),
        decreases stack.len(),
    {
        let ghost done = answers.len() as int;
        let ghost before = state@;
        let (name, transform) = stack.pop().unwrap();
        let TransformOuter { inputs, inner } = transform;
        let answer = ask(inner, depth_limit);
        proof {
            assert(name@ == names[done]);
            assert(names_view(inputs@) == inputs_all[done]);
            lemma_place_all_prefix(names, inputs_all, answers, answer, answers.len());
            answers = answers.push(answer);
        }
        state.place(name, inputs, answer);
        assert(state@ == place_all(names, inputs_all, answers, answers.len()));
    }
    proof {
        if total == 0 {
            assert(state@ == Placed::<T>::empty());
        }
    }
    state
}

} // verus!
