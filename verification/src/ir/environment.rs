//! The environment: a chain of scope frames.
//!
//! Frames live in an arena and are named by their index in it. The root
//! frame has index 0 and no parent. Every other frame was pushed while its
//! parent was the current frame, so the arena is always one chain: the
//! parent of frame `i` is frame `i - 1` and the current frame is the last.
use vstd::prelude::*;
use crate::interpreter::interpreter::EnvValue;
use crate::interpreter::interpreter::ValueView;
use crate::ir::ast::Name;

verus! {

/// What one frame binds: a map from names to values.
pub type Bindings = Map<Seq<char>, ValueView>;

/// The view of an environment: the bindings of its frames, the root frame
/// first and the current frame last.
pub type Scopes = Seq<Bindings>;

/// The value that `name` resolves to: that of the nearest frame that binds
/// it, going from the current frame toward the root.
pub open spec fn resolve(scopes: Scopes, name: Seq<char>) -> Option<ValueView>
    decreases scopes.len(),
{
    if scopes.len() == 0 {
        None
    } else if scopes.last().dom().contains(name) {
        Some(scopes.last()[name])
    } else {
        resolve(scopes.drop_last(), name)
    }
}

/// The scopes after `name` is bound to `value` in the current frame.
pub open spec fn declare(scopes: Scopes, name: Seq<char>, value: ValueView) -> Scopes {
    if scopes.len() == 0 {
        scopes
    } else {
        scopes.update(scopes.len() - 1, scopes.last().insert(name, value))
    }
}

/// The scopes after a new, empty frame is pushed.
pub open spec fn push_scope(scopes: Scopes) -> Scopes {
    scopes.push(Map::empty())
}

/// The scopes after the current frame is dropped. The root frame stays.
pub open spec fn pop_scope(scopes: Scopes) -> Scopes {
    if scopes.len() > 1 {
        scopes.drop_last()
    } else {
        scopes
    }
}

/// A name resolves to what was last declared for it.
pub proof fn lemma_declare_then_resolve(scopes: Scopes, name: Seq<char>, value: ValueView)
    requires
        scopes.len() > 0,
    ensures
        resolve(declare(scopes, name, value), name) == Some(value),
{
}

/// Declaring a name changes what no other name resolves to.
pub proof fn lemma_declare_keeps_others(
    scopes: Scopes,
    name: Seq<char>,
    value: ValueView,
    other: Seq<char>,
)
    requires
        other != name,
    ensures
        resolve(declare(scopes, name, value), other) == resolve(scopes, other),
{
    if scopes.len() > 0 {
        assert(declare(scopes, name, value).drop_last() =~= scopes.drop_last());
    }
}

/// A declaration touches the current frame only: the frames under it are
/// as they were.
pub proof fn lemma_declare_is_local(scopes: Scopes, name: Seq<char>, value: ValueView)
    ensures
        declare(scopes, name, value).len() == scopes.len(),
        declare(scopes, name, value).drop_last() == scopes.drop_last(),
{
    if scopes.len() > 0 {
        assert(declare(scopes, name, value).drop_last() =~= scopes.drop_last());
    }
}

/// A new frame hides nothing: every name resolves as before.
pub proof fn lemma_push_keeps_names(scopes: Scopes, name: Seq<char>)
    ensures
        resolve(push_scope(scopes), name) == resolve(scopes, name),
{
    assert(push_scope(scopes).drop_last() =~= scopes);
}

/// Dropping a frame that was pushed gives the environment back, whatever
/// was declared in that frame meanwhile.
pub proof fn lemma_push_then_pop(scopes: Scopes, name: Seq<char>, value: ValueView)
    requires
        scopes.len() > 0,
    ensures
        pop_scope(push_scope(scopes)) == scopes,
        pop_scope(declare(push_scope(scopes), name, value)) == scopes,
{
    assert(push_scope(scopes).drop_last() =~= scopes);
    assert(declare(push_scope(scopes), name, value).drop_last() =~= scopes);
}

/// The map that a list of bindings stands for: a later binding of a name
/// replaces an earlier one.
pub open spec fn bindings_of(variables: Seq<(Name, EnvValue)>) -> Bindings
    decreases variables.len(),
{
    if variables.len() == 0 {
        Map::empty()
    } else {
        bindings_of(variables.drop_last()).insert(variables.last().0@, variables.last().1@)
    }
}

/// No two bindings of the list have the same name.
pub open spec fn distinct_names(variables: Seq<(Name, EnvValue)>) -> bool {
    forall|i: int, j: int|
        0 <= i < j < variables.len() ==> (#[trigger] variables[i]).0@ != (#[trigger] variables[j]).0@
}

/// A name that the list does not hold is not bound.
proof fn lemma_absent(variables: Seq<(Name, EnvValue)>, name: Seq<char>)
    requires
        forall|i: int| 0 <= i < variables.len() ==> (#[trigger] variables[i]).0@ != name,
    ensures
        !bindings_of(variables).dom().contains(name),
    decreases variables.len(),
{
    if variables.len() > 0 {
        lemma_absent(variables.drop_last(), name);
    }
}

/// The name at position `i` is bound to the value at position `i`.
proof fn lemma_present(variables: Seq<(Name, EnvValue)>, i: int)
    requires
        distinct_names(variables),
        0 <= i < variables.len(),
    ensures
        bindings_of(variables).dom().contains(variables[i].0@),
        bindings_of(variables)[variables[i].0@] == variables[i].1@,
    decreases variables.len(),
{
    if i < variables.len() - 1 {
        lemma_present(variables.drop_last(), i);
        assert(variables.drop_last()[i] == variables[i]);
        assert(variables.last() == variables[variables.len() - 1]);
    }
}

/// Replacing the binding at position `i` by one of the same name rebinds
/// that name and nothing else.
proof fn lemma_replace(variables: Seq<(Name, EnvValue)>, i: int, binding: (Name, EnvValue))
    requires
        distinct_names(variables),
        0 <= i < variables.len(),
        variables[i].0@ == binding.0@,
    ensures
        distinct_names(variables.update(i, binding)),
        bindings_of(variables.update(i, binding)) == bindings_of(variables).insert(
            binding.0@,
            binding.1@,
        ),
    decreases variables.len(),
{
    let updated = variables.update(i, binding);
    assert(distinct_names(updated)) by {
        assert forall|a: int, b: int| 0 <= a < b < updated.len() implies (#[trigger] updated[a]).0@
            != (#[trigger] updated[b]).0@ by {
            assert(variables[a].0@ != variables[b].0@);
        }
    }
    if i == variables.len() - 1 {
        assert(updated.drop_last() =~= variables.drop_last());
        assert(bindings_of(updated) =~= bindings_of(variables).insert(binding.0@, binding.1@));
    } else {
        lemma_replace(variables.drop_last(), i, binding);
        assert(updated.drop_last() =~= variables.drop_last().update(i, binding));
        assert(updated.last() == variables.last());
        assert(variables.last() == variables[variables.len() - 1]);
        assert(variables.last().0@ != binding.0@);
        assert(bindings_of(updated) =~= bindings_of(variables).insert(binding.0@, binding.1@));
    }
}

/// Lists that agree name by name and value by value stand for one map.
proof fn lemma_same_bindings(first: Seq<(Name, EnvValue)>, second: Seq<(Name, EnvValue)>)
    requires
        first.len() == second.len(),
        forall|i: int|
            0 <= i < first.len() ==> (#[trigger] first[i]).0@ == second[i].0@ && first[i].1@
                == second[i].1@,
    ensures
        bindings_of(first) == bindings_of(second),
        distinct_names(first) ==> distinct_names(second),
    decreases first.len(),
{
    if first.len() > 0 {
        lemma_same_bindings(first.drop_last(), second.drop_last());
        assert(first.last() == first[first.len() - 1]);
    }
    if distinct_names(first) {
        assert forall|a: int, b: int| 0 <= a < b < second.len() implies (#[trigger] second[a]).0@
            != (#[trigger] second[b]).0@ by {
            assert(first[a].0@ != first[b].0@);
        }
    }
}

/// One scope: the names it binds and the frame it was opened in.
#[derive(Debug, PartialEq)]
pub struct Frame {
    parent_key: Option<usize>,
    variables: Vec<(Name, EnvValue)>,
}

impl View for Frame {
    type V = Bindings;

    closed spec fn view(&self) -> Bindings {
        bindings_of(self.variables@)
    }
}

impl Frame {
    /// The frame binds each of its names once.
    pub closed spec fn wf(&self) -> bool {
        distinct_names(self.variables@)
    }

    /// The key of the frame that this one was opened in; none for the root.
    pub closed spec fn parent(&self) -> Option<usize> {
        self.parent_key
    }

    fn new(parent_key: Option<usize>) -> (res: Frame)
        ensures
            res.wf(),
            res@ == Bindings::empty(),
            res.parent() == parent_key,
    {
        Frame { parent_key, variables: Vec::new() }
    }

    /// The key of the frame that this one was opened in; none for the root.
    pub fn parent_key(&self) -> (res: Option<usize>)
        ensures
            res == self.parent(),
    {
        self.parent_key
    }

    /// The value that this frame binds `name` to, if it binds it.
    pub fn get(&self, name: &Name) -> (res: Option<&EnvValue>)
        requires
            self.wf(),
        ensures
            match res {
                Some(value) => self@.dom().contains(name@) && self@[name@] == value@,
                None => !self@.dom().contains(name@),
            },
    {
        let mut i: usize = 0;
        while i < self.variables.len()
            invariant
                self.wf(),
                i <= self.variables.len(),
                forall|j: int| 0 <= j < i ==> (#[trigger] self.variables@[j]).0@ != name@,
            decreases self.variables.len() - i,
        {
            if self.variables[i].0 == *name {
                proof {
                    lemma_present(self.variables@, i as int);
                }
                return Some(&self.variables[i].1);
            }
            i += 1;
        }
        proof {
            lemma_absent(self.variables@, name@);
        }
        None
    }

    /// Binds `name` to `value`, in place of what it was bound to.
    fn insert(&mut self, name: Name, value: EnvValue)
        requires
            old(self).wf(),
        ensures
            final(self).wf(),
            final(self)@ == old(self)@.insert(name@, value@),
            final(self).parent() == old(self).parent(),
    {
        let mut i: usize = 0;
        while i < self.variables.len()
            invariant
                self.wf(),
                *self == *old(self),
                i <= self.variables.len(),
                forall|j: int| 0 <= j < i ==> (#[trigger] self.variables@[j]).0@ != name@,
            decreases self.variables.len() - i,
        {
            if self.variables[i].0 == name {
                proof {
                    lemma_replace(self.variables@, i as int, (name, value));
                }
                self.variables.set(i, (name, value));
                return ;
            }
            i += 1;
        }
        proof {
            let extended = self.variables@.push((name, value));
            assert(extended.drop_last() =~= self.variables@);
            assert(distinct_names(extended)) by {
                assert forall|a: int, b: int| 0 <= a < b < extended.len() implies (
                #[trigger] extended[a]).0@ != (#[trigger] extended[b]).0@ by {
                    if b < self.variables@.len() {
                        assert(self.variables@[a].0@ != self.variables@[b].0@);
                    } else {
                        assert(self.variables@[a].0@ != name@);
                    }
                }
            }
        }
        self.variables.push((name, value));
    }
}

impl Clone for Frame {
    /// A deep copy.
    fn clone(&self) -> (res: Self)
        ensures
            res@ == self@,
            res.parent() == self.parent(),
            self.wf() ==> res.wf(),
    {
        let mut variables: Vec<(Name, EnvValue)> = Vec::new();
        let mut i: usize = 0;
        while i < self.variables.len()
            invariant
                i <= self.variables.len(),
                variables@.len() == i,
                forall|j: int|
                    0 <= j < i ==> (#[trigger] self.variables@[j]).0@ == variables@[j].0@
                        && self.variables@[j].1@ == variables@[j].1@,
            decreases self.variables.len() - i,
        {
            variables.push((self.variables[i].0.clone(), self.variables[i].1.clone()));
            i += 1;
        }
        proof {
            lemma_same_bindings(self.variables@, variables@);
        }
        Frame { parent_key: self.parent_key, variables }
    }
}

/// A chain of scope frames together with the frame that is current.
#[derive(Debug, PartialEq)]
pub struct Environment {
    frames: Vec<Frame>,
    current: usize,
}

impl View for Environment {
    type V = Scopes;

    closed spec fn view(&self) -> Scopes {
        Seq::new(self.frames@.len(), |i: int| self.frames@[i]@)
    }
}

impl Environment {
    /// The arena is one chain of frames that ends in the current one.
    pub closed spec fn wf(&self) -> bool {
        &&& self.frames@.len() > 0
        &&& self.current == self.frames@.len() - 1
        &&& forall|i: int| 0 <= i < self.frames@.len() ==> (#[trigger] self.frames@[i]).wf()
        &&& self.frames@[0].parent() is None
        &&& forall|i: int|
            0 < i < self.frames@.len() ==> (#[trigger] self.frames@[i]).parent() == Some(
                (i - 1) as usize,
            )
    }

    /// The frame with the given key.
    pub closed spec fn frame(&self, key: int) -> Frame {
        self.frames@[key]
    }

    /// The key of the current frame.
    pub closed spec fn current_key(&self) -> usize {
        self.current
    }

    /// In a well-formed environment the view lists the frames by key, the
    /// current frame is the last, and parents go down by one.
    pub proof fn lemma_chain(&self)
        requires
            self.wf(),
        ensures
            self@.len() > 0,
            self.current_key() == self@.len() - 1,
            forall|key: int| 0 <= key < self@.len() ==> (#[trigger] self.frame(key)).wf(),
            forall|key: int| 0 <= key < self@.len() ==> (#[trigger] self.frame(key))@ == self@[key],
            self.frame(0).parent() is None,
            forall|key: int|
                0 < key < self@.len() ==> (#[trigger] self.frame(key)).parent() == Some(
                    (key - 1) as usize,
                ),
    {
    }

    /// An environment of one empty frame, the root.
    pub fn new() -> (res: Environment)
        ensures
            res.wf(),
            res@ == seq![Bindings::empty()],
    {
        let mut frames: Vec<Frame> = Vec::new();
        frames.push(Frame::new(None));
        let res = Environment { frames, current: 0 };
        assert(res@ =~= seq![Bindings::empty()]);
        res
    }

    /// Binds `name` to `value` in the current frame, in place of what that
    /// frame bound it to. Other frames are left as they are.
    pub fn insert_variable(&mut self, name: Name, value: EnvValue)
        requires
            old(self).wf(),
        ensures
            final(self).wf(),
            final(self)@ == declare(old(self)@, name@, value@),
    {
        let current = self.current;
        self.frames[current].insert(name, value);
        assert(self@ =~= declare(old(self)@, name@, value@));
    }

    /// Opens a new, empty frame in the current one and makes it current.
    pub fn insert_frame(&mut self)
        requires
            old(self).wf(),
        ensures
            final(self).wf(),
            final(self)@ == push_scope(old(self)@),
    {
        self.frames.push(Frame::new(Some(self.current)));
        self.current = self.frames.len() - 1;
        assert(self@ =~= push_scope(old(self)@));
    }

    /// Drops the current frame and makes its parent current. The root frame
    /// has no parent and stays.
    pub fn remove_frame(&mut self)
        requires
            old(self).wf(),
        ensures
            final(self).wf(),
            final(self)@ == pop_scope(old(self)@),
    {
        match self.frames[self.current].parent_key() {
            Some(parent) => {
                self.frames.pop();
                self.current = parent;
                assert(self@ =~= pop_scope(old(self)@));
            },
            None => {},
        }
    }

    /// The key of the current frame.
    pub fn scope_key(&self) -> (res: usize)
        requires
            self.wf(),
        ensures
            res == self.current_key(),
            res == self@.len() - 1,
    {
        self.current
    }

    /// The frame with the given key.
    pub fn get_frame(&self, key: usize) -> (res: &Frame)
        requires
            self.wf(),
            key < self@.len(),
        ensures
            *res == self.frame(key as int),
    {
        &self.frames[key]
    }

    /// The value that `name` resolves to along the scope chain, if any
    /// frame of the chain binds it.
    pub fn search_frame(&self, name: Name) -> (res: Option<&EnvValue>)
        requires
            self.wf(),
        ensures
            match res {
                Some(value) => resolve(self@, name@) == Some(value@),
                None => resolve(self@, name@) is None,
            },
    {
        let mut key: usize = self.current;
        assert(self@.take(key + 1) =~= self@);
        loop
            invariant
                self.wf(),
                key < self.frames@.len(),
                resolve(self@, name@) == resolve(self@.take(key + 1), name@),
            decreases key,
        {
            let frame = &self.frames[key];
            assert(self@.take(key + 1).last() == frame@);
            assert(self@.take(key + 1).drop_last() =~= self@.take(key as int));
            match frame.get(&name) {
                Some(value) => {
                    return Some(value);
                },
                None => {
                    if key == 0 {
                        assert(resolve(self@.take(0), name@) is None);
                        return None;
                    }
                    key = key - 1;
                },
            }
        }
    }
}

impl Clone for Environment {
    /// A deep copy.
    fn clone(&self) -> (res: Self)
        ensures
            res@ == self@,
            self.wf() ==> res.wf(),
    {
        let mut frames: Vec<Frame> = Vec::new();
        let mut i: usize = 0;
        while i < self.frames.len()
            invariant
                i <= self.frames.len(),
                frames@.len() == i,
                forall|j: int|
                    0 <= j < i ==> (#[trigger] frames@[j])@ == self.frames@[j]@ && frames@[j].parent()
                        == self.frames@[j].parent() && (self.frames@[j].wf() ==> frames@[j].wf()),
            decreases self.frames.len() - i,
        {
            frames.push(self.frames[i].clone());
            i += 1;
        }
        let res = Environment { frames, current: self.current };
        assert(res@ =~= self@);
        res
    }
}

} // verus!
