//! The environment: a stack of binding frames, innermost last.
//!
//! Each frame is a hash map from a name to a value. The model of an
//! environment is the sequence of its frames, each a `Map` from the name's
//! text to the value's model.

use vstd::prelude::*;
use rustc_hash::{FxBuildHasher, FxHashMap};
use crate::ast::Ident;
use crate::interpreter::{Primitive, PrimitiveView};

verus! {

/// `rustc_hash::FxBuildHasher`, which builds the hashers of the frames' hash
/// maps. Nothing is said of it here: it is only named in the frames' type.
#[verifier::external_type_specification]
#[verifier::external_body]
pub struct ExFxBuildHasher(FxBuildHasher);

/// The model of one frame: the text of each bound name with the model of its value.
pub type FrameView = Map<Seq<char>, PrimitiveView>;

/// The bindings that a frame holds.
pub uninterp spec fn frame_bindings(frame: FxHashMap<String, Primitive>) -> Map<
    Seq<char>,
    PrimitiveView,
>;

/// The frame that binds nothing.
pub open spec fn empty_frame() -> FrameView {
    Map::empty()
}

/// `HashMap::default` with `rustc_hash::FxBuildHasher`, written
/// `FxHashMap::default()`: the map that it makes holds no entry.
#[verifier::external_body]
fn frame_new() -> (frame: FxHashMap<String, Primitive>)
    ensures
        frame_bindings(frame) == empty_frame(),
{
    FxHashMap::default()
}

/// `HashMap::insert` on a map with `String` keys and `FxBuildHasher`:
/// afterwards the map holds the value under the key, whether or not it held
/// one under an equal key before, and every other entry is as it was. Two
/// keys are equal when their characters are.
#[verifier::external_body]
fn frame_insert(frame: &mut FxHashMap<String, Primitive>, name: String, value: Primitive)
    ensures
        frame_bindings(*final(frame)) == frame_bindings(*old(frame)).insert(name@, value@),
{
    frame.insert(name, value);
}

/// `HashMap::get` on a map with `String` keys and `FxBuildHasher`: a
/// reference to the value that the map holds under a key equal to `name`, or
/// `None` where it holds none.
#[verifier::external_body]
fn frame_get<'a>(frame: &'a FxHashMap<String, Primitive>, name: &String) -> (value: Option<
    &'a Primitive,
>)
    ensures
        match value {
            Some(v) => frame_bindings(*frame).contains_key(name@) && v@ == frame_bindings(
                *frame,
            )[name@],
            None => !frame_bindings(*frame).contains_key(name@),
        },
{
    frame.get(name)
}

/// The index of the innermost frame that binds `name`, if any frame does.
pub open spec fn binding_frame(frames: Seq<FrameView>, name: Seq<char>) -> Option<int>
    decreases frames.len(),
{
    if frames.len() == 0 {
        None
    } else if frames.last().contains_key(name) {
        Some(frames.len() - 1)
    } else {
        binding_frame(frames.drop_last(), name)
    }
}

/// The value that `name` resolves to: the one in the innermost frame that binds it.
pub open spec fn lookup(frames: Seq<FrameView>, name: Seq<char>) -> Option<PrimitiveView> {
    match binding_frame(frames, name) {
        Some(i) => Some(frames[i][name]),
        None => None,
    }
}

/// The environment with `name` bound to `value` in the innermost frame.
pub open spec fn define(frames: Seq<FrameView>, name: Seq<char>, value: PrimitiveView) -> Seq<
    FrameView,
> {
    if frames.len() == 0 {
        frames
    } else {
        frames.update(frames.len() - 1, frames.last().insert(name, value))
    }
}

/// Why an assignment was refused.
#[derive(Debug, Clone, Copy, PartialEq, Eq, Structural)]
pub enum AssignError {
    /// The variable holds a value of another kind than the new one.
    TypeMismatch,
    /// No frame binds the name.
    UndefinedVariable,
}

/// What an assignment of `value` to `name` answers.
pub open spec fn assign_result(
    frames: Seq<FrameView>,
    name: Seq<char>,
    value: PrimitiveView,
) -> Result<
    (),
    AssignError,
> {
    match binding_frame(frames, name) {
        None => Err(AssignError::UndefinedVariable),
        Some(i) => if frames[i][name].kind() == value.kind() {
            Ok(())
        } else {
            Err(AssignError::TypeMismatch)
        },
    }
}

/// The environment after an assignment of `value` to `name`: where the
/// assignment is accepted, the innermost frame that binds `name` binds it to
/// `value`; where it is refused, nothing changes.
pub open spec fn assign(frames: Seq<FrameView>, name: Seq<char>, value: PrimitiveView) -> Seq<
    FrameView,
> {
    match binding_frame(frames, name) {
        Some(i) if frames[i][name].kind() == value.kind() => frames.update(
            i,
            frames[i].insert(name, value),
        ),
        _ => frames,
    }
}

/// The innermost frame that binds a name is a frame of the environment, it
/// binds the name, and no frame inside it does. Where no frame is found, none
/// binds the name.
pub proof fn lemma_binding_frame(frames: Seq<FrameView>, name: Seq<char>)
    ensures
        match binding_frame(frames, name) {
            Some(i) => {
                &&& 0 <= i < frames.len()
                &&& frames[i].contains_key(name)
                &&& forall|j: int| i < j < frames.len() ==> !frames[j].contains_key(name)
            },
            None => forall|j: int| 0 <= j < frames.len() ==> !frames[j].contains_key(name),
        },
    decreases frames.len(),
{
    if frames.len() > 0 && !frames.last().contains_key(name) {
        let rest = frames.drop_last();
        lemma_binding_frame(rest, name);
        assert(forall|j: int| 0 <= j < rest.len() ==> rest[j] == frames[j]);
    }
}

/// Frames that do not bind a name do not matter to where it is found.
proof fn lemma_binding_frame_skip(frames: Seq<FrameView>, name: Seq<char>, i: int)
    requires
        0 <= i <= frames.len(),
        forall|j: int| i <= j < frames.len() ==> !frames[j].contains_key(name),
    ensures
        binding_frame(frames, name) == binding_frame(frames.subrange(0, i), name),
    decreases frames.len() - i,
{
    if i == frames.len() {
        assert(frames.subrange(0, i) =~= frames);
    } else {
        lemma_binding_frame_skip(frames.drop_last(), name, i);
        assert(frames.drop_last().subrange(0, i) =~= frames.subrange(0, i));
    }
}

/// An environment: binding frames from the global one to the innermost.
pub struct Scope(Vec<FxHashMap<String, Primitive>>);

impl View for Scope {
    type V = Seq<FrameView>;

    closed spec fn view(&self) -> Seq<FrameView> {
        Seq::new(self.0.len() as nat, |i: int| frame_bindings(self.0[i]))
    }
}

impl Scope {
    /// An environment of one empty frame, the global one.
    pub fn new() -> (scope: Scope)
        ensures
            scope@ == seq![empty_frame()],
    {
        let mut frames: Vec<FxHashMap<String, Primitive>> = Vec::new();
        frames.push(frame_new());
        let scope = Scope(frames);
        assert(scope@ =~= seq![empty_frame()]);
        scope
    }

    /// Enters a scope: pushes an empty frame.
    pub fn create(&mut self)
        ensures
            final(self)@ == old(self)@.push(empty_frame()),
    {
        self.0.push(frame_new());
        assert(self@ =~= old(self)@.push(empty_frame()));
    }

    /// Leaves a scope: drops the innermost frame and its bindings.
    pub fn delete(&mut self)
        requires
            old(self)@.len() > 0,
        ensures
            final(self)@ == old(self)@.drop_last(),
    {
        self.0.pop();
        assert(self@ =~= old(self)@.drop_last());
    }

    /// Binds `ident` to `value` in the innermost frame, hiding any binding of
    /// the same name in an outer frame and replacing one in the same frame.
    pub fn define(&mut self, ident: Ident, value: Primitive)
        requires
            old(self)@.len() > 0,
        ensures
            final(self)@ == define(old(self)@, ident@, value@),
    {
        let n = self.0.len();
        frame_insert(&mut self.0[n - 1], ident.0, value);
        assert(self@ =~= define(old(self)@, ident@, value@));
    }

    /// The index of the innermost frame that binds `name`.
    fn find(&self, name: &String) -> (found: Option<usize>)
        ensures
            match found {
                Some(i) => {
                    &&& binding_frame(self@, name@) == Some(i as int)
                    &&& i < self.0.len()
                    &&& self@[i as int] == frame_bindings(self.0[i as int])
                    &&& self@[i as int].contains_key(name@)
                },
                None => binding_frame(self@, name@) is None,
            },
    {
        let mut i = self.0.len();
        while i > 0
            invariant
                i <= self.0.len(),
                forall|j: int| i <= j < self.0.len() ==> !self@[j].contains_key(name@),
            decreases i,
        {
            i -= 1;
            if frame_get(&self.0[i], name).is_some() {
                proof {
                    lemma_binding_frame_skip(self@, name@, i + 1);
                    assert(self@.subrange(0, i + 1).last() == self@[i as int]);
                }
                return Some(i);
            }
        }
        proof {
            lemma_binding_frame_skip(self@, name@, 0);
        }
        None
    }

    /// Looks `ident` up from the innermost frame outward and returns a copy of
    /// the first value found.
    pub fn get(&self, ident: &Ident) -> (value: Option<Primitive>)
        ensures
            match value {
                Some(v) => lookup(self@, ident@) == Some(v@),
                None => lookup(self@, ident@) is None,
            },
    {
        match self.find(&ident.0) {
            Some(i) => match frame_get(&self.0[i], &ident.0) {
                Some(v) => Some(v.clone()),
                None => None,
            },
            None => None,
        }
    }

    /// Replaces the value of the innermost binding of `ident` by `value`,
    /// provided that both are of one kind. Binds nothing new.
    pub fn assign(&mut self, ident: &Ident, value: Primitive) -> (res: Result<(), AssignError>)
        ensures
            res == assign_result(old(self)@, ident@, value@),
            final(self)@ == assign(old(self)@, ident@, value@),
            final(self)@.len() == old(self)@.len(),
    {
        match self.find(&ident.0) {
            Some(i) => {
                let same = match frame_get(&self.0[i], &ident.0) {
                    Some(v) => v.kind() == value.kind(),
                    None => false,
                };
                if same {
                    frame_insert(&mut self.0[i], ident.0.clone(), value);
                    assert(self@ =~= assign(old(self)@, ident@, value@));
                    Ok(())
                } else {
                    Err(AssignError::TypeMismatch)
                }
            },
            None => Err(AssignError::UndefinedVariable),
        }
    }

    /// Takes the environment apart for a function call: the global frame on
    /// one side, every other frame on the other. The environment itself is
    /// left without frames until [`Global::reconstruct`] puts them back.
    pub fn create_global(&mut self) -> (global: Global)
        requires
            old(self)@.len() > 0,
        ensures
            final(self)@.len() == 0,
            global.global_view() == old(self)@.subrange(0, 1),
            global.others_view() == old(self)@.subrange(1, old(self)@.len() as int),
    {
        let others = self.0.split_off(1);
        let mut frames: Vec<FxHashMap<String, Primitive>> = Vec::new();
        core::mem::swap(&mut self.0, &mut frames);
        let global = Global { global: Scope(frames), others };
        assert(global.global_view() =~= old(self)@.subrange(0, 1));
        assert(global.others_view() =~= old(self)@.subrange(1, old(self)@.len() as int));
        global
    }
}

/// An environment taken apart for a function call.
pub struct Global {
    global: Scope,
    others: Vec<FxHashMap<String, Primitive>>,
}

impl Global {
    /// The frames that the function's body sees.
    pub closed spec fn global_view(&self) -> Seq<FrameView> {
        self.global@
    }

    /// The caller's frames that were set aside, outermost first.
    pub closed spec fn others_view(&self) -> Seq<FrameView> {
        Seq::new(self.others.len() as nat, |i: int| frame_bindings(self.others[i]))
    }

    /// The environment in which the function's body runs.
    pub fn get_mut(&mut self) -> (scope: &mut Scope)
        ensures
            scope@ == old(self).global_view(),
            final(self).global_view() == final(scope)@,
            final(self).others_view() == old(self).others_view(),
    {
        &mut self.global
    }

    /// Puts the caller's frames back on top of what the call left, in the
    /// order in which they were set aside.
    pub fn reconstruct(self, scope: &mut Scope)
        ensures
            final(scope)@ == self.global_view() + self.others_view(),
    {
        let mut global = self.global;
        let mut others = self.others;
        global.0.append(&mut others);
        *scope = global;
        assert(scope@ =~= self.global_view() + self.others_view());
    }
}

} // verus!
