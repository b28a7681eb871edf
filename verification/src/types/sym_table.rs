//! The scope engine: a stack of frames, searched from the innermost outward.
//!
//! The same table serves typechecking, where a name is bound to its type, and
//! evaluation, where it is bound to its value.
use std::collections::VecDeque;
use vstd::prelude::*;
use crate::ast::{Ast, AstView};
use crate::ast::check::{declare_type_in, lookup_typedef, typedef_frames};
use crate::ast::view::asts_view;
use crate::errors::{NameErrorKind, ZError, ZErrorView};
use crate::types::name_map::NameMap;
use crate::types::position::Span;
use crate::types::typeobj::{Type, TypeView};
use crate::types::value::Value;

verus! {

/// What a frame lets an inner scope see.
#[derive(Clone, Copy, Debug, PartialEq, Eq, Structural)]
pub enum FrameType {
    /// An ordinary lexical scope.
    Normal,
    /// Program-level constants: always visible, never assignable.
    Constants,
    /// The scope of a function body: it hides the caller's ordinary scopes.
    Function,
}

/// Where a frame was entered from, for diagnostics.
#[derive(Debug)]
pub struct FrameData<T> {
    pub pos: Option<Span>,
    pub raw_call: String,
    pub args: NameMap<T>,
}

pub struct FrameDataView<V> {
    pub pos: Option<Span>,
    pub raw_call: Seq<char>,
    pub args: Map<Seq<char>, V>,
}

impl<T: View> View for FrameData<T> {
    type V = FrameDataView<T::V>;

    open spec fn view(&self) -> FrameDataView<T::V> {
        FrameDataView { pos: self.pos, raw_call: self.raw_call@, args: self.args@ }
    }
}

/// One lexical scope.
#[derive(Debug)]
pub struct Frame<T> {
    pub heap: NameMap<T>,
    pub defer: Vec<Ast>,
    pub frame_data: Option<FrameData<T>>,
    pub typedefs: NameMap<Type>,
    pub ty: FrameType,
}

pub struct FrameView<V> {
    pub heap: Map<Seq<char>, V>,
    pub defer: Seq<AstView>,
    pub frame_data: Option<FrameDataView<V>>,
    pub typedefs: Map<Seq<char>, TypeView>,
    pub ty: FrameType,
}

pub open spec fn frame_data_view<T: View>(d: Option<FrameData<T>>) -> Option<FrameDataView<T::V>> {
    match d {
        Some(d) => Some(d@),
        None => None,
    }
}

pub open spec fn frame_data_wf<T: View>(d: Option<FrameData<T>>) -> bool {
    match d {
        Some(d) => d.args.wf(),
        None => true,
    }
}

impl<T: View> View for Frame<T> {
    type V = FrameView<T::V>;

    open spec fn view(&self) -> FrameView<T::V> {
        FrameView {
            heap: self.heap@,
            defer: asts_view(self.defer@),
            frame_data: frame_data_view(self.frame_data),
            typedefs: self.typedefs@,
            ty: self.ty,
        }
    }
}

impl<T: View> Frame<T> {
    pub open spec fn wf(&self) -> bool {
        self.heap.wf() && self.typedefs.wf() && frame_data_wf(self.frame_data)
    }
}

/// An empty frame of kind `ty`.
pub open spec fn empty_frame<V>(data: Option<FrameDataView<V>>, ty: FrameType) -> FrameView<V> {
    FrameView {
        heap: Map::empty(),
        defer: Seq::empty(),
        frame_data: data,
        typedefs: Map::empty(),
        ty,
    }
}

/// The table with a new innermost frame.
pub open spec fn push_frame<V>(
    frames: Seq<FrameView<V>>,
    data: Option<FrameDataView<V>>,
    ty: FrameType,
) -> Seq<FrameView<V>> {
    seq![empty_frame(data, ty)] + frames
}

/// The table without its innermost frame.
pub open spec fn drop_frame<V>(frames: Seq<FrameView<V>>) -> Seq<FrameView<V>> {
    frames.subrange(1, frames.len() as int)
}

/// Whether a function frame lies strictly inside frame `i`.
pub open spec fn crossed_before<V>(frames: Seq<FrameView<V>>, i: int) -> bool {
    exists|j: int| 0 <= j < i && (#[trigger] frames[j]).ty == FrameType::Function
}

/// Frame `i` can be seen from the innermost frame: no function frame lies
/// between them, or it is a frame of constants.
pub open spec fn visible<V>(frames: Seq<FrameView<V>>, i: int) -> bool {
    0 <= i < frames.len() && (frames[i].ty == FrameType::Constants || !crossed_before(frames, i))
}

/// Frame `i` can be seen and binds `name`.
pub open spec fn binds<V>(frames: Seq<FrameView<V>>, name: Seq<char>, i: int) -> bool {
    visible(frames, i) && frames[i].heap.contains_key(name)
}

/// Frame `i` is the innermost frame that can be seen and binds `name`.
pub open spec fn resolves_at<V>(frames: Seq<FrameView<V>>, name: Seq<char>, i: int) -> bool {
    binds(frames, name, i) && forall|j: int| 0 <= j < i ==> !binds(frames, name, j)
}

/// The frame in which a use of `name` finds its binding.
pub open spec fn resolve<V>(frames: Seq<FrameView<V>>, name: Seq<char>) -> Option<int> {
    if exists|i: int| resolves_at(frames, name, i) {
        Some(choose|i: int| resolves_at(frames, name, i))
    } else {
        None
    }
}

/// What `name` is bound to, as seen from the innermost frame.
pub open spec fn lookup<V>(frames: Seq<FrameView<V>>, name: Seq<char>) -> Option<V> {
    match resolve(frames, name) {
        Some(i) => Some(frames[i].heap[name]),
        None => None,
    }
}

/// The table after `name` is bound to `v` in the innermost frame.
pub open spec fn declare_in<V>(frames: Seq<FrameView<V>>, name: Seq<char>, v: V) -> Seq<
    FrameView<V>,
> {
    frames.update(0, FrameView { heap: frames[0].heap.insert(name, v), ..frames[0] })
}

/// The table after `name` is given the new value `v` where it is bound, or
/// why that cannot be done.
pub open spec fn assign_in<V>(frames: Seq<FrameView<V>>, name: Seq<char>, v: V) -> Result<
    Seq<FrameView<V>>,
    NameErrorKind,
> {
    match resolve(frames, name) {
        Some(i) => if frames[i].ty == FrameType::Constants {
            Err(NameErrorKind::Immutable)
        } else {
            Ok(frames.update(i, FrameView { heap: frames[i].heap.insert(name, v), ..frames[i] }))
        },
        None => Err(NameErrorKind::Undeclared),
    }
}

/// The table after `name` is taken out of the innermost frame. Outer frames
/// are not searched.
pub open spec fn delete_in<V>(frames: Seq<FrameView<V>>, name: Seq<char>) -> Option<
    Seq<FrameView<V>>,
> {
    if frames.len() > 0 && frames[0].heap.contains_key(name) {
        Some(frames.update(0, FrameView { heap: frames[0].heap.remove(name), ..frames[0] }))
    } else {
        None
    }
}

/// The table after `content` is registered to run when the innermost frame is popped.
pub open spec fn defer_in<V>(frames: Seq<FrameView<V>>, content: AstView) -> Seq<FrameView<V>> {
    frames.update(0, FrameView { defer: frames[0].defer.push(content), ..frames[0] })
}

/// A name resolves in at most one frame.
pub proof fn lemma_resolve_unique<V>(frames: Seq<FrameView<V>>, name: Seq<char>, i: int)
    requires
        resolves_at(frames, name, i),
    ensures
        resolve(frames, name) == Some(i),
{
    let k = choose|k: int| resolves_at(frames, name, k);
    if k < i {
        assert(!binds(frames, name, k));
    }
    if i < k {
        assert(!binds(frames, name, i));
    }
}

/// A name that no visible frame binds does not resolve.
pub proof fn lemma_resolve_none<V>(frames: Seq<FrameView<V>>, name: Seq<char>)
    requires
        forall|j: int| 0 <= j < frames.len() ==> !binds(frames, name, j),
    ensures
        resolve(frames, name) is None,
{
    if exists|i: int| resolves_at(frames, name, i) {
        let i = choose|i: int| resolves_at(frames, name, i);
        assert(binds(frames, name, i));
    }
}

/// A binding made in the innermost frame is gone once that frame is dropped:
/// the table is as if the declaration had never been made, so the name
/// resolves, if at all, only to what outer frames bind.
pub proof fn lemma_declared_name_leaves_with_frame<V>(
    frames: Seq<FrameView<V>>,
    name: Seq<char>,
    v: V,
)
    requires
        frames.len() >= 1,
    ensures
        drop_frame(declare_in(frames, name, v)) == drop_frame(frames),
        (forall|j: int| 0 <= j < frames.len() - 1 ==> !binds(drop_frame(frames), name, j)) ==> lookup(
            drop_frame(declare_in(frames, name, v)),
            name,
        ) is None,
{
    assert(drop_frame(declare_in(frames, name, v)) =~= drop_frame(frames));
    if forall|j: int| 0 <= j < frames.len() - 1 ==> !binds(drop_frame(frames), name, j) {
        lemma_resolve_none(drop_frame(frames), name);
    }
}

/// Assigning to a name whose visible bindings all lie in frames of constants
/// fails with an immutability error.
pub proof fn lemma_constants_are_immutable<V>(frames: Seq<FrameView<V>>, name: Seq<char>, v: V)
    requires
        exists|i: int| binds(frames, name, i),
        forall|i: int| binds(frames, name, i) ==> frames[i].ty == FrameType::Constants,
    ensures
        assign_in(frames, name, v) == Err::<Seq<FrameView<V>>, _>(NameErrorKind::Immutable),
{
    lemma_resolve_some(frames, name);
    let i = resolve(frames, name)->0;
    assert(resolves_at(frames, name, i));
}

/// A name that some visible frame binds resolves.
pub proof fn lemma_resolve_some<V>(frames: Seq<FrameView<V>>, name: Seq<char>)
    requires
        exists|i: int| binds(frames, name, i),
    ensures
        resolve(frames, name) is Some,
        resolves_at(frames, name, resolve(frames, name)->0),
{
    let i = choose|i: int| binds(frames, name, i);
    lemma_first_binding(frames, name, i);
}

proof fn lemma_first_binding<V>(frames: Seq<FrameView<V>>, name: Seq<char>, i: int)
    requires
        binds(frames, name, i),
    ensures
        exists|k: int| resolves_at(frames, name, k),
    decreases i,
{
    if exists|j: int| 0 <= j < i && binds(frames, name, j) {
        let j = choose|j: int| 0 <= j < i && binds(frames, name, j);
        lemma_first_binding(frames, name, j);
    } else {
        assert(resolves_at(frames, name, i));
    }
}

/// The closure boundary. Seen from inside a function frame `f`, a name that
/// is bound only outside of it and only in ordinary frames cannot be reached.
pub proof fn lemma_function_hides_locals<V>(frames: Seq<FrameView<V>>, f: int, name: Seq<char>)
    requires
        0 <= f < frames.len(),
        frames[f].ty == FrameType::Function,
        forall|j: int| 0 <= j <= f ==> !(#[trigger] frames[j]).heap.contains_key(name),
        forall|j: int|
            f < j < frames.len() && (#[trigger] frames[j]).heap.contains_key(name) ==> frames[j].ty
                != FrameType::Constants,
    ensures
        lookup(frames, name) is None,
{
    assert forall|j: int| 0 <= j < frames.len() implies !binds(frames, name, j) by {
        if j > f && frames[j].heap.contains_key(name) {
            assert(crossed_before(frames, j));
        }
    }
    lemma_resolve_none(frames, name);
}

/// The closure boundary, the other way: seen from inside a function frame
/// `f` that does not itself rebind it, a name bound in a frame of constants
/// `k` outside is reached, and it has the value that the innermost such frame gives it.
pub proof fn lemma_function_sees_constants<V>(
    frames: Seq<FrameView<V>>,
    f: int,
    k: int,
    name: Seq<char>,
)
    requires
        0 <= f < k < frames.len(),
        frames[f].ty == FrameType::Function,
        forall|j: int| 0 <= j <= f ==> !(#[trigger] frames[j]).heap.contains_key(name),
        frames[k].ty == FrameType::Constants,
        frames[k].heap.contains_key(name),
        forall|j: int|
            f < j < k && (#[trigger] frames[j]).heap.contains_key(name) ==> frames[j].ty
                != FrameType::Constants,
    ensures
        lookup(frames, name) == Some(frames[k].heap[name]),
{
    assert forall|j: int| 0 <= j < k implies !binds(frames, name, j) by {
        if j > f && frames[j].heap.contains_key(name) {
            assert(crossed_before(frames, j));
        }
    }
    assert(resolves_at(frames, name, k));
    lemma_resolve_unique(frames, name, k);
}

/// A stack of frames, innermost at the front.
#[derive(Debug)]
pub struct SymTable<T> {
    pub frames: VecDeque<Frame<T>>,
}

impl<T: View> View for SymTable<T> {
    type V = Seq<FrameView<T::V>>;

    open spec fn view(&self) -> Seq<FrameView<T::V>> {
        Seq::new(self.frames@.len(), |i: int| self.frames@[i]@)
    }
}

impl<T: View> SymTable<T> {
    /// Every frame is well formed.
    pub open spec fn frames_wf(&self) -> bool {
        forall|i: int| 0 <= i < self.frames@.len() ==> (#[trigger] self.frames@[i]).wf()
    }

    /// The table holds at least one frame, and every frame is well formed.
    pub open spec fn wf(&self) -> bool {
        self.frames@.len() >= 1 && self.frames_wf()
    }

    /// A table without frames, to be filled by `add_frame`.
    pub fn empty() -> (r: Self)
        ensures
            r.frames_wf(),
            r@ == Seq::<FrameView<T::V>>::empty(),
    {
        let r = SymTable { frames: VecDeque::new() };
        assert(r@ =~= Seq::<FrameView<T::V>>::empty());
        r
    }

    /// The number of frames.
    pub fn depth(&self) -> (r: usize)
        ensures
            r == self@.len(),
    {
        self.frames.len()
    }

    /// Pushes a new, empty innermost frame.
    pub fn add_frame(&mut self, frame_data: Option<FrameData<T>>, ty: FrameType)
        requires
            old(self).frames_wf(),
            frame_data_wf(frame_data),
        ensures
            final(self).wf(),
            final(self)@ == push_frame(old(self)@, frame_data_view(frame_data), ty),
    {
        let frame = Frame {
            heap: NameMap::new(),
            defer: Vec::new(),
            frame_data,
            typedefs: NameMap::new(),
            ty,
        };
        assert(frame@ == empty_frame(frame_data_view(frame_data), ty)) by {
            assert(asts_view(frame.defer@) =~= Seq::<AstView>::empty());
        }
        self.frames.push_front(frame);
        assert(self@ =~= push_frame(old(self)@, frame_data_view(frame_data), ty));
    }

    /// Drops the innermost frame without running what it deferred.
    pub fn discard_frame(&mut self)
        requires
            old(self).wf(),
            old(self)@.len() >= 2,
        ensures
            final(self).wf(),
            final(self)@ == drop_frame(old(self)@),
    {
        let _ = self.frames.pop_front();
        assert(self@ =~= drop_frame(old(self)@));
    }

    /// The index of the frame in which `name` resolves.
    pub fn resolve_frame(&self, name: &String) -> (r: Option<usize>)
        requires
            self.frames_wf(),
        ensures
            match r {
                Some(i) => resolve(self@, name@) == Some(i as int) && i < self@.len(),
                None => resolve(self@, name@) is None,
            },
    {
        let mut crossed = false;
        let mut i: usize = 0;
        while i < self.frames.len()
            invariant
                self.frames_wf(),
                i <= self.frames@.len(),
                crossed == crossed_before(self@, i as int),
                forall|j: int| 0 <= j < i ==> !binds(self@, name@, j),
            decreases self.frames.len() - i,
        {
            let frame = &self.frames[i];
            let is_const = frame.ty == FrameType::Constants;
            assert(self@[i as int] == frame@);
            if (!crossed || is_const) && frame.heap.contains_key(name) {
                proof {
                    assert(binds(self@, name@, i as int));
                    lemma_resolve_unique(self@, name@, i as int);
                }
                return Some(i);
            }
            if frame.ty == FrameType::Function {
                crossed = true;
            }
            proof {
                if crossed_before(self@, i as int + 1) {
                    let j = choose|j: int| 0 <= j < i + 1 && (#[trigger] self@[j]).ty == FrameType::Function;
                    if j < i {
                        assert(crossed_before(self@, i as int));
                    }
                }
                if crossed_before(self@, i as int) {
                    let j = choose|j: int| 0 <= j < i && (#[trigger] self@[j]).ty == FrameType::Function;
                    assert(0 <= j < i + 1 && self@[j].ty == FrameType::Function);
                }
            }
            i += 1;
        }
        proof {
            lemma_resolve_none(self@, name@);
        }
        None
    }

    /// What `name` is bound to in the innermost visible frame that binds it.
    /// Fails with an undeclared-name error where no visible frame binds it.
    pub fn get_val(&self, name: &String, span: Option<Span>) -> (r: Result<&T, ZError>)
        requires
            self.frames_wf(),
        ensures
            match r {
                Ok(v) => lookup(self@, name@) == Some(v@),
                Err(e) => lookup(self@, name@) is None && e@ == (ZErrorView::Name {
                    kind: NameErrorKind::Undeclared,
                    name: name@,
                    span,
                }),
            },
    {
        match self.resolve_frame(name) {
            Some(i) => {
                let frame = &self.frames[i];
                assert(self@[i as int] == frame@);
                assert(binds(self@, name@, i as int)) by {
                    assert(exists|k: int| resolves_at(self@, name@, k));
                }
                match frame.heap.get(name) {
                    Some(v) => Ok(v),
                    None => Err(ZError::undeclared(name.clone(), span)),
                }
            },
            None => Err(ZError::undeclared(name.clone(), span)),
        }
    }

    /// Gives `name` a new value in the innermost visible frame that binds it.
    /// Fails with an undeclared-name error where no visible frame binds it, and
    /// with an immutability error where that frame is a frame of constants.
    pub fn set_val(&mut self, name: &String, value: T, span: Option<Span>) -> (r: Result<
        (),
        ZError,
    >)
        requires
            old(self).frames_wf(),
        ensures
            final(self).frames_wf(),
            final(self)@.len() == old(self)@.len(),
            match r {
                Ok(()) => assign_in(old(self)@, name@, value@) == Ok::<_, NameErrorKind>(
                    final(self)@,
                ),
                Err(e) => final(self)@ == old(self)@ && match assign_in(
                    old(self)@,
                    name@,
                    value@,
                ) {
                    Err(kind) => e@ == (ZErrorView::Name { kind, name: name@, span }),
                    Ok(_) => false,
                },
            },
    {
        match self.resolve_frame(name) {
            Some(i) => {
                if self.frames[i].ty == FrameType::Constants {
                    assert(self@[i as int] == self.frames@[i as int]@);
                    return Err(ZError::immutable(name.clone(), span));
                }
                match self.frames.remove(i) {
                    Some(mut frame) => {
                        assert(old(self)@[i as int] == frame@);
                        frame.heap.insert(name.clone(), value);
                        self.frames.insert(i, frame);
                        assert(self@ =~= assign_in(old(self)@, name@, value@)->Ok_0);
                        Ok(())
                    },
                    None => Ok(()),
                }
            },
            None => Err(ZError::undeclared(name.clone(), span)),
        }
    }

    /// Binds `name` to `value` in the innermost frame.
    pub fn bind(&mut self, name: String, value: T)
        requires
            old(self).wf(),
        ensures
            final(self).wf(),
            final(self)@ == declare_in(old(self)@, name@, value@),
    {
        match self.frames.pop_front() {
            Some(mut frame) => {
                assert(old(self)@[0] == frame@);
                frame.heap.insert(name, value);
                self.frames.push_front(frame);
                assert(self@ =~= declare_in(old(self)@, name@, value@));
            },
            None => {},
        }
    }

    /// Takes `name` out of the innermost frame and hands back what it was
    /// bound to. Outer frames are not searched: where the innermost frame does
    /// not bind `name`, this is an undeclared-name error.
    pub fn delete_val(&mut self, name: &String, span: Option<Span>) -> (r: Result<T, ZError>)
        requires
            old(self).wf(),
        ensures
            final(self).wf(),
            match r {
                Ok(v) => old(self)@[0].heap.contains_key(name@) && v@ == old(self)@[0].heap[name@]
                    && delete_in(old(self)@, name@) == Some(final(self)@),
                Err(e) => !old(self)@[0].heap.contains_key(name@) && final(self)@ == old(self)@
                    && e@ == (ZErrorView::Name {
                    kind: NameErrorKind::Undeclared,
                    name: name@,
                    span,
                }),
            },
    {
        match self.frames.pop_front() {
            Some(mut frame) => {
                assert(old(self)@[0] == frame@);
                let removed = frame.heap.remove(name);
                self.frames.push_front(frame);
                match removed {
                    Some(v) => {
                        assert(self@ =~= delete_in(old(self)@, name@)->0);
                        Ok(v)
                    },
                    None => {
                        assert(self@ =~= old(self)@);
                        Err(ZError::undeclared(name.clone(), span))
                    },
                }
            },
            None => Err(ZError::undeclared(name.clone(), span)),
        }
    }

    /// Registers `content` to run when the innermost frame is popped.
    pub fn add_defer(&mut self, content: Ast)
        requires
            old(self).wf(),
        ensures
            final(self).wf(),
            final(self)@ == defer_in(old(self)@, content@),
    {
        match self.frames.pop_front() {
            Some(mut frame) => {
                assert(old(self)@[0] == frame@);
                frame.defer.push(content);
                assert(asts_view(frame.defer@) =~= old(self)@[0].defer.push(content@));
                self.frames.push_front(frame);
                assert(self@ =~= defer_in(old(self)@, content@));
            },
            None => {},
        }
    }
}

impl<T: View> SymTable<T> {
    /// The type that `name` stands for in the innermost visible frame that
    /// gives it a meaning as a type.
    pub fn get_typedef(&self, name: &String) -> (r: Option<&Type>)
        requires
            self.frames_wf(),
        ensures
            match r {
                Some(t) => lookup_typedef(self@, name@) == Some(t@),
                None => lookup_typedef(self@, name@) is None,
            },
    {
        let ghost defs = typedef_frames(self@);
        let mut crossed = false;
        let mut i: usize = 0;
        while i < self.frames.len()
            invariant
                self.frames_wf(),
                defs == typedef_frames(self@),
                i <= self.frames@.len(),
                crossed == crossed_before(defs, i as int),
                forall|j: int| 0 <= j < i ==> !binds(defs, name@, j),
            decreases self.frames.len() - i,
        {
            let frame = &self.frames[i];
            let is_const = frame.ty == FrameType::Constants;
            assert(self@[i as int] == frame@);
            assert(defs[i as int].ty == frame.ty && defs[i as int].heap == frame.typedefs@);
            if !crossed || is_const {
                match frame.typedefs.get(name) {
                    Some(t) => {
                        proof {
                            assert(binds(defs, name@, i as int));
                            lemma_resolve_unique(defs, name@, i as int);
                        }
                        return Some(t);
                    },
                    None => {},
                }
            }
            if frame.ty == FrameType::Function {
                crossed = true;
            }
            proof {
                if crossed_before(defs, i as int + 1) {
                    let j = choose|j: int| 0 <= j < i + 1 && (#[trigger] defs[j]).ty == FrameType::Function;
                    if j < i {
                        assert(crossed_before(defs, i as int));
                    }
                }
                if crossed_before(defs, i as int) {
                    let j = choose|j: int| 0 <= j < i && (#[trigger] defs[j]).ty == FrameType::Function;
                    assert(0 <= j < i + 1 && defs[j].ty == FrameType::Function);
                }
            }
            i += 1;
        }
        proof {
            lemma_resolve_none(defs, name@);
        }
        None
    }
}

impl SymTable<Type> {
    /// Declares `name` with the type `value` in the innermost frame. A name
    /// declared as a type definition also stands for the instances of it.
    pub fn declare_val(&mut self, name: &String, value: Type)
        requires
            old(self).wf(),
        ensures
            final(self).wf(),
            final(self)@ == declare_type_in(old(self)@, name@, value@),
    {
        proof {
            reveal_with_fuel(crate::ast::view::type_view, 2);
        }
        let instance = match &value {
            Type::Definition(def) => Some(def.get_instance()),
            _ => None,
        };
        match self.frames.pop_front() {
            Some(mut frame) => {
                assert(old(self)@[0] == frame@);
                frame.heap.insert(name.clone(), value);
                match instance {
                    Some(t) => {
                        frame.typedefs.insert(name.clone(), t);
                    },
                    None => {},
                }
                self.frames.push_front(frame);
                assert(self@ =~= declare_type_in(old(self)@, name@, value@));
            },
            None => {},
        }
    }

    /// Pops the innermost frame.
    pub fn pop_frame(&mut self)
        requires
            old(self).wf(),
            old(self)@.len() >= 2,
        ensures
            final(self).wf(),
            final(self)@ == drop_frame(old(self)@),
    {
        self.discard_frame();
    }
}

impl SymTable<Value> {
    /// Binds `name` to `value` in the innermost frame.
    pub fn declare_val(&mut self, name: &String, value: Value)
        requires
            old(self).wf(),
        ensures
            final(self).wf(),
            final(self)@ == declare_in(old(self)@, name@, value@),
    {
        self.bind(name.clone(), value);
    }
}

} // verus!
