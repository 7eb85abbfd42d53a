use vstd::hash_map::StringHashMap;
use vstd::prelude::*;

use super::{MalVal, NativeFn, Value};

verus! {

/// A handle on one frame of a [`Frames`] arena.
///
/// A handle that names no frame of the arena it is used with stands for an empty scope:
/// nothing is found through it and nothing is written through it.
#[derive(Debug, Clone, Copy, PartialEq, Eq)]
pub struct Environment(pub(crate) usize);

impl View for Environment {
    type V = nat;

    closed spec fn view(&self) -> nat {
        self.0 as nat
    }
}

impl Environment {
    /// The place in the arena of the frame that this handle names.
    pub(crate) fn index(&self) -> (index: usize)
        ensures
            index == self@,
    {
        self.0
    }
}

/// The model of one frame: its enclosing frame, its registry of native names, its bindings.
pub struct FrameView {
    pub parent: Option<nat>,
    pub builtin: Map<Seq<char>, NativeFn>,
    pub data: Map<Seq<char>, Value>,
}

/// What a name resolves to.
pub enum EnvVal {
    NativeFn(NativeFn),
    Val(MalVal),
}

/// The model of an [`EnvVal`].
pub enum EnvValView {
    NativeFn(NativeFn),
    Val(Value),
}

impl View for EnvVal {
    type V = EnvValView;

    open spec fn view(&self) -> EnvValView {
        match self {
            EnvVal::NativeFn(f) => EnvValView::NativeFn(*f),
            EnvVal::Val(v) => EnvValView::Val(v@),
        }
    }
}

impl Clone for EnvVal {
    fn clone(&self) -> (r: Self)
        ensures
            r@ == self@,
    {
        match self {
            EnvVal::NativeFn(f) => EnvVal::NativeFn(*f),
            EnvVal::Val(v) => EnvVal::Val(v.duplicate()),
        }
    }
}

/// The nearest frame, from `at` outwards, whose bindings hold `name`.
pub open spec fn value_frame(s: Seq<FrameView>, at: nat, name: Seq<char>) -> Option<nat>
    decreases at,
{
    if at >= s.len() {
        None
    } else if s[at as int].data.contains_key(name) {
        Some(at)
    } else {
        match s[at as int].parent {
            Some(p) => if p < at {
                value_frame(s, p, name)
            } else {
                None
            },
            None => None,
        }
    }
}

/// The nearest frame, from `at` outwards, whose registry holds `name`.
pub open spec fn native_frame(s: Seq<FrameView>, at: nat, name: Seq<char>) -> Option<nat>
    decreases at,
{
    if at >= s.len() {
        None
    } else if s[at as int].builtin.contains_key(name) {
        Some(at)
    } else {
        match s[at as int].parent {
            Some(p) => if p < at {
                native_frame(s, p, name)
            } else {
                None
            },
            None => None,
        }
    }
}

/// The frame that answers for `name`: the nearest one that binds it, and only where no
/// frame binds it, the nearest one whose registry holds it.
pub open spec fn find_frame(s: Seq<FrameView>, at: nat, name: Seq<char>) -> Option<nat> {
    match value_frame(s, at, name) {
        Some(f) => Some(f),
        None => native_frame(s, at, name),
    }
}

/// The native function that `name` stands for, seen from frame `at`.
pub open spec fn native(s: Seq<FrameView>, at: nat, name: Seq<char>) -> Option<NativeFn> {
    match native_frame(s, at, name) {
        Some(f) => Some(s[f as int].builtin[name]),
        None => None,
    }
}

/// What `name` resolves to, seen from frame `at`: a bound value before a native function.
pub open spec fn lookup(s: Seq<FrameView>, at: nat, name: Seq<char>) -> Option<EnvValView> {
    match value_frame(s, at, name) {
        Some(f) => Some(EnvValView::Val(s[f as int].data[name])),
        None => match native(s, at, name) {
            Some(f) => Some(EnvValView::NativeFn(f)),
            None => None,
        },
    }
}

/// The arena after `name` is bound to `v` in frame `at`, and in no other.
pub open spec fn define(s: Seq<FrameView>, at: nat, name: Seq<char>, v: Value) -> Seq<FrameView> {
    if at < s.len() {
        s.update(
            at as int,
            FrameView {
                parent: s[at as int].parent,
                builtin: s[at as int].builtin,
                data: s[at as int].data.insert(name, v),
            },
        )
    } else {
        s
    }
}

/// The arena after a frame without bindings is added at its end. The new frame has
/// `parent` as its enclosing frame where that names a frame of the arena.
pub open spec fn with_frame(
    s: Seq<FrameView>,
    parent: Option<nat>,
    builtin: Map<Seq<char>, NativeFn>,
) -> Seq<FrameView> {
    s.push(
        FrameView {
            parent: match parent {
                Some(p) => if p < s.len() {
                    Some(p)
                } else {
                    None
                },
                None => None,
            },
            builtin,
            data: Map::empty(),
        },
    )
}

/// The arena after a child of `parent` is added: a frame with no bindings and no registry.
pub open spec fn with_child(s: Seq<FrameView>, parent: nat) -> Seq<FrameView> {
    with_frame(s, Some(parent), Map::empty())
}

/// A name resolves from a frame itself or from an older one.
pub proof fn lemma_found_at_or_before(s: Seq<FrameView>, at: nat, name: Seq<char>)
    ensures
        value_frame(s, at, name) matches Some(f) ==> f <= at && f < s.len()
            && s[f as int].data.contains_key(name),
        native_frame(s, at, name) matches Some(f) ==> f <= at && f < s.len()
            && s[f as int].builtin.contains_key(name),
    decreases at,
{
    if at < s.len() {
        match s[at as int].parent {
            Some(p) => {
                if p < at {
                    lemma_found_at_or_before(s, p, name);
                }
            },
            None => {},
        }
    }
}

/// Binding reaches no older frame: after a name is bound in frame `at`, every name
/// resolves from an older frame to what it resolved to before.
pub proof fn law_define_is_local(
    s: Seq<FrameView>,
    at: nat,
    name: Seq<char>,
    v: Value,
    from: nat,
    other: Seq<char>,
)
    requires
        from < at,
    ensures
        lookup(define(s, at, name, v), from, other) == lookup(s, from, other),
        find_frame(define(s, at, name, v), from, other) == find_frame(s, from, other),
    decreases from,
{
    if from < s.len() {
        match s[from as int].parent {
            Some(p) => {
                if p < from {
                    law_define_is_local(s, at, name, v, p, other);
                }
            },
            None => {},
        }
    }
}

/// Binding one name leaves the others alone: after `name` is bound, any other name
/// resolves from any frame to what it resolved to before.
pub proof fn law_define_keeps_other_names(
    s: Seq<FrameView>,
    at: nat,
    name: Seq<char>,
    v: Value,
    from: nat,
    other: Seq<char>,
)
    requires
        other != name,
    ensures
        lookup(define(s, at, name, v), from, other) == lookup(s, from, other),
        find_frame(define(s, at, name, v), from, other) == find_frame(s, from, other),
    decreases from,
{
    if from < s.len() {
        match s[from as int].parent {
            Some(p) => {
                if p < from {
                    law_define_keeps_other_names(s, at, name, v, p, other);
                }
            },
            None => {},
        }
    }
}

/// A name resolves to what it was last bound to: after `name` is bound to `v` in a
/// frame of the arena, it resolves from that frame to `v`, and that frame answers for it.
pub proof fn law_define_then_lookup(s: Seq<FrameView>, at: nat, name: Seq<char>, v: Value)
    requires
        at < s.len(),
    ensures
        lookup(define(s, at, name, v), at, name) == Some(EnvValView::Val(v)),
        find_frame(define(s, at, name, v), at, name) == Some(at),
{
}

/// A child delegates to its parent: a name resolves from a new child of a frame of the
/// arena to what it resolves to from that frame.
pub proof fn law_child_delegates(s: Seq<FrameView>, parent: nat, name: Seq<char>)
    requires
        parent < s.len(),
    ensures
        lookup(with_child(s, parent), s.len(), name) == lookup(s, parent, name),
        find_frame(with_child(s, parent), s.len(), name) == find_frame(s, parent, name),
{
    lemma_same_before(s, with_child(s, parent), parent, name);
}

/// What a name resolves to from a frame depends on that frame and the older ones only.
pub proof fn lemma_same_before(s: Seq<FrameView>, t: Seq<FrameView>, at: nat, name: Seq<char>)
    requires
        at < s.len() <= t.len(),
        forall|i: int| 0 <= i <= at ==> #[trigger] t[i] == s[i],
    ensures
        value_frame(t, at, name) == value_frame(s, at, name),
        native_frame(t, at, name) == native_frame(s, at, name),
        native(t, at, name) == native(s, at, name),
        find_frame(t, at, name) == find_frame(s, at, name),
        lookup(t, at, name) == lookup(s, at, name),
    decreases at,
{
    match s[at as int].parent {
        Some(p) => {
            if p < at {
                lemma_same_before(s, t, p, name);
            }
        },
        None => {},
    }
    lemma_found_at_or_before(s, at, name);
}

/// One scope level: the link to the enclosing frame, the registry, the bindings.
struct Frame {
    parent: Option<usize>,
    builtin: StringHashMap<NativeFn>,
    data: StringHashMap<MalVal>,
}

/// The arena that owns every frame. Frames are only ever added, and a frame's enclosing
/// frame is an older one: a link that points anywhere else is not followed.
pub struct Frames {
    frames: Vec<Frame>,
}

impl View for Frames {
    type V = Seq<FrameView>;

    closed spec fn view(&self) -> Seq<FrameView> {
        Seq::new(
            self.frames@.len(),
            |i: int|
                FrameView {
                    parent: match self.frames@[i].parent {
                        Some(p) => Some(p as nat),
                        None => None,
                    },
                    builtin: self.frames@[i].builtin@,
                    data: self.frames@[i].data@.map_values(|v: MalVal| v@),
                },
        )
    }
}

impl Frames {
    /// An arena without frames.
    pub fn new() -> (frames: Frames)
        ensures
            frames@ == Seq::<FrameView>::empty(),
    {
        let frames = Frames { frames: Vec::new() };
        assert(frames@ =~= Seq::<FrameView>::empty());
        frames
    }

    /// The number of frames.
    pub fn len(&self) -> (n: usize)
        ensures
            n == self@.len(),
    {
        self.frames.len()
    }

    /// The nearest frame, from `at` outwards, that binds `name`.
    fn value_holder(&self, at: usize, name: &str) -> (r: Option<usize>)
        ensures
            match r {
                Some(f) => {
                    &&& f < self.frames@.len()
                    &&& self.frames@[f as int].data@.contains_key(name@)
                    &&& value_frame(self@, at as nat, name@) == Some(f as nat)
                },
                None => value_frame(self@, at as nat, name@) is None,
            },
    {
        let mut cur = at;
        while cur < self.frames.len()
            invariant
                value_frame(self@, cur as nat, name@) == value_frame(self@, at as nat, name@),
            decreases cur,
        {
            if self.frames[cur].data.contains_key(name) {
                return Some(cur);
            }
            match self.frames[cur].parent {
                Some(p) => {
                    if p < cur {
                        cur = p;
                    } else {
                        return None;
                    }
                },
                None => {
                    return None;
                },
            }
        }
        None
    }

    /// The nearest frame, from `at` outwards, whose registry holds `name`.
    fn native_holder(&self, at: usize, name: &str) -> (r: Option<usize>)
        ensures
            match r {
                Some(f) => {
                    &&& f < self.frames@.len()
                    &&& self.frames@[f as int].builtin@.contains_key(name@)
                    &&& native_frame(self@, at as nat, name@) == Some(f as nat)
                },
                None => native_frame(self@, at as nat, name@) is None,
            },
    {
        let mut cur = at;
        while cur < self.frames.len()
            invariant
                native_frame(self@, cur as nat, name@) == native_frame(self@, at as nat, name@),
            decreases cur,
        {
            if self.frames[cur].builtin.contains_key(name) {
                return Some(cur);
            }
            match self.frames[cur].parent {
                Some(p) => {
                    if p < cur {
                        cur = p;
                    } else {
                        return None;
                    }
                },
                None => {
                    return None;
                },
            }
        }
        None
    }
}

impl Environment {
    /// Binds `sym_name` to `val` in this frame, over any earlier binding of the name there.
    pub fn set(&self, frames: &mut Frames, sym_name: String, val: MalVal)
        ensures
            final(frames)@ == define(old(frames)@, self@, sym_name@, val@),
    {
        if self.0 < frames.frames.len() {
            frames.frames[self.0].data.insert(sym_name, val);
            assert(frames@ =~= define(old(frames)@, self@, sym_name@, val@)) by {
                let f = |v: MalVal| v@;
                assert(frames.frames@[self.0 as int].data@.map_values(f) =~= old(
                    frames,
                ).frames@[self.0 as int].data@.map_values(f).insert(sym_name@, val@));
            }
        }
    }

    /// What `sym_name` resolves to from this frame.
    pub fn get(&self, frames: &Frames, sym_name: &str) -> (r: Option<EnvVal>)
        ensures
            match r {
                Some(v) => lookup(frames@, self@, sym_name@) == Some(v@),
                None => lookup(frames@, self@, sym_name@) is None,
            },
    {
        match frames.value_holder(self.0, sym_name) {
            Some(f) => {
                match frames.frames[f].data.get(sym_name) {
                    Some(v) => Some(EnvVal::Val(v.duplicate())),
                    None => None,
                }
            },
            None => match frames.native_holder(self.0, sym_name) {
                Some(f) => {
                    match frames.frames[f].builtin.get(sym_name) {
                        Some(native) => Some(EnvVal::NativeFn(*native)),
                        None => None,
                    }
                },
                None => None,
            },
        }
    }

    /// The native function that `sym_name` stands for in the registries seen from this frame.
    pub fn get_native(&self, frames: &Frames, sym_name: &str) -> (r: Option<NativeFn>)
        ensures
            r == native(frames@, self@, sym_name@),
    {
        match frames.native_holder(self.0, sym_name) {
            Some(f) => {
                match frames.frames[f].builtin.get(sym_name) {
                    Some(native) => Some(*native),
                    None => None,
                }
            },
            None => None,
        }
    }

    /// The frame that answers for `sym_name`, seen from this frame.
    pub fn find(&self, frames: &Frames, sym_name: &str) -> (r: Option<Environment>)
        ensures
            match r {
                Some(e) => find_frame(frames@, self@, sym_name@) == Some(e@),
                None => find_frame(frames@, self@, sym_name@) is None,
            },
    {
        match frames.value_holder(self.0, sym_name) {
            Some(f) => Some(Environment(f)),
            None => match frames.native_holder(self.0, sym_name) {
                Some(f) => Some(Environment(f)),
                None => None,
            },
        }
    }
}

/// Collects what a new frame starts with: its enclosing frame and its registry.
pub struct EnvironmentBuilder {
    parent: Option<Environment>,
    builtin: StringHashMap<NativeFn>,
}

impl EnvironmentBuilder {
    /// The enclosing frame that the new frame is asked to have.
    pub closed spec fn parent(&self) -> Option<nat> {
        match self.parent {
            Some(p) => Some(p@),
            None => None,
        }
    }

    /// The registry that the new frame will have.
    pub closed spec fn builtins(&self) -> Map<Seq<char>, NativeFn> {
        self.builtin@
    }

    /// A builder for a frame with no enclosing frame and an empty registry.
    pub fn new() -> (r: Self)
        ensures
            r.parent() is None,
            r.builtins() == Map::<Seq<char>, NativeFn>::empty(),
    {
        EnvironmentBuilder { parent: None, builtin: StringHashMap::new() }
    }

    /// Asks for `env` as the enclosing frame.
    pub fn with_parent(self, env: &Environment) -> (r: Self)
        ensures
            r.parent() == Some(env@),
            r.builtins() == self.builtins(),
    {
        EnvironmentBuilder { parent: Some(*env), builtin: self.builtin }
    }

    /// Adds the names of `fs` to the registry; a name already there takes its new meaning.
    pub fn with_builtins(self, fs: StringHashMap<NativeFn>) -> (r: Self)
        ensures
            r.parent() == self.parent(),
            r.builtins() == self.builtins().union_prefer_right(fs@),
    {
        let mut builtin = self.builtin;
        builtin.union_prefer_right(fs);
        EnvironmentBuilder { parent: self.parent, builtin }
    }

    /// Adds the frame to the arena and hands out its handle.
    pub fn build(self, frames: &mut Frames) -> (env: Environment)
        ensures
            env@ == old(frames)@.len(),
            final(frames)@ == with_frame(old(frames)@, self.parent(), self.builtins()),
    {
        let at = frames.frames.len();
        let parent = match self.parent {
            Some(p) => if p.0 < at {
                Some(p.0)
            } else {
                None
            },
            None => None,
        };
        frames.frames.push(Frame { parent, builtin: self.builtin, data: StringHashMap::new() });
        assert(frames@ =~= with_frame(old(frames)@, self.parent(), self.builtins())) by {
            let f = |v: MalVal| v@;
            assert(Map::<Seq<char>, MalVal>::empty().map_values(f) =~= Map::<
                Seq<char>,
                Value,
            >::empty());
        }
        Environment(at)
    }
}

} // verus!
