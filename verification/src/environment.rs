//! The chained lexical environment, held as an arena of frames addressed by
//! stable indices. A frame maps names to values and may link to an
//! enclosing frame; lookup walks outward along those links. A `Function`
//! value stores the index of the frame it captured, so frames live as long
//! as the arena itself and no reference cycles can arise.

use vstd::prelude::*;

use crate::object::{Object, ObjectV};
use crate::strings::str_eq;

verus! {

/// One binding frame: its name-to-value bindings (a later binding for the
/// same name shadows an earlier one) and the index of the enclosing frame,
/// if any.
pub struct Frame {
    pub bindings: Vec<(String, Object)>,
    pub parent: Option<usize>,
}

/// The mathematical value of a frame.
#[verifier::ext_equal]
pub struct FrameV {
    pub bindings: Seq<(Seq<char>, ObjectV)>,
    pub parent: Option<int>,
}

/// The mathematical value of the whole environment: the frames in the order
/// they were created.
pub type EnvV = Seq<FrameV>;

pub open spec fn frame_view(f: Frame) -> FrameV {
    FrameV {
        bindings: f.bindings@.map_values(|b: (String, Object)| (b.0@, b.1@)),
        parent: match f.parent {
            Option::Some(p) => Option::Some(p as int),
            Option::None => Option::None,
        },
    }
}

impl View for Frame {
    type V = FrameV;

    open spec fn view(&self) -> FrameV {
        frame_view(*self)
    }
}

/// The arena of environment frames. Frame 0 is the global frame.
pub struct Env {
    pub frames: Vec<Frame>,
}

impl View for Env {
    type V = EnvV;

    open spec fn view(&self) -> EnvV {
        self.frames@.map_values(|f: Frame| frame_view(f))
    }
}

/// A well-formed environment: every parent link points to an earlier frame,
/// so the chains are finite and cycle-free.
pub open spec fn env_wf(env: EnvV) -> bool {
    forall|i: int|
        0 <= i < env.len() ==> match (#[trigger] env[i]).parent {
            Option::Some(p) => 0 <= p < i,
            Option::None => true,
        }
}

/// The value bound to `name` in one frame's own bindings: the last binding
/// for that name wins.
pub open spec fn lookup_in_frame(bs: Seq<(Seq<char>, ObjectV)>, name: Seq<char>) -> Option<ObjectV>
    decreases bs,
{
    if bs.len() == 0 {
        Option::None
    } else if bs.last().0 == name {
        Option::Some(bs.last().1)
    } else {
        lookup_in_frame(bs.drop_last(), name)
    }
}

/// The value of `name` seen from `frame`: the frame's own bindings first,
/// then the enclosing frames, outward along the parent links.
pub open spec fn env_lookup(env: EnvV, frame: int, name: Seq<char>) -> Option<ObjectV>
    decreases frame,
{
    if !(0 <= frame < env.len()) {
        Option::None
    } else {
        match lookup_in_frame(env[frame].bindings, name) {
            Option::Some(v) => Option::Some(v),
            Option::None => match env[frame].parent {
                Option::Some(p) => if 0 <= p < frame {
                    env_lookup(env, p, name)
                } else {
                    Option::None
                },
                Option::None => Option::None,
            },
        }
    }
}

/// The environment after binding `name` to `val` in `frame` itself.
pub open spec fn env_bind(env: EnvV, frame: int, name: Seq<char>, val: ObjectV) -> EnvV {
    env.update(
        frame,
        FrameV { bindings: env[frame].bindings.push((name, val)), parent: env[frame].parent },
    )
}

/// The frame, seen from `frame` outward, whose own bindings hold `name`.
pub open spec fn env_holder(env: EnvV, frame: int, name: Seq<char>) -> Option<int>
    decreases frame,
{
    if !(0 <= frame < env.len()) {
        Option::None
    } else if lookup_in_frame(env[frame].bindings, name) is Some {
        Option::Some(frame)
    } else {
        match env[frame].parent {
            Option::Some(p) => if 0 <= p < frame {
                env_holder(env, p, name)
            } else {
                Option::None
            },
            Option::None => Option::None,
        }
    }
}

/// The environment after an assignment seen from `frame`: the binding is
/// overwritten in whichever frame already holds the name, or made in
/// `frame` itself when none does.
pub open spec fn env_assign(env: EnvV, frame: int, name: Seq<char>, val: ObjectV) -> EnvV {
    match env_holder(env, frame, name) {
        Option::Some(h) => env_bind(env, h, name, val),
        Option::None => env_bind(env, frame, name, val),
    }
}

impl Env {
    /// A fresh environment: one empty global frame.
    pub fn new() -> (r: Env)
        ensures
            r@.len() == 1,
            r@[0].bindings.len() == 0,
            r@[0].parent is None,
            env_wf(r@),
    {
        let mut frames: Vec<Frame> = Vec::new();
        frames.push(Frame { bindings: Vec::new(), parent: Option::None });
        Env { frames }
    }

    /// Opens a new frame whose lookups fall back to `parent`, and returns
    /// its index.
    pub fn wrap_env(&mut self, parent: usize) -> (idx: usize)
        requires
            parent < old(self)@.len(),
        ensures
            idx == old(self)@.len(),
            final(self)@ == old(self)@.push(
                FrameV { bindings: Seq::empty(), parent: Option::Some(parent as int) },
            ),
            env_wf(old(self)@) ==> env_wf(final(self)@),
    {
        let idx = self.frames.len();
        self.frames.push(Frame { bindings: Vec::new(), parent: Option::Some(parent) });
        proof {
            assert(self@ =~~= old(self)@.push(
                FrameV { bindings: Seq::empty(), parent: Option::Some(parent as int) },
            ));
        }
        idx
    }

    /// Opens a new frame that already holds the given bindings, falling
    /// back to `parent`, and returns its index. A function call builds its
    /// frame this way, with the parameters bound to the arguments.
    pub fn push_frame(&mut self, bindings: Vec<(String, Object)>, parent: usize) -> (idx: usize)
        requires
            parent < old(self)@.len(),
        ensures
            idx == old(self)@.len(),
            final(self)@ == old(self)@.push(
                FrameV {
                    bindings: bindings@.map_values(|b: (String, Object)| (b.0@, b.1@)),
                    parent: Option::Some(parent as int),
                },
            ),
            env_wf(old(self)@) ==> env_wf(final(self)@),
    {
        let idx = self.frames.len();
        let ghost bv = bindings@.map_values(|b: (String, Object)| (b.0@, b.1@));
        self.frames.push(Frame { bindings, parent: Option::Some(parent) });
        proof {
            assert(self@ =~~= old(self)@.push(
                FrameV { bindings: bv, parent: Option::Some(parent as int) },
            ));
        }
        idx
    }

    /// Looks `name` up from `frame`, walking outward through the enclosing
    /// frames; the returned value is a copy of the bound one.
    pub fn get(&self, frame: usize, name: &str) -> (r: Option<Object>)
        requires
            frame < self@.len(),
            env_wf(self@),
        ensures
            match r {
                Option::Some(o) => env_lookup(self@, frame as int, name@) == Option::Some(o@),
                Option::None => env_lookup(self@, frame as int, name@) is None,
            },
        decreases frame,
    {
        let fr = &self.frames[frame];
        let n = fr.bindings.len();
        proof {
            assert(self@[frame as int] == frame_view(self.frames@[frame as int]));
            assert(bs_full_view(&fr.bindings).subrange(0, n as int) =~= bs_full_view(&fr.bindings));
        }
        match Self::get_in_bindings(&fr.bindings, n, name) {
            Option::Some(o) => Option::Some(o),
            Option::None => {
                match fr.parent {
                    Option::Some(p) => self.get(p, name),
                    Option::None => Option::None,
                }
            },
        }
    }

    /// Scans the first `n` bindings of a frame from the newest to the
    /// oldest, returning a copy of the first value bound to `name`.
    fn get_in_bindings(bs: &Vec<(String, Object)>, n: usize, name: &str) -> (r: Option<Object>)
        requires
            n <= bs@.len(),
        ensures
            ({
                let bsv = bs@.map_values(|b: (String, Object)| (b.0@, b.1@)).subrange(0, n as int);
                match r {
                    Option::Some(o) => lookup_in_frame(bsv, name@) == Option::Some(o@),
                    Option::None => lookup_in_frame(bsv, name@) is None,
                }
            }),
        decreases n,
    {
        let ghost bsv = bs@.map_values(|b: (String, Object)| (b.0@, b.1@)).subrange(0, n as int);
        if n == 0 {
            Option::None
        } else {
            let last = &bs[n - 1];
            if str_eq(last.0.as_str(), name) {
                proof {
                    assert(bsv.last() == (last.0@, last.1@));
                }
                Option::Some(last.1.clone())
            } else {
                proof {
                    assert(bsv.last() == (last.0@, last.1@));
                    assert(bsv.drop_last() =~= bs@.map_values(
                        |b: (String, Object)| (b.0@, b.1@),
                    ).subrange(0, n - 1));
                }
                Self::get_in_bindings(bs, n - 1, name)
            }
        }
    }

    /// Binds `name` to `value` in `frame` itself, shadowing any earlier
    /// binding there; frames other than `frame` are untouched.
    pub fn set(&mut self, frame: usize, name: String, value: Object)
        requires
            frame < old(self)@.len(),
        ensures
            final(self)@ == env_bind(old(self)@, frame as int, name@, value@),
            final(self)@.len() == old(self)@.len(),
            env_wf(old(self)@) ==> env_wf(final(self)@),
    {
        let ghost oldv = self@;
        let fr = &mut self.frames[frame];
        fr.bindings.push((name, value));
        proof {
            assert(self@ =~~= env_bind(oldv, frame as int, name@, value@));
        }
    }

    /// Overwrites `name` in whichever frame seen from `frame` already holds
    /// it, or binds it in `frame` when none does, as assignment does.
    pub fn assign(&mut self, frame: usize, name: String, value: Object)
        requires
            frame < old(self)@.len(),
            env_wf(old(self)@),
        ensures
            final(self)@ == env_assign(old(self)@, frame as int, name@, value@),
            final(self)@.len() == old(self)@.len(),
            env_wf(final(self)@),
    {
        let holder = self.find_holder(frame, name.as_str());
        match holder {
            Option::Some(h) => self.set(h, name, value),
            Option::None => self.set(frame, name, value),
        }
    }

    /// The index of the frame, seen from `frame` outward, whose own
    /// bindings hold `name`.
    fn find_holder(&self, frame: usize, name: &str) -> (r: Option<usize>)
        requires
            frame < self@.len(),
            env_wf(self@),
        ensures
            match r {
                Option::Some(h) => {
                    &&& env_holder(self@, frame as int, name@) == Option::Some(h as int)
                    &&& h < self@.len()
                },
                Option::None => env_holder(self@, frame as int, name@) is None,
            },
        decreases frame,
    {
        let fr = &self.frames[frame];
        let n = fr.bindings.len();
        proof {
            assert(self@[frame as int] == frame_view(self.frames@[frame as int]));
            assert(bs_full_view(&fr.bindings).subrange(0, n as int) =~= bs_full_view(&fr.bindings));
        }
        match Self::get_in_bindings(&fr.bindings, n, name) {
            Option::Some(_) => Option::Some(frame),
            Option::None => {
                match fr.parent {
                    Option::Some(p) => self.find_holder(p, name),
                    Option::None => Option::None,
                }
            },
        }
    }
}

/// The view of a whole binding list.
pub open spec fn bs_full_view(bs: &Vec<(String, Object)>) -> Seq<(Seq<char>, ObjectV)> {
    bs@.map_values(|b: (String, Object)| (b.0@, b.1@))
}

/// Shadowing: binding a name in a freshly opened inner frame leaves every
/// existing frame unchanged, and a lookup of that name from the outer frame
/// still sees exactly what it saw before.
pub proof fn lemma_shadowing(env: EnvV, outer: int, name: Seq<char>, val: ObjectV)
    requires
        env_wf(env),
        0 <= outer < env.len(),
    ensures
        ({
            let inner = env.len() as int;
            let opened = env.push(FrameV { bindings: Seq::empty(), parent: Option::Some(outer) });
            let bound = env_bind(opened, inner, name, val);
            &&& forall|i: int| 0 <= i < env.len() ==> bound[i] == env[i]
            &&& env_lookup(bound, outer, name) == env_lookup(env, outer, name)
        }),
{
    let inner = env.len() as int;
    let opened = env.push(FrameV { bindings: Seq::empty(), parent: Option::Some(outer) });
    let bound = env_bind(opened, inner, name, val);
    assert(forall|i: int| 0 <= i < env.len() ==> bound[i] == env[i]);
    lemma_lookup_frames_agree(env, bound, outer, name);
}

/// Lookup from a frame depends only on the frames at or below it, so two
/// environments that agree on those frames agree on the lookup.
proof fn lemma_lookup_frames_agree(e1: EnvV, e2: EnvV, frame: int, name: Seq<char>)
    requires
        0 <= frame < e1.len(),
        frame < e2.len(),
        forall|i: int| 0 <= i <= frame ==> e1[i] == e2[i],
    ensures
        env_lookup(e1, frame, name) == env_lookup(e2, frame, name),
    decreases frame,
{
    match lookup_in_frame(e1[frame].bindings, name) {
        Option::Some(_) => {},
        Option::None => {
            match e1[frame].parent {
                Option::Some(p) => {
                    if 0 <= p < frame {
                        lemma_lookup_frames_agree(e1, e2, p, name);
                    }
                },
                Option::None => {},
            }
        },
    }
}

} // verus!
