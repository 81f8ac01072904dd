use crate::node::{Builtin, Datum, Node};
use vstd::prelude::*;

verus! {

/// The model of one scope frame: each bound name and its value.
pub type Frame = Map<Seq<char>, Datum>;

/// The model of an environment: its frames, outermost first.
pub type Scope = Seq<Frame>;

/// The model of a frame's bindings, kept in the order they were made; a
/// later binding of a name hides an earlier one.
pub open spec fn frame_of(b: Seq<(String, Node)>) -> Frame
    decreases b.len(),
{
    if b.len() == 0 {
        Map::empty()
    } else {
        frame_of(b.drop_last()).insert(b.last().0@, b.last().1@)
    }
}

/// What a name resolves to: its binding in the innermost frame that binds
/// it, searching outward.
pub open spec fn resolve(s: Scope, name: Seq<char>) -> Option<Datum>
    decreases s.len(),
{
    if s.len() == 0 {
        None
    } else if s.last().contains_key(name) {
        Some(s.last()[name])
    } else {
        resolve(s.drop_last(), name)
    }
}

/// The scope with `name` bound to `v` in its innermost frame.
pub open spec fn bind(s: Scope, name: Seq<char>, v: Datum) -> Scope {
    s.update(s.len() - 1, s.last().insert(name, v))
}

/// The scope with the binding of `name` removed from its innermost frame.
pub open spec fn unbind(s: Scope, name: Seq<char>) -> Scope {
    s.update(s.len() - 1, s.last().remove(name))
}

/// A lexical scope chain: a stack of frames, each mapping names to values.
/// Lookup searches the innermost frame first, then each enclosing one.
pub struct Environment {
    frames: Vec<Vec<(String, Node)>>,
}

impl View for Environment {
    type V = Scope;

    closed spec fn view(&self) -> Scope {
        Seq::new(self.frames.len() as nat, |i: int| frame_of(self.frames@[i]@))
    }
}

/// Relies on `str`'s `==`: two texts are equal when their characters are.
#[verifier::external_body]
pub fn same_text(a: &str, b: &str) -> (r: bool)
    ensures
        r == (a@ == b@),
{
    a == b
}

/// The value bound to `name` in a frame's bindings, if any.
fn find_in_frame(frame: &Vec<(String, Node)>, name: &str) -> (r: Option<Node>)
    ensures
        r matches Some(n) ==> frame_of(frame@).contains_key(name@) && frame_of(frame@)[name@] == n@,
        r is None ==> !frame_of(frame@).contains_key(name@),
{
    let mut j: usize = frame.len();
    proof {
        assert(frame@.subrange(0, j as int) =~= frame@);
    }
    while j > 0
        invariant
            j <= frame.len(),
            frame_of(frame@).contains_key(name@) <==> frame_of(frame@.subrange(0, j as int)).contains_key(name@),
            frame_of(frame@).contains_key(name@) ==> frame_of(frame@)[name@] == frame_of(frame@.subrange(0, j as int))[name@],
        decreases j,
    {
        proof {
            assert(frame@.subrange(0, j as int).drop_last() =~= frame@.subrange(0, j - 1));
        }
        if same_text(frame[j - 1].0.as_str(), name) {
            return Some(frame[j - 1].1.duplicate());
        }
        j -= 1;
    }
    proof {
        assert(frame@.subrange(0, 0) =~= Seq::<(String, Node)>::empty());
    }
    None
}

/// Removes every binding of `name` from `b`.
fn without(b: &Vec<(String, Node)>, name: &str) -> (r: Vec<(String, Node)>)
    ensures
        frame_of(r@) == frame_of(b@).remove(name@),
{
    let mut out: Vec<(String, Node)> = Vec::new();
    let mut i: usize = 0;
    while i < b.len()
        invariant
            i <= b.len(),
            frame_of(out@) == frame_of(b@.subrange(0, i as int)).remove(name@),
        decreases b.len() - i,
    {
        let ghost prev = out@;
        proof {
            assert(b@.subrange(0, i + 1).drop_last() =~= b@.subrange(0, i as int));
        }
        if !same_text(b[i].0.as_str(), name) {
            let v = b[i].1.duplicate();
            out.push((b[i].0.clone(), v));
            proof {
                assert(out@.drop_last() =~= prev);
                assert(frame_of(out@) =~= frame_of(b@.subrange(0, i + 1)).remove(name@));
            }
        } else {
            proof {
                assert(frame_of(out@) =~= frame_of(b@.subrange(0, i + 1)).remove(name@));
            }
        }
        i += 1;
    }
    proof {
        assert(b@.subrange(0, i as int) =~= b@);
    }
    out
}

impl Environment {
    /// An environment is well formed when it has at least one frame.
    pub open spec fn wf(&self) -> bool {
        self@.len() > 0
    }

    /// A root environment with one empty frame.
    pub fn new() -> (r: Self)
        ensures
            r@ == seq![Frame::empty()],
            r.wf(),
    {
        let mut frames: Vec<Vec<(String, Node)>> = Vec::new();
        frames.push(Vec::new());
        let r = Environment { frames };
        assert(r@ =~= seq![Frame::empty()]);
        r
    }

    /// A new empty frame whose parent is `parent`.
    pub fn from_parent(parent: Self) -> (r: Self)
        ensures
            r@ == parent@.push(Frame::empty()),
            r.wf(),
    {
        let mut r = parent;
        r.push_frame();
        r
    }

    /// Enters a new, empty innermost frame.
    pub(crate) fn push_frame(&mut self)
        ensures
            final(self)@ == old(self)@.push(Frame::empty()),
    {
        self.frames.push(Vec::new());
        assert(final(self)@ =~= old(self)@.push(Frame::empty()));
    }

    /// Leaves the innermost frame, dropping its bindings.
    pub(crate) fn pop_frame(&mut self)
        requires
            old(self)@.len() > 0,
        ensures
            final(self)@ == old(self)@.drop_last(),
    {
        let _ = self.frames.pop();
        assert(final(self)@ =~= old(self)@.drop_last());
    }

    /// The number of frames.
    pub fn depth(&self) -> (r: usize)
        ensures
            r == self@.len(),
    {
        self.frames.len()
    }

    /// Binds `name` to `value` in the innermost frame.
    pub fn insert(&mut self, name: &str, value: Node)
        requires
            old(self).wf(),
        ensures
            final(self)@ == bind(old(self)@, name@, value@),
    {
        let mut top = self.frames.pop().unwrap();
        let mut fresh = without(&top, name);
        let ghost g = fresh@;
        fresh.push((name.to_owned(), value));
        proof {
            assert(fresh@.drop_last() =~= g);
            assert(frame_of(fresh@) =~= frame_of(top@).insert(name@, value@));
        }
        self.frames.push(fresh);
        proof {
            assert(final(self)@ =~= bind(old(self)@, name@, value@));
        }
    }

    /// Removes the binding of `name` from the innermost frame only.
    pub fn remove(&mut self, name: &str)
        requires
            old(self).wf(),
        ensures
            final(self)@ == unbind(old(self)@, name@),
    {
        let top = self.frames.pop().unwrap();
        let fresh = without(&top, name);
        self.frames.push(fresh);
        proof {
            assert(final(self)@.last() == frame_of(fresh@));
            assert(final(self)@ =~= unbind(old(self)@, name@));
        }
    }

    /// Binds `name` to a native operation.
    pub fn add_function(&mut self, name: &str, function: Builtin)
        requires
            old(self).wf(),
        ensures
            final(self)@ == bind(old(self)@, name@, Datum::Function(function)),
    {
        self.insert(name, Node::Function(function));
    }

    /// Binds `name` to the embedding program's native operation numbered `id`.
    pub fn add_native(&mut self, name: &str, id: u32)
        requires
            old(self).wf(),
        ensures
            final(self)@ == bind(old(self)@, name@, Datum::Function(Builtin::Host(id))),
    {
        self.insert(name, Node::Function(Builtin::Host(id)));
    }

    /// What `name` resolves to.
    pub fn lookup_name(&self, name: &str) -> (r: Option<Node>)
        ensures
            r matches Some(n) ==> resolve(self@, name@) == Some(n@),
            r is None ==> resolve(self@, name@) is None,
    {
        let mut k: usize = self.frames.len();
        proof {
            assert(self@.subrange(0, k as int) =~= self@);
        }
        while k > 0
            invariant
                k <= self.frames.len(),
                resolve(self@, name@) == resolve(self@.subrange(0, k as int), name@),
            decreases k,
        {
            let found = find_in_frame(&self.frames[k - 1], name);
            proof {
                assert(self@.subrange(0, k as int).last() == frame_of(self.frames@[k - 1]@));
                assert(self@.subrange(0, k as int).drop_last() =~= self@.subrange(0, k - 1));
            }
            if found.is_some() {
                return found;
            }
            k -= 1;
        }
        None
    }

    /// What a symbol resolves to; `None` for any other node.
    pub fn lookup(&self, node: &Node) -> (r: Option<Node>)
        ensures
            r matches Some(n) ==> node@ matches Datum::Symbol(name) && resolve(self@, name) == Some(n@),
            r is None ==> !(node@ matches Datum::Symbol(name) && resolve(self@, name) is Some),
    {
        match node {
            Node::Symbol(name) => self.lookup_name(name.as_str()),
            _ => None,
        }
    }
}

} // verus!
