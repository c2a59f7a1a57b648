//! The environment: a stack of frames that bind names to values.

use vstd::prelude::*;
use crate::expression::{Builtin, Expression, Term};

verus! {

/// What one frame binds: a finite map from names to values.
pub type Scope = Map<Seq<char>, Term>;

/// One binding of a frame.
struct Binding {
    name: String,
    value: Expression,
}

/// The frames of an evaluation, the global frame first and the innermost
/// frame last.
pub struct Environment {
    stack: Vec<Vec<Binding>>,
}

/// The value of the first binding of `key` from position `from` on.
spec fn bound(bindings: Seq<Binding>, key: Seq<char>, from: int) -> Option<Term>
    decreases bindings.len() - from,
{
    if from < 0 || from >= bindings.len() {
        None
    } else if bindings[from].name@ == key {
        Some(bindings[from].value@)
    } else {
        bound(bindings, key, from + 1)
    }
}

/// The map that a list of bindings stands for: each name goes to the value
/// of its first binding.
spec fn scope_of(bindings: Seq<Binding>) -> Scope {
    Map::new(
        |key: Seq<char>| bound(bindings, key, 0) is Some,
        |key: Seq<char>| bound(bindings, key, 0)->0,
    )
}

/// The value that `key` resolves to: that of the innermost frame that binds
/// it.
pub open spec fn resolve(frames: Seq<Scope>, key: Seq<char>) -> Option<Term>
    decreases frames.len(),
{
    if frames.len() == 0 {
        None
    } else if frames.last().contains_key(key) {
        Some(frames.last()[key])
    } else {
        resolve(frames.drop_last(), key)
    }
}

/// The frames with `key` bound to `value` in the innermost one. Without a
/// frame there is nothing to bind in.
pub open spec fn bind(frames: Seq<Scope>, key: Seq<char>, value: Term) -> Seq<Scope> {
    if frames.len() == 0 {
        frames
    } else {
        frames.update(frames.len() - 1, frames.last().insert(key, value))
    }
}

/// The frames without the innermost one. Without a frame there is nothing
/// to remove.
pub open spec fn leave(frames: Seq<Scope>) -> Seq<Scope> {
    if frames.len() == 0 {
        frames
    } else {
        frames.drop_last()
    }
}

/// Positions that do not bind `key` can be passed over.
proof fn lemma_bound_skips(bindings: Seq<Binding>, key: Seq<char>, from: int, upto: int)
    requires
        0 <= from <= upto <= bindings.len(),
        forall|j: int| from <= j < upto ==> (#[trigger] bindings[j]).name@ != key,
    ensures
        bound(bindings, key, from) == bound(bindings, key, upto),
    decreases upto - from,
{
    if from < upto {
        lemma_bound_skips(bindings, key, from + 1, upto);
    }
}

/// Replacing the value of the first binding of `key` binds `key` anew and
/// leaves every other name as it was.
proof fn lemma_bound_after_set(
    bindings: Seq<Binding>,
    at: int,
    binding: Binding,
    other: Seq<char>,
    from: int,
)
    requires
        0 <= at < bindings.len(),
        bindings[at].name@ == binding.name@,
        0 <= from <= bindings.len(),
    ensures
        bound(bindings.update(at, binding), other, from) == if other == binding.name@ && from
            <= at && unbound_between(bindings, other, from, at) {
            Some(binding.value@)
        } else {
            bound(bindings, other, from)
        },
    decreases bindings.len() - from,
{
    let after = bindings.update(at, binding);
    if from < bindings.len() {
        lemma_bound_after_set(bindings, at, binding, other, from + 1);
        if from == at {
        } else if bindings[from].name@ == other {
            assert(after[from] == bindings[from]);
        } else {
            assert(after[from] == bindings[from]);
            if other == binding.name@ && from + 1 <= at && unbound_between(
                bindings,
                other,
                from + 1,
                at,
            ) {
                assert(unbound_between(bindings, other, from, at));
            }
        }
    }
}

/// Whether frame `i` is the innermost one that binds `key`.
pub open spec fn is_innermost_binding(frames: Seq<Scope>, key: Seq<char>, i: int) -> bool {
    &&& 0 <= i < frames.len()
    &&& frames[i].contains_key(key)
    &&& forall|j: int| i < j < frames.len() ==> !(#[trigger] frames[j]).contains_key(key)
}

/// A name resolves to the value that the innermost frame that binds it
/// gives it, and to nothing where no frame binds it.
pub proof fn lemma_resolve_is_innermost(frames: Seq<Scope>, key: Seq<char>)
    ensures
        match resolve(frames, key) {
            Some(value) => exists|i: int|
                #[trigger] is_innermost_binding(frames, key, i) && frames[i][key] == value,
            None => forall|i: int| 0 <= i < frames.len() ==> !(#[trigger] frames[i]).contains_key(key),
        },
    decreases frames.len(),
{
    if frames.len() > 0 {
        let last = frames.len() - 1;
        if frames.last().contains_key(key) {
            assert(is_innermost_binding(frames, key, last));
        } else {
            let outer = frames.drop_last();
            lemma_resolve_is_innermost(outer, key);
            match resolve(outer, key) {
                Some(value) => {
                    let i = choose|i: int|
                        #[trigger] is_innermost_binding(outer, key, i) && outer[i][key] == value;
                    assert forall|j: int| i < j < frames.len() implies !(#[trigger] frames[j]).contains_key(
                        key,
                    ) by {
                        if j < last {
                            assert(frames[j] == outer[j]);
                        }
                    }
                    assert(frames[i] == outer[i]);
                    assert(is_innermost_binding(frames, key, i));
                },
                None => {
                    assert forall|i: int| 0 <= i < frames.len() implies !(#[trigger] frames[i]).contains_key(
                        key,
                    ) by {
                        if i < last {
                            assert(frames[i] == outer[i]);
                        }
                    }
                },
            }
        }
    }
}

/// A name resolves to what it was last bound to, and binding it leaves what
/// every other name resolves to as it was.
pub proof fn lemma_resolve_after_bind(
    frames: Seq<Scope>,
    key: Seq<char>,
    value: Term,
    other: Seq<char>,
)
    requires
        frames.len() > 0,
    ensures
        resolve(bind(frames, key, value), key) == Some(value),
        other != key ==> resolve(bind(frames, key, value), other) == resolve(frames, other),
{
    let after = bind(frames, key, value);
    assert(after.drop_last() =~= frames.drop_last());
}

/// A new frame hides nothing, and leaving it brings back the frames as
/// they were.
pub proof fn lemma_resolve_in_new_frame(frames: Seq<Scope>, key: Seq<char>)
    ensures
        resolve(frames.push(Map::empty()), key) == resolve(frames, key),
        leave(frames.push(Map::empty())) == frames,
{
    let entered = frames.push(Map::<Seq<char>, Term>::empty());
    assert(entered.drop_last() =~= frames);
}

/// A name bound in the innermost frame hides what the outer frames bind it
/// to for as long as that frame is there: once the frame is left, every
/// name resolves as before.
pub proof fn lemma_resolve_after_leave(
    frames: Seq<Scope>,
    key: Seq<char>,
    value: Term,
    other: Seq<char>,
)
    ensures
        resolve(leave(bind(frames.push(Map::empty()), key, value)), other) == resolve(
            frames,
            other,
        ),
{
    let entered = frames.push(Map::<Seq<char>, Term>::empty());
    assert(bind(entered, key, value).drop_last() =~= frames);
}

/// Positions from `from` up to `upto` do not bind `key`.
spec fn unbound_between(bindings: Seq<Binding>, key: Seq<char>, from: int, upto: int) -> bool {
    forall|j: int| from <= j < upto ==> (#[trigger] bindings[j]).name@ != key
}

/// A binding added behind the others binds its name where nothing did, and
/// leaves every bound name as it was.
proof fn lemma_bound_after_push(bindings: Seq<Binding>, binding: Binding, other: Seq<char>, from: int)
    requires
        0 <= from <= bindings.len(),
    ensures
        bound(bindings.push(binding), other, from) == match bound(bindings, other, from) {
            Some(v) => Some(v),
            None => if other == binding.name@ {
                Some(binding.value@)
            } else {
                None
            },
        },
    decreases bindings.len() - from,
{
    let after = bindings.push(binding);
    if from < bindings.len() {
        assert(after[from] == bindings[from]);
        lemma_bound_after_push(bindings, binding, other, from + 1);
    } else {
        assert(after[from] == binding);
        assert(bound(after, other, from + 1) is None);
    }
}

impl View for Environment {
    type V = Seq<Scope>;

    closed spec fn view(&self) -> Seq<Scope> {
        Seq::new(self.stack@.len(), |i: int| scope_of(self.stack@[i]@))
    }
}

impl Environment {
    /// An environment without a frame.
    pub fn new() -> (r: Environment)
        ensures
            r@ == Seq::<Scope>::empty(),
    {
        let r = Environment { stack: Vec::new() };
        assert(r@ =~= Seq::<Scope>::empty());
        r
    }

    /// The number of frames.
    pub fn frame_count(&self) -> (r: usize)
        ensures
            r == self@.len(),
    {
        self.stack.len()
    }

    /// Enters a new, empty frame.
    pub fn push(&mut self)
        ensures
            final(self)@ == old(self)@.push(Map::empty()),
    {
        let frame: Vec<Binding> = Vec::new();
        assert(scope_of(frame@) =~= Map::empty());
        self.stack.push(frame);
        assert(self@ =~= old(self)@.push(Map::empty()));
    }

    /// Leaves the innermost frame. Without a frame nothing happens.
    pub fn pop(&mut self)
        ensures
            final(self)@ == leave(old(self)@),
    {
        self.stack.pop();
        assert(self@ =~= leave(old(self)@));
    }

    /// Binds `key` to `value` in the innermost frame, in place of what the
    /// frame bound it to before. Outer frames are not looked at.
    pub fn insert(&mut self, key: String, value: Expression)
        requires
            old(self)@.len() > 0,
        ensures
            final(self)@ == bind(old(self)@, key@, value@),
    {
        let ghost before = self.stack@;
        let mut frame = self.stack.pop().unwrap();
        let ghost bindings = frame@;
        let mut i: usize = 0;
        while i < frame.len() && !frame[i].name.eq(&key)
            invariant
                i <= frame.len(),
                frame@ == bindings,
                unbound_between(bindings, key@, 0, i as int),
            decreases frame.len() - i,
        {
            i += 1;
        }
        let binding = Binding { name: key, value };
        if i < frame.len() {
            frame.set(i, binding);
            proof {
                assert forall|other: Seq<char>|
                    bound(frame@, other, 0) == #[trigger] scope_of(bindings).insert(
                        key@,
                        value@,
                    ).get(other) by {
                    lemma_bound_after_set(bindings, i as int, binding, other, 0);
                }
            }
        } else {
            frame.push(binding);
            proof {
                assert forall|other: Seq<char>|
                    bound(frame@, other, 0) == #[trigger] scope_of(bindings).insert(
                        key@,
                        value@,
                    ).get(other) by {
                    lemma_bound_after_push(bindings, binding, other, 0);
                    lemma_bound_skips(bindings, key@, 0, bindings.len() as int);
                }
            }
        }
        assert(scope_of(frame@) =~= scope_of(bindings).insert(key@, value@)) by {
            assert forall|other: Seq<char>|
                scope_of(frame@).contains_key(other) == scope_of(bindings).insert(
                    key@,
                    value@,
                ).contains_key(other) by {
                let _ = scope_of(bindings).insert(key@, value@).get(other);
            }
            assert forall|other: Seq<char>| scope_of(frame@).contains_key(other) implies scope_of(
                frame@,
            )[other] == scope_of(bindings).insert(key@, value@)[other] by {
                let _ = scope_of(bindings).insert(key@, value@).get(other);
            }
        }
        self.stack.push(frame);
        assert(self@ =~= bind(old(self)@, key@, value@));
    }

    /// The value that `key` is bound to in the innermost frame that binds
    /// it, if any does.
    pub fn lookup(&self, key: &String) -> (r: Option<&Expression>)
        ensures
            match r {
                Some(value) => resolve(self@, key@) == Some(value@),
                None => resolve(self@, key@) is None,
            },
    {
        let mut level: usize = self.stack.len();
        assert(self@.take(level as int) =~= self@);
        while level > 0
            invariant
                level <= self.stack.len(),
                resolve(self@, key@) == resolve(self@.take(level as int), key@),
            decreases level,
        {
            level -= 1;
            let frame = &self.stack[level];
            assert(self@.take(level + 1).last() == scope_of(frame@));
            assert(self@.take(level + 1).drop_last() =~= self@.take(level as int));
            let mut i: usize = 0;
            while i < frame.len()
                invariant
                    i <= frame.len(),
                    level < self.stack.len(),
                    self@.take(level + 1).last() == scope_of(frame@),
                    resolve(self@, key@) == resolve(self@.take(level + 1), key@),
                    unbound_between(frame@, key@, 0, i as int),
                decreases frame.len() - i,
            {
                if frame[i].name.eq(key) {
                    proof {
                        lemma_bound_skips(frame@, key@, 0, i as int);
                    }
                    return Some(&frame[i].value);
                }
                i += 1;
            }
            proof {
                lemma_bound_skips(frame@, key@, 0, frame@.len() as int);
            }
        }
        assert(self@.take(0) =~= Seq::<Scope>::empty());
        None
    }
}

/// What the global frame binds at the start: the native procedures and the
/// two truth values.
pub open spec fn root_scope() -> Scope {
    Map::<Seq<char>, Term>::empty().insert("+"@, Term::BuiltinProcedure(Builtin::Add)).insert(
        "-"@,
        Term::BuiltinProcedure(Builtin::Sub),
    ).insert("*"@, Term::BuiltinProcedure(Builtin::Mul)).insert(
        "/"@,
        Term::BuiltinProcedure(Builtin::Div),
    ).insert("#t"@, Term::BooleanLiteral(true)).insert("#f"@, Term::BooleanLiteral(false)).insert(
        ">"@,
        Term::BuiltinProcedure(Builtin::GreaterThan),
    ).insert("<"@, Term::BuiltinProcedure(Builtin::LessThan)).insert(
        "="@,
        Term::BuiltinProcedure(Builtin::Equal),
    )
}

/// An environment with the global frame alone, which binds what
/// [`root_scope`] says.
pub fn create_root_environment() -> (r: Environment)
    ensures
        r@ == seq![root_scope()],
{
    let mut root_env = Environment::new();
    root_env.push();
    root_env.insert("+".to_owned(), Expression::BuiltinProcedure(Builtin::Add));
    root_env.insert("-".to_owned(), Expression::BuiltinProcedure(Builtin::Sub));
    root_env.insert("*".to_owned(), Expression::BuiltinProcedure(Builtin::Mul));
    root_env.insert("/".to_owned(), Expression::BuiltinProcedure(Builtin::Div));
    root_env.insert("#t".to_owned(), Expression::BooleanLiteral(true));
    root_env.insert("#f".to_owned(), Expression::BooleanLiteral(false));
    root_env.insert(">".to_owned(), Expression::BuiltinProcedure(Builtin::GreaterThan));
    root_env.insert("<".to_owned(), Expression::BuiltinProcedure(Builtin::LessThan));
    root_env.insert("=".to_owned(), Expression::BuiltinProcedure(Builtin::Equal));
    assert(root_env@ =~= seq![root_scope()]);
    root_env
}

} // verus!
