//! The variables of a running script: a stack of scopes that bind names to values.
use crate::text::same_text;
use crate::value::{NaslValue, Value};
use vstd::prelude::*;

verus! {

/// What a name is bound to.
#[derive(Debug, PartialEq, Eq)]
pub enum ContextType {
    /// A value.
    Value(NaslValue),
    /// The arguments that a call passed by position.
    Positional(Vec<NaslValue>),
}

/// The mathematical model of a [`ContextType`].
pub enum Binding {
    /// A value.
    Value(Value),
    /// The arguments that a call passed by position.
    Positional(Seq<Value>),
}

impl Binding {
    /// The value that a script reads from the binding; arguments passed by position read as a
    /// list.
    pub open spec fn value(self) -> Value {
        match self {
            Binding::Value(value) => value,
            Binding::Positional(items) => Value::Array(items),
        }
    }
}

impl ContextType {
    /// The binding that this one stands for.
    pub open spec fn view(&self) -> Binding {
        match self {
            ContextType::Value(value) => Binding::Value(value@),
            ContextType::Positional(items) => Binding::Positional(NaslValue::views(items)),
        }
    }

    /// The value that a script reads from the binding.
    pub fn value(&self) -> (r: NaslValue)
        ensures
            r@ == self@.value(),
    {
        match self {
            ContextType::Value(value) => value.clone(),
            ContextType::Positional(items) => {
                let copy = NaslValue::clone_list(items);
                NaslValue::Array(copy)
            },
        }
    }
}

impl Clone for ContextType {
    /// A copy that stands for the same binding.
    fn clone(&self) -> (r: Self)
        ensures
            r@ == self@,
    {
        match self {
            ContextType::Value(value) => ContextType::Value(value.clone()),
            ContextType::Positional(items) => ContextType::Positional(NaslValue::clone_list(items)),
        }
    }
}

/// The mathematical model of a scope: names with what they are bound to, in the order in
/// which they were first bound.
pub type Frame = Seq<(Seq<char>, Binding)>;

/// The index of the first entry at or behind `from` that binds `name`.
pub open spec fn position_from(frame: Frame, name: Seq<char>, from: int) -> Option<int>
    decreases frame.len() - from,
{
    if from < 0 || from >= frame.len() {
        None
    } else if frame[from].0 == name {
        Some(from)
    } else {
        position_from(frame, name, from + 1)
    }
}

/// The index of the entry that binds `name`.
pub open spec fn position(frame: Frame, name: Seq<char>) -> Option<int> {
    position_from(frame, name, 0)
}

/// What the scope binds `name` to.
pub open spec fn find(frame: Frame, name: Seq<char>) -> Option<Binding> {
    match position(frame, name) {
        Some(i) => Some(frame[i].1),
        None => None,
    }
}

/// The scope after `name` is bound to `binding`: the entry of the name is replaced, or a
/// new entry is added behind the others.
pub open spec fn put(frame: Frame, name: Seq<char>, binding: Binding) -> Frame {
    match position(frame, name) {
        Some(i) => frame.update(i, (name, binding)),
        None => frame.push((name, binding)),
    }
}

/// The index of the innermost scope, at or below index `top`, that binds `name`.
pub open spec fn holder_from(frames: Seq<Frame>, name: Seq<char>, top: int) -> Option<int>
    decreases top + 1,
{
    if top < 0 || top >= frames.len() {
        None
    } else if position(frames[top], name) is Some {
        Some(top)
    } else {
        holder_from(frames, name, top - 1)
    }
}

/// The index of the innermost scope that binds `name`.
pub open spec fn holder(frames: Seq<Frame>, name: Seq<char>) -> Option<int> {
    holder_from(frames, name, frames.len() - 1)
}

/// What `name` is bound to in the innermost scope that binds it.
pub open spec fn lookup(frames: Seq<Frame>, name: Seq<char>) -> Option<Binding> {
    match holder(frames, name) {
        Some(k) => find(frames[k], name),
        None => None,
    }
}

/// The scopes after `name` is bound to `binding` in the scope of index `k`.
pub open spec fn put_at(frames: Seq<Frame>, k: int, name: Seq<char>, binding: Binding) -> Seq<Frame> {
    if 0 <= k < frames.len() {
        frames.update(k, put(frames[k], name, binding))
    } else {
        frames
    }
}

/// The scopes after an assignment to `name`: the innermost scope that binds the name takes
/// the new binding; where no scope binds it, the innermost scope does.
pub open spec fn assign(frames: Seq<Frame>, name: Seq<char>, binding: Binding) -> Seq<Frame> {
    match holder(frames, name) {
        Some(k) => put_at(frames, k, name, binding),
        None => put_at(frames, frames.len() - 1, name, binding),
    }
}

/// The scopes after `name` is declared in the innermost scope.
pub open spec fn declare_local(frames: Seq<Frame>, name: Seq<char>, binding: Binding) -> Seq<Frame> {
    put_at(frames, frames.len() - 1, name, binding)
}

/// The scopes after `name` is declared in the outermost scope.
pub open spec fn declare_global(frames: Seq<Frame>, name: Seq<char>, binding: Binding) -> Seq<Frame> {
    put_at(frames, 0, name, binding)
}

/// What the search for a name in a scope finds: the first entry of that name at or behind
/// the start, or nothing where no entry there has the name.
pub proof fn lemma_position_from(frame: Frame, name: Seq<char>, from: int)
    requires
        0 <= from,
    ensures
        match position_from(frame, name, from) {
            Some(i) => from <= i < frame.len() && frame[i].0 == name && forall|j: int|
                from <= j < i ==> (#[trigger] frame[j]).0 != name,
            None => forall|j: int| from <= j < frame.len() ==> (#[trigger] frame[j]).0 != name,
        },
    decreases frame.len() - from,
{
    if from < frame.len() && frame[from].0 != name {
        lemma_position_from(frame, name, from + 1);
    }
}

/// The first entry of a name is what the search for the name finds.
pub proof fn lemma_position_found(frame: Frame, name: Seq<char>, from: int, i: int)
    requires
        0 <= from <= i < frame.len(),
        frame[i].0 == name,
        forall|j: int| from <= j < i ==> (#[trigger] frame[j]).0 != name,
    ensures
        position_from(frame, name, from) == Some(i),
    decreases i - from,
{
    if from < i {
        assert(frame[from].0 != name);
        lemma_position_found(frame, name, from + 1, i);
    }
}

/// Where no entry has a name, the search for the name finds nothing.
pub proof fn lemma_position_missing(frame: Frame, name: Seq<char>, from: int)
    requires
        0 <= from,
        forall|j: int| from <= j < frame.len() ==> (#[trigger] frame[j]).0 != name,
    ensures
        position_from(frame, name, from) is None,
    decreases frame.len() - from,
{
    if from < frame.len() {
        assert(frame[from].0 != name);
        lemma_position_missing(frame, name, from + 1);
    }
}

/// A scope binds a name to what it was last bound to, and binding a name leaves what every
/// other name is bound to as it was.
pub proof fn lemma_put(frame: Frame, name: Seq<char>, binding: Binding, other: Seq<char>)
    ensures
        find(put(frame, name, binding), name) == Some(binding),
        other != name ==> find(put(frame, name, binding), other) == find(frame, other),
{
    let after = put(frame, name, binding);
    lemma_position_from(frame, name, 0);
    lemma_position_from(frame, other, 0);
    match position(frame, name) {
        Some(i) => {
            lemma_position_found(after, name, 0, i);
            if other != name {
                match position(frame, other) {
                    Some(k) => {
                        lemma_position_found(after, other, 0, k);
                    },
                    None => {
                        lemma_position_missing(after, other, 0);
                    },
                }
            }
        },
        None => {
            lemma_position_found(after, name, 0, frame.len() as int);
            if other != name {
                match position(frame, other) {
                    Some(k) => {
                        lemma_position_found(after, other, 0, k);
                    },
                    None => {
                        lemma_position_missing(after, other, 0);
                    },
                }
            }
        },
    }
}

/// What the search for the scope of a name finds: the innermost scope, at or below the top,
/// that binds the name, or nothing where no scope there binds it.
pub proof fn lemma_holder_from(frames: Seq<Frame>, name: Seq<char>, top: int)
    requires
        top < frames.len(),
    ensures
        match holder_from(frames, name, top) {
            Some(k) => 0 <= k <= top && position(frames[k], name) is Some && forall|j: int|
                k < j <= top ==> position(#[trigger] frames[j], name) is None,
            None => forall|j: int| 0 <= j <= top ==> position(#[trigger] frames[j], name) is None,
        },
    decreases top + 1,
{
    if top >= 0 && position(frames[top], name) is None {
        lemma_holder_from(frames, name, top - 1);
    }
}

/// The innermost scope that binds a name is what the search for its scope finds.
pub proof fn lemma_holder_found(frames: Seq<Frame>, name: Seq<char>, top: int, k: int)
    requires
        0 <= k <= top < frames.len(),
        position(frames[k], name) is Some,
        forall|j: int| k < j <= top ==> position(#[trigger] frames[j], name) is None,
    ensures
        holder_from(frames, name, top) == Some(k),
    decreases top - k,
{
    if k < top {
        assert(position(frames[top], name) is None);
        lemma_holder_found(frames, name, top - 1, k);
    }
}

/// After an assignment to a name, the name is bound to what was assigned.
pub proof fn lemma_assign_then_lookup(frames: Seq<Frame>, name: Seq<char>, binding: Binding)
    requires
        frames.len() > 0,
    ensures
        lookup(assign(frames, name, binding), name) == Some(binding),
        assign(frames, name, binding).len() == frames.len(),
{
    let after = assign(frames, name, binding);
    let top = frames.len() - 1;
    lemma_holder_from(frames, name, top);
    let k = match holder(frames, name) {
        Some(k) => k,
        None => top,
    };
    lemma_put(frames[k], name, binding, name);
    assert(after[k] == put(frames[k], name, binding));
    assert forall|j: int| k < j <= top implies position(#[trigger] after[j], name) is None by {
        assert(after[j] == frames[j]);
    }
    lemma_holder_found(after, name, top, k);
}

/// Scopes that do not bind a name hide nothing of it: with such scopes opened inside, the
/// name is bound to what it was bound to.
pub proof fn lemma_lookup_through(frames: Seq<Frame>, above: Seq<Frame>, name: Seq<char>)
    requires
        forall|j: int| 0 <= j < above.len() ==> position(#[trigger] above[j], name) is None,
    ensures
        lookup(frames + above, name) == lookup(frames, name),
{
    let all = frames + above;
    lemma_holder_from(frames, name, frames.len() - 1);
    lemma_holder_from(all, name, all.len() - 1);
    match holder(frames, name) {
        Some(k) => {
            assert(all[k] == frames[k]);
            assert forall|j: int| k < j <= all.len() - 1 implies position(
                #[trigger] all[j],
                name,
            ) is None by {
                if j < frames.len() {
                    assert(all[j] == frames[j]);
                } else {
                    assert(all[j] == above[j - frames.len()]);
                }
            }
            lemma_holder_found(all, name, all.len() - 1, k);
        },
        None => {
            match holder(all, name) {
                Some(k) => {
                    if k < frames.len() {
                        assert(all[k] == frames[k]);
                    } else {
                        assert(all[k] == above[k - frames.len()]);
                    }
                },
                None => {},
            }
        },
    }
}

/// One scope: names and what they are bound to.
#[derive(Debug, PartialEq, Eq)]
pub struct NaslContext {
    entries: Vec<(String, ContextType)>,
}

impl NaslContext {
    /// The scope as a sequence of names and bindings.
    pub closed spec fn view(&self) -> Frame {
        Seq::new(self.entries.len() as nat, |i: int| (self.entries[i].0@, self.entries[i].1@))
    }

    /// A scope that binds nothing.
    pub fn new() -> (r: Self)
        ensures
            r@ == Seq::<(Seq<char>, Binding)>::empty(),
    {
        let r = NaslContext { entries: Vec::new() };
        assert(r@ =~= Seq::<(Seq<char>, Binding)>::empty());
        r
    }

    fn position(&self, name: &str) -> (r: Option<usize>)
        ensures
            match r {
                Some(i) => position(self@, name@) == Some(i as int) && i < self.entries.len(),
                None => position(self@, name@) is None,
            },
    {
        let mut i: usize = 0;
        while i < self.entries.len()
            invariant
                0 <= i <= self.entries.len(),
                position(self@, name@) == position_from(self@, name@, i as int),
            decreases self.entries.len() - i,
        {
            if same_text(self.entries[i].0.as_str(), name) {
                return Some(i);
            }
            i = i + 1;
        }
        None
    }

    /// What the scope binds `name` to.
    pub fn get(&self, name: &str) -> (r: Option<&ContextType>)
        ensures
            match r {
                Some(found) => find(self@, name@) == Some(found@),
                None => find(self@, name@) is None,
            },
    {
        match self.position(name) {
            Some(i) => Some(&self.entries[i].1),
            None => None,
        }
    }

    /// Binds `name` to `value`, in place of what it was bound to.
    pub fn put(&mut self, name: &str, value: ContextType)
        ensures
            final(self)@ == put(old(self)@, name@, value@),
    {
        match self.position(name) {
            Some(i) => {
                self.entries.set(i, (name.to_owned(), value));
                assert(self@ =~= put(old(self)@, name@, value@));
            },
            None => {
                self.entries.push((name.to_owned(), value));
                assert(self@ =~= put(old(self)@, name@, value@));
            },
        }
    }
}

impl Clone for NaslContext {
    /// A copy that binds the same names to the same values.
    fn clone(&self) -> (r: Self)
        ensures
            r@ == self@,
    {
        let mut entries: Vec<(String, ContextType)> = Vec::new();
        let mut i: usize = 0;
        while i < self.entries.len()
            invariant
                0 <= i <= self.entries.len(),
                entries.len() == i,
                forall|j: int|
                    0 <= j < i ==> entries[j].0@ == self.entries[j].0@ && entries[j].1@
                        == self.entries[j].1@,
            decreases self.entries.len() - i,
        {
            let name = self.entries[i].0.clone();
            let value = self.entries[i].1.clone();
            entries.push((name, value));
            i = i + 1;
        }
        let r = NaslContext { entries };
        assert(r@ =~= self@);
        r
    }
}

impl Default for NaslContext {
    /// A scope that binds nothing.
    fn default() -> (r: Self)
        ensures
            r@ == Seq::<(Seq<char>, Binding)>::empty(),
    {
        NaslContext::new()
    }
}

/// The scopes of a running script, outermost first. The outermost scope is always there.
#[derive(Debug, PartialEq, Eq)]
pub struct Register {
    global: NaslContext,
    blocks: Vec<NaslContext>,
}

impl Register {
    /// The scopes, outermost first.
    pub closed spec fn view(&self) -> Seq<Frame> {
        Seq::new(
            (self.blocks.len() + 1) as nat,
            |i: int|
                if i == 0 {
                    self.global@
                } else {
                    self.blocks[i - 1]@
                },
        )
    }

    /// A register with one scope that binds nothing.
    pub fn new() -> (r: Self)
        ensures
            r@ == seq![Seq::<(Seq<char>, Binding)>::empty()],
    {
        let r = Register { global: NaslContext::new(), blocks: Vec::new() };
        assert(r@ =~= seq![Seq::<(Seq<char>, Binding)>::empty()]);
        r
    }

    /// There is always a scope.
    pub proof fn lemma_depth(&self)
        ensures
            self@.len() > 0,
    {
    }

    /// The number of scopes above the outermost one.
    pub fn children(&self) -> (r: usize)
        ensures
            r + 1 == self@.len(),
    {
        self.blocks.len()
    }

    fn holder(&self, name: &str) -> (r: Option<usize>)
        ensures
            match r {
                Some(k) => holder(self@, name@) == Some(k as int) && k <= self.blocks.len(),
                None => holder(self@, name@) is None,
            },
    {
        let mut k: usize = self.blocks.len();
        while k > 0
            invariant
                0 <= k <= self.blocks.len(),
                holder(self@, name@) == holder_from(self@, name@, k as int),
            decreases k,
        {
            if self.blocks[k - 1].position(name).is_some() {
                return Some(k);
            }
            k = k - 1;
        }
        assert(self@[0] == self.global@);
        assert(holder_from(self@, name@, -1) is None);
        if self.global.position(name).is_some() {
            Some(0)
        } else {
            None
        }
    }

    /// What `name` is bound to in the innermost scope that binds it.
    pub fn named(&self, name: &str) -> (r: Option<&ContextType>)
        ensures
            match r {
                Some(found) => lookup(self@, name@) == Some(found@),
                None => lookup(self@, name@) is None,
            },
    {
        match self.holder(name) {
            Some(k) => {
                if k == 0 {
                    self.global.get(name)
                } else {
                    self.blocks[k - 1].get(name)
                }
            },
            None => None,
        }
    }

    fn put_at(&mut self, k: usize, name: &str, value: ContextType)
        requires
            k < old(self)@.len(),
        ensures
            final(self)@ == put_at(old(self)@, k as int, name@, value@),
    {
        if k == 0 {
            self.global.put(name, value);
        } else {
            let mut scope = self.blocks.remove(k - 1);
            scope.put(name, value);
            self.blocks.insert(k - 1, scope);
        }
        assert(self@ =~= put_at(old(self)@, k as int, name@, value@));
    }

    /// Assigns to `name`: the innermost scope that binds the name takes the new binding;
    /// where no scope binds it, the innermost scope does.
    pub fn assign(&mut self, name: &str, value: ContextType)
        ensures
            final(self)@ == assign(old(self)@, name@, value@),
            final(self)@.len() == old(self)@.len(),
    {
        let k = match self.holder(name) {
            Some(k) => k,
            None => self.blocks.len(),
        };
        self.put_at(k, name, value);
    }

    /// Declares `name` in the innermost scope.
    pub fn add_local(&mut self, name: &str, value: ContextType)
        ensures
            final(self)@ == declare_local(old(self)@, name@, value@),
            final(self)@.len() == old(self)@.len(),
    {
        let k = self.blocks.len();
        self.put_at(k, name, value);
    }

    /// Declares `name` in the outermost scope.
    pub fn add_global(&mut self, name: &str, value: ContextType)
        ensures
            final(self)@ == declare_global(old(self)@, name@, value@),
            final(self)@.len() == old(self)@.len(),
    {
        self.put_at(0, name, value);
    }

    /// Opens a scope inside the innermost one.
    pub fn create_child(&mut self, scope: NaslContext)
        ensures
            final(self)@ == old(self)@.push(scope@),
    {
        self.blocks.push(scope);
        assert(self@ =~= old(self)@.push(scope@));
    }

    /// Closes the innermost scope; the outermost scope stays.
    pub fn drop_last(&mut self)
        ensures
            final(self)@ == if old(self)@.len() > 1 {
                old(self)@.drop_last()
            } else {
                old(self)@
            },
    {
        if self.blocks.len() > 0 {
            self.blocks.pop();
            assert(self@ =~= old(self)@.drop_last());
        }
    }
}

impl Clone for Register {
    /// A copy with the same scopes.
    fn clone(&self) -> (r: Self)
        ensures
            r@ == self@,
    {
        let global = self.global.clone();
        let mut blocks: Vec<NaslContext> = Vec::new();
        let mut i: usize = 0;
        while i < self.blocks.len()
            invariant
                0 <= i <= self.blocks.len(),
                blocks.len() == i,
                forall|j: int| 0 <= j < i ==> blocks[j]@ == self.blocks[j]@,
            decreases self.blocks.len() - i,
        {
            let scope = self.blocks[i].clone();
            blocks.push(scope);
            i = i + 1;
        }
        let r = Register { global, blocks };
        assert(r@ =~= self@);
        r
    }
}

impl Default for Register {
    /// A register with one scope that binds nothing.
    fn default() -> (r: Self)
        ensures
            r@ == seq![Seq::<(Seq<char>, Binding)>::empty()],
    {
        Register::new()
    }
}

} // verus!
