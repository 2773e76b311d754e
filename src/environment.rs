use vstd::prelude::*;

use crate::types::{items_model, strings_model, Exp, SExp};

verus! {

/// The model of one scope: its bindings, in the order they were made, and the
/// handle of the scope it was created in.
pub struct SFrame {
    pub names: Seq<Seq<char>>,
    pub values: Seq<SExp>,
    pub parent: Option<nat>,
}

/// The model of the whole interpreter state: every scope, indexed by handle,
/// and the text that `display` and `newline` have written.
pub struct Store {
    pub frames: Seq<SFrame>,
    pub out: Seq<char>,
}

impl Store {
    /// Each scope holds one value per name, and a parent is always an older scope,
    /// so that every chain of parents ends.
    pub open spec fn wf(&self) -> bool {
        forall|k: int|
            0 <= k < self.frames.len() ==> {
                &&& (#[trigger] self.frames[k]).names.len() == self.frames[k].values.len()
                &&& (self.frames[k].parent matches Some(p) ==> p < k)
                &&& distinct(self.frames[k].names)
            }
    }
}

/// No name occurs twice.
pub open spec fn distinct(names: Seq<Seq<char>>) -> bool {
    forall|i: int, j: int| 0 <= i < j < names.len() ==> names[i] != names[j]
}

/// The position of the first binding of `n` at or after `i`, or -1.
pub open spec fn first_index(names: Seq<Seq<char>>, n: Seq<char>, i: int) -> int
    decreases names.len() - i,
{
    if i < 0 || i >= names.len() {
        -1
    } else if names[i] == n {
        i
    } else {
        first_index(names, n, i + 1)
    }
}

/// The value bound to `n` as seen from scope `f`: the scope's own binding if it
/// has one, else what its parent sees.
pub open spec fn lookup(st: Store, f: nat, n: Seq<char>) -> Option<SExp>
    decreases f,
{
    if f >= st.frames.len() {
        None
    } else {
        let fr = st.frames[f as int];
        let k = first_index(fr.names, n, 0);
        if 0 <= k < fr.values.len() {
            Some(fr.values[k])
        } else {
            match fr.parent {
                Some(p) => if p < f {
                    lookup(st, p, n)
                } else {
                    None
                },
                None => None,
            }
        }
    }
}

/// Binds `n` to `v` in scope `f` alone, replacing a binding of `n` that it holds.
pub open spec fn define(st: Store, f: nat, n: Seq<char>, v: SExp) -> Store {
    let fr = st.frames[f as int];
    let k = first_index(fr.names, n, 0);
    let fr2 = if k >= 0 {
        SFrame { names: fr.names, values: fr.values.update(k, v), parent: fr.parent }
    } else {
        SFrame { names: fr.names.push(n), values: fr.values.push(v), parent: fr.parent }
    };
    Store { frames: st.frames.update(f as int, fr2), out: st.out }
}

/// Adds an empty scope whose parent is `f`; its handle is the old number of scopes.
pub open spec fn push_child(st: Store, f: nat) -> Store {
    Store {
        frames: st.frames.push(SFrame { names: Seq::empty(), values: Seq::empty(), parent: Some(f) }),
        out: st.out,
    }
}

/// Binding a name keeps a state well formed.
pub proof fn lemma_define_wf(st: Store, f: nat, n: Seq<char>, v: SExp)
    requires
        st.wf(),
        f < st.frames.len(),
    ensures
        define(st, f, n, v).wf(),
        define(st, f, n, v).frames.len() == st.frames.len(),
{
    let st2 = define(st, f, n, v);
    lemma_first_index_bounds(st.frames[f as int].names, n, 0);
    assert forall|k: int| 0 <= k < st2.frames.len() implies {
        &&& (#[trigger] st2.frames[k]).names.len() == st2.frames[k].values.len()
        &&& (st2.frames[k].parent matches Some(p) ==> p < k)
        &&& distinct(st2.frames[k].names)
    } by {
        if k != f {
            assert(st2.frames[k] == st.frames[k]);
        } else {
            let names = st.frames[k].names;
            assert(names.len() == st.frames[k].values.len());
            assert(distinct(names));
            if first_index(names, n, 0) < 0 {
                lemma_first_index_absent(names, n, 0);
                let pushed = names.push(n);
                assert forall|i: int, j: int| 0 <= i < j < pushed.len() implies pushed[i] != pushed[j] by {
                    if j == names.len() {
                        assert(pushed[i] == names[i]);
                    } else {
                        assert(pushed[i] == names[i] && pushed[j] == names[j]);
                    }
                }
            }
        }
    }
}

/// Adding a child of an existing scope keeps a state well formed.
pub proof fn lemma_push_child_wf(st: Store, f: nat)
    requires
        st.wf(),
        f < st.frames.len(),
    ensures
        push_child(st, f).wf(),
        push_child(st, f).frames.len() == st.frames.len() + 1,
{
    let st2 = push_child(st, f);
    assert forall|k: int| 0 <= k < st2.frames.len() implies {
        &&& (#[trigger] st2.frames[k]).names.len() == st2.frames[k].values.len()
        &&& (st2.frames[k].parent matches Some(p) ==> p < k)
        &&& distinct(st2.frames[k].names)
    } by {
        if k < st.frames.len() {
            assert(st2.frames[k] == st.frames[k]);
        }
    }
}

/// `first_index` is -1 or a position at or after `i` that holds the name.
pub proof fn lemma_first_index_bounds(names: Seq<Seq<char>>, n: Seq<char>, i: int)
    requires
        i >= 0,
    ensures
        first_index(names, n, i) == -1 || (i <= first_index(names, n, i) < names.len()
            && names[first_index(names, n, i)] == n),
    decreases names.len() - i,
{
    if i < names.len() && names[i] != n {
        lemma_first_index_bounds(names, n, i + 1);
    }
}

/// A name found nowhere is found at the end once appended.
pub proof fn lemma_first_index_of_pushed(names: Seq<Seq<char>>, n: Seq<char>, i: int)
    requires
        0 <= i <= names.len(),
        first_index(names, n, i) == -1,
    ensures
        first_index(names.push(n), n, i) == names.len(),
    decreases names.len() - i,
{
    if i < names.len() {
        assert(names.push(n)[i] == names[i]);
        lemma_first_index_of_pushed(names, n, i + 1);
    }
}

/// When `first_index` finds nothing, the name is absent from `i` on.
pub proof fn lemma_first_index_absent(names: Seq<Seq<char>>, n: Seq<char>, i: int)
    requires
        0 <= i,
        first_index(names, n, i) < 0,
    ensures
        forall|j: int| i <= j < names.len() ==> names[j] != n,
    decreases names.len() - i,
{
    if i < names.len() {
        lemma_first_index_absent(names, n, i + 1);
    }
}

pub struct Frame {
    names: Vec<String>,
    values: Vec<Exp>,
    parent: Option<usize>,
}

impl Frame {
    pub closed spec fn model(&self) -> SFrame {
        SFrame {
            names: strings_model(self.names@),
            values: items_model(self.values@),
            parent: match self.parent {
                Some(p) => Some(p as nat),
                None => None,
            },
        }
    }
}

/// The scopes of an interpreter, held in an arena and named by their index.
/// Handle 0 is the root scope, which holds the builtins.
pub struct Env {
    frames: Vec<Frame>,
    out: String,
}

impl View for Env {
    type V = Store;

    closed spec fn view(&self) -> Store {
        Store { frames: Seq::new(self.frames.len() as nat, |i: int| self.frames[i].model()), out: self.out@ }
    }
}

impl Env {
    /// A fresh interpreter state: one root scope in which every builtin is
    /// defined under its name, and no output.
    pub fn new() -> (r: Env)
        ensures
            r@.wf(),
            r@.frames.len() == 1,
            r@.out.len() == 0,
            r@ == crate::builtin::root_store(crate::builtin::root_frame().names.len()),
    {
        let (names, values) = crate::builtin::builtins_map();
        let root = Frame { names: Vec::new(), values: Vec::new(), parent: None };
        let mut frames: Vec<Frame> = Vec::new();
        frames.push(root);
        let mut env = Env { frames, out: String::new() };
        assert(root.model().names =~= Seq::<Seq<char>>::empty());
        assert(root.model().values =~= Seq::<SExp>::empty());
        assert(env@.frames =~= crate::builtin::root_store(0).frames);
        assert(env@.out =~= Seq::<char>::empty());
        assert(names@.len() == strings_model(names@).len());
        assert(values@.len() == items_model(values@).len());
        let mut i: usize = 0;
        while i < names.len()
            invariant
                env@.out.len() == 0,
                i <= names@.len(),
                names@.len() == values@.len(),
                strings_model(names@) == crate::builtin::root_frame().names,
                items_model(values@) == crate::builtin::root_frame().values,
                env@.wf(),
                env@.frames.len() == 1,
                env@ == crate::builtin::root_store(i as nat),
            decreases names@.len() - i,
        {
            assert(strings_model(names@)[i as int] == names@[i as int]@);
            assert(items_model(values@)[i as int] == values@[i as int].model());
            env.define(0, names[i].clone(), values[i].duplicate());
            i += 1;
        }
        env
    }

    pub fn frame_count(&self) -> (r: usize)
        ensures
            r == self@.frames.len(),
    {
        self.frames.len()
    }

    /// The value bound to `name` as seen from scope `f`.
    pub fn lookup(&self, f: usize, name: &String) -> (r: Option<Exp>)
        requires
            self@.wf(),
        ensures
            r is Some <==> lookup(self@, f as nat, name@) is Some,
            r is Some ==> r->0.model() == lookup(self@, f as nat, name@)->0,
    {
        let mut cur = f;
        while cur < self.frames.len()
            invariant
                self@.wf(),
                lookup(self@, f as nat, name@) == lookup(self@, cur as nat, name@),
            decreases cur,
        {
            let fr = &self.frames[cur];
            assert(self@.frames[cur as int] == fr.model());
            let k = find_name(&fr.names, name);
            if k < fr.values.len() {
                return Some(fr.values[k].duplicate());
            }
            match fr.parent {
                Some(p) => {
                    if p < cur {
                        cur = p;
                    } else {
                        return None;
                    }
                },
                None => {
                    return None;
                },
            }
        }
        None
    }

    /// Binds `name` to `v` in scope `f` alone.
    pub fn define(&mut self, f: usize, name: String, v: Exp)
        requires
            old(self)@.wf(),
            f < old(self)@.frames.len(),
        ensures
            final(self)@ == define(old(self)@, f as nat, name@, v.model()),
            final(self)@.wf(),
    {
        let ghost st = self@;
        let mut fr = self.frames.remove(f);
        assert(st.frames[f as int] == fr.model());
        let k = find_name(&fr.names, &name);
        let ghost fm = fr.model();
        if k < fr.names.len() {
            fr.values.remove(k);
            fr.values.insert(k, v);
            assert(fr.model().values =~= fm.values.update(k as int, v.model()));
        } else {
            fr.names.push(name);
            fr.values.push(v);
            assert(fr.model().names =~= fm.names.push(name@));
            assert(fr.model().values =~= fm.values.push(v.model()));
        }
        self.frames.insert(f, fr);
        assert(self@.frames =~= define(st, f as nat, name@, v.model()).frames);
        proof {
            lemma_define_wf(st, f as nat, name@, v.model());
        }
    }

    /// Adds an empty scope whose parent is `parent`, and returns its handle.
    pub fn new_child(&mut self, parent: usize) -> (r: usize)
        requires
            old(self)@.wf(),
            parent < old(self)@.frames.len(),
        ensures
            r == old(self)@.frames.len(),
            final(self)@ == push_child(old(self)@, parent as nat),
            final(self)@.wf(),
    {
        let r = self.frames.len();
        let fr = Frame { names: Vec::new(), values: Vec::new(), parent: Some(parent) };
        assert(fr.model().names =~= Seq::<Seq<char>>::empty());
        assert(fr.model().values =~= Seq::<SExp>::empty());
        self.frames.push(fr);
        assert(self@.frames =~= push_child(old(self)@, parent as nat).frames);
        r
    }

    /// Appends text to the output.
    pub fn emit(&mut self, s: &str)
        ensures
            final(self)@ == (Store { frames: old(self)@.frames, out: old(self)@.out + s@ }),
    {
        self.out.append(s);
        assert(self@.frames =~= old(self)@.frames);
    }

    /// The output written so far, which is then cleared.
    pub fn take_output(&mut self) -> (r: String)
        ensures
            r@ == old(self)@.out,
            final(self)@ == (Store { frames: old(self)@.frames, out: Seq::empty() }),
    {
        let mut r = String::new();
        std::mem::swap(&mut self.out, &mut r);
        assert(self@.frames =~= old(self)@.frames);
        r
    }
}

/// The position of the first string equal to `name`, or `names.len()`.
fn find_name(names: &Vec<String>, name: &String) -> (r: usize)
    ensures
        r <= names@.len(),
        r < names@.len() ==> first_index(strings_model(names@), name@, 0) == r,
        r == names@.len() ==> first_index(strings_model(names@), name@, 0) == -1,
{
    let ghost m = strings_model(names@);
    let mut i: usize = 0;
    while i < names.len()
        invariant
            i <= names@.len(),
            m == strings_model(names@),
            first_index(m, name@, 0) == first_index(m, name@, i as int),
        decreases names@.len() - i,
    {
        if names[i] == *name {
            return i;
        }
        i += 1;
    }
    i
}

} // verus!
