use vstd::prelude::*;
use crate::types::Type;
use crate::block::Block;

verus! {

/// One concrete translation of a generically declared function: the argument
/// types it was instantiated for, the return type resolved under them, and
/// the translated body.
#[derive(Debug)]
pub struct FunctionInstance {
    pub args: Vec<Type>,
    pub return_type: Type,
    pub body: Block,
}

/// The mathematical value of a [`FunctionInstance`].
#[verifier::ext_equal]
pub ghost struct FunctionInstanceView {
    pub args: Seq<Type>,
    pub return_type: Type,
    pub body: Seq<Seq<char>>,
}

impl View for FunctionInstance {
    type V = FunctionInstanceView;

    open spec fn view(&self) -> FunctionInstanceView {
        FunctionInstanceView { args: self.args@, return_type: self.return_type, body: self.body@ }
    }
}

/// Copies a sequence of types; types are plain values, so the copy is equal.
pub fn clone_types(v: &Vec<Type>) -> (r: Vec<Type>)
    ensures
        r@ == v@,
{
    let mut r: Vec<Type> = Vec::new();
    let mut i: usize = 0;
    while i < v.len()
        invariant
            i <= v.len(),
            r@ =~= v@.take(i as int),
        decreases v.len() - i,
    {
        r.push(v[i]);
        i = i + 1;
    }
    proof {
        assert(r@ =~= v@);
    }
    r
}

impl Clone for FunctionInstance {
    fn clone(&self) -> (r: FunctionInstance)
        ensures
            r@ == self@,
    {
        FunctionInstance {
            args: clone_types(&self.args),
            return_type: self.return_type,
            body: self.body.clone(),
        }
    }
}

/// The views of the instances of `v`, in order.
pub open spec fn instances_view(v: Seq<FunctionInstance>) -> Seq<FunctionInstanceView> {
    v.map_values(|i: FunctionInstance| i@)
}

/// Whether some cached instance of `s` was made for exactly the argument-type
/// sequence `args`: the monomorphization cache's hit condition.
pub open spec fn has_instance(s: Seq<FunctionInstanceView>, args: Seq<Type>) -> bool {
    exists|i: int| 0 <= i < s.len() && s[i].args == args
}

/// The function-instantiation cache: for each function identity, the ordered
/// sequence of concrete instances produced so far. Identities are allocated
/// here, densely, one per declaration, so the identity indexes the outer
/// sequence.
#[derive(Debug)]
pub struct FunctionMap {
    pub entries: Vec<Vec<FunctionInstance>>,
}

impl View for FunctionMap {
    type V = Seq<Seq<FunctionInstanceView>>;

    open spec fn view(&self) -> Seq<Seq<FunctionInstanceView>> {
        self.entries@.map_values(|v: Vec<FunctionInstance>| instances_view(v@))
    }
}

impl Clone for FunctionMap {
    fn clone(&self) -> (r: FunctionMap)
        ensures
            r@ == self@,
    {
        let mut entries: Vec<Vec<FunctionInstance>> = Vec::new();
        let mut i: usize = 0;
        while i < self.entries.len()
            invariant
                i <= self.entries.len(),
                entries@.len() == i,
                forall|j: int| 0 <= j < i ==> instances_view(entries@[j]@) == instances_view(
                    self.entries@[j]@,
                ),
            decreases self.entries.len() - i,
        {
            let row = &self.entries[i];
            let mut copy: Vec<FunctionInstance> = Vec::new();
            let mut k: usize = 0;
            while k < row.len()
                invariant
                    k <= row.len(),
                    copy@.len() == k,
                    forall|j: int| 0 <= j < k ==> copy@[j]@ == row@[j]@,
                decreases row.len() - k,
            {
                copy.push(row[k].clone());
                k = k + 1;
            }
            proof {
                assert(instances_view(copy@) =~= instances_view(row@));
            }
            entries.push(copy);
            i = i + 1;
        }
        let r = FunctionMap { entries };
        proof {
            assert(r@ =~= self@);
        }
        r
    }
}

impl FunctionMap {
    /// An empty cache: no identities, no instances.
    pub fn new() -> (r: FunctionMap)
        ensures
            r@ == Seq::<Seq<FunctionInstanceView>>::empty(),
    {
        let r = FunctionMap { entries: Vec::new() };
        proof {
            assert(r@ =~= Seq::<Seq<FunctionInstanceView>>::empty());
        }
        r
    }

    /// Allocates the identity of one newly declared function: a fresh id with
    /// an empty instance sequence. Ids are handed out in declaration order.
    pub fn add_declaration(&mut self) -> (id: usize)
        ensures
            final(self)@ == old(self)@.push(Seq::<FunctionInstanceView>::empty()),
            id == old(self)@.len(),
    {
        let id = self.entries.len();
        let row: Vec<FunctionInstance> = Vec::new();
        self.entries.push(row);
        proof {
            assert(instances_view(Seq::<FunctionInstance>::empty())
                =~= Seq::<FunctionInstanceView>::empty());
            assert(self@ =~= old(self)@.push(Seq::<FunctionInstanceView>::empty()));
        }
        id
    }

    /// Appends one concrete instance for the function `id` and returns its
    /// index within that id's instance sequence: the cache-write path of
    /// monomorphization.
    pub fn add_instance(&mut self, id: usize, instance: FunctionInstance) -> (idx: usize)
        requires
            id < old(self)@.len(),
        ensures
            final(self)@ == old(self)@.update(id as int, old(self)@[id as int].push(instance@)),
            idx == old(self)@[id as int].len(),
    {
        let idx = self.entries[id].len();
        self.entries[id].push(instance);
        proof {
            assert(self@[id as int] =~= old(self)@[id as int].push(instance@));
            assert(self@ =~= old(self)@.update(id as int, old(self)@[id as int].push(instance@)));
        }
        idx
    }

    /// The instances produced so far for the function `id`, or nothing for an
    /// identity this cache never allocated.
    pub fn get(&self, id: usize) -> (r: Option<&Vec<FunctionInstance>>)
        ensures
            match r {
                Some(v) => id < self@.len() && instances_view(v@) == self@[id as int],
                None => id >= self@.len(),
            },
    {
        if id < self.entries.len() {
            Some(&self.entries[id])
        } else {
            None
        }
    }

    /// The cache-read path of monomorphization: the index of the first cached
    /// instance of function `id` made for exactly the argument types `args`,
    /// or nothing on a cache miss. Instances are matched by exact positional
    /// argument-type equality; no widening or coercion is attempted.
    pub fn find_instance(&self, id: usize, args: &Vec<Type>) -> (r: Option<usize>)
        requires
            id < self@.len(),
        ensures
            match r {
                Some(i) => i < self@[id as int].len() && self@[id as int][i as int].args == args@
                    && forall|j: int| 0 <= j < i ==> self@[id as int][j].args != args@,
                None => !has_instance(self@[id as int], args@),
            },
    {
        let row = &self.entries[id];
        let mut i: usize = 0;
        while i < row.len()
            invariant
                id < self@.len(),
                row == &self.entries@[id as int],
                instances_view(row@) == self@[id as int],
                i <= row.len(),
                forall|j: int| 0 <= j < i ==> self@[id as int][j].args != args@,
            decreases row.len() - i,
        {
            if eq_types(&row[i].args, args) {
                return Some(i);
            }
            i = i + 1;
        }
        None
    }
}

/// Whether two argument-type sequences are equal position by position.
pub fn eq_types(a: &Vec<Type>, b: &Vec<Type>) -> (r: bool)
    ensures
        r == (a@ == b@),
{
    if a.len() != b.len() {
        proof {
            assert(a@.len() != b@.len());
        }
        return false;
    }
    let mut i: usize = 0;
    while i < a.len()
        invariant
            a@.len() == b@.len(),
            i <= a.len(),
            forall|j: int| 0 <= j < i ==> a@[j] == b@[j],
        decreases a.len() - i,
    {
        if a[i] != b[i] {
            return false;
        }
        i = i + 1;
    }
    proof {
        assert(a@ =~= b@);
    }
    true
}

/// The cache invariant the monomorphization protocol maintains: no two
/// cached instances of one function were made for the same argument-type
/// sequence.
pub open spec fn distinct_signatures(s: Seq<FunctionInstanceView>) -> bool {
    forall|i: int, j: int| 0 <= i < j < s.len() ==> s[i].args != s[j].args
}

/// Under the protocol — an instance is stored only when its signature misses
/// the cache — an id's instance sequence keeps pairwise-distinct signatures,
/// so its length counts the distinct signatures observed so far, never the
/// call sites.
pub proof fn lemma_protocol_preserves_distinct(
    s: Seq<FunctionInstanceView>,
    inst: FunctionInstanceView,
)
    requires
        distinct_signatures(s),
        !has_instance(s, inst.args),
    ensures
        distinct_signatures(s.push(inst)),
        s.push(inst).len() == s.len() + 1,
{
    let t = s.push(inst);
    assert forall|i: int, j: int| 0 <= i < j < t.len() implies t[i].args != t[j].args by {
        if j < s.len() {
            assert(t[i] == s[i] && t[j] == s[j]);
        } else {
            assert(t[i] == s[i] && t[j] == inst);
            if s[i].args == inst.args {
                assert(has_instance(s, inst.args));
            }
        }
    }
}

/// The instance cache is idempotent per signature: once an instance for an
/// argument-type sequence is stored, that signature hits the cache, so the
/// protocol that re-parses only on a miss re-parses a generic body at most
/// once per distinct signature; storing it changes no other signature's hit
/// or miss.
pub proof fn lemma_instance_cache_idempotent(
    s: Seq<FunctionInstanceView>,
    inst: FunctionInstanceView,
    other: Seq<Type>,
)
    ensures
        has_instance(s.push(inst), inst.args),
        other != inst.args ==> has_instance(s.push(inst), other) == has_instance(s, other),
{
    assert(s.push(inst)[s.len() as int] == inst);
    if other != inst.args {
        if has_instance(s, other) {
            let i = choose|i: int| 0 <= i < s.len() && s[i].args == other;
            assert(s.push(inst)[i] == s[i]);
        }
        if has_instance(s.push(inst), other) {
            let i = choose|i: int| 0 <= i < s.push(inst).len() && s.push(inst)[i].args == other;
            assert(i < s.len() && s[i] == s.push(inst)[i]);
        }
    }
}

} // verus!
