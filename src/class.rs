//! Class identity and the single-inheritance hierarchy that host-native and
//! guest-defined classes share.

use vstd::prelude::*;

verus! {

/// Where a class was defined.
#[derive(Clone, Copy, PartialEq, Eq, Structural, Debug)]
pub enum Domain {
    /// A class of the host engine.
    Engine,
    /// A class registered by guest code.
    User,
}

/// Index of a class in its [`ClassDb`].
pub type ClassId = usize;

/// Static metadata of one class.
pub struct ClassInfo {
    pub name: String,
    pub base: Option<ClassId>,
    pub domain: Domain,
    /// Instances are destroyed by host reference counting, never by `free`.
    pub refcounted: bool,
    /// Payload that the registered initializer gives a new instance.
    pub default_payload: i64,
}

/// The class table. Class `0` is the root; every other class names a direct
/// base registered before it.
pub struct ClassDb {
    pub classes: Vec<ClassInfo>,
}

/// The metadata that the hierarchy depends on, seen abstractly.
pub struct ClassView {
    pub base: Option<nat>,
    pub refcounted: bool,
}

pub open spec fn view_of(c: ClassInfo) -> ClassView {
    ClassView {
        base: match c.base {
            Some(b) => Some(b as nat),
            None => None,
        },
        refcounted: c.refcounted,
    }
}

/// The hierarchy is a tree rooted at class `0`, bases come first, and a
/// reference-counted base makes its subclasses reference-counted.
pub open spec fn hierarchy_wf(cs: Seq<ClassView>) -> bool {
    forall|i: int|
        0 <= i < cs.len() ==> {
            &&& (i == 0 <==> cs[i].base is None)
            &&& (cs[i].base matches Some(b) ==> b < i && (cs[b as int].refcounted ==> cs[i].refcounted))
        }
}

/// `a` lies on the walk of base links from `d` up to the root; every class
/// is an ancestor of itself.
pub open spec fn is_a(cs: Seq<ClassView>, d: nat, a: nat) -> bool
    decreases d,
{
    if d == a {
        true
    } else if d < cs.len() {
        match cs[d as int].base {
            Some(b) => if b < d { is_a(cs, b, a) } else { false },
            None => false,
        }
    } else {
        false
    }
}

/// Ancestors never come after their descendants in the table.
pub proof fn lemma_ancestor_not_after(cs: Seq<ClassView>, d: nat, a: nat)
    requires
        is_a(cs, d, a),
    ensures
        a <= d,
    decreases d,
{
    if d != a {
        let b = cs[d as int].base->Some_0;
        lemma_ancestor_not_after(cs, b, a);
    }
}

/// Every ancestor of an ancestor is an ancestor.
pub proof fn lemma_is_a_transitive(cs: Seq<ClassView>, d: nat, m: nat, a: nat)
    requires
        is_a(cs, d, m),
        is_a(cs, m, a),
    ensures
        is_a(cs, d, a),
    decreases d,
{
    if d != m {
        let b = cs[d as int].base->Some_0;
        lemma_is_a_transitive(cs, b, m, a);
    }
}

/// A descendant of a reference-counted class is reference-counted.
pub proof fn lemma_refcounted_inherited(cs: Seq<ClassView>, d: nat, a: nat)
    requires
        hierarchy_wf(cs),
        d < cs.len(),
        is_a(cs, d, a),
        cs[a as int].refcounted,
    ensures
        cs[d as int].refcounted,
    decreases d,
{
    if d != a {
        let b = cs[d as int].base->Some_0;
        lemma_refcounted_inherited(cs, b, a);
    }
}

/// Every class descends from the root.
pub proof fn lemma_root_is_ancestor(cs: Seq<ClassView>, d: nat)
    requires
        hierarchy_wf(cs),
        d < cs.len(),
    ensures
        is_a(cs, d, 0),
    decreases d,
{
    if d != 0 {
        let b = cs[d as int].base->Some_0;
        lemma_root_is_ancestor(cs, b);
    }
}

impl ClassDb {
    pub open spec fn view(&self) -> Seq<ClassView> {
        self.classes@.map_values(|c: ClassInfo| view_of(c))
    }

    pub open spec fn wf(&self) -> bool {
        hierarchy_wf(self.view())
    }

    pub open spec fn contains(&self, c: nat) -> bool {
        c < self.classes@.len()
    }

    pub open spec fn is_a_spec(&self, d: nat, a: nat) -> bool {
        is_a(self.view(), d, a)
    }

    /// An empty table.
    pub fn new() -> (r: ClassDb)
        ensures
            r.wf(),
            r.classes@.len() == 0,
    {
        ClassDb { classes: Vec::new() }
    }

    /// Registers a class under `base`, or as the root when the table is empty
    /// and `base` is `None`. Any other combination is refused with `None`.
    /// The new class is reference-counted if `refcounted` is set or its base is.
    pub fn register_class(
        &mut self,
        name: String,
        base: Option<ClassId>,
        domain: Domain,
        refcounted: bool,
        default_payload: i64,
    ) -> (r: Option<ClassId>)
        requires
            old(self).wf(),
        ensures
            final(self).wf(),
            r is Some <==> old(self).classes@.len() < usize::MAX && (match base {
                None => old(self).classes@.len() == 0,
                Some(b) => b < old(self).classes@.len(),
            }),
            r is None ==> final(self).classes@ == old(self).classes@,
            r is Some ==> final(self).view() == old(self).view().push(
                ClassView {
                    base: match base {
                        Some(b) => Some(b as nat),
                        None => None,
                    },
                    refcounted: refcounted || match base {
                        Some(b) => old(self).classes@[b as int].refcounted,
                        None => false,
                    },
                },
            ),
            r matches Some(id) ==> {
                &&& id == old(self).classes@.len()
                &&& final(self).classes@.len() == id + 1
                &&& final(self).classes@.drop_last() == old(self).classes@
                &&& final(self).classes@[id as int].name == name
                &&& final(self).classes@[id as int].base == base
                &&& final(self).classes@[id as int].domain == domain
                &&& final(self).classes@[id as int].default_payload == default_payload
                &&& final(self).classes@[id as int].refcounted == (refcounted || match base {
                    Some(b) => old(self).classes@[b as int].refcounted,
                    None => false,
                })
            },
    {
        let n = self.classes.len();
        let inherited = match base {
            None => {
                if n != 0 {
                    return None;
                }
                false
            },
            Some(b) => {
                if b >= n {
                    return None;
                }
                self.classes[b].refcounted
            },
        };
        if n == usize::MAX {
            return None;
        }
        let info = ClassInfo { name, base, domain, refcounted: refcounted || inherited, default_payload };
        self.classes.push(info);
        assert(self.view() =~= old(self).view().push(view_of(info)));
        Some(n)
    }

    /// Decides whether `a` is `d` or one of its ancestors, by walking base
    /// links from `d` up to the root.
    pub fn is_a(&self, d: ClassId, a: ClassId) -> (r: bool)
        requires
            self.wf(),
            self.contains(d as nat),
        ensures
            r == self.is_a_spec(d as nat, a as nat),
    {
        let mut cur: usize = d;
        while cur != a
            invariant
                self.wf(),
                self.contains(cur as nat),
                self.is_a_spec(d as nat, a as nat) == self.is_a_spec(cur as nat, a as nat),
            decreases cur,
        {
            match self.classes[cur].base {
                Some(b) => {
                    assert(self.view()[cur as int] == view_of(self.classes@[cur as int]));
                    cur = b;
                },
                None => {
                    assert(self.view()[cur as int] == view_of(self.classes@[cur as int]));
                    return false;
                },
            }
        }
        true
    }

    /// The name of class `c`.
    pub fn class_name(&self, c: ClassId) -> (r: &String)
        requires
            self.contains(c as nat),
        ensures
            r == self.classes@[c as int].name,
    {
        &self.classes[c].name
    }

    /// The direct base of class `c`; `None` for the root.
    pub fn direct_base(&self, c: ClassId) -> (r: Option<ClassId>)
        requires
            self.contains(c as nat),
        ensures
            r == self.classes@[c as int].base,
    {
        self.classes[c].base
    }
}

} // verus!
