//! Host objects and the typed handles that guest code holds on them.
//!
//! The host owns every object. Objects are never removed from its table, so
//! an identity is never reused; a destroyed object stays in the table with
//! `live` cleared. Liveness is always read from the table, never cached in a
//! handle.

use vstd::prelude::*;
use crate::class::{ClassDb, ClassId, ClassView, is_a, lemma_is_a_transitive};
use crate::marshal::{GodotFfi, ObjectPtr, RawCell, ReprKind};

verus! {

/// The host's integer identity of an object; never zero.
#[derive(Clone, Copy, PartialEq, Eq, Structural, Debug)]
pub struct InstanceId {
    pub id: u64,
}

impl InstanceId {
    /// An identity from its integer value; zero names no object.
    pub fn try_from_i64(v: i64) -> (r: Option<InstanceId>)
        ensures
            r is Some <==> v > 0,
            r matches Some(i) ==> i.id == v,
    {
        if v > 0 {
            Some(InstanceId { id: v as u64 })
        } else {
            None
        }
    }
}

impl GodotFfi for InstanceId {
    open spec fn encode(&self) -> Seq<u64> {
        seq![self.id]
    }

    open spec fn decode(words: Seq<u64>) -> InstanceId {
        InstanceId { id: words[0] }
    }

    open spec fn cell_len() -> nat {
        1
    }

    proof fn lemma_decode_encode(v: InstanceId) {
    }

    fn repr_kind() -> (r: ReprKind) {
        ReprKind::Value
    }

    fn cell_words() -> (r: usize) {
        1
    }

    fn from_sys(cell: &RawCell) -> (r: InstanceId) {
        InstanceId { id: cell.words[0] }
    }

    fn sys(&self) -> (r: RawCell) {
        RawCell { words: vec![self.id] }
    }
}

/// One object in the host's table.
#[derive(Clone, Copy, PartialEq, Eq, Structural, Debug)]
pub struct ObjectRecord {
    /// The object's runtime class.
    pub class: ClassId,
    pub live: bool,
    /// Host reference count; only reference-counted classes use it.
    pub refcount: u64,
    /// The guest payload of the object.
    pub payload: i64,
}

/// The identity of the object at table slot `addr`.
pub open spec fn id_of(addr: nat) -> nat {
    addr + 1
}

/// The record after the object is destroyed.
pub open spec fn killed(o: ObjectRecord) -> ObjectRecord {
    ObjectRecord { live: false, ..o }
}

/// The table after an explicit `free` of the object at `addr`.
pub open spec fn freed(objs: Seq<ObjectRecord>, addr: nat) -> Seq<ObjectRecord> {
    objs.update(addr as int, killed(objs[addr as int]))
}

/// The table after the host destroys the object at `addr` by a route of its
/// own; a slot that holds no object is left alone.
pub open spec fn destroyed(objs: Seq<ObjectRecord>, addr: nat) -> Seq<ObjectRecord> {
    if addr < objs.len() {
        objs.update(addr as int, killed(objs[addr as int]))
    } else {
        objs
    }
}

/// Whether the slot `addr` holds an object that is still alive.
pub open spec fn valid_at(objs: Seq<ObjectRecord>, addr: nat) -> bool {
    addr < objs.len() && objs[addr as int].live
}

/// The table after one more handle to the object at `addr` is made.
pub open spec fn shared(objs: Seq<ObjectRecord>, cs: Seq<ClassView>, addr: nat) -> Seq<ObjectRecord> {
    let o = objs[addr as int];
    if o.live && cs[o.class as int].refcounted {
        objs.update(addr as int, ObjectRecord { refcount: (o.refcount + 1) as u64, ..o })
    } else {
        objs
    }
}

/// The table after one handle to the object at `addr` goes out of use. The
/// last handle to a reference-counted object destroys it; an object of any
/// other class is left as it is.
pub open spec fn dropped(objs: Seq<ObjectRecord>, cs: Seq<ClassView>, addr: nat) -> Seq<ObjectRecord> {
    let o = objs[addr as int];
    if o.live && cs[o.class as int].refcounted {
        if o.refcount <= 1 {
            objs.update(addr as int, ObjectRecord { refcount: 0, live: false, ..o })
        } else {
            objs.update(addr as int, ObjectRecord { refcount: (o.refcount - 1) as u64, ..o })
        }
    } else {
        objs
    }
}

/// Objects name classes of the table, and a live reference-counted object
/// has at least one reference.
pub open spec fn objects_wf(objs: Seq<ObjectRecord>, cs: Seq<ClassView>) -> bool {
    forall|i: int|
        0 <= i < objs.len() ==> {
            &&& objs[i].class < cs.len()
            &&& (objs[i].live && cs[objs[i].class as int].refcounted ==> objs[i].refcount >= 1)
        }
}

/// Upcasting a well-formed handle to any ancestor of its class cannot fail:
/// it gives a well-formed handle to the same object, whose identity is the
/// original's.
pub proof fn lemma_upcast_keeps_identity(host: Host, h: Gd, base: ClassId)
    requires
        host.wf(),
        host.handle_wf(&h),
        is_a(host.classes(), h.class as nat, base as nat),
    ensures
        host.handle_wf(&upcast_of(h, base)),
        upcast_of(h, base).addr() == h.addr(),
        id_of(upcast_of(h, base).addr()) == id_of(h.addr()),
{
    lemma_is_a_transitive(host.classes(), host.record(&h).class as nat, h.class as nat, base as nat);
}

/// After `free`, the object is dead: the liveness probe reports false, and a
/// second `free` of it is ruled out, since `free` asks for a live object.
pub proof fn lemma_free_ends_life(objs: Seq<ObjectRecord>, addr: nat)
    requires
        addr < objs.len(),
    ensures
        !freed(objs, addr)[addr as int].live,
        !valid_at(freed(objs, addr), addr),
{
}

/// An object that the host destroyed by a route of its own reads as dead
/// through every handle, since liveness is read from the host's table.
pub proof fn lemma_host_destroy_ends_life(objs: Seq<ObjectRecord>, addr: nat)
    ensures
        !valid_at(destroyed(objs, addr), addr),
{
}

/// Sharing a live reference-counted object and dropping one of the two
/// handles leaves it alive; where the original handle was the only one,
/// dropping both destroys it.
pub proof fn lemma_share_then_drop(objs: Seq<ObjectRecord>, cs: Seq<ClassView>, addr: nat)
    requires
        objects_wf(objs, cs),
        addr < objs.len(),
        objs[addr as int].live,
        cs[objs[addr as int].class as int].refcounted,
        objs[addr as int].refcount < u64::MAX,
    ensures
        valid_at(dropped(shared(objs, cs, addr), cs, addr), addr),
        objs[addr as int].refcount == 1 ==> !valid_at(
            dropped(dropped(shared(objs, cs, addr), cs, addr), cs, addr),
            addr,
        ),
{
}

/// A typed handle: a host object pointer and the class that the holder
/// sees the object as, which is its runtime class or an ancestor of it.
#[derive(PartialEq, Eq, Structural, Debug)]
pub struct Gd {
    pub ptr: ObjectPtr,
    pub class: ClassId,
}

impl Gd {
    /// The table slot that the handle points at.
    pub open spec fn addr(&self) -> nat {
        self.ptr.addr as nat
    }

    /// Reads a handle of static class `class` out of a pointer cell.
    pub fn from_sys(cell: &RawCell, class: ClassId) -> (r: Gd)
        requires
            cell.words@.len() == 1,
        ensures
            r.ptr == ObjectPtr::decode(cell.words@),
            r.class == class,
    {
        Gd { ptr: ObjectPtr::from_sys(cell), class }
    }

    /// The pointer cell of the handle.
    pub fn sys(&self) -> (r: RawCell)
        ensures
            r.words@ == self.ptr.encode(),
            Gd::from_sys_spec(r.words@, self.class) == *self,
    {
        proof {
            ObjectPtr::lemma_decode_encode(self.ptr);
        }
        self.ptr.sys()
    }

    /// The handle that `from_sys` reads out of `words`.
    pub open spec fn from_sys_spec(words: Seq<u64>, class: ClassId) -> Gd {
        Gd { ptr: ObjectPtr::decode(words), class }
    }
}

/// The handle that an upcast to `base` gives: the same object pointer, seen
/// as `base`.
pub open spec fn upcast_of(h: Gd, base: ClassId) -> Gd {
    Gd { ptr: h.ptr, class: base }
}

/// A value of the dynamic call convention.
#[derive(Clone, Copy, PartialEq, Eq, Structural, Debug)]
pub enum Variant {
    Nil,
    Bool(bool),
    Int(i64),
    Object(InstanceId),
}

// A `Variant` is value-backed: its cell holds two words, a tag and then the
// payload.

/// Tag of `Variant::Nil`.
pub const VARIANT_NIL: u64 = 0;

/// Tag of `Variant::Bool`; the payload is `1` for true, `0` for false.
pub const VARIANT_BOOL: u64 = 1;

/// Tag of `Variant::Int`; the payload is the integer's two's complement bits.
pub const VARIANT_INT: u64 = 2;

/// Tag of `Variant::Object`; the payload is the instance identity.
pub const VARIANT_OBJECT: u64 = 3;

impl GodotFfi for Variant {
    open spec fn encode(&self) -> Seq<u64> {
        match *self {
            Variant::Nil => seq![VARIANT_NIL, 0],
            Variant::Bool(b) => seq![VARIANT_BOOL, if b { 1 } else { 0 }],
            Variant::Int(x) => seq![VARIANT_INT, x as u64],
            Variant::Object(i) => seq![VARIANT_OBJECT, i.id],
        }
    }

    open spec fn decode(words: Seq<u64>) -> Variant {
        if words[0] == VARIANT_BOOL {
            Variant::Bool(words[1] != 0)
        } else if words[0] == VARIANT_INT {
            Variant::Int(words[1] as i64)
        } else if words[0] == VARIANT_OBJECT {
            Variant::Object(InstanceId { id: words[1] })
        } else {
            Variant::Nil
        }
    }

    open spec fn cell_len() -> nat {
        2
    }

    proof fn lemma_decode_encode(v: Variant) {
        if let Variant::Int(x) = v {
            assert(((x as u64) as i64) == x) by (bit_vector);
        }
    }

    fn repr_kind() -> (r: ReprKind) {
        ReprKind::Value
    }

    fn cell_words() -> (r: usize) {
        2
    }

    fn from_sys(cell: &RawCell) -> (r: Variant) {
        let tag = cell.words[0];
        let w = cell.words[1];
        if tag == VARIANT_BOOL {
            Variant::Bool(w != 0)
        } else if tag == VARIANT_INT {
            Variant::Int(w as i64)
        } else if tag == VARIANT_OBJECT {
            Variant::Object(InstanceId { id: w })
        } else {
            Variant::Nil
        }
    }

    fn sys(&self) -> (r: RawCell) {
        match *self {
            Variant::Nil => RawCell { words: vec![VARIANT_NIL, 0] },
            Variant::Bool(b) => RawCell { words: vec![VARIANT_BOOL, if b { 1 } else { 0 }] },
            Variant::Int(x) => RawCell { words: vec![VARIANT_INT, x as u64] },
            Variant::Object(i) => RawCell { words: vec![VARIANT_OBJECT, i.id] },
        }
    }
}

impl InstanceId {
    /// The identity that a dynamic value holds, if it holds one.
    pub fn from_variant(v: &Variant) -> (r: Option<InstanceId>)
        ensures
            r is Some <==> (v matches Variant::Int(x) && x > 0),
            r matches Some(i) ==> *v == Variant::Int(i.id as i64),
    {
        match v {
            Variant::Int(x) => InstanceId::try_from_i64(*x),
            _ => None,
        }
    }
}

/// An interned method name of the dynamic call convention.
#[derive(Debug)]
pub struct StringName {
    pub name: String,
}

impl StringName {
    /// The interned name of `s`.
    pub fn from(s: &str) -> (r: StringName)
        ensures
            r.name@ == s@,
    {
        StringName { name: s.to_owned() }
    }
}

/// Why a dynamic call was refused.
#[derive(Clone, Copy, PartialEq, Eq, Structural, Debug)]
pub enum CallError {
    /// The object has no method of that name.
    InvalidMethod,
    /// The method takes other arguments.
    InvalidArguments,
}

/// Name of the reflective method that returns the object's identity.
pub open spec fn get_instance_id_name() -> Seq<char> {
    "get_instance_id"@
}

/// Name of the reflective method that returns the guest payload.
pub open spec fn get_payload_name() -> Seq<char> {
    "get_payload"@
}

/// Name of the reflective method that replaces the guest payload.
pub open spec fn set_payload_name() -> Seq<char> {
    "set_payload"@
}

/// The host's object table together with its classes.
pub struct Host {
    pub db: ClassDb,
    pub objects: Vec<ObjectRecord>,
}

impl Host {
    pub open spec fn classes(&self) -> Seq<ClassView> {
        self.db.view()
    }

    pub open spec fn wf(&self) -> bool {
        &&& self.db.wf()
        &&& objects_wf(self.objects@, self.classes())
        &&& self.objects@.len() <= i64::MAX
    }

    /// The handle points into the table at an object whose runtime class is
    /// the handle's class or a descendant of it.
    pub open spec fn handle_wf(&self, h: &Gd) -> bool {
        &&& h.addr() < self.objects@.len()
        &&& is_a(self.classes(), self.objects@[h.addr() as int].class as nat, h.class as nat)
    }

    /// The record that a handle refers to.
    pub open spec fn record(&self, h: &Gd) -> ObjectRecord {
        self.objects@[h.addr() as int]
    }

    pub open spec fn is_refcounted(&self, h: &Gd) -> bool {
        self.classes()[self.record(h).class as int].refcounted
    }

    /// A host with the given classes and no object.
    pub fn new(db: ClassDb) -> (r: Host)
        requires
            db.wf(),
        ensures
            r.wf(),
            r.db == db,
            r.objects@.len() == 0,
    {
        Host { db, objects: Vec::new() }
    }

    fn create(&mut self, class: ClassId, payload: i64) -> (r: Gd)
        requires
            old(self).wf(),
            old(self).db.contains(class as nat),
            old(self).objects@.len() < i64::MAX,
        ensures
            final(self).wf(),
            final(self).db == old(self).db,
            final(self).objects@ == old(self).objects@.push(
                ObjectRecord {
                    class,
                    live: true,
                    refcount: if old(self).classes()[class as int].refcounted { 1 } else { 0 },
                    payload,
                },
            ),
            r.addr() == old(self).objects@.len(),
            r.class == class,
            final(self).handle_wf(&r),
    {
        let refcount: u64 = if self.db.classes[class].refcounted { 1 } else { 0 };
        assert(self.classes()[class as int] == crate::class::view_of(self.db.classes@[class as int]));
        let addr = self.objects.len();
        self.objects.push(ObjectRecord { class, live: true, refcount, payload });
        Gd { ptr: ObjectPtr { addr }, class }
    }

    /// Makes a new object of `class` whose payload comes from the class's
    /// registered initializer.
    pub fn new_default(&mut self, class: ClassId) -> (r: Gd)
        requires
            old(self).wf(),
            old(self).db.contains(class as nat),
            old(self).objects@.len() < i64::MAX,
        ensures
            final(self).wf(),
            final(self).db == old(self).db,
            final(self).objects@ == old(self).objects@.push(
                ObjectRecord {
                    class,
                    live: true,
                    refcount: if old(self).classes()[class as int].refcounted { 1 } else { 0 },
                    payload: old(self).db.classes@[class as int].default_payload,
                },
            ),
            r.addr() == old(self).objects@.len(),
            r.class == class,
            final(self).handle_wf(&r),
    {
        let payload = self.db.classes[class].default_payload;
        self.create(class, payload)
    }

    /// Makes a new object of `class` that holds `payload`.
    pub fn new_with_value(&mut self, class: ClassId, payload: i64) -> (r: Gd)
        requires
            old(self).wf(),
            old(self).db.contains(class as nat),
            old(self).objects@.len() < i64::MAX,
        ensures
            final(self).wf(),
            final(self).db == old(self).db,
            final(self).objects@ == old(self).objects@.push(
                ObjectRecord {
                    class,
                    live: true,
                    refcount: if old(self).classes()[class as int].refcounted { 1 } else { 0 },
                    payload,
                },
            ),
            r.addr() == old(self).objects@.len(),
            r.class == class,
            final(self).handle_wf(&r),
    {
        self.create(class, payload)
    }
    /// Whether `id` names a live object whose runtime class is `class` or a
    /// descendant of it.
    pub open spec fn lookup_ok(&self, id: InstanceId, class: ClassId) -> bool {
        &&& 1 <= id.id <= self.objects@.len()
        &&& self.objects@[id.id - 1].live
        &&& is_a(self.classes(), self.objects@[id.id - 1].class as nat, class as nat)
    }

    /// A second handle to the same object. For a live reference-counted
    /// object the host's count goes up by one; otherwise nothing changes.
    pub fn share(&mut self, h: &Gd) -> (r: Gd)
        requires
            old(self).wf(),
            old(self).handle_wf(h),
            old(self).record(h).refcount < u64::MAX,
        ensures
            final(self).wf(),
            final(self).db == old(self).db,
            final(self).objects@ == shared(old(self).objects@, old(self).classes(), h.addr()),
            r == *h,
            final(self).handle_wf(&r),
    {
        let addr = h.ptr.addr;
        let o = self.objects[addr];
        assert(self.classes()[o.class as int] == crate::class::view_of(self.db.classes@[o.class as int]));
        if o.live && self.db.classes[o.class].refcounted {
            self.objects.set(addr, ObjectRecord { refcount: o.refcount + 1, ..o });
        }
        Gd { ptr: h.ptr, class: h.class }
    }

    /// Gives up a handle. The last handle to a live reference-counted object
    /// destroys it; an object of any other class stays as it is, and leaks
    /// unless it is freed through another handle.
    pub fn drop_handle(&mut self, h: Gd)
        requires
            old(self).wf(),
            old(self).handle_wf(&h),
        ensures
            final(self).wf(),
            final(self).db == old(self).db,
            final(self).objects@ == dropped(old(self).objects@, old(self).classes(), h.addr()),
    {
        let addr = h.ptr.addr;
        let o = self.objects[addr];
        assert(self.classes()[o.class as int] == crate::class::view_of(self.db.classes@[o.class as int]));
        if o.live && self.db.classes[o.class].refcounted {
            if o.refcount <= 1 {
                self.objects.set(addr, ObjectRecord { refcount: 0, live: false, ..o });
            } else {
                self.objects.set(addr, ObjectRecord { refcount: o.refcount - 1, ..o });
            }
        }
    }

    /// Sees the object as its ancestor `base`. Every instance of a class is
    /// an instance of its ancestors, so nothing is checked at run time.
    pub fn upcast(&self, h: Gd, base: ClassId) -> (r: Gd)
        requires
            self.wf(),
            self.handle_wf(&h),
            is_a(self.classes(), h.class as nat, base as nat),
        ensures
            r == upcast_of(h, base),
            self.handle_wf(&r),
    {
        proof {
            lemma_is_a_transitive(self.classes(), self.record(&h).class as nat, h.class as nat, base as nat);
        }
        Gd { ptr: h.ptr, class: base }
    }

    /// Sees the object as `target`, which its runtime class must descend
    /// from.
    pub fn cast(&self, h: Gd, target: ClassId) -> (r: Gd)
        requires
            self.wf(),
            self.handle_wf(&h),
            self.record(&h).live,
            is_a(self.classes(), self.record(&h).class as nat, target as nat),
        ensures
            r.ptr == h.ptr,
            r.class == target,
            self.handle_wf(&r),
    {
        Gd { ptr: h.ptr, class: target }
    }

    /// Sees the object as `target` where it is alive and its runtime class
    /// descends from `target`; otherwise hands the original handle back.
    pub fn try_cast(&self, h: Gd, target: ClassId) -> (r: Result<Gd, Gd>)
        requires
            self.wf(),
            self.handle_wf(&h),
        ensures
            r is Ok <==> self.record(&h).live && is_a(
                self.classes(),
                self.record(&h).class as nat,
                target as nat,
            ),
            r matches Ok(g) ==> g.ptr == h.ptr && g.class == target && self.handle_wf(&g),
            r matches Err(g) ==> g == h && self.handle_wf(&g),
    {
        let o = self.objects[h.ptr.addr];
        if o.live && self.db.is_a(o.class, target) {
            Ok(Gd { ptr: h.ptr, class: target })
        } else {
            Err(h)
        }
    }

    /// The host's identity of a live object.
    pub fn instance_id(&self, h: &Gd) -> (r: InstanceId)
        requires
            self.handle_wf(h),
            self.record(h).live,
        ensures
            r.id == id_of(h.addr()),
    {
        let n = self.objects.len();
        assert(h.ptr.addr < n);
        InstanceId { id: h.ptr.addr as u64 + 1 }
    }

    /// Whether the handle's object is still alive, asked of the host's table.
    pub fn is_instance_valid(&self, h: &Gd) -> (r: bool)
        ensures
            r == valid_at(self.objects@, h.addr()),
    {
        h.ptr.addr < self.objects.len() && self.objects[h.ptr.addr].live
    }

    /// Destroys a live object whose lifetime is managed by hand.
    pub fn free(&mut self, h: Gd)
        requires
            old(self).wf(),
            old(self).handle_wf(&h),
            old(self).record(&h).live,
            !old(self).is_refcounted(&h),
        ensures
            final(self).wf(),
            final(self).db == old(self).db,
            final(self).objects@ == freed(old(self).objects@, h.addr()),
    {
        let addr = h.ptr.addr;
        let o = self.objects[addr];
        self.objects.set(addr, ObjectRecord { live: false, ..o });
    }

    /// The host destroys the object that `id` names by a route of its own,
    /// such as tearing down a scene. Handles are not told.
    pub fn host_destroy(&mut self, id: InstanceId)
        requires
            old(self).wf(),
        ensures
            final(self).wf(),
            final(self).db == old(self).db,
            final(self).objects@ == (if id.id == 0 {
                old(self).objects@
            } else {
                destroyed(old(self).objects@, (id.id - 1) as nat)
            }),
    {
        if id.id != 0 && id.id - 1 < self.objects.len() as u64 {
            let addr = (id.id - 1) as usize;
            let o = self.objects[addr];
            self.objects.set(addr, ObjectRecord { live: false, ..o });
        }
    }

    /// The handle of static class `class` to the live object that `id`
    /// names.
    pub fn from_instance_id(&self, id: InstanceId, class: ClassId) -> (r: Gd)
        requires
            self.wf(),
            self.lookup_ok(id, class),
        ensures
            id_of(r.addr()) == id.id,
            r.class == class,
            self.handle_wf(&r),
    {
        let n = self.objects.len();
        assert(id.id - 1 < n);
        Gd { ptr: ObjectPtr { addr: (id.id - 1) as usize }, class }
    }

    /// As `from_instance_id`, but `None` where `id` names no live object, or
    /// one whose runtime class does not descend from `class`.
    pub fn try_from_instance_id(&self, id: InstanceId, class: ClassId) -> (r: Option<Gd>)
        requires
            self.wf(),
        ensures
            r is Some <==> self.lookup_ok(id, class),
            r matches Some(g) ==> id_of(g.addr()) == id.id && g.class == class && self.handle_wf(&g),
    {
        if id.id == 0 || id.id - 1 >= self.objects.len() as u64 {
            return None;
        }
        let addr = (id.id - 1) as usize;
        let o = self.objects[addr];
        if o.live && self.db.is_a(o.class, class) {
            Some(Gd { ptr: ObjectPtr { addr }, class })
        } else {
            None
        }
    }

    /// The guest payload of a live object.
    pub fn bind(&self, h: &Gd) -> (r: i64)
        requires
            self.handle_wf(h),
            self.record(h).live,
        ensures
            r == self.record(h).payload,
    {
        self.objects[h.ptr.addr].payload
    }

    /// Replaces the guest payload of a live object.
    pub fn set_payload(&mut self, h: &Gd, payload: i64)
        requires
            old(self).wf(),
            old(self).handle_wf(h),
            old(self).record(h).live,
        ensures
            final(self).wf(),
            final(self).db == old(self).db,
            final(self).objects@ == old(self).objects@.update(
                h.addr() as int,
                ObjectRecord { payload, ..old(self).record(h) },
            ),
    {
        let o = self.objects[h.ptr.addr];
        self.objects.set(h.ptr.addr, ObjectRecord { payload, ..o });
    }

    /// The name of the runtime class of a live object.
    pub fn get_class(&self, h: &Gd) -> (r: &String)
        requires
            self.wf(),
            self.handle_wf(h),
            self.record(h).live,
        ensures
            r == self.db.classes@[self.record(h).class as int].name,
    {
        self.db.class_name(self.objects[h.ptr.addr].class)
    }
    /// Calls a method by name, passing and returning dynamic values. The
    /// methods are `get_instance_id()`, `get_payload()` and
    /// `set_payload(int)`, which returns `Nil`.
    pub fn call(&mut self, h: &Gd, method: &StringName, args: &Vec<Variant>) -> (r: Result<Variant, CallError>)
        requires
            old(self).wf(),
            old(self).handle_wf(h),
            old(self).record(h).live,
        ensures
            final(self).wf(),
            final(self).db == old(self).db,
            method.name@ == get_instance_id_name() ==> if args@.len() == 0 {
                r == Ok::<Variant, CallError>(Variant::Int(id_of(h.addr()) as i64))
            } else {
                r == Err::<Variant, CallError>(CallError::InvalidArguments)
            },
            method.name@ == get_payload_name() ==> if args@.len() == 0 {
                r == Ok::<Variant, CallError>(Variant::Int(old(self).record(h).payload))
            } else {
                r == Err::<Variant, CallError>(CallError::InvalidArguments)
            },
            method.name@ == set_payload_name() ==> if args@.len() == 1 && args@[0] is Int {
                r == Ok::<Variant, CallError>(Variant::Nil)
            } else {
                r == Err::<Variant, CallError>(CallError::InvalidArguments)
            },
            method.name@ != get_instance_id_name() && method.name@ != get_payload_name()
                && method.name@ != set_payload_name() ==> r == Err::<Variant, CallError>(
                CallError::InvalidMethod,
            ),
            final(self).objects@ == (if method.name@ == set_payload_name() && r is Ok {
                old(self).objects@.update(
                    h.addr() as int,
                    ObjectRecord { payload: args@[0]->Int_0, ..old(self).record(h) },
                )
            } else {
                old(self).objects@
            }),
    {
        proof {
            reveal_strlit("get_instance_id");
            reveal_strlit("get_payload");
            reveal_strlit("set_payload");
            assert(get_instance_id_name().len() != get_payload_name().len());
            assert(get_instance_id_name().len() != set_payload_name().len());
            assert(get_payload_name()[0] != set_payload_name()[0]);
        }
        let get_id = String::from_str("get_instance_id");
        let get_payload = String::from_str("get_payload");
        let set_payload = String::from_str("set_payload");
        if method.name == get_id {
            if args.len() != 0 {
                return Err(CallError::InvalidArguments);
            }
            let id = self.instance_id(h);
            Ok(Variant::Int(id.id as i64))
        } else if method.name == get_payload {
            if args.len() != 0 {
                return Err(CallError::InvalidArguments);
            }
            Ok(Variant::Int(self.bind(h)))
        } else if method.name == set_payload {
            if args.len() != 1 {
                return Err(CallError::InvalidArguments);
            }
            match args[0] {
                Variant::Int(v) => {
                    self.set_payload(h, v);
                    Ok(Variant::Nil)
                },
                _ => Err(CallError::InvalidArguments),
            }
        } else {
            Err(CallError::InvalidMethod)
        }
    }
}

} // verus!
