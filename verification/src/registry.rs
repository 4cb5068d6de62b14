//! The types an app knows about, and the entity classes among them.
//!
//! Each registration stands for one Rust type, identified by its type id. A type that is an
//! entity class carries its class, which can be disabled so that it is neither spawned nor
//! written into FGD files.
use vstd::prelude::*;
use crate::class::ErasedQuakeClass;
use crate::text::str_eq;

verus! {

/// The class of a registered type, and whether it is in use.
#[derive(Debug)]
pub struct ReflectQuakeClass {
    pub erased_class: ErasedQuakeClass,
    pub enabled: bool,
}

/// One registered type.
#[derive(Debug)]
pub struct ClassRegistration {
    /// Identifies the type.
    pub type_id: u64,
    /// The full path of the type, for messages.
    pub type_path: &'static str,
    /// The entity class of the type, if it is one.
    pub class: Option<ReflectQuakeClass>,
}

/// The registered types, in the order the registry walks them. No type is registered twice.
#[derive(Debug)]
pub struct ClassRegistry {
    registrations: Vec<ClassRegistration>,
}

/// Whether a type with id `id` is registered in `regs`.
pub open spec fn is_registered(regs: Seq<ClassRegistration>, id: u64) -> bool {
    exists|j: int| 0 <= j < regs.len() && (#[trigger] regs[j]).type_id == id
}

/// No two registrations share a type id.
pub open spec fn ids_distinct(regs: Seq<ClassRegistration>) -> bool {
    forall|i: int, j: int| 0 <= i < j < regs.len() ==> (#[trigger] regs[i]).type_id != (#[trigger] regs[j]).type_id
}

/// `r` with its class (if any) enabled or disabled.
pub open spec fn with_enabled(r: ClassRegistration, enabled: bool) -> ClassRegistration {
    match r.class {
        Some(c) => ClassRegistration {
            type_id: r.type_id,
            type_path: r.type_path,
            class: Some(ReflectQuakeClass { erased_class: c.erased_class, enabled }),
        },
        None => r,
    }
}

/// `regs` after disabling the class of the type `type_id`.
pub open spec fn disabled(regs: Seq<ClassRegistration>, type_id: u64) -> Seq<ClassRegistration> {
    Seq::new(regs.len(), |k: int| if regs[k].type_id == type_id { with_enabled(regs[k], false) } else { regs[k] })
}

/// The registration a newly registered type gets: its class, if any, is enabled.
pub open spec fn new_registration(type_id: u64, type_path: &'static str, class: Option<ErasedQuakeClass>) -> ClassRegistration {
    ClassRegistration {
        type_id,
        type_path,
        class: match class {
            Some(c) => Some(ReflectQuakeClass { erased_class: c, enabled: true }),
            None => None,
        },
    }
}

/// What registering a type does to `regs`: nothing if the type is already registered,
/// else its registration is added at the end.
pub open spec fn registered_with(regs: Seq<ClassRegistration>, type_id: u64, type_path: &'static str, class: Option<ErasedQuakeClass>) -> Seq<ClassRegistration> {
    if is_registered(regs, type_id) {
        regs
    } else {
        regs.push(new_registration(type_id, type_path, class))
    }
}

/// The registration `r` after the class `type_id` (named `name`) overrides every other class
/// of that name: the overriding class is enabled, the others of that name disabled.
pub open spec fn overridden(r: ClassRegistration, type_id: u64, name: Seq<char>) -> ClassRegistration {
    match r.class {
        Some(c) => if r.type_id == type_id {
            with_enabled(r, true)
        } else if c.erased_class.info.name@ == name {
            with_enabled(r, false)
        } else {
            r
        },
        None => r,
    }
}

/// The enabled classes of `regs`, in registry order.
pub open spec fn enabled_classes(regs: Seq<ClassRegistration>) -> Seq<ErasedQuakeClass>
    decreases regs.len(),
{
    if regs.len() == 0 {
        Seq::empty()
    } else {
        let rest = enabled_classes(regs.drop_last());
        match regs.last().class {
            Some(c) => if c.enabled { rest.push(c.erased_class) } else { rest },
            None => rest,
        }
    }
}

/// Whether `r` is an enabled class named `name`.
pub open spec fn is_enabled_named(r: ClassRegistration, name: Seq<char>) -> bool {
    r.class matches Some(c) && c.enabled && c.erased_class.info.name@ == name
}

/// The type paths of the enabled classes named `name`, in registry order.
pub open spec fn paths_named(regs: Seq<ClassRegistration>, name: Seq<char>) -> Seq<Seq<char>>
    decreases regs.len(),
{
    if regs.len() == 0 {
        Seq::empty()
    } else if is_enabled_named(regs.last(), name) {
        paths_named(regs.drop_last(), name).push(regs.last().type_path@)
    } else {
        paths_named(regs.drop_last(), name)
    }
}

/// The position of the last enabled class named `name`, if there is one.
pub open spec fn last_enabled_named(regs: Seq<ClassRegistration>, name: Seq<char>) -> Option<int>
    decreases regs.len(),
{
    if regs.len() == 0 {
        None
    } else if is_enabled_named(regs.last(), name) {
        Some(regs.len() - 1)
    } else {
        last_enabled_named(regs.drop_last(), name)
    }
}

/// Every registration of `regs` after the class `type_id` named `name` has overridden the others.
pub open spec fn overridden_all(regs: Seq<ClassRegistration>, type_id: u64, name: Seq<char>) -> Seq<ClassRegistration> {
    Seq::new(regs.len(), |k: int| overridden(regs[k], type_id, name))
}

/// A classname that more than one enabled type registers.
#[derive(Debug)]
pub struct ClassConflict {
    pub classname: &'static str,
    /// The paths of the types registering the class, in registry order.
    pub type_paths: Vec<&'static str>,
}

/// The paths of `paths` as character sequences.
pub open spec fn path_views(paths: Seq<&'static str>) -> Seq<Seq<char>> {
    paths.map_values(|p: &'static str| p@)
}

impl View for ClassRegistry {
    type V = Seq<ClassRegistration>;

    closed spec fn view(&self) -> Seq<ClassRegistration> {
        self.registrations@
    }
}

impl ClassRegistry {
    #[verifier::type_invariant]
    closed spec fn wf(&self) -> bool {
        ids_distinct(self.registrations@)
    }

    /// An empty registry.
    pub fn new() -> (r: Self)
        ensures
            r@ == Seq::<ClassRegistration>::empty(),
    {
        ClassRegistry { registrations: Vec::new() }
    }

    /// The registrations, in registry order; no type is registered twice.
    pub fn registrations(&self) -> (r: &Vec<ClassRegistration>)
        ensures
            r@ == self@,
            ids_distinct(self@),
    {
        proof { use_type_invariant(self); }
        &self.registrations
    }

    /// The position of the registration of `type_id`, if it is registered.
    pub fn position(&self, type_id: u64) -> (r: Option<usize>)
        ensures
            match r {
                Some(j) => j < self@.len() && self@[j as int].type_id == type_id,
                None => !is_registered(self@, type_id),
            },
    {
        let mut j: usize = 0;
        while j < self.registrations.len()
            invariant
                j <= self.registrations@.len(),
                forall|k: int| 0 <= k < j ==> (#[trigger] self.registrations@[k]).type_id != type_id,
            decreases self.registrations@.len() - j,
        {
            if self.registrations[j].type_id == type_id {
                return Some(j);
            }
            j = j + 1;
        }
        None
    }

    /// Whether the type `type_id` is registered.
    pub fn contains(&self, type_id: u64) -> (r: bool)
        ensures
            r == is_registered(self@, type_id),
    {
        self.position(type_id).is_some()
    }

    /// Registers a type, with its class if it is one. Registering a type that is already
    /// registered changes nothing and returns `false`.
    pub fn register(&mut self, type_id: u64, type_path: &'static str, class: Option<ErasedQuakeClass>) -> (r: bool)
        ensures
            r == !is_registered(old(self)@, type_id),
            final(self)@ == registered_with(old(self)@, type_id, type_path, class),
    {
        proof { use_type_invariant(&*self); }
        if self.contains(type_id) {
            return false;
        }
        let reg = ClassRegistration {
            type_id,
            type_path,
            class: match class {
                Some(c) => Some(ReflectQuakeClass { erased_class: c, enabled: true }),
                None => None,
            },
        };
        let mut regs: Vec<ClassRegistration> = Vec::new();
        std::mem::swap(&mut regs, &mut self.registrations);
        regs.push(reg);
        self.registrations = regs;
        true
    }

    /// Registers the class `type_id` after disabling every other class with the same classname;
    /// the class itself is enabled if it was registered and disabled before.
    pub fn override_class(&mut self, type_id: u64, type_path: &'static str, class: ErasedQuakeClass)
        ensures
            final(self)@ == registered_with(
                overridden_all(old(self)@, type_id, class.info.name@),
                type_id,
                type_path,
                Some(class),
            ),
    {
        proof { use_type_invariant(&*self); }
        let ghost before = self.registrations@;
        let ghost name = class.info.name@;
        let mut rest: Vec<ClassRegistration> = Vec::new();
        std::mem::swap(&mut rest, &mut self.registrations);
        let mut done: Vec<ClassRegistration> = Vec::new();
        let n = rest.len();
        let mut i: usize = 0;
        while i < n
            invariant
                n == before.len(),
                name == class.info.name@,
                i <= n,
                rest@ == before.subrange(i as int, n as int),
                done@.len() == i,
                forall|k: int| 0 <= k < i ==> #[trigger] done@[k] == overridden(before[k], type_id, name),
            decreases n - i,
        {
            let reg = rest.remove(0);
            assert(reg == before[i as int]);
            let new_reg = match reg.class {
                Some(c) => {
                    let enabled = if reg.type_id == type_id {
                        true
                    } else if str_eq(c.erased_class.info.name, class.info.name) {
                        false
                    } else {
                        c.enabled
                    };
                    ClassRegistration {
                        type_id: reg.type_id,
                        type_path: reg.type_path,
                        class: Some(ReflectQuakeClass { erased_class: c.erased_class, enabled }),
                    }
                },
                None => ClassRegistration { type_id: reg.type_id, type_path: reg.type_path, class: None },
            };
            done.push(new_reg);
            assert(before.subrange(i + 1, n as int) == before.subrange(i as int, n as int).remove(0));
            i = i + 1;
        }
        proof {
            assert(done@ =~= overridden_all(before, type_id, name));
            assert forall|a: int, b: int| 0 <= a < b < done@.len() implies (#[trigger] done@[a]).type_id
                != (#[trigger] done@[b]).type_id by {
                assert(done@[a].type_id == before[a].type_id);
                assert(done@[b].type_id == before[b].type_id);
            }
        }
        self.registrations = done;
        self.register(type_id, type_path, Some(class));
    }

    /// The last enabled class named `classname`, which is the one used to spawn entities of
    /// that classname.
    pub fn class_by_name(&self, classname: &str) -> (r: Option<&ErasedQuakeClass>)
        ensures
            match last_enabled_named(self@, classname@) {
                Some(j) => r matches Some(c) && self@[j].class matches Some(rc) && *c == rc.erased_class,
                None => r is None,
            },
    {
        let mut j = self.registrations.len();
        assert(self.registrations@.take(j as int) == self.registrations@);
        while j > 0
            invariant
                j <= self.registrations@.len(),
                last_enabled_named(self.registrations@, classname@) == last_enabled_named(
                    self.registrations@.take(j as int),
                    classname@,
                ),
            decreases j,
        {
            assert(self.registrations@.take(j as int).drop_last() == self.registrations@.take(j - 1));
            match &self.registrations[j - 1].class {
                Some(c) => {
                    if c.enabled && str_eq(c.erased_class.info.name, classname) {
                        return Some(&c.erased_class);
                    }
                },
                None => {},
            }
            j = j - 1;
        }
        None
    }

    /// Stops the class `type_id` from being considered when spawning or writing an FGD file,
    /// effectively unregistering it.
    pub fn disable_class(&mut self, type_id: u64)
        requires
            exists|j: int| 0 <= j < old(self)@.len() && (#[trigger] old(self)@[j]).type_id == type_id
                && old(self)@[j].class is Some,
        ensures
            final(self)@ == disabled(old(self)@, type_id),
    {
        proof { use_type_invariant(&*self); }
        let j = self.position(type_id).unwrap();
        let ghost before = self.registrations@;
        let mut regs: Vec<ClassRegistration> = Vec::new();
        std::mem::swap(&mut regs, &mut self.registrations);
        let mut reg = regs.remove(j);
        if let Some(c) = reg.class {
            reg.class = Some(ReflectQuakeClass { erased_class: c.erased_class, enabled: false });
        }
        regs.insert(j, reg);
        proof {
            assert forall|k: int| 0 <= k < before.len() implies #[trigger] regs@[k] == (if before[k].type_id
                == type_id { with_enabled(before[k], false) } else { before[k] }) by {
                if k != j {
                    assert(before[k].type_id != type_id);
                }
            }
            assert forall|a: int, b: int| 0 <= a < b < regs@.len() implies (#[trigger] regs@[a]).type_id
                != (#[trigger] regs@[b]).type_id by {
                assert(regs@[a].type_id == before[a].type_id);
                assert(regs@[b].type_id == before[b].type_id);
            }
            assert(regs@ =~= disabled(before, type_id));
        }
        self.registrations = regs;
    }
}

} // verus!

verus! {

/// After the class `type_id` overrides the others of its name, it is registered and enabled,
/// and no other type registers an enabled class of that name (when the type, if already
/// registered, was registered as a class).
pub proof fn lemma_override_leaves_one(regs: Seq<ClassRegistration>, type_id: u64, type_path: &'static str, class: ErasedQuakeClass)
    requires
        ids_distinct(regs),
        forall|j: int| 0 <= j < regs.len() && (#[trigger] regs[j]).type_id == type_id ==> regs[j].class is Some,
    ensures
        ({
            let after = registered_with(overridden_all(regs, type_id, class.info.name@), type_id, type_path, Some(class));
            &&& exists|j: int| 0 <= j < after.len() && (#[trigger] after[j]).type_id == type_id
                && after[j].class is Some && after[j].class->0.enabled
            &&& forall|j: int| 0 <= j < after.len() && is_enabled_named(#[trigger] after[j], class.info.name@)
                ==> after[j].type_id == type_id
        }),
{
    let name = class.info.name@;
    let mid = overridden_all(regs, type_id, name);
    let after = registered_with(mid, type_id, type_path, Some(class));
    assert forall|j: int| 0 <= j < mid.len() implies (#[trigger] mid[j]).type_id == regs[j].type_id by {}
    if is_registered(mid, type_id) {
        let j = choose|j: int| 0 <= j < mid.len() && (#[trigger] mid[j]).type_id == type_id;
        assert(regs[j].type_id == type_id);
        assert(after[j].class is Some && after[j].class->0.enabled);
    } else {
        assert(after[after.len() - 1].type_id == type_id);
        assert(after[after.len() - 1].class is Some && after[after.len() - 1].class->0.enabled);
    }
}

/// Whether `r` holds the class `c`, enabled.
pub open spec fn registers_enabled(r: ClassRegistration, c: ErasedQuakeClass) -> bool {
    r.class matches Some(rc) && rc.enabled && rc.erased_class == c
}

/// The class that `last_enabled_named` finds is an enabled class of that name.
proof fn lemma_last_enabled_named_found(regs: Seq<ClassRegistration>, name: Seq<char>)
    ensures
        last_enabled_named(regs, name) matches Some(j) ==> 0 <= j < regs.len() && is_enabled_named(regs[j], name),
    decreases regs.len(),
{
    if regs.len() > 0 && !is_enabled_named(regs.last(), name) {
        lemma_last_enabled_named_found(regs.drop_last(), name);
    }
}

/// Every class of `enabled_classes(regs)` is the class of an enabled registration of `regs`.
proof fn lemma_enabled_classes_registered(regs: Seq<ClassRegistration>)
    ensures
        forall|k: int| 0 <= k < enabled_classes(regs).len() ==> exists|j: int| 0 <= j < regs.len()
            && registers_enabled(#[trigger] regs[j], #[trigger] enabled_classes(regs)[k]),
    decreases regs.len(),
{
    if regs.len() > 0 {
        let rest = regs.drop_last();
        lemma_enabled_classes_registered(rest);
        assert forall|k: int| 0 <= k < enabled_classes(regs).len() implies exists|j: int| 0 <= j < regs.len()
            && registers_enabled(#[trigger] regs[j], #[trigger] enabled_classes(regs)[k]) by {
            if k < enabled_classes(rest).len() {
                assert(enabled_classes(regs)[k] == enabled_classes(rest)[k]);
                let j = choose|j: int| 0 <= j < rest.len() && registers_enabled(#[trigger] rest[j], enabled_classes(rest)[k]);
                assert(regs[j] == rest[j]);
            } else {
                assert(regs[regs.len() - 1] == regs.last());
            }
        }
    }
}

/// A disabled class is never the class found for its classname, the one entities of that
/// classname spawn with.
pub proof fn lemma_disabled_class_not_found(regs: Seq<ClassRegistration>, type_id: u64, name: Seq<char>)
    ensures
        last_enabled_named(disabled(regs, type_id), name) matches Some(j) ==> disabled(regs, type_id)[j].type_id != type_id,
{
    lemma_last_enabled_named_found(disabled(regs, type_id), name);
}

/// A disabled class is not written into FGD files: each enabled class (the `k`-th) after
/// disabling the type `type_id` is the enabled class of another type.
pub proof fn lemma_disabled_class_not_written(regs: Seq<ClassRegistration>, type_id: u64, k: int)
    requires
        0 <= k < enabled_classes(disabled(regs, type_id)).len(),
    ensures
        exists|j: int| #![trigger disabled(regs, type_id)[j]]
            0 <= j < regs.len() && disabled(regs, type_id)[j].type_id != type_id
            && registers_enabled(disabled(regs, type_id)[j], enabled_classes(disabled(regs, type_id))[k]),
{
    let after = disabled(regs, type_id);
    lemma_enabled_classes_registered(after);
    let j = choose|j: int| 0 <= j < after.len() && registers_enabled(#[trigger] after[j], enabled_classes(after)[k]);
    assert(after[j].type_id != type_id);
}

/// Registering a type that is registered changes nothing: registering twice is registering once.
pub proof fn lemma_register_twice(
    regs: Seq<ClassRegistration>,
    type_id: u64,
    first_path: &'static str,
    first_class: Option<ErasedQuakeClass>,
    second_path: &'static str,
    second_class: Option<ErasedQuakeClass>,
)
    ensures
        registered_with(registered_with(regs, type_id, first_path, first_class), type_id, second_path, second_class)
            == registered_with(regs, type_id, first_path, first_class),
{
    let once = registered_with(regs, type_id, first_path, first_class);
    if !is_registered(regs, type_id) {
        assert(once[once.len() - 1].type_id == type_id);
    }
}

/// Checks of the classes an app registers.
pub struct QuakeClassPlugin;

/// Whether `out` reports a conflict for the classname `name`.
pub open spec fn reports_name(out: Seq<ClassConflict>, name: Seq<char>) -> bool {
    exists|k: int| 0 <= k < out.len() && (#[trigger] out[k]).classname@ == name
}

/// The classname of `r`, or nothing when `r` is no class.
pub open spec fn class_name_of(r: ClassRegistration) -> Seq<char> {
    match r.class {
        Some(c) => c.erased_class.info.name@,
        None => Seq::empty(),
    }
}

/// Whether `r` is an enabled class whose classname more than one enabled type of `regs` registers.
pub open spec fn in_conflict(regs: Seq<ClassRegistration>, r: ClassRegistration) -> bool {
    &&& r.class matches Some(c)
    &&& c.enabled
    &&& paths_named(regs, class_name_of(r)).len() > 1
}

/// Whether `out` lists exactly the classnames of `regs` that more than one enabled type
/// registers, each once, with the paths of those types in registry order.
pub open spec fn conflicts_of(regs: Seq<ClassRegistration>, out: Seq<ClassConflict>) -> bool {
    &&& forall|k: int| 0 <= k < out.len() ==> {
        &&& path_views((#[trigger] out[k]).type_paths@) == paths_named(regs, out[k].classname@)
        &&& paths_named(regs, out[k].classname@).len() > 1
    }
    &&& forall|a: int, b: int| 0 <= a < b < out.len() ==> (#[trigger] out[a]).classname@ != (#[trigger] out[b]).classname@
    &&& forall|j: int| 0 <= j < regs.len() && in_conflict(regs, #[trigger] regs[j]) ==> reports_name(out, class_name_of(regs[j]))
}

/// The paths of the enabled classes named `name` among `regs[..i]` are a prefix of those
/// among `regs`.
proof fn lemma_paths_named_take(regs: Seq<ClassRegistration>, name: Seq<char>, i: int)
    requires
        0 <= i < regs.len(),
    ensures
        paths_named(regs.take(i + 1), name) == (if is_enabled_named(regs[i], name) {
            paths_named(regs.take(i), name).push(regs[i].type_path@)
        } else {
            paths_named(regs.take(i), name)
        }),
{
    assert(regs.take(i + 1).drop_last() == regs.take(i));
}

fn paths_of_name(regs: &Vec<ClassRegistration>, name: &str) -> (r: Vec<&'static str>)
    ensures
        path_views(r@) == paths_named(regs@, name@),
{
    let mut out: Vec<&'static str> = Vec::new();
    let mut i: usize = 0;
    while i < regs.len()
        invariant
            i <= regs@.len(),
            path_views(out@) == paths_named(regs@.take(i as int), name@),
        decreases regs@.len() - i,
    {
        proof { lemma_paths_named_take(regs@, name@, i as int); }
        match &regs[i].class {
            Some(c) => {
                if c.enabled && str_eq(c.erased_class.info.name, name) {
                    out.push(regs[i].type_path);
                    assert(path_views(out@) == path_views(out@.drop_last()).push(regs@[i as int].type_path@));
                }
            },
            None => {},
        }
        i = i + 1;
    }
    assert(regs@.take(regs@.len() as int) == regs@);
    out
}

impl QuakeClassPlugin {
    /// Finds the classnames that more than one enabled type registers: each is an error,
    /// most likely `register_type` where `override_class` was meant.
    pub fn verify_classes(registry: &ClassRegistry) -> (r: Vec<ClassConflict>)
        ensures
            conflicts_of(registry@, r@),
    {
        let regs = registry.registrations();
        let mut out: Vec<ClassConflict> = Vec::new();
        let mut i: usize = 0;
        while i < regs.len()
            invariant
                regs@ == registry@,
                i <= regs@.len(),
                forall|k: int| 0 <= k < out@.len() ==> {
                    &&& path_views((#[trigger] out@[k]).type_paths@) == paths_named(regs@, out@[k].classname@)
                    &&& paths_named(regs@, out@[k].classname@).len() > 1
                },
                forall|a: int, b: int| 0 <= a < b < out@.len() ==> (#[trigger] out@[a]).classname@
                    != (#[trigger] out@[b]).classname@,
                forall|j: int| 0 <= j < i && in_conflict(regs@, #[trigger] regs@[j]) ==> reports_name(out@, class_name_of(regs@[j])),
            decreases regs@.len() - i,
        {
            match &regs[i].class {
                Some(c) => {
                    if c.enabled {
                        let name = c.erased_class.info.name;
                        let mut seen = false;
                        let mut k: usize = 0;
                        while k < out.len()
                            invariant
                                k <= out@.len(),
                                seen <==> exists|m: int| 0 <= m < k && (#[trigger] out@[m]).classname@ == name@,
                            decreases out@.len() - k,
                        {
                            if str_eq(out[k].classname, name) {
                                seen = true;
                            }
                            k = k + 1;
                        }
                        if !seen {
                            let paths = paths_of_name(regs, name);
                            if paths.len() > 1 {
                                let ghost before = out@;
                                out.push(ClassConflict { classname: name, type_paths: paths });
                                proof {
                                    assert(out@[out@.len() - 1].classname@ == name@);
                                    assert forall|j: int| 0 <= j < i && in_conflict(regs@, #[trigger] regs@[j])
                                        implies reports_name(out@, class_name_of(regs@[j])) by {
                                        let m = choose|m: int| 0 <= m < before.len() && (#[trigger] before[m]).classname@
                                            == class_name_of(regs@[j]);
                                        assert(out@[m] == before[m]);
                                    }
                                }
                            }
                        }
                    }
                },
                None => {},
            }
            i = i + 1;
        }
        out
    }
}

} // verus!
