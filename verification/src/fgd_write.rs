//! Writing entity classes out as an FGD (entity definition) file.
use vstd::prelude::*;
use crate::class::{
    ChoicesKey, ErasedQuakeClass, QuakeClassInfo, QuakeClassProperty, QuakeClassPropertyType,
    QuakeClassType,
};
use crate::text::{
    chars_le, chars_of, lemma_extend, nat_to_dec, parse_int_spec, push_char, push_str, push_u64_dec,
    seq_le, trim,
};
use crate::fgd::parse_trimmed_int;
use crate::registry::{enabled_classes, is_registered, ClassRegistration, ClassRegistry};

verus! {

// ---------------------------------------------------------------------------
// Ordering classes by name
// ---------------------------------------------------------------------------

/// The names of `classes`, in order.
pub open spec fn class_names(classes: Seq<ErasedQuakeClass>) -> Seq<Seq<char>> {
    Seq::new(classes.len(), |k: int| classes[k].info.name@)
}

/// Inserts index `i` into `order` after every index whose name sorts before or equal to
/// the name of `i` (one step of a stable insertion sort).
pub open spec fn insert_by_name(order: Seq<usize>, i: usize, names: Seq<Seq<char>>) -> Seq<usize>
    decreases order.len(),
{
    if order.len() == 0 {
        seq![i]
    } else if seq_le(names[order.last() as int], names[i as int]) {
        order.push(i)
    } else {
        insert_by_name(order.drop_last(), i, names).push(order.last())
    }
}

/// The indices `0..n` stably sorted by name.
pub open spec fn sort_by_name(names: Seq<Seq<char>>, n: nat) -> Seq<usize>
    decreases n,
{
    if n == 0 {
        Seq::empty()
    } else {
        insert_by_name(sort_by_name(names, (n - 1) as nat), (n - 1) as usize, names)
    }
}

proof fn lemma_insert_by_name_at(order: Seq<usize>, i: usize, names: Seq<Seq<char>>, p: int)
    requires
        0 <= p <= order.len(),
        forall|k: int| p <= k < order.len() ==> !seq_le(#[trigger] names[order[k] as int], names[i as int]),
        p > 0 ==> seq_le(names[order[p - 1] as int], names[i as int]),
    ensures
        insert_by_name(order, i, names) == order.insert(p, i),
    decreases order.len(),
{
    if order.len() == 0 {
        assert(order.insert(p, i) =~= seq![i]);
    } else if p == order.len() {
        assert(order.insert(p, i) =~= order.push(i));
    } else {
        assert(!seq_le(names[order.last() as int], names[i as int]));
        lemma_insert_by_name_at(order.drop_last(), i, names, p);
        assert(order.drop_last().insert(p, i).push(order.last()) =~= order.insert(p, i));
    }
}

proof fn lemma_insert_by_name_indices(order: Seq<usize>, i: usize, names: Seq<Seq<char>>, bound: int)
    requires
        i < bound,
        forall|k: int| 0 <= k < order.len() ==> #[trigger] order[k] < bound,
    ensures
        insert_by_name(order, i, names).len() == order.len() + 1,
        forall|k: int| 0 <= k < insert_by_name(order, i, names).len() ==> #[trigger] insert_by_name(order, i, names)[k] < bound,
    decreases order.len(),
{
    if order.len() > 0 && !seq_le(names[order.last() as int], names[i as int]) {
        lemma_insert_by_name_indices(order.drop_last(), i, names, bound);
        let r = insert_by_name(order.drop_last(), i, names);
        assert forall|k: int| 0 <= k < r.push(order.last()).len() implies #[trigger] r.push(order.last())[k] < bound by {
            if k < r.len() {
                assert(r.push(order.last())[k] == r[k]);
            }
        }
    }
}

proof fn lemma_sort_by_name_indices(names: Seq<Seq<char>>, n: nat)
    requires
        n <= usize::MAX,
    ensures
        sort_by_name(names, n).len() == n,
        forall|k: int| 0 <= k < n ==> #[trigger] sort_by_name(names, n)[k] < n,
    decreases n,
{
    if n > 0 {
        lemma_sort_by_name_indices(names, (n - 1) as nat);
        lemma_insert_by_name_indices(sort_by_name(names, (n - 1) as nat), (n - 1) as usize, names, n as int);
    }
}

/// Any two names are ordered one way or the other.
pub proof fn lemma_seq_le_total(a: Seq<char>, b: Seq<char>)
    ensures
        seq_le(a, b) || seq_le(b, a),
    decreases a.len(),
{
    if a.len() > 0 && b.len() > 0 && (a[0] as u32) == (b[0] as u32) {
        lemma_seq_le_total(a.drop_first(), b.drop_first());
    }
}

/// The order of names is transitive.
pub proof fn lemma_seq_le_trans(a: Seq<char>, b: Seq<char>, c: Seq<char>)
    requires
        seq_le(a, b),
        seq_le(b, c),
    ensures
        seq_le(a, c),
    decreases a.len(),
{
    if a.len() > 0 && b.len() > 0 && c.len() > 0 && (a[0] as u32) == (b[0] as u32) && (b[0] as u32) == (c[0] as u32) {
        lemma_seq_le_trans(a.drop_first(), b.drop_first(), c.drop_first());
    }
}

/// Whether the names at the positions `order` never decrease.
pub open spec fn sorted_by_name(order: Seq<usize>, names: Seq<Seq<char>>) -> bool {
    forall|a: int, b: int| 0 <= a < b < order.len() ==> seq_le(#[trigger] names[order[a] as int], #[trigger] names[order[b] as int])
}

/// Inserting puts the new index at one place and keeps the others in order.
proof fn lemma_insert_by_name_shape(order: Seq<usize>, i: usize, names: Seq<Seq<char>>) -> (p: int)
    ensures
        0 <= p <= order.len(),
        insert_by_name(order, i, names) == order.insert(p, i),
    decreases order.len(),
{
    if order.len() == 0 {
        assert(order.insert(0, i) =~= seq![i]);
        0
    } else if seq_le(names[order.last() as int], names[i as int]) {
        assert(order.insert(order.len() as int, i) =~= order.push(i));
        order.len() as int
    } else {
        let p = lemma_insert_by_name_shape(order.drop_last(), i, names);
        assert(order.drop_last().insert(p, i).push(order.last()) =~= order.insert(p, i));
        p
    }
}

/// Inserting into a sorted order keeps it sorted.
proof fn lemma_insert_by_name_sorted(order: Seq<usize>, i: usize, names: Seq<Seq<char>>)
    requires
        sorted_by_name(order, names),
    ensures
        sorted_by_name(insert_by_name(order, i, names), names),
    decreases order.len(),
{
    if order.len() == 0 {
    } else if seq_le(names[order.last() as int], names[i as int]) {
        let r = order.push(i);
        assert forall|a: int, b: int| 0 <= a < b < r.len() implies seq_le(#[trigger] names[r[a] as int], #[trigger] names[r[b] as int]) by {
            if b == r.len() - 1 {
                if a < order.len() - 1 {
                    lemma_seq_le_trans(names[order[a] as int], names[order.last() as int], names[i as int]);
                }
            }
        }
    } else {
        let rest = order.drop_last();
        assert(sorted_by_name(rest, names));
        lemma_insert_by_name_sorted(rest, i, names);
        let ins = insert_by_name(rest, i, names);
        let p = lemma_insert_by_name_shape(rest, i, names);
        lemma_seq_le_total(names[order.last() as int], names[i as int]);
        let r = ins.push(order.last());
        assert forall|a: int, b: int| 0 <= a < b < r.len() implies seq_le(#[trigger] names[r[a] as int], #[trigger] names[r[b] as int]) by {
            if b == r.len() - 1 {
                assert(r[a] == ins[a]);
                if a == p {
                    assert(ins[a] == i);
                } else if a < p {
                    assert(ins[a] == rest[a]);
                    assert(rest[a] == order[a]);
                } else {
                    assert(ins[a] == rest[a - 1]);
                    assert(rest[a - 1] == order[a - 1]);
                }
            } else {
                assert(r[a] == ins[a] && r[b] == ins[b]);
            }
        }
    }
}

/// The order of an FGD file: every index below `n` once, the names never decreasing.
pub proof fn lemma_sort_by_name(names: Seq<Seq<char>>, n: nat)
    requires
        n <= usize::MAX,
    ensures
        sort_by_name(names, n).len() == n,
        forall|k: int| 0 <= k < n ==> #[trigger] sort_by_name(names, n)[k] < n,
        forall|a: int, b: int| 0 <= a < b < n ==> sort_by_name(names, n)[a] != sort_by_name(names, n)[b],
        sorted_by_name(sort_by_name(names, n), names),
    decreases n,
{
    lemma_sort_by_name_indices(names, n);
    if n > 0 {
        let prev = sort_by_name(names, (n - 1) as nat);
        lemma_sort_by_name(names, (n - 1) as nat);
        lemma_insert_by_name_sorted(prev, (n - 1) as usize, names);
        let p = lemma_insert_by_name_shape(prev, (n - 1) as usize, names);
        let r = sort_by_name(names, n);
        assert forall|a: int, b: int| 0 <= a < b < n implies r[a] != r[b] by {
            if a == p {
                assert(r[b] == prev[b - 1]);
            } else if b == p {
                assert(r[a] == prev[a]);
            } else {
                let pa = if a < p { a } else { a - 1 };
                let pb = if b < p { b } else { b - 1 };
                assert(r[a] == prev[pa]);
                assert(r[b] == prev[pb]);
            }
        }
    }
}

/// The classes of an FGD file are written sorted by name: the order visits every enabled class
/// exactly once, and the class names along it never decrease.
pub proof fn lemma_fgd_order_sorted(regs: Seq<ClassRegistration>)
    requires
        enabled_classes(regs).len() <= usize::MAX,
    ensures
        fgd_order(regs).len() == enabled_classes(regs).len(),
        forall|k: int| 0 <= k < fgd_order(regs).len() ==> #[trigger] fgd_order(regs)[k] < enabled_classes(regs).len(),
        forall|a: int, b: int| 0 <= a < b < fgd_order(regs).len() ==> fgd_order(regs)[a] != fgd_order(regs)[b],
        forall|a: int, b: int| 0 <= a < b < fgd_order(regs).len() ==> seq_le(
            #[trigger] enabled_classes(regs)[fgd_order(regs)[a] as int].info.name@,
            #[trigger] enabled_classes(regs)[fgd_order(regs)[b] as int].info.name@,
        ),
{
    let cl = enabled_classes(regs);
    let names = class_names(cl);
    let o = fgd_order(regs);
    lemma_sort_by_name(names, cl.len());
    assert forall|a: int, b: int| 0 <= a < b < o.len() implies seq_le(
        #[trigger] cl[o[a] as int].info.name@,
        #[trigger] cl[o[b] as int].info.name@,
    ) by {
        assert(seq_le(names[o[a] as int], names[o[b] as int]));
        assert(names[o[a] as int] == cl[o[a] as int].info.name@);
        assert(names[o[b] as int] == cl[o[b] as int].info.name@);
    }
}

/// The character sequences held by `names`.
pub open spec fn names_view(names: Seq<Vec<char>>) -> Seq<Seq<char>> {
    Seq::new(names.len(), |k: int| names[k]@)
}

/// The indices of `names`, stably sorted by name (ties keep their order).
pub fn sorted_name_order(names: &Vec<Vec<char>>) -> (r: Vec<usize>)
    ensures
        r@ == sort_by_name(names_view(names@), names@.len()),
        forall|k: int| 0 <= k < r@.len() ==> #[trigger] r@[k] < names@.len(),
{
    let n = names.len();
    let ghost cn = names_view(names@);
    let mut order: Vec<usize> = Vec::new();
    let mut i: usize = 0;
    while i < n
        invariant
            n == names@.len(),
            i <= n,
            cn == names_view(names@),
            order@ == sort_by_name(cn, i as nat),
            forall|j: int| 0 <= j < order@.len() ==> #[trigger] order@[j] < i,
            order@.len() == i,
        decreases n - i,
    {
        let mut p = order.len();
        while p > 0 && !chars_le(&names[order[p - 1]], &names[i])
            invariant
                i < n == names@.len(),
                cn == names_view(names@),
                forall|j: int| 0 <= j < order@.len() ==> #[trigger] order@[j] < i,
                p <= order@.len(),
                forall|k2: int| p <= k2 < order@.len() ==> !seq_le(#[trigger] cn[order@[k2] as int], cn[i as int]),
            decreases p,
        {
            p = p - 1;
        }
        proof {
            lemma_insert_by_name_at(order@, i, cn, p as int);
            lemma_insert_by_name_indices(order@, i, cn, i + 1);
        }
        order.insert(p, i);
        i = i + 1;
    }
    order
}

// ---------------------------------------------------------------------------
// The text of one class
// ---------------------------------------------------------------------------

/// `prefix`, the value and `") "` when the setting is given, else nothing.
pub open spec fn setting_text(prefix: Seq<char>, value: Option<&'static str>) -> Seq<char> {
    match value {
        Some(v) => prefix + v@ + ") "@,
        None => Seq::empty(),
    }
}

/// The names of `bases`, separated by `", "`.
pub open spec fn base_names_text(bases: Seq<ErasedQuakeClass>) -> Seq<char>
    decreases bases.len(),
{
    if bases.len() == 0 {
        Seq::empty()
    } else if bases.len() == 1 {
        bases[0].info.name@
    } else {
        base_names_text(bases.drop_last()) + ", "@ + bases.last().info.name@
    }
}

/// The first line of a class and the opening bracket of its property block.
pub open spec fn class_header_text(info: QuakeClassInfo) -> Seq<char> {
    "@"@ + info.ty.spec_fgd_name() + "Class "@
        + (if info.base@.len() > 0 { "base("@ + base_names_text(info.base@) + ") "@ } else { Seq::empty() })
        + setting_text("color("@, info.color)
        + setting_text("iconsprite("@, info.iconsprite)
        + setting_text("size("@, info.size)
        + setting_text("model("@, info.model)
        + "= "@ + info.name@
        + (match info.description {
            Some(d) => " : \""@ + d@ + "\""@,
            None => Seq::empty(),
        })
        + "\n[\n"@
}

/// The default bits of a flags property: its default value parsed as a `u32`, or 0.
pub open spec fn flags_default(default_value: Option<String>) -> u32 {
    match default_value {
        Some(v) => match parse_int_spec(trim(v@), false, 0, 0xffff_ffff) {
            Ok(x) => x as u32,
            Err(_) => 0,
        },
        None => 0,
    }
}

/// Bit `i` of `bits`.
pub open spec fn flag_bit(bits: u32, i: u32) -> u32 {
    (bits >> i) & 1
}

/// The lines of the flags `flags`, the `k`-th flag checked when bit `k` of `bits` is set.
pub open spec fn flag_lines_text(flags: Seq<(u32, &'static str)>, bits: u32) -> Seq<char>
    decreases flags.len(),
{
    if flags.len() == 0 {
        Seq::empty()
    } else {
        let (value, title) = flags.last();
        flag_lines_text(flags.drop_last(), bits)
            + flag_line_text(value, title, flag_bit(bits, (flags.len() - 1) as u32))
    }
}

/// One line of a flags property: the flag's value, its title and whether it is checked.
pub open spec fn flag_line_text(value: u32, title: &'static str, bit: u32) -> Seq<char> {
    "\t\t"@ + nat_to_dec(value as nat) + " : \""@ + title@ + "\" : "@ + nat_to_dec(bit as nat) + "\n"@
}

/// The lines of the options of a `choices` property.
pub open spec fn choice_lines_text(choices: Seq<(ChoicesKey, &'static str)>) -> Seq<char>
    decreases choices.len(),
{
    if choices.len() == 0 {
        Seq::empty()
    } else {
        let (key, title) = choices.last();
        choice_lines_text(choices.drop_last()) + "\t\t"@ + key.spec_fgd_text() + " : \""@ + title@
            + "\"\n"@
    }
}

/// The FGD type name written for a (non-flags) property.
pub open spec fn property_type_name(ty: QuakeClassPropertyType) -> Seq<char> {
    match ty {
        QuakeClassPropertyType::Value(t) => t@,
        QuakeClassPropertyType::Choices(_) => "choices"@,
        QuakeClassPropertyType::Flags(_) => "flags"@,
    }
}

/// The text of one property of a class.
pub open spec fn property_text(p: QuakeClassProperty) -> Seq<char> {
    match p.ty {
        QuakeClassPropertyType::Flags(flags) => "\t"@ + p.name@ + "(flags) =\n\t[\n"@
            + flag_lines_text(flags@, flags_default(p.default_value)) + "\t]\n"@,
        _ => "\t"@ + p.name@ + "("@ + property_type_name(p.ty) + ") : \""@
            + (match p.title { Some(t) => t@, None => p.name@ }) + "\" : "@
            + (match p.default_value { Some(d) => d@, None => Seq::empty() }) + " : \""@
            + (match p.description { Some(d) => d@, None => Seq::empty() }) + "\""@
            + (match p.ty {
                QuakeClassPropertyType::Choices(c) => " = \n\t[\n"@ + choice_lines_text(c@) + "\t]"@,
                _ => Seq::empty(),
            })
            + "\n"@,
    }
}

/// The text of the properties `props`, in order.
pub open spec fn properties_text(props: Seq<QuakeClassProperty>) -> Seq<char>
    decreases props.len(),
{
    if props.len() == 0 {
        Seq::empty()
    } else {
        properties_text(props.drop_last()) + property_text(props.last())
    }
}

/// The full definition of a class in an FGD file.
pub open spec fn class_text(info: QuakeClassInfo) -> Seq<char> {
    class_header_text(info) + properties_text(info.properties@) + "]\n\n"@
}

fn push_setting(out: &mut String, prefix: &str, value: Option<&'static str>)
    ensures
        final(out)@ == old(out)@ + setting_text(prefix@, value),
{
    if let Some(v) = value {
        push_str(out, prefix);
        push_str(out, v);
        push_str(out, ") ");
    }
}

fn push_base_names(out: &mut String, bases: &Vec<ErasedQuakeClass>)
    ensures
        final(out)@ == old(out)@ + base_names_text(bases@),
{
    let mut i: usize = 0;
    while i < bases.len()
        invariant
            i <= bases@.len(),
            out@ == old(out)@ + base_names_text(bases@.take(i as int)),
        decreases bases@.len() - i,
    {
        assert(bases@.take(i + 1).drop_last() == bases@.take(i as int));
        if i > 0 {
            push_str(out, ", ");
        }
        push_str(out, bases[i].info.name);
        proof {
            if i == 0 {
                assert(base_names_text(bases@.take(1)) == bases@[0].info.name@);
            }
        }
        i = i + 1;
    }
    assert(bases@.take(bases@.len() as int) == bases@);
}

/// The class type and the `base(..)` list.
spec fn class_kind_text(info: QuakeClassInfo) -> Seq<char> {
    "@"@ + info.ty.spec_fgd_name() + "Class "@
        + (if info.base@.len() > 0 { "base("@ + base_names_text(info.base@) + ") "@ } else { Seq::empty() })
}

/// The editor settings of a class.
spec fn class_settings_text(info: QuakeClassInfo) -> Seq<char> {
    setting_text("color("@, info.color) + setting_text("iconsprite("@, info.iconsprite)
        + setting_text("size("@, info.size) + setting_text("model("@, info.model)
}

/// The name and description of a class.
spec fn class_name_text(info: QuakeClassInfo) -> Seq<char> {
    "= "@ + info.name@ + (match info.description {
        Some(d) => " : \""@ + d@ + "\""@,
        None => Seq::empty(),
    })
}

proof fn lemma_class_header_parts(info: QuakeClassInfo)
    ensures
        class_header_text(info) == class_kind_text(info) + class_settings_text(info)
            + class_name_text(info) + "\n[\n"@,
{
    assert(class_header_text(info) =~= class_kind_text(info) + class_settings_text(info)
        + class_name_text(info) + "\n[\n"@);
}

fn push_class_kind(out: &mut String, info: &QuakeClassInfo)
    ensures
        final(out)@ == old(out)@ + class_kind_text(*info),
{
    let ghost o = out@;
    push_str(out, "@");
    push_str(out, info.ty.fgd_name());
    proof { lemma_extend(o, "@"@, info.ty.spec_fgd_name()); }
    let ghost a = "@"@ + info.ty.spec_fgd_name();
    push_str(out, "Class ");
    proof { lemma_extend(o, a, "Class "@); }
    let ghost a = a + "Class "@;
    if info.base.len() > 0 {
        let ghost o2 = out@;
        push_str(out, "base(");
        push_base_names(out, &info.base);
        proof { lemma_extend(o2, "base("@, base_names_text(info.base@)); }
        push_str(out, ") ");
        proof {
            lemma_extend(o2, "base("@ + base_names_text(info.base@), ") "@);
            lemma_extend(o, a, "base("@ + base_names_text(info.base@) + ") "@);
        }
    } else {
        assert(out@ == o + a);
        assert(a + Seq::<char>::empty() =~= a);
    }
}

fn push_class_settings(out: &mut String, info: &QuakeClassInfo)
    ensures
        final(out)@ == old(out)@ + class_settings_text(*info),
{
    let ghost o = out@;
    push_setting(out, "color(", info.color);
    push_setting(out, "iconsprite(", info.iconsprite);
    proof { lemma_extend(o, setting_text("color("@, info.color), setting_text("iconsprite("@, info.iconsprite)); }
    let ghost a = setting_text("color("@, info.color) + setting_text("iconsprite("@, info.iconsprite);
    push_setting(out, "size(", info.size);
    proof { lemma_extend(o, a, setting_text("size("@, info.size)); }
    let ghost a = a + setting_text("size("@, info.size);
    push_setting(out, "model(", info.model);
    proof { lemma_extend(o, a, setting_text("model("@, info.model)); }
}

fn push_class_name(out: &mut String, info: &QuakeClassInfo)
    ensures
        final(out)@ == old(out)@ + class_name_text(*info),
{
    let ghost o = out@;
    push_str(out, "= ");
    push_str(out, info.name);
    proof { lemma_extend(o, "= "@, info.name@); }
    let ghost a = "= "@ + info.name@;
    if let Some(d) = info.description {
        let ghost o2 = out@;
        push_str(out, " : \"");
        push_str(out, d);
        proof { lemma_extend(o2, " : \""@, d@); }
        push_str(out, "\"");
        proof {
            lemma_extend(o2, " : \""@ + d@, "\""@);
            lemma_extend(o, a, " : \""@ + d@ + "\""@);
        }
    } else {
        assert(a + Seq::<char>::empty() =~= a);
    }
}

fn push_class_header(out: &mut String, info: &QuakeClassInfo)
    ensures
        final(out)@ == old(out)@ + class_header_text(*info),
{
    let ghost o = out@;
    push_class_kind(out, info);
    push_class_settings(out, info);
    proof { lemma_extend(o, class_kind_text(*info), class_settings_text(*info)); }
    let ghost a = class_kind_text(*info) + class_settings_text(*info);
    push_class_name(out, info);
    proof { lemma_extend(o, a, class_name_text(*info)); }
    let ghost a = a + class_name_text(*info);
    push_str(out, "\n[\n");
    proof {
        lemma_extend(o, a, "\n[\n"@);
        lemma_class_header_parts(*info);
    }
}

fn flags_default_of(default_value: &Option<String>) -> (r: u32)
    ensures
        r == flags_default(*default_value),
{
    match default_value {
        Some(v) => match parse_trimmed_int(v.as_str(), false, 0, 0xffff_ffff) {
            Ok(x) => x as u32,
            Err(_) => 0,
        },
        None => 0,
    }
}

fn push_flag_line(out: &mut String, value: u32, title: &'static str, bit: u32)
    ensures
        final(out)@ == old(out)@ + flag_line_text(value, title, bit),
{
    let ghost o = out@;
    push_str(out, "\t\t");
    push_u64_dec(out, value as u64);
    push_str(out, " : \"");
    push_str(out, title);
    push_str(out, "\" : ");
    push_u64_dec(out, bit as u64);
    push_str(out, "\n");
    assert(out@ =~= o + flag_line_text(value, title, bit));
}

fn push_flag_lines(out: &mut String, flags: &Vec<(u32, &'static str)>, bits: u32)
    requires
        flags@.len() <= 32,
    ensures
        final(out)@ == old(out)@ + flag_lines_text(flags@, bits),
{
    let mut i: usize = 0;
    while i < flags.len()
        invariant
            i <= flags@.len() <= 32,
            out@ == old(out)@ + flag_lines_text(flags@.take(i as int), bits),
        decreases flags@.len() - i,
    {
        assert(flags@.take(i + 1).drop_last() == flags@.take(i as int));
        let (value, title) = flags[i];
        let bit = (bits >> (i as u32)) & 1;
        push_flag_line(out, value, title, bit);
        proof {
            lemma_extend(old(out)@, flag_lines_text(flags@.take(i as int), bits),
                flag_line_text(value, title, bit));
        }
        i = i + 1;
    }
    assert(flags@.take(flags@.len() as int) == flags@);
}

fn push_choice_lines(out: &mut String, choices: &Vec<(ChoicesKey, &'static str)>)
    ensures
        final(out)@ == old(out)@ + choice_lines_text(choices@),
{
    let mut i: usize = 0;
    while i < choices.len()
        invariant
            i <= choices@.len(),
            out@ == old(out)@ + choice_lines_text(choices@.take(i as int)),
        decreases choices@.len() - i,
    {
        assert(choices@.take(i + 1).drop_last() == choices@.take(i as int));
        let (key, title) = choices[i];
        push_str(out, "\t\t");
        key.push_fgd_text(out);
        push_str(out, " : \"");
        push_str(out, title);
        push_str(out, "\"\n");
        i = i + 1;
    }
    assert(choices@.take(choices@.len() as int) == choices@);
}

/// Whether every flags property of `info` has at most 32 flags (the bits of a `u32`).
pub open spec fn flags_fit(info: QuakeClassInfo) -> bool {
    forall|k: int| 0 <= k < info.properties@.len() ==>
        ((#[trigger] info.properties@[k]).ty matches QuakeClassPropertyType::Flags(f) ==> f@.len() <= 32)
}

/// The text of a flags property.
spec fn flags_property_text(p: QuakeClassProperty, flags: Seq<(u32, &'static str)>) -> Seq<char> {
    "\t"@ + p.name@ + "(flags) =\n\t[\n"@ + flag_lines_text(flags, flags_default(p.default_value)) + "\t]\n"@
}

/// The start of a property line: its name, type and title.
spec fn property_head_text(p: QuakeClassProperty) -> Seq<char> {
    "\t"@ + p.name@ + "("@ + property_type_name(p.ty) + ") : \""@
        + (match p.title { Some(t) => t@, None => p.name@ })
}

/// The default value and description of a property line.
spec fn property_tail_text(p: QuakeClassProperty) -> Seq<char> {
    "\" : "@ + (match p.default_value { Some(d) => d@, None => Seq::empty() }) + " : \""@
        + (match p.description { Some(d) => d@, None => Seq::empty() }) + "\""@
}

/// The option block of a choices property, nothing for other properties.
spec fn property_choices_text(p: QuakeClassProperty) -> Seq<char> {
    match p.ty {
        QuakeClassPropertyType::Choices(c) => " = \n\t[\n"@ + choice_lines_text(c@) + "\t]"@,
        _ => Seq::empty(),
    }
}

proof fn lemma_property_parts(p: QuakeClassProperty)
    ensures
        p.ty is Flags ==> property_text(p) == flags_property_text(p, p.ty->Flags_0@),
        !(p.ty is Flags) ==> property_text(p) == property_head_text(p) + property_tail_text(p)
            + property_choices_text(p) + "\n"@,
{
    if !(p.ty is Flags) {
        assert(property_text(p) =~= property_head_text(p) + property_tail_text(p)
            + property_choices_text(p) + "\n"@);
    }
}

fn push_flags_property(out: &mut String, p: &QuakeClassProperty, flags: &Vec<(u32, &'static str)>)
    requires
        flags@.len() <= 32,
    ensures
        final(out)@ == old(out)@ + flags_property_text(*p, flags@),
{
    let ghost o = out@;
    push_str(out, "\t");
    push_str(out, p.name);
    proof { lemma_extend(o, "\t"@, p.name@); }
    let ghost a = "\t"@ + p.name@;
    push_str(out, "(flags) =\n\t[\n");
    proof { lemma_extend(o, a, "(flags) =\n\t[\n"@); }
    let ghost a = a + "(flags) =\n\t[\n"@;
    let bits = flags_default_of(&p.default_value);
    push_flag_lines(out, flags, bits);
    proof { lemma_extend(o, a, flag_lines_text(flags@, bits)); }
    let ghost a = a + flag_lines_text(flags@, bits);
    push_str(out, "\t]\n");
    proof { lemma_extend(o, a, "\t]\n"@); }
}

fn push_property_head(out: &mut String, p: &QuakeClassProperty)
    ensures
        final(out)@ == old(out)@ + property_head_text(*p),
{
    let ghost o = out@;
    push_str(out, "\t");
    push_str(out, p.name);
    proof { lemma_extend(o, "\t"@, p.name@); }
    let ghost a = "\t"@ + p.name@;
    push_str(out, "(");
    proof { lemma_extend(o, a, "("@); }
    let ghost a = a + "("@;
    match &p.ty {
        QuakeClassPropertyType::Value(t) => push_str(out, t),
        QuakeClassPropertyType::Choices(_) => push_str(out, "choices"),
        QuakeClassPropertyType::Flags(_) => push_str(out, "flags"),
    }
    proof { lemma_extend(o, a, property_type_name(p.ty)); }
    let ghost a = a + property_type_name(p.ty);
    push_str(out, ") : \"");
    proof { lemma_extend(o, a, ") : \""@); }
    let ghost a = a + ") : \""@;
    match p.title {
        Some(t) => push_str(out, t),
        None => push_str(out, p.name),
    }
    proof { lemma_extend(o, a, match p.title { Some(t) => t@, None => p.name@ }); }
}

fn push_property_tail(out: &mut String, p: &QuakeClassProperty)
    ensures
        final(out)@ == old(out)@ + property_tail_text(*p),
{
    let ghost o = out@;
    let ghost dv: Seq<char> = match &p.default_value { Some(d) => d@, None => Seq::empty() };
    let ghost ds: Seq<char> = match p.description { Some(d) => d@, None => Seq::empty() };
    push_str(out, "\" : ");
    match &p.default_value {
        Some(d) => push_str(out, d.as_str()),
        None => {},
    }
    proof { lemma_extend(o, "\" : "@, dv); assert(o + "\" : "@ + Seq::<char>::empty() =~= o + "\" : "@); }
    let ghost a = "\" : "@ + dv;
    push_str(out, " : \"");
    proof { lemma_extend(o, a, " : \""@); }
    let ghost a = a + " : \""@;
    let ghost o3 = out@;
    match p.description {
        Some(d) => push_str(out, d),
        None => {},
    }
    proof { lemma_extend(o, a, ds); assert(o3 + Seq::<char>::empty() =~= o3); }
    let ghost a = a + ds;
    push_str(out, "\"");
    proof { lemma_extend(o, a, "\""@); }
}

fn push_property(out: &mut String, p: &QuakeClassProperty)
    requires
        (p.ty matches QuakeClassPropertyType::Flags(f) ==> f@.len() <= 32),
    ensures
        final(out)@ == old(out)@ + property_text(*p),
{
    proof { lemma_property_parts(*p); }
    match &p.ty {
        QuakeClassPropertyType::Flags(flags) => {
            push_flags_property(out, p, flags);
        },
        _ => {
            let ghost o = out@;
            push_property_head(out, p);
            push_property_tail(out, p);
            proof { lemma_extend(o, property_head_text(*p), property_tail_text(*p)); }
            let ghost a = property_head_text(*p) + property_tail_text(*p);
            let ghost o2 = out@;
            if let QuakeClassPropertyType::Choices(c) = &p.ty {
                push_str(out, " = \n\t[\n");
                push_choice_lines(out, c);
                proof { lemma_extend(o2, " = \n\t[\n"@, choice_lines_text(c@)); }
                push_str(out, "\t]");
                proof { lemma_extend(o2, " = \n\t[\n"@ + choice_lines_text(c@), "\t]"@); }
            } else {
                assert(o2 + Seq::<char>::empty() =~= o2);
            }
            proof { lemma_extend(o, a, property_choices_text(*p)); }
            let ghost a = a + property_choices_text(*p);
            push_str(out, "\n");
            proof { lemma_extend(o, a, "\n"@); }
        },
    }
}

/// Appends the full definition of the class `info` to `out`.
pub fn push_class_text(out: &mut String, info: &QuakeClassInfo)
    requires
        flags_fit(*info),
    ensures
        final(out)@ == old(out)@ + class_text(*info),
{
    push_class_header(out, info);
    let props = &info.properties;
    let mut i: usize = 0;
    let ghost mid = out@;
    while i < props.len()
        invariant
            i <= props@.len(),
            *props == info.properties,
            flags_fit(*info),
            out@ == mid + properties_text(props@.take(i as int)),
        decreases props@.len() - i,
    {
        assert(props@.take(i + 1).drop_last() == props@.take(i as int));
        assert(props@[i as int] == info.properties@[i as int]);
        push_property(out, &props[i]);
        i = i + 1;
    }
    assert(props@.take(props@.len() as int) == props@);
    push_str(out, "]\n\n");
}

// ---------------------------------------------------------------------------
// The whole file
// ---------------------------------------------------------------------------

/// Whether some class of `classes` has the type `id` among its direct bases.
pub open spec fn used_as_base(classes: Seq<ErasedQuakeClass>, id: u64) -> bool {
    exists|j: int, k: int|
        0 <= j < classes.len() && 0 <= k < classes[j].info.base@.len() && (#[trigger] classes[j].info.base@[k]).type_id
            == id
}

/// The position of the first of `bases` whose type is not registered in `regs`, if any.
pub open spec fn first_unregistered_base(bases: Seq<ErasedQuakeClass>, regs: Seq<ClassRegistration>) -> Option<int>
    decreases bases.len(),
{
    if bases.len() == 0 {
        None
    } else {
        match first_unregistered_base(bases.drop_last(), regs) {
            Some(k) => Some(k),
            None => if is_registered(regs, bases.last().type_id) {
                None
            } else {
                Some(bases.len() - 1)
            },
        }
    }
}

/// Whether `c` is a base class that no enabled class of `regs` derives from directly:
/// such a class is left out of the FGD file.
pub open spec fn unused_base_class(regs: Seq<ClassRegistration>, c: ErasedQuakeClass) -> bool {
    c.info.ty == QuakeClassType::Base && !used_as_base(enabled_classes(regs), c.type_id)
}

/// What the FGD file holds for the class `c`: nothing when it is an unused base class or one of
/// its bases is not registered, else its definition.
pub open spec fn class_block(regs: Seq<ClassRegistration>, c: ErasedQuakeClass) -> Seq<char> {
    if unused_base_class(regs, c) || first_unregistered_base(c.info.base@, regs) is Some {
        Seq::empty()
    } else {
        class_text(c.info)
    }
}

/// The class name and base name reported when `c` is skipped for an unregistered base.
pub open spec fn missing_base_report(regs: Seq<ClassRegistration>, c: ErasedQuakeClass) -> Option<(Seq<char>, Seq<char>)> {
    if unused_base_class(regs, c) {
        None
    } else {
        match first_unregistered_base(c.info.base@, regs) {
            Some(k) => Some((c.info.name@, c.info.base@[k].info.name@)),
            None => None,
        }
    }
}

/// The order in which the enabled classes of `regs` are written: by name, ties in registry order.
pub open spec fn fgd_order(regs: Seq<ClassRegistration>) -> Seq<usize> {
    sort_by_name(class_names(enabled_classes(regs)), enabled_classes(regs).len())
}

/// The blocks of the enabled classes at the positions `order`, in that order.
pub open spec fn fgd_blocks(regs: Seq<ClassRegistration>, order: Seq<usize>) -> Seq<char>
    decreases order.len(),
{
    if order.len() == 0 {
        Seq::empty()
    } else {
        fgd_blocks(regs, order.drop_last()) + class_block(regs, enabled_classes(regs)[order.last() as int])
    }
}

/// The reports of the enabled classes at the positions `order` skipped for an unregistered base.
pub open spec fn missing_base_reports(regs: Seq<ClassRegistration>, order: Seq<usize>) -> Seq<(Seq<char>, Seq<char>)>
    decreases order.len(),
{
    if order.len() == 0 {
        Seq::empty()
    } else {
        let rest = missing_base_reports(regs, order.drop_last());
        match missing_base_report(regs, enabled_classes(regs)[order.last() as int]) {
            Some(m) => rest.push(m),
            None => rest,
        }
    }
}

/// The FGD file for the enabled classes of `regs`.
pub open spec fn fgd_text(regs: Seq<ClassRegistration>) -> Seq<char> {
    fgd_blocks(regs, fgd_order(regs))
}

/// An FGD file, and the classes left out of it because a base class is not registered.
#[derive(Debug)]
pub struct FgdOutput {
    pub text: String,
    /// For each class left out for an unregistered base: its name and that of its first
    /// unregistered base, in the order of the file.
    pub missing_bases: Vec<(&'static str, &'static str)>,
}

/// The character sequences of the pairs of `v`.
pub open spec fn report_views(v: Seq<(&'static str, &'static str)>) -> Seq<(Seq<char>, Seq<char>)> {
    Seq::new(v.len(), |k: int| (v[k].0@, v[k].1@))
}

/// The class of the registration at `j` (meaningful when it has one).
pub open spec fn class_at(regs: Seq<ClassRegistration>, j: int) -> ErasedQuakeClass {
    match regs[j].class {
        Some(c) => c.erased_class,
        None => arbitrary(),
    }
}

/// Whether `en` lists, in order, the positions of the enabled classes of `regs`.
pub open spec fn enabled_positions(regs: Seq<ClassRegistration>, en: Seq<usize>) -> bool {
    &&& en.len() == enabled_classes(regs).len()
    &&& forall|k: int| 0 <= k < en.len() ==> {
        &&& #[trigger] en[k] < regs.len()
        &&& regs[en[k] as int].class is Some
        &&& class_at(regs, en[k] as int) == enabled_classes(regs)[k]
    }
}

fn enabled_class_positions(regs: &Vec<ClassRegistration>) -> (en: Vec<usize>)
    ensures
        enabled_positions(regs@, en@),
{
    let mut en: Vec<usize> = Vec::new();
    let mut i: usize = 0;
    while i < regs.len()
        invariant
            i <= regs@.len(),
            enabled_positions(regs@.take(i as int), en@),
            forall|k: int| 0 <= k < en@.len() ==> #[trigger] en@[k] < i,
        decreases regs@.len() - i,
    {
        let ghost pre = regs@.take(i as int);
        let ghost post = regs@.take(i + 1);
        assert(post.drop_last() == pre);
        assert forall|k: int| 0 <= k < en@.len() implies #[trigger] post[en@[k] as int] == pre[en@[k] as int] by {}
        match &regs[i].class {
            Some(c) => {
                if c.enabled {
                    en.push(i);
                }
            },
            None => {},
        }
        i = i + 1;
    }
    assert(regs@.take(regs@.len() as int) == regs@);
    en
}

fn is_used_as_base(regs: &Vec<ClassRegistration>, en: &Vec<usize>, id: u64) -> (r: bool)
    requires
        enabled_positions(regs@, en@),
    ensures
        r == used_as_base(enabled_classes(regs@), id),
{
    let ghost cl = enabled_classes(regs@);
    let mut j: usize = 0;
    while j < en.len()
        invariant
            enabled_positions(regs@, en@),
            cl == enabled_classes(regs@),
            j <= en@.len(),
            forall|a: int, b: int| 0 <= a < j && 0 <= b < cl[a].info.base@.len() ==> (#[trigger] cl[a].info.base@[b]).type_id != id,
        decreases en@.len() - j,
    {
        match &regs[en[j]].class {
            Some(c) => {
                let bases = &c.erased_class.info.base;
                assert(c.erased_class == cl[j as int]);
                let mut k: usize = 0;
                while k < bases.len()
                    invariant
                        k <= bases@.len(),
                        j < en@.len(),
                        cl == enabled_classes(regs@),
                        enabled_positions(regs@, en@),
                        *bases == cl[j as int].info.base,
                        forall|b: int| 0 <= b < k ==> (#[trigger] bases@[b]).type_id != id,
                    decreases bases@.len() - k,
                {
                    if bases[k].type_id == id {
                        assert(cl[j as int].info.base@[k as int].type_id == id);
                        return true;
                    }
                    k = k + 1;
                }
            },
            None => {},
        }
        j = j + 1;
    }
    false
}

fn first_missing_base(registry: &ClassRegistry, bases: &Vec<ErasedQuakeClass>) -> (r: Option<usize>)
    ensures
        match first_unregistered_base(bases@, registry@) {
            Some(k) => r matches Some(b) && b == k && k < bases@.len(),
            None => r is None,
        },
{
    proof { lemma_first_unregistered_range(bases@, registry@); }
    let mut k: usize = 0;
    while k < bases.len()
        invariant
            k <= bases@.len(),
            first_unregistered_base(bases@.take(k as int), registry@) is None,
        decreases bases@.len() - k,
    {
        assert(bases@.take(k + 1).drop_last() == bases@.take(k as int));
        if !registry.contains(bases[k].type_id) {
            proof { lemma_first_unregistered_prefix(bases@, registry@, k + 1); }
            return Some(k);
        }
        k = k + 1;
    }
    assert(bases@.take(bases@.len() as int) == bases@);
    None
}

proof fn lemma_first_unregistered_range(bases: Seq<ErasedQuakeClass>, regs: Seq<ClassRegistration>)
    ensures
        first_unregistered_base(bases, regs) matches Some(k) ==> 0 <= k < bases.len(),
    decreases bases.len(),
{
    if bases.len() > 0 {
        lemma_first_unregistered_range(bases.drop_last(), regs);
    }
}

/// A prefix that already holds an unregistered base decides the first one.
proof fn lemma_first_unregistered_prefix(bases: Seq<ErasedQuakeClass>, regs: Seq<ClassRegistration>, k: int)
    requires
        0 <= k <= bases.len(),
        first_unregistered_base(bases.take(k), regs) is Some,
    ensures
        first_unregistered_base(bases, regs) == first_unregistered_base(bases.take(k), regs),
    decreases bases.len() - k,
{
    if k < bases.len() {
        assert(bases.take(k + 1).drop_last() == bases.take(k));
        lemma_first_unregistered_prefix(bases, regs, k + 1);
    } else {
        assert(bases.take(k) == bases);
    }
}

/// Writes the enabled classes of `registry` as an FGD (entity definition) file.
///
/// Classes are written sorted by name. A base class that no enabled class derives from is left
/// out, and so is every class with a base whose type is not registered; each of the latter is
/// reported in `missing_bases`.
pub fn write_fgd(registry: &ClassRegistry) -> (r: FgdOutput)
    requires
        forall|k: int| 0 <= k < enabled_classes(registry@).len() ==> flags_fit(#[trigger] enabled_classes(registry@)[k].info),
    ensures
        r.text@ == fgd_text(registry@),
        report_views(r.missing_bases@) == missing_base_reports(registry@, fgd_order(registry@)),
{
    let regs = registry.registrations();
    let en = enabled_class_positions(regs);
    let ghost cl = enabled_classes(registry@);
    let mut names: Vec<Vec<char>> = Vec::new();
    let mut k: usize = 0;
    while k < en.len()
        invariant
            regs@ == registry@,
            cl == enabled_classes(registry@),
            enabled_positions(regs@, en@),
            k <= en@.len(),
            names@.len() == k,
            forall|j: int| 0 <= j < k ==> #[trigger] names@[j]@ == cl[j].info.name@,
        decreases en@.len() - k,
    {
        match &regs[en[k]].class {
            Some(c) => names.push(chars_of(c.erased_class.info.name)),
            None => names.push(Vec::new()),
        }
        k = k + 1;
    }
    assert(names_view(names@) =~= class_names(cl));
    let order = sorted_name_order(&names);
    let mut text = String::new();
    let mut missing: Vec<(&'static str, &'static str)> = Vec::new();
    let mut p: usize = 0;
    while p < order.len()
        invariant
            regs@ == registry@,
            cl == enabled_classes(registry@),
            enabled_positions(regs@, en@),
            forall|k: int| 0 <= k < cl.len() ==> flags_fit(#[trigger] cl[k].info),
            order@ == fgd_order(registry@),
            forall|k: int| 0 <= k < order@.len() ==> #[trigger] order@[k] < cl.len(),
            p <= order@.len(),
            text@ == fgd_blocks(registry@, order@.take(p as int)),
            report_views(missing@) == missing_base_reports(registry@, order@.take(p as int)),
        decreases order@.len() - p,
    {
        assert(order@.take(p + 1).drop_last() == order@.take(p as int));
        let idx = order[p];
        assert(order@.take(p + 1).last() == idx);
        match &regs[en[idx]].class {
            Some(rc) => {
                let c = &rc.erased_class;
                assert(*c == cl[idx as int]);
                let unused = c.info.ty.is_base() && !is_used_as_base(regs, &en, c.type_id);
                if !unused {
                    let fm = first_missing_base(registry, &c.info.base);
                    assert(c.info.base@ == cl[idx as int].info.base@);
                    match fm {
                        Some(b) => {
                            assert(missing_base_report(registry@, cl[idx as int]) == Some(
                                (c.info.name@, c.info.base@[b as int].info.name@),
                            ));
                            let ghost before = missing@;
                            missing.push((c.info.name, c.info.base[b].info.name));
                            assert(report_views(missing@) =~= report_views(before).push(
                                (c.info.name@, c.info.base@[b as int].info.name@),
                            ));
                            assert(text@ + Seq::<char>::empty() =~= text@);
                        },
                        None => {
                            assert(missing_base_report(registry@, cl[idx as int]) is None);
                            push_class_text(&mut text, &c.info);
                        },
                    }
                } else {
                    assert(missing_base_report(registry@, cl[idx as int]) is None);
                    assert(text@ + Seq::<char>::empty() =~= text@);
                }
            },
            None => {},
        }
        p = p + 1;
    }
    assert(order@.take(order@.len() as int) == order@);
    FgdOutput { text, missing_bases: missing }
}

} // verus!
