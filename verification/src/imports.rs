use vstd::prelude::*;

use crate::process::bytes_eq;
use vstd::string::StringSliceAdditionalSpecFns;

verus! {

/// The module that holds the kernel's own functions: `env`.
pub open spec fn is_env(name: Seq<u8>) -> bool {
    name == seq![101u8, 110u8, 118u8]
}

/// Whether a module name names a driver: it starts with `driver_`.
pub open spec fn is_driver(name: Seq<u8>) -> bool {
    &&& name.len() >= 7
    &&& name.subrange(0, 7) == seq![100u8, 114u8, 105u8, 118u8, 101u8, 114u8, 95u8]
}

/// The bytes of each name.
pub open spec fn name_bytes(names: Seq<&str>) -> Seq<Seq<u8>> {
    names.map_values(|m: &str| m.spec_bytes())
}

/// Whether a module belongs among the drivers (when `drivers`) or among the libraries.
pub open spec fn kept(name: Seq<u8>, drivers: bool) -> bool {
    if drivers {
        is_driver(name)
    } else {
        !is_driver(name) && !is_env(name)
    }
}

/// `found` holds, once each, exactly the names of `modules` that belong among the drivers
/// (when `drivers`) or among the libraries.
pub open spec fn each_once(found: Seq<Seq<u8>>, modules: Seq<Seq<u8>>, drivers: bool) -> bool {
    &&& found.no_duplicates()
    &&& forall|i: int| 0 <= i < found.len() ==> kept(#[trigger] found[i], drivers) && modules.contains(found[i])
    &&& forall|i: int| 0 <= i < modules.len() && kept(#[trigger] modules[i], drivers) ==> found.contains(modules[i])
}

/// The names of `modules` that belong among the drivers (when `drivers`) or among the
/// libraries, each at its first import, in import order.
pub open spec fn first_imports(modules: Seq<Seq<u8>>, drivers: bool) -> Seq<Seq<u8>>
    decreases modules.len(),
{
    if modules.len() == 0 {
        Seq::empty()
    } else {
        let before = first_imports(modules.drop_last(), drivers);
        let name = modules.last();
        if kept(name, drivers) && !before.contains(name) {
            before.push(name)
        } else {
            before
        }
    }
}

fn is_env_name(name: &str) -> (r: bool)
    ensures
        r == is_env(name.spec_bytes()),
{
    let b = name.as_bytes();
    let r = b.len() == 3 && b[0] == 101u8 && b[1] == 110u8 && b[2] == 118u8;
    proof {
        if r {
            assert(b@ =~= seq![101u8, 110u8, 118u8]);
        }
    }
    r
}

fn is_driver_name(name: &str) -> (r: bool)
    ensures
        r == is_driver(name.spec_bytes()),
{
    let b = name.as_bytes();
    if b.len() < 7 {
        return false;
    }
    let r = b[0] == 100u8 && b[1] == 114u8 && b[2] == 105u8 && b[3] == 118u8 && b[4] == 101u8 && b[5] == 114u8
        && b[6] == 95u8;
    proof {
        let p = b@.subrange(0, 7);
        assert(p[0] == b@[0] && p[1] == b@[1] && p[2] == b@[2] && p[3] == b@[3]);
        assert(p[4] == b@[4] && p[5] == b@[5] && p[6] == b@[6]);
        if r {
            assert(p =~= seq![100u8, 114u8, 105u8, 118u8, 101u8, 114u8, 95u8]);
        }
    }
    r
}

fn contains_name(found: &Vec<&str>, name: &str) -> (r: bool)
    ensures
        r == name_bytes(found@).contains(name.spec_bytes()),
{
    let mut i: usize = 0;
    while i < found.len()
        invariant
            i <= found@.len(),
            forall|j: int| 0 <= j < i ==> name_bytes(found@)[j] != name.spec_bytes(),
        decreases found@.len() - i,
    {
        if bytes_eq(found[i].as_bytes(), name.as_bytes()) {
            assert(name_bytes(found@)[i as int] == name.spec_bytes());
            return true;
        }
        i = i + 1;
    }
    false
}

/// The modules a program imports, split into the drivers it uses (names starting with
/// `driver_`) and the libraries it loads (all others but `env`, which holds the kernel's own
/// functions). Each name is listed once, in the order it is first imported.
pub fn split_imports<'a>(modules: &[&'a str]) -> (r: (Vec<&'a str>, Vec<&'a str>))
    ensures
        each_once(name_bytes(r.0@), name_bytes(modules@), true),
        each_once(name_bytes(r.1@), name_bytes(modules@), false),
        name_bytes(r.0@) == first_imports(name_bytes(modules@), true),
        name_bytes(r.1@) == first_imports(name_bytes(modules@), false),
{
    let ghost all = name_bytes(modules@);
    let mut drivers: Vec<&'a str> = Vec::new();
    let mut libraries: Vec<&'a str> = Vec::new();
    let mut i: usize = 0;
    while i < modules.len()
        invariant
            i <= modules@.len(),
            all == name_bytes(modules@),
            name_bytes(drivers@) == first_imports(all.subrange(0, i as int), true),
            name_bytes(libraries@) == first_imports(all.subrange(0, i as int), false),
            name_bytes(drivers@).no_duplicates(),
            name_bytes(libraries@).no_duplicates(),
            forall|k: int| 0 <= k < drivers@.len() ==> kept(#[trigger] name_bytes(drivers@)[k], true)
                && all.subrange(0, i as int).contains(name_bytes(drivers@)[k]),
            forall|k: int| 0 <= k < libraries@.len() ==> kept(#[trigger] name_bytes(libraries@)[k], false)
                && all.subrange(0, i as int).contains(name_bytes(libraries@)[k]),
            forall|k: int| 0 <= k < i && kept(#[trigger] all[k], true) ==> name_bytes(drivers@).contains(all[k]),
            forall|k: int| 0 <= k < i && kept(#[trigger] all[k], false) ==> name_bytes(libraries@).contains(all[k]),
        decreases modules@.len() - i,
    {
        let name = modules[i];
        let ghost nb = name.spec_bytes();
        assert(all[i as int] == nb);
        let ghost old_d = name_bytes(drivers@);
        let ghost old_l = name_bytes(libraries@);
        assert(all.subrange(0, i + 1).drop_last() =~= all.subrange(0, i as int));
        assert(all.subrange(0, i + 1).last() == nb);
        if is_driver_name(name) {
            if !contains_name(&drivers, name) {
                drivers.push(name);
                assert(name_bytes(drivers@) =~= old_d.push(nb));
                assert(name_bytes(drivers@)[old_d.len() as int] == nb);
            } else {
                assert(old_d.contains(nb));
            }
        } else if !is_env_name(name) {
            if !contains_name(&libraries, name) {
                libraries.push(name);
                assert(name_bytes(libraries@) =~= old_l.push(nb));
                assert(name_bytes(libraries@)[old_l.len() as int] == nb);
            } else {
                assert(old_l.contains(nb));
            }
        }
        assert(name_bytes(drivers@) == old_d || (kept(nb, true) && name_bytes(drivers@) == old_d.push(nb)));
        assert(name_bytes(libraries@) == old_l || (kept(nb, false) && name_bytes(libraries@) == old_l.push(nb)));
        assert(kept(nb, true) ==> name_bytes(drivers@).contains(nb));
        assert(kept(nb, false) ==> name_bytes(libraries@).contains(nb));
        proof {
            assert forall|k: int| 0 <= k < drivers@.len() implies kept(#[trigger] name_bytes(drivers@)[k], true)
                && all.subrange(0, i + 1).contains(name_bytes(drivers@)[k]) by {
                if k < old_d.len() {
                    let w = choose|w: int| 0 <= w < i && all.subrange(0, i as int)[w] == old_d[k];
                    assert(all.subrange(0, i + 1)[w] == old_d[k]);
                } else {
                    assert(all.subrange(0, i + 1)[i as int] == nb);
                }
            }
            assert forall|k: int| 0 <= k < libraries@.len() implies kept(#[trigger] name_bytes(libraries@)[k], false)
                && all.subrange(0, i + 1).contains(name_bytes(libraries@)[k]) by {
                if k < old_l.len() {
                    let w = choose|w: int| 0 <= w < i && all.subrange(0, i as int)[w] == old_l[k];
                    assert(all.subrange(0, i + 1)[w] == old_l[k]);
                } else {
                    assert(all.subrange(0, i + 1)[i as int] == nb);
                }
            }
            assert forall|k: int| 0 <= k < i + 1 && kept(#[trigger] all[k], true) implies name_bytes(drivers@).contains(all[k]) by {
                if k < i {
                    let w = choose|w: int| 0 <= w < old_d.len() && old_d[w] == all[k];
                    assert(name_bytes(drivers@)[w] == all[k]);
                }
            }
            assert forall|k: int| 0 <= k < i + 1 && kept(#[trigger] all[k], false) implies name_bytes(libraries@).contains(all[k]) by {
                if k < i {
                    let w = choose|w: int| 0 <= w < old_l.len() && old_l[w] == all[k];
                    assert(name_bytes(libraries@)[w] == all[k]);
                }
            }
        }
        i = i + 1;
    }
    assert(all.subrange(0, modules@.len() as int) =~= all);
    (drivers, libraries)
}

} // verus!
