//! Which of the installed mods are enabled and which are disabled.
//!
//! The launcher keeps two sets of mod names. Loading an installation marks every
//! mod it finds disabled, then enables those that the mod loader's list names;
//! a click on a mod moves it from one set to the other.

use vstd::prelude::*;
use crate::manifest::{ManifestError, manifest_name, manifest_name_of, strings_view};

verus! {

broadcast use vstd::seq_lib::group_seq_properties;

/// The enabled and the disabled mods, as two sets of names.
pub struct ModSelection {
    enabled: Vec<String>,
    disabled: Vec<String>,
}

/// The sets of names after a click on `id`: a disabled mod becomes enabled;
/// any other becomes disabled and stops being enabled.
pub open spec fn toggled(v: (Set<Seq<char>>, Set<Seq<char>>), id: Seq<char>) -> (Set<Seq<char>>, Set<Seq<char>>) {
    if v.1.contains(id) {
        (v.0.insert(id), v.1.remove(id))
    } else {
        (v.0.remove(id), v.1.insert(id))
    }
}

/// The sets of names after the mod loader's list of enabled mods is applied:
/// each listed name is enabled and no longer disabled.
pub open spec fn with_enabled(v: (Set<Seq<char>>, Set<Seq<char>>), names: Seq<Seq<char>>) -> (Set<Seq<char>>, Set<Seq<char>>) {
    (v.0.union(names.to_set()), v.1.difference(names.to_set()))
}

/// The names that loading the given description files registers, in order, and
/// whether an object without a `Name` member stopped the loading.
pub open spec fn scan_names(texts: Seq<Seq<char>>) -> (Seq<Seq<char>>, bool)
    decreases texts.len(),
{
    if texts.len() == 0 {
        (Seq::empty(), false)
    } else {
        let (names, stopped) = scan_names(texts.drop_last());
        if stopped {
            (names, true)
        } else {
            match manifest_name_of(texts.last()) {
                Ok(Some(n)) => (names.push(n), false),
                Ok(None) => (names, false),
                Err(ManifestError::NotAnObject) => (names, false),
                Err(ManifestError::MissingField) => (names, true),
            }
        }
    }
}

/// No mod is both enabled and disabled.
pub open spec fn consistent(v: (Set<Seq<char>>, Set<Seq<char>>)) -> bool {
    v.0.disjoint(v.1)
}

impl View for ModSelection {
    type V = (Set<Seq<char>>, Set<Seq<char>>);

    closed spec fn view(&self) -> (Set<Seq<char>>, Set<Seq<char>>) {
        (strings_view(self.enabled@).to_set(), strings_view(self.disabled@).to_set())
    }
}

/// Whether the list holds the string.
fn holds(v: &Vec<String>, s: &String) -> (r: bool)
    ensures
        r == strings_view(v@).contains(s@),
{
    let ghost sv = strings_view(v@);
    let mut i: usize = 0;
    while i < v.len()
        invariant
            i <= v.len(),
            sv == strings_view(v@),
            forall|j: int| 0 <= j < i ==> sv[j] != s@,
        decreases v.len() - i,
    {
        if v[i] == *s {
            assert(sv[i as int] == s@);
            return true;
        }
        i = i + 1;
    }
    false
}

/// The list without the string.
fn without(v: &Vec<String>, s: &String) -> (r: Vec<String>)
    requires
        strings_view(v@).no_duplicates(),
    ensures
        strings_view(r@).no_duplicates(),
        strings_view(r@).to_set() == strings_view(v@).to_set().remove(s@),
{
    let ghost sv = strings_view(v@);
    let mut r: Vec<String> = Vec::new();
    let mut i: usize = 0;
    while i < v.len()
        invariant
            i <= v.len(),
            sv == strings_view(v@),
            sv.no_duplicates(),
            strings_view(r@).no_duplicates(),
            forall|x: Seq<char>| strings_view(r@).contains(x) <==> (sv.subrange(0, i as int).contains(x) && x != s@),
        decreases v.len() - i,
    {
        let ghost before = strings_view(r@);
        assert(sv.subrange(0, i + 1) =~= sv.subrange(0, i as int).push(sv[i as int]));
        if v[i] != *s {
            let c = v[i].clone();
            r.push(c);
            assert(strings_view(r@) =~= before.push(sv[i as int]));
            assert(!before.contains(sv[i as int])) by {
                if before.contains(sv[i as int]) {
                    let k = choose|k: int| 0 <= k < i && sv.subrange(0, i as int)[k] == sv[i as int];
                    assert(sv[k] == sv[i as int]);
                }
            }
        }
        assert forall|x: Seq<char>| strings_view(r@).contains(x) <==> (sv.subrange(0, i + 1).contains(x) && x != s@) by {
            if x == sv[i as int] {
                assert(sv.subrange(0, i + 1)[i as int] == x);
            }
            if sv.subrange(0, i + 1).contains(x) && x != sv[i as int] {
                let k = choose|k: int| 0 <= k < i + 1 && #[trigger] sv.subrange(0, i + 1)[k] == x;
                assert(sv.subrange(0, i as int)[k] == x);
            }
        }
        i = i + 1;
    }
    assert(sv.subrange(0, i as int) =~= sv);
    assert(strings_view(r@).to_set() =~= sv.to_set().remove(s@));
    r
}

/// The list with the string, added at the end where it is missing.
fn with(v: &Vec<String>, s: &String) -> (r: Vec<String>)
    requires
        strings_view(v@).no_duplicates(),
    ensures
        strings_view(r@).no_duplicates(),
        strings_view(r@).to_set() == strings_view(v@).to_set().insert(s@),
{
    let ghost sv = strings_view(v@);
    let present = holds(v, s);
    let mut r: Vec<String> = Vec::new();
    let mut i: usize = 0;
    while i < v.len()
        invariant
            i <= v.len(),
            sv == strings_view(v@),
            strings_view(r@) == sv.subrange(0, i as int),
        decreases v.len() - i,
    {
        let ghost before = strings_view(r@);
        let c = v[i].clone();
        r.push(c);
        assert(strings_view(r@) =~= before.push(sv[i as int]));
        assert(strings_view(r@) =~= sv.subrange(0, i + 1));
        i = i + 1;
    }
    assert(sv.subrange(0, i as int) =~= sv);
    if !present {
        let ghost before = strings_view(r@);
        r.push(s.clone());
        assert(strings_view(r@) =~= before.push(s@));
    }
    assert(strings_view(r@).to_set() =~= sv.to_set().insert(s@));
    r
}

/// A copy of the list.
fn copied(v: &Vec<String>) -> (r: Vec<String>)
    ensures
        strings_view(r@) == strings_view(v@),
{
    let mut r: Vec<String> = Vec::new();
    let mut i: usize = 0;
    while i < v.len()
        invariant
            i <= v.len(),
            strings_view(r@) == strings_view(v@).subrange(0, i as int),
        decreases v.len() - i,
    {
        let ghost before = strings_view(r@);
        let c = v[i].clone();
        r.push(c);
        assert(strings_view(r@) =~= before.push(strings_view(v@)[i as int]));
        assert(strings_view(r@) =~= strings_view(v@).subrange(0, i + 1));
        i = i + 1;
    }
    assert(strings_view(v@).subrange(0, i as int) =~= strings_view(v@));
    r
}

impl ModSelection {
    #[verifier::type_invariant]
    spec fn wf(self) -> bool {
        &&& strings_view(self.enabled@).no_duplicates()
        &&& strings_view(self.disabled@).no_duplicates()
    }

    /// No mod enabled and none disabled.
    pub fn new() -> (r: Self)
        ensures
            r@ == (Set::<Seq<char>>::empty(), Set::<Seq<char>>::empty()),
    {
        let r = ModSelection { enabled: Vec::new(), disabled: Vec::new() };
        assert(strings_view(r.enabled@).to_set() =~= Set::<Seq<char>>::empty());
        assert(strings_view(r.disabled@).to_set() =~= Set::<Seq<char>>::empty());
        r
    }

    /// Whether the mod is enabled: the check box that the mod list shows.
    pub fn is_enabled(&self, name: &str) -> (r: bool)
        ensures
            r == self@.0.contains(name@),
    {
        let n = name.to_owned();
        holds(&self.enabled, &n)
    }

    /// Whether the mod is disabled.
    pub fn is_disabled(&self, name: &str) -> (r: bool)
        ensures
            r == self@.1.contains(name@),
    {
        let n = name.to_owned();
        holds(&self.disabled, &n)
    }

    /// The enabled mods, each once, in no particular order.
    pub fn enabled_names(&self) -> (r: Vec<String>)
        ensures
            strings_view(r@).no_duplicates(),
            strings_view(r@).to_set() == self@.0,
    {
        proof {
            use_type_invariant(self);
        }
        copied(&self.enabled)
    }

    /// The disabled mods, each once, in no particular order.
    pub fn disabled_names(&self) -> (r: Vec<String>)
        ensures
            strings_view(r@).no_duplicates(),
            strings_view(r@).to_set() == self@.1,
    {
        proof {
            use_type_invariant(self);
        }
        copied(&self.disabled)
    }

    /// Marks the mod disabled; whether it is enabled stays as it was.
    pub fn disable(&mut self, name: &String)
        ensures
            final(self)@ == (old(self)@.0, old(self)@.1.insert(name@)),
    {
        proof {
            use_type_invariant(&*self);
        }
        self.disabled = with(&self.disabled, name);
    }

    /// Enables the mod and stops it being disabled.
    pub fn enable(&mut self, name: &String)
        ensures
            final(self)@ == (old(self)@.0.insert(name@), old(self)@.1.remove(name@)),
    {
        proof {
            use_type_invariant(&*self);
        }
        self.disabled = without(&self.disabled, name);
        self.enabled = with(&self.enabled, name);
    }

    /// A click on a mod in the list: a disabled mod is enabled, any other is
    /// disabled and stops being enabled.
    pub fn toggle(&mut self, id: &str)
        ensures
            final(self)@ == toggled(old(self)@, id@),
    {
        proof {
            use_type_invariant(&*self);
        }
        let name = id.to_owned();
        if holds(&self.disabled, &name) {
            self.disabled = without(&self.disabled, &name);
            self.enabled = with(&self.enabled, &name);
        } else {
            self.disabled = with(&self.disabled, &name);
            self.enabled = without(&self.enabled, &name);
        }
    }

    /// Applies the mod loader's list of enabled mods, in order: each listed
    /// mod stops being disabled and becomes enabled.
    pub fn apply_enabled(&mut self, names: &Vec<String>)
        ensures
            final(self)@ == with_enabled(old(self)@, strings_view(names@)),
    {
        let ghost start = self@;
        let ghost all = strings_view(names@);
        let mut i: usize = 0;
        assert(with_enabled(start, all.take(0)) =~= start) by {
            assert(all.take(0).to_set() =~= Set::<Seq<char>>::empty());
            assert(start.0.union(Set::<Seq<char>>::empty()) =~= start.0);
            assert(start.1.difference(Set::<Seq<char>>::empty()) =~= start.1);
        }
        while i < names.len()
            invariant
                i <= names.len(),
                all == strings_view(names@),
                self@ == with_enabled(start, all.take(i as int)),
            decreases names.len() - i,
        {
            let ghost prev = self@;
            self.enable(&names[i]);
            assert(all.take(i + 1).to_set() =~= all.take(i as int).to_set().insert(all[i as int])) by {
                assert(all.take(i + 1) =~= all.take(i as int).push(all[i as int]));
            }
            assert(self@.0 =~= with_enabled(start, all.take(i + 1)).0);
            assert(self@.1 =~= with_enabled(start, all.take(i + 1)).1);
            i = i + 1;
        }
        assert(all.take(i as int) =~= all);
    }

    /// Registers the mods that the description files name: each named mod is
    /// marked disabled. A file that is no JSON object, or whose `Name` is no
    /// JSON string, is passed over; an object without a `Name` member stops the
    /// registration there with `MissingField`, the names before it registered.
    pub fn register_manifests(&mut self, texts: &Vec<String>) -> (r: Result<(), ManifestError>)
        ensures
            r is Err <==> scan_names(strings_view(texts@)).1,
            r is Err ==> r == Err::<(), ManifestError>(ManifestError::MissingField),
            final(self)@ == (old(self)@.0, old(self)@.1.union(scan_names(strings_view(texts@)).0.to_set())),
    {
        let ghost start = self@;
        let ghost all = strings_view(texts@);
        let mut i: usize = 0;
        assert(all.take(0) =~= Seq::<Seq<char>>::empty());
        assert(start.1.union(Seq::<Seq<char>>::empty().to_set()) =~= start.1);
        while i < texts.len()
            invariant
                i <= texts.len(),
                all == strings_view(texts@),
                start == old(self)@,
                !scan_names(all.take(i as int)).1,
                self@ == (start.0, start.1.union(scan_names(all.take(i as int)).0.to_set())),
            decreases texts.len() - i,
        {
            let ghost names = scan_names(all.take(i as int)).0;
            assert(all.take(i + 1).drop_last() =~= all.take(i as int));
            assert(all.take(i + 1).last() == texts@[i as int]@);
            match manifest_name(texts[i].as_str()) {
                Ok(Some(n)) => {
                    self.disable(&n);
                    assert(self@.1 =~= start.1.union(names.push(n@).to_set()));
                },
                Ok(None) => {},
                Err(ManifestError::NotAnObject) => {},
                Err(ManifestError::MissingField) => {
                    proof {
                        assert(scan_names(all.take(i + 1)) == (names, true));
                        lemma_scan_stop_sticks(all, i + 1);
                    }
                    return Err(ManifestError::MissingField);
                },
            }
            i = i + 1;
        }
        assert(all.take(i as int) =~= all);
        Ok(())
    }
}

/// Once a prefix of the files stops the registration, the whole list stops there.
proof fn lemma_scan_stop_sticks(texts: Seq<Seq<char>>, k: int)
    requires
        0 <= k <= texts.len(),
        scan_names(texts.take(k)).1,
    ensures
        scan_names(texts) == scan_names(texts.take(k)),
    decreases texts.len(),
{
    if k == texts.len() {
        assert(texts.take(k) =~= texts);
    } else {
        assert(texts.drop_last().take(k) =~= texts.take(k));
        lemma_scan_stop_sticks(texts.drop_last(), k);
    }
}

} // verus!

verus! {

/// Clicking a mod twice gives back the sets one started from, where the mod
/// was either enabled or disabled, not both.
pub proof fn toggle_twice_restores(v: (Set<Seq<char>>, Set<Seq<char>>), id: Seq<char>)
    requires
        v.0.contains(id) != v.1.contains(id),
    ensures
        toggled(toggled(v, id), id) == v,
{
    let w = toggled(toggled(v, id), id);
    assert(w.0 =~= v.0);
    assert(w.1 =~= v.1);
}

/// After a click the mod is in exactly one of the two sets, enabled exactly
/// when it was disabled before, and every other mod stays where it was.
pub proof fn toggle_settles(v: (Set<Seq<char>>, Set<Seq<char>>), id: Seq<char>, other: Seq<char>)
    requires
        other != id,
    ensures
        toggled(v, id).0.contains(id) == v.1.contains(id),
        toggled(v, id).1.contains(id) == !v.1.contains(id),
        toggled(v, id).0.contains(other) == v.0.contains(other),
        toggled(v, id).1.contains(other) == v.1.contains(other),
{
}

/// A click never makes a mod both enabled and disabled.
pub proof fn toggle_keeps_consistent(v: (Set<Seq<char>>, Set<Seq<char>>), id: Seq<char>)
    requires
        consistent(v),
    ensures
        consistent(toggled(v, id)),
{
}

/// Applying the list of enabled mods a second time changes nothing.
pub proof fn apply_enabled_idempotent(v: (Set<Seq<char>>, Set<Seq<char>>), names: Seq<Seq<char>>)
    ensures
        with_enabled(with_enabled(v, names), names) == with_enabled(v, names),
{
    let w = with_enabled(with_enabled(v, names), names);
    assert(w.0 =~= with_enabled(v, names).0);
    assert(w.1 =~= with_enabled(v, names).1);
}

/// Applying the list of enabled mods never makes a mod both enabled and disabled.
pub proof fn apply_enabled_keeps_consistent(v: (Set<Seq<char>>, Set<Seq<char>>), names: Seq<Seq<char>>)
    requires
        consistent(v),
    ensures
        consistent(with_enabled(v, names)),
{
}

/// Loading an installation: every mod that the loader's list names ends enabled and not
/// disabled; every other mod found ends disabled and not enabled, unless it was
/// enabled before.
pub proof fn load_outcome(
    v: (Set<Seq<char>>, Set<Seq<char>>),
    found: Seq<Seq<char>>,
    listed: Seq<Seq<char>>,
    name: Seq<char>,
)
    ensures
        ({
            let after = with_enabled((v.0, v.1.union(found.to_set())), listed);
            &&& listed.contains(name) ==> after.0.contains(name) && !after.1.contains(name)
            &&& found.contains(name) && !listed.contains(name) ==> after.1.contains(name)
                && (after.0.contains(name) == v.0.contains(name))
        }),
{
}

} // verus!

verus! {

/// The name that a description file registers, where it names a mod.
pub open spec fn registered_name(text: Seq<char>) -> Option<Seq<char>> {
    match manifest_name_of(text) {
        Ok(Some(n)) => Some(n),
        _ => None,
    }
}

/// A description file that is a JSON object without a `Name` member.
pub open spec fn is_nameless(text: Seq<char>) -> bool {
    manifest_name_of(text) == Err::<Option<Seq<char>>, ManifestError>(ManifestError::MissingField)
}

/// Registration goes through the files in order up to the first object without
/// a `Name` member (index `k`, or the end): it registers exactly the names of
/// the files before it, in order, a file that names no mod (no JSON object, or
/// a `Name` that is no string) changing nothing, and it stops exactly when such
/// an object exists.
pub proof fn scan_names_registers_every_name(texts: Seq<Seq<char>>, k: int)
    requires
        0 <= k <= texts.len(),
        forall|j: int| 0 <= j < k ==> !is_nameless(#[trigger] texts[j]),
        k < texts.len() ==> is_nameless(texts[k]),
    ensures
        scan_names(texts) == (texts.take(k).filter_map(|t: Seq<char>| registered_name(t)), k < texts.len()),
    decreases texts.len(),
{
    if texts.len() == 0 {
        assert(texts.take(k) =~= texts);
    } else {
        let dl = texts.drop_last();
        if k == texts.len() {
            assert forall|j: int| 0 <= j < k - 1 implies !is_nameless(#[trigger] dl[j]) by {
                assert(dl[j] == texts[j]);
            }
            scan_names_registers_every_name(dl, k - 1);
            assert(dl.take(k - 1) =~= dl);
            assert(texts.take(k) =~= texts);
            assert(!is_nameless(texts.last()));
            assert(texts.drop_last() == dl);
        } else {
            assert forall|j: int| 0 <= j < k implies !is_nameless(#[trigger] dl[j]) by {
                assert(dl[j] == texts[j]);
            }
            if k == texts.len() - 1 {
                scan_names_registers_every_name(dl, k);
                assert(dl.take(k) =~= dl);
                assert(texts.take(k) =~= dl);
                assert(texts.last() == texts[k]);
            } else {
                assert(dl[k] == texts[k]);
                scan_names_registers_every_name(dl, k);
                assert(dl.take(k) =~= texts.take(k));
            }
        }
    }
}

} // verus!
