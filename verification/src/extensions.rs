use vstd::prelude::*;
use std::rc::Rc;

verus! {

/// No name occurs twice among the entries.
pub open spec fn names_unique<P>(s: Seq<(String, P)>) -> bool {
    forall|i: int, j: int|
        0 <= i < s.len() && 0 <= j < s.len() && i != j ==> (#[trigger] s[i]).0@ != (
        #[trigger] s[j]).0@
}

/// The entries as a map from name to value.
pub open spec fn as_map<P>(s: Seq<(String, P)>) -> Map<Seq<char>, P>
    decreases s.len(),
{
    if s.len() == 0 {
        Map::empty()
    } else {
        as_map(s.drop_last()).insert(s.last().0@, s.last().1)
    }
}

proof fn lemma_as_map_domain<P>(s: Seq<(String, P)>, name: Seq<char>)
    ensures
        as_map(s).contains_key(name) <==> exists|i: int| 0 <= i < s.len() && (#[trigger] s[i]).0@
            == name,
    decreases s.len(),
{
    if s.len() > 0 {
        let d = s.drop_last();
        lemma_as_map_domain(d, name);
        if as_map(s).contains_key(name) {
            if s.last().0@ != name {
                let k = choose|k: int| 0 <= k < d.len() && (#[trigger] d[k]).0@ == name;
                assert(s[k] == d[k]);
            } else {
                assert(s[s.len() - 1].0@ == name);
            }
        }
        if exists|i: int| 0 <= i < s.len() && (#[trigger] s[i]).0@ == name {
            let k = choose|k: int| 0 <= k < s.len() && (#[trigger] s[k]).0@ == name;
            if k < s.len() - 1 {
                assert(d[k] == s[k]);
            }
        }
    }
}

proof fn lemma_as_map_update<P>(s: Seq<(String, P)>, i: int, entry: (String, P))
    requires
        names_unique(s),
        0 <= i < s.len(),
        entry.0@ == s[i].0@,
    ensures
        as_map(s.update(i, entry)) == as_map(s).insert(entry.0@, entry.1),
        names_unique(s.update(i, entry)),
    decreases s.len(),
{
    let u = s.update(i, entry);
    let d = s.drop_last();
    if i == s.len() - 1 {
        assert(u.drop_last() =~= d);
        assert(as_map(u) =~= as_map(s).insert(entry.0@, entry.1));
    } else {
        assert(names_unique(d)) by {
            assert forall|a: int, b: int|
                0 <= a < d.len() && 0 <= b < d.len() && a != b implies (#[trigger] d[a]).0@ != (
            #[trigger] d[b]).0@ by {
                assert(d[a] == s[a] && d[b] == s[b]);
            }
        }
        lemma_as_map_update(d, i, entry);
        assert(u.drop_last() =~= d.update(i, entry));
        assert(s.last().0@ != entry.0@) by {
            assert(s[s.len() - 1].0@ != s[i].0@);
        }
        assert(as_map(u) =~= as_map(s).insert(entry.0@, entry.1));
    }
    assert forall|a: int, b: int|
        0 <= a < u.len() && 0 <= b < u.len() && a != b implies (#[trigger] u[a]).0@ != (
    #[trigger] u[b]).0@ by {
        if a == i {
            assert(s[b].0@ != s[i].0@);
        } else if b == i {
            assert(s[a].0@ != s[i].0@);
        }
    }
}

fn index_of_name<P>(s: &Vec<(String, P)>, name: &String) -> (r: Option<usize>)
    ensures
        match r {
            Some(i) => i < s@.len() && s@[i as int].0@ == name@,
            None => forall|j: int| 0 <= j < s@.len() ==> (#[trigger] s@[j]).0@ != name@,
        },
{
    let mut i: usize = 0;
    while i < s.len()
        invariant
            i <= s@.len(),
            forall|j: int| 0 <= j < i ==> (#[trigger] s@[j]).0@ != name@,
        decreases s@.len() - i,
    {
        if s[i].0.eq(name) {
            return Some(i);
        }
        i = i + 1;
    }
    None
}

/// Inserts a named entry, replacing the entry of the same name if there is
/// one (as `HashMap::insert` does).
fn insert_named<P>(s: &mut Vec<(String, P)>, name: String, value: P)
    requires
        names_unique(old(s)@),
    ensures
        names_unique(final(s)@),
        as_map(final(s)@) == as_map(old(s)@).insert(name@, value),
        forall|i: int|
            0 <= i < final(s)@.len() ==> (i < old(s)@.len() && #[trigger] final(s)@[i] == old(
                s,
            )@[i]) || final(s)@[i].1 == value,
{
    match index_of_name(s, &name) {
        Some(i) => {
            proof {
                lemma_as_map_update(s@, i as int, (name, value));
            }
            s.set(i, (name, value));
        },
        None => {
            let ghost before = s@;
            s.push((name, value));
            assert(s@.drop_last() =~= before);
            assert forall|a: int, b: int|
                0 <= a < s@.len() && 0 <= b < s@.len() && a != b implies (#[trigger] s@[a]).0@
                != (#[trigger] s@[b]).0@ by {
                if a < before.len() && b < before.len() {
                    assert(s@[a] == before[a] && s@[b] == before[b]);
                } else if a < before.len() {
                    assert(s@[a] == before[a]);
                } else if b < before.len() {
                    assert(s@[b] == before[b]);
                }
            }
        },
    }
}

/// Another pointer to the value that `r` points to (`Rc::clone`, which makes
/// a new `Rc` to the same allocation). The contract claims only that the new
/// pointer holds the same value.
#[verifier::external_body]
fn share<T>(r: &Rc<T>) -> (c: Rc<T>)
    ensures
        c == *r,
{
    Rc::clone(r)
}

/// An extension together with the library it comes from, which stays loaded
/// as long as the extension is kept.
pub struct ExtensionProxy<E, Lib> {
    pub extension: E,
    pub lib: Rc<Lib>,
}

/// Every entry carries the library `lib`.
pub open spec fn all_from<E, Lib>(s: Seq<(String, ExtensionProxy<E, Lib>)>, lib: Rc<Lib>) -> bool {
    forall|i: int| 0 <= i < s.len() ==> (#[trigger] s[i]).1.lib == lib
}

proof fn lemma_as_map_all_from<E, Lib>(s: Seq<(String, ExtensionProxy<E, Lib>)>, lib: Rc<Lib>)
    requires
        all_from(s, lib),
    ensures
        forall|n: Seq<char>| #[trigger] as_map(s).contains_key(n) ==> as_map(s)[n].lib == lib,
    decreases s.len(),
{
    if s.len() > 0 {
        let d = s.drop_last();
        assert forall|i: int| 0 <= i < d.len() implies (#[trigger] d[i]).1.lib == lib by {
            assert(d[i] == s[i]);
        }
        lemma_as_map_all_from(d, lib);
        assert(s[s.len() - 1].1.lib == lib);
        assert forall|n: Seq<char>| #[trigger] as_map(s).contains_key(n) implies as_map(s)[n].lib
            == lib by {
            if n != s.last().0@ {
                assert(as_map(d).contains_key(n));
            }
        }
    }
}

/// Collects the extensions that one library registers, each wrapped with
/// that library.
pub struct ExtensionRegistrar<E, Lib> {
    extensions: Vec<(String, ExtensionProxy<E, Lib>)>,
    lib: Rc<Lib>,
}

impl<E, Lib> ExtensionRegistrar<E, Lib> {
    /// No name is registered twice, and every entry carries the library.
    #[verifier::type_invariant]
    spec fn inv(&self) -> bool {
        names_unique(self.extensions@) && all_from(self.extensions@, self.lib)
    }

    /// The registered extensions, by name.
    pub closed spec fn registered(&self) -> Map<Seq<char>, ExtensionProxy<E, Lib>> {
        as_map(self.extensions@)
    }

    /// The library whose extensions are registered here.
    pub closed spec fn library(&self) -> Rc<Lib> {
        self.lib
    }

    /// A registrar for extensions of `lib`, with none registered yet.
    pub fn new(lib: Rc<Lib>) -> (r: Self)
        ensures
            r.registered() == Map::<Seq<char>, ExtensionProxy<E, Lib>>::empty(),
            r.library() == lib,
    {
        ExtensionRegistrar { lib, extensions: Vec::new() }
    }

    /// The library whose extensions are registered here.
    pub fn lib(&self) -> (r: &Rc<Lib>)
        ensures
            *r == self.library(),
    {
        &self.lib
    }

    /// Registers an extension under a name, wrapped with this registrar's
    /// library; an extension registered before under the same name is
    /// replaced.
    pub fn register(&mut self, name: &str, extension: E)
        ensures
            final(self).registered() == old(self).registered().insert(
                name@,
                (ExtensionProxy { extension, lib: old(self).library() }),
            ),
            final(self).library() == old(self).library(),
    {
        proof {
            use_type_invariant(&*self);
        }
        let proxy = ExtensionProxy { extension, lib: share(&self.lib) };
        let mut entries: Vec<(String, ExtensionProxy<E, Lib>)> = Vec::new();
        std::mem::swap(&mut entries, &mut self.extensions);
        let ghost before = entries@;
        insert_named(&mut entries, String::from_str(name), proxy);
        proof {
            lemma_insert_named_all_from(before, entries@, name@, self.lib);
        }
        self.extensions = entries;
    }
}

/// What `insert_named` gives keeps every entry's library, when the new entry
/// carries it too.
proof fn lemma_insert_named_all_from<E, Lib>(
    before: Seq<(String, ExtensionProxy<E, Lib>)>,
    after: Seq<(String, ExtensionProxy<E, Lib>)>,
    name: Seq<char>,
    lib: Rc<Lib>,
)
    requires
        all_from(before, lib),
        forall|i: int|
            0 <= i < after.len() ==> (i < before.len() && #[trigger] after[i] == before[i])
                || after[i].1.lib == lib,
    ensures
        all_from(after, lib),
{
    assert forall|i: int| 0 <= i < after.len() implies (#[trigger] after[i]).1.lib == lib by {
        if i < before.len() && after[i] == before[i] {
            assert(before[i].1.lib == lib);
        }
    }
}

/// With unique names, the map gives each entry's value under its name.
proof fn lemma_as_map_unique_value<P>(s: Seq<(String, P)>, i: int)
    requires
        names_unique(s),
        0 <= i < s.len(),
    ensures
        as_map(s).contains_key(s[i].0@),
        as_map(s)[s[i].0@] == s[i].1,
    decreases s.len(),
{
    let d = s.drop_last();
    if i == s.len() - 1 {
    } else {
        assert(names_unique(d)) by {
            assert forall|a: int, b: int|
                0 <= a < d.len() && 0 <= b < d.len() && a != b implies (#[trigger] d[a]).0@ != (
            #[trigger] d[b]).0@ by {
                assert(d[a] == s[a] && d[b] == s[b]);
            }
        }
        assert(d[i] == s[i]);
        lemma_as_map_unique_value(d, i);
        assert(s.last().0@ != s[i].0@) by {
            assert(s[s.len() - 1].0@ != s[i].0@);
        }
    }
}

/// The extensions that are available, by name, and the libraries that they
/// were loaded from.
pub struct AvailableExtensions<E, Lib> {
    extensions: Vec<(String, ExtensionProxy<E, Lib>)>,
    libraries: Vec<Rc<Lib>>,
}

impl<E, Lib> AvailableExtensions<E, Lib> {
    /// No name is available twice.
    #[verifier::type_invariant]
    spec fn inv(&self) -> bool {
        names_unique(self.extensions@)
    }

    /// The available extensions, by name.
    pub closed spec fn available(&self) -> Map<Seq<char>, ExtensionProxy<E, Lib>> {
        as_map(self.extensions@)
    }

    /// The loaded libraries, in the order in which they were loaded.
    pub closed spec fn loaded(&self) -> Seq<Rc<Lib>> {
        self.libraries@
    }

    /// No extension is available and no library is loaded.
    pub fn new() -> (r: Self)
        ensures
            r.available() == Map::<Seq<char>, ExtensionProxy<E, Lib>>::empty(),
            r.loaded() == Seq::<Rc<Lib>>::empty(),
    {
        AvailableExtensions { extensions: Vec::new(), libraries: Vec::new() }
    }

    /// Whether an extension of that name is available.
    pub fn contains(&self, name: &String) -> (r: bool)
        ensures
            r == self.available().contains_key(name@),
    {
        proof {
            use_type_invariant(self);
            lemma_as_map_domain(self.extensions@, name@);
        }
        index_of_name(&self.extensions, name).is_some()
    }

    /// The extension available under `name`, if any.
    pub fn get(&self, name: &String) -> (r: Option<&ExtensionProxy<E, Lib>>)
        ensures
            match r {
                Some(p) => self.available().contains_key(name@) && *p == self.available()[name@],
                None => !self.available().contains_key(name@),
            },
    {
        proof {
            use_type_invariant(self);
            lemma_as_map_domain(self.extensions@, name@);
        }
        match index_of_name(&self.extensions, name) {
            Some(i) => {
                proof {
                    lemma_as_map_unique_value(self.extensions@, i as int);
                }
                Some(&self.extensions[i].1)
            },
            None => None,
        }
    }

    /// Adds the extensions that a library registered, replacing available
    /// ones of the same names, and keeps the library loaded; every added
    /// extension carries that library.
    pub fn add_loaded(&mut self, registrar: ExtensionRegistrar<E, Lib>)
        ensures
            final(self).available() == old(self).available().union_prefer_right(
                registrar.registered(),
            ),
            final(self).loaded() == old(self).loaded().push(registrar.library()),
            forall|n: Seq<char>|
                #[trigger] registrar.registered().contains_key(n) ==> final(self).available()[n].lib
                    == registrar.library(),
    {
        proof {
            use_type_invariant(&*self);
            use_type_invariant(&registrar);
            lemma_as_map_all_from(registrar.extensions@, registrar.lib);
        }
        let ExtensionRegistrar { extensions, lib } = registrar;
        let ghost regs = extensions@;
        let mut current: Vec<(String, ExtensionProxy<E, Lib>)> = Vec::new();
        std::mem::swap(&mut current, &mut self.extensions);
        let ghost start = current@;
        let mut rest = extensions;
        let ghost mut k: int = 0;
        assert(regs.subrange(0, 0) =~= Seq::<(String, ExtensionProxy<E, Lib>)>::empty());
        assert(as_map(start).union_prefer_right(as_map(regs.subrange(0, 0))) =~= as_map(start));
        assert(rest@ =~= regs.subrange(0, regs.len() as int));
        while rest.len() > 0
            invariant
                0 <= k <= regs.len(),
                rest@ == regs.subrange(k, regs.len() as int),
                names_unique(current@),
                as_map(current@) == as_map(start).union_prefer_right(as_map(regs.subrange(0, k))),
            decreases rest@.len(),
        {
            let entry = rest.remove(0);
            assert(entry == regs[k]) by {
                assert(regs.subrange(k, regs.len() as int)[0] == regs[k]);
            }
            let (name, proxy) = entry;
            insert_named(&mut current, name, proxy);
            assert(regs.subrange(0, k + 1).drop_last() =~= regs.subrange(0, k));
            assert(as_map(current@) =~= as_map(start).union_prefer_right(
                as_map(regs.subrange(0, k + 1)),
            ));
            assert(rest@ =~= regs.subrange(k + 1, regs.len() as int));
            proof {
                k = k + 1;
            }
        }
        assert(k == regs.len());
        assert(regs.subrange(0, k) =~= regs);
        self.extensions = current;
        let mut libs: Vec<Rc<Lib>> = Vec::new();
        std::mem::swap(&mut libs, &mut self.libraries);
        libs.push(lib);
        self.libraries = libs;
    }
}

/// Why a library cannot be loaded.
#[derive(Clone, Copy, Debug, PartialEq, Eq, Structural)]
pub enum LoadError {
    /// It was built with another compiler or another version of the
    /// extension interface.
    VersionMismatch,
}

/// A library can be loaded only when it was built with the same compiler and
/// interface version as the application.
pub fn check_extension_version(
    rustc_version: &String,
    core_version: &String,
    expected_rustc: &String,
    expected_core: &String,
) -> (r: Result<(), LoadError>)
    ensures
        r is Ok <==> (rustc_version@ == expected_rustc@ && core_version@ == expected_core@),
        r is Err ==> r == Err::<(), LoadError>(LoadError::VersionMismatch),
{
    if !rustc_version.eq(expected_rustc) || !core_version.eq(expected_core) {
        Err(LoadError::VersionMismatch)
    } else {
        Ok(())
    }
}

} // verus!
